//! Path checks. What is on disk is read by `file_exists`, `is_file` and
//! `is_directory`; the verdict functions take those facts as values and
//! give the exact outcome.
use vstd::prelude::*;
use crate::common::{file_exists, is_directory, is_file};
use crate::schema::ValidationResult;
use crate::text::push_str;

verus! {

/// `r` accepts `path` (`ok`), or refuses it with `reason` followed by the path.
pub open spec fn outcome_is(r: ValidationResult<String>, path: Seq<char>, ok: bool, reason: Seq<char>) -> bool {
    match r {
        ValidationResult::Success(p) => ok && p@ == path,
        ValidationResult::Failure(m) => !ok && m@ == reason + path,
    }
}

/// The outcome of checking that `path` exists, given whether it does.
pub open spec fn exists_outcome(r: ValidationResult<String>, path: Seq<char>, exists: bool) -> bool {
    outcome_is(r, path, exists, "Path does not exist: "@)
}

/// The outcome of checking that `path` names an entry of a kind, given
/// whether it exists and whether it is of that kind; `kind_reason` is the
/// message prefix for an entry of another kind.
pub open spec fn kind_outcome(
    r: ValidationResult<String>,
    path: Seq<char>,
    exists: bool,
    of_kind: bool,
    kind_reason: Seq<char>,
) -> bool {
    if !exists {
        outcome_is(r, path, false, "Path does not exist: "@)
    } else if !of_kind {
        outcome_is(r, path, false, kind_reason)
    } else {
        outcome_is(r, path, true, seq![])
    }
}

fn failure(reason: &str, path: &str) -> (r: ValidationResult<String>)
    ensures
        outcome_is(r, path@, false, reason@),
{
    let mut text = String::from_str(reason);
    push_str(&mut text, path);
    ValidationResult::Failure(text)
}

fn success(path: &str) -> (r: ValidationResult<String>)
    ensures
        outcome_is(r, path@, true, seq![]),
{
    ValidationResult::Success(String::from_str(path))
}

/// The verdict on `path` when something exists there (`exists`) or not.
pub fn exists_verdict(path: &str, exists: bool) -> (r: ValidationResult<String>)
    ensures
        exists_outcome(r, path@, exists),
{
    if exists {
        success(path)
    } else {
        failure("Path does not exist: ", path)
    }
}

/// The verdict on `path` as a file: `Path does not exist: <path>` when it
/// does not exist, `Path is not a file: <path>` when it is no file.
pub fn file_verdict(path: &str, exists: bool, file: bool) -> (r: ValidationResult<String>)
    ensures
        kind_outcome(r, path@, exists, file, "Path is not a file: "@),
{
    if !exists {
        failure("Path does not exist: ", path)
    } else if !file {
        failure("Path is not a file: ", path)
    } else {
        success(path)
    }
}

/// The verdict on `path` as a directory: `Path does not exist: <path>`
/// when it does not exist, `Path is not a directory: <path>` when it is
/// no directory.
pub fn directory_verdict(path: &str, exists: bool, directory: bool) -> (r: ValidationResult<
    String,
>)
    ensures
        kind_outcome(r, path@, exists, directory, "Path is not a directory: "@),
{
    if !exists {
        failure("Path does not exist: ", path)
    } else if !directory {
        failure("Path is not a directory: ", path)
    } else {
        success(path)
    }
}

/// Accepts `path` when something exists there; else `Path does not exist: <path>`.
/// The disk decides which.
pub fn validate_exists(path: &str) -> (r: ValidationResult<String>)
    ensures
        exists|e: bool| #[trigger] exists_outcome(r, path@, e),
{
    let e = file_exists(path);
    let r = exists_verdict(path, e);
    assert(exists_outcome(r, path@, e));
    r
}

/// Accepts `path` when it names a file (see `file_verdict`); the disk
/// decides whether it exists and what it is.
pub fn validate_file(path: &str) -> (r: ValidationResult<String>)
    ensures
        exists|e: bool, k: bool| #[trigger] kind_outcome(r, path@, e, k, "Path is not a file: "@),
{
    let e = file_exists(path);
    let k = if e {
        is_file(path)
    } else {
        false
    };
    let r = file_verdict(path, e, k);
    assert(kind_outcome(r, path@, e, k, "Path is not a file: "@));
    r
}

/// Accepts `path` when it names a directory (see `directory_verdict`);
/// the disk decides whether it exists and what it is.
pub fn validate_directory(path: &str) -> (r: ValidationResult<String>)
    ensures
        exists|e: bool, k: bool|
            #[trigger] kind_outcome(r, path@, e, k, "Path is not a directory: "@),
{
    let e = file_exists(path);
    let k = if e {
        is_directory(path)
    } else {
        false
    };
    let r = directory_verdict(path, e, k);
    assert(kind_outcome(r, path@, e, k, "Path is not a directory: "@));
    r
}

} // verus!
