//! Checks that commands can be found.
use vstd::prelude::*;
use crate::schema::ValidationResult;
use crate::text::push_str;

verus! {

/// Relies on `which::which`: whether an executable named `cmd` is found on
/// the search path (the environment and the disk decide).
#[verifier::external_body]
fn on_search_path(cmd: &str) -> (r: bool) {
    which::which(cmd).is_ok()
}

/// Accepts `cmd` when it is found on the search path; else
/// `Command not found in PATH: <cmd>`.
pub fn validate_exists(cmd: &str) -> (r: ValidationResult<String>)
    ensures
        match r {
            ValidationResult::Success(c) => c@ == cmd@,
            ValidationResult::Failure(m) => m@ == "Command not found in PATH: "@ + cmd@,
        },
{
    if on_search_path(cmd) {
        ValidationResult::Success(String::from_str(cmd))
    } else {
        let mut text = String::from_str("Command not found in PATH: ");
        push_str(&mut text, cmd);
        ValidationResult::Failure(text)
    }
}

/// The words of `parts` joined by `, `.
pub open spec fn join_comma(parts: Seq<Seq<char>>) -> Seq<char>
    decreases parts.len(),
{
    if parts.len() == 0 {
        seq![]
    } else if parts.len() == 1 {
        parts[0]
    } else {
        join_comma(parts.drop_last()) + ", "@ + parts.last()
    }
}

/// The views of a sequence of strings.
pub open spec fn string_seq_views(s: Seq<String>) -> Seq<Seq<char>> {
    s.map_values(|c: String| c@)
}

/// The views of a slice of string slices.
pub open spec fn slice_views(s: Seq<&str>) -> Seq<Seq<char>> {
    s.map_values(|c: &str| c@)
}

/// Accepts all of `commands` when each is found on the search path, giving
/// them in order; else lists the missing ones, in order:
/// `Required commands not found: a, b`.
pub fn validate_all_exist(commands: &[&str]) -> (r: ValidationResult<Vec<String>>)
    ensures
        match r {
            ValidationResult::Success(found) => string_seq_views(found@) == slice_views(commands@),
            ValidationResult::Failure(m) => exists|missing: Seq<Seq<char>>|
                missing.len() > 0 && m@ == "Required commands not found: "@ + #[trigger] join_comma(
                    missing,
                ),
        },
{
    let mut missing: Vec<String> = Vec::new();
    let mut found: Vec<String> = Vec::new();
    let n = commands.len();
    for i in 0..n
        invariant
            n == commands@.len(),
            missing@.len() == 0 ==> string_seq_views(found@) == slice_views(
                commands@.subrange(0, i as int),
            ),
    {
        let c = commands[i];
        let ghost before = found@;
        if on_search_path(c) {
            found.push(String::from_str(c));
            proof {
                if missing@.len() == 0 {
                    assert(string_seq_views(found@) =~= slice_views(commands@.subrange(0, i + 1)))
                        by {
                        assert(string_seq_views(found@).drop_last() =~= string_seq_views(before));
                        assert(slice_views(commands@.subrange(0, i + 1)).drop_last()
                            =~= slice_views(commands@.subrange(0, i as int)));
                        assert forall|k: int| 0 <= k <= i implies #[trigger] string_seq_views(
                            found@,
                        )[k] == slice_views(commands@.subrange(0, i + 1))[k] by {
                            if k < i {
                                assert(string_seq_views(found@)[k] == string_seq_views(before)[k]);
                                assert(slice_views(commands@.subrange(0, i + 1))[k]
                                    == slice_views(commands@.subrange(0, i as int))[k]);
                            }
                        }
                    }
                }
            }
        } else {
            missing.push(String::from_str(c));
        }
    }
    assert(commands@.subrange(0, n as int) =~= commands@);
    if missing.len() == 0 {
        ValidationResult::Success(found)
    } else {
        let mut text = String::from_str("Required commands not found: ");
        let m = missing.len();
        for k in 0..m
            invariant
                m == missing@.len(),
                m > 0,
                text@ == "Required commands not found: "@ + join_comma(
                    string_seq_views(missing@.subrange(0, k as int)),
                ),
        {
            let ghost before = text@;
            if k > 0 {
                push_str(&mut text, ", ");
            }
            push_str(&mut text, missing[k].as_str());
            proof {
                let ps = string_seq_views(missing@.subrange(0, k + 1));
                assert(ps.drop_last() =~= string_seq_views(missing@.subrange(0, k as int)));
                assert(ps.last() == missing@[k as int]@);
                if k == 0 {
                    assert(ps =~= seq![missing@[0]@]);
                }
                assert(text@ =~= "Required commands not found: "@ + join_comma(ps));
            }
        }
        assert(missing@.subrange(0, m as int) =~= missing@);
        assert(string_seq_views(missing@).len() > 0);
        ValidationResult::Failure(text)
    }
}

} // verus!
