//! Shared helpers of the scripts: command-line arguments and the records
//! that describe a command run.
use std::collections::HashMap;
use std::path::Path;
use vstd::prelude::*;
use crate::schema::error_msg;
use crate::text::{chars_of, find_char, copy_range, find_in, starts_with, string_of};

verus! {

/// What came of running a command.
#[derive(Debug, Clone)]
pub struct CommandResult {
    pub success: bool,
    pub stdout: String,
    pub stderr: String,
    pub code: i32,
}

/// Where and with which environment a command runs.
#[derive(Debug, Default)]
pub struct CommandOptions {
    pub cwd: Option<String>,
    pub env: Option<HashMap<String, String>>,
}

/// Whether something exists at `path`. Relies on `Path::exists`; what is
/// on disk decides.
#[verifier::external_body]
pub fn file_exists(path: &str) -> (r: bool) {
    Path::new(path).exists()
}

/// Whether `path` names a directory. Relies on `Path::is_dir`.
#[verifier::external_body]
pub fn is_directory(path: &str) -> (r: bool) {
    Path::new(path).is_dir()
}

/// Whether `path` names a regular file. Relies on `Path::is_file`.
#[verifier::external_body]
pub fn is_file(path: &str) -> (r: bool) {
    Path::new(path).is_file()
}

/// The login name `user` (the `USER` variable, when set) is `root`.
pub open spec fn root_user(user: Option<&str>) -> bool {
    user matches Some(u) && u@ == "root"@
}

/// Whether the process runs as root, judged by `user`, the value of the
/// `USER` variable (`None` when unset).
pub fn is_root(user: Option<&str>) -> (r: bool)
    ensures
        r == root_user(user),
{
    match user {
        Some(u) => String::from_str(u) == String::from_str("root"),
        None => false,
    }
}

/// Succeeds when `user` (see `is_root`) is `root`; else an error saying
/// `This script must be run as root (use sudo)`.
pub fn require_root(user: Option<&str>) -> (r: Result<(), anyhow::Error>)
    ensures
        r is Ok <==> root_user(user),
{
    if !is_root(user) {
        return Err(error_msg(String::from_str("This script must be run as root (use sudo)")));
    }
    Ok(())
}

/// The first index at or after `i` of key `k` in `ks`, or `ks.len()`.
pub open spec fn key_index(ks: Seq<String>, k: Seq<char>, i: int) -> int
    decreases ks.len() - i,
{
    if i < 0 || i >= ks.len() {
        ks.len() as int
    } else if ks[i]@ == k {
        i
    } else {
        key_index(ks, k, i + 1)
    }
}

/// A map from option names to values, keeping the order in which names
/// were first inserted. Each name appears once.
#[derive(Debug, Clone, PartialEq, Eq)]
pub struct ArgMap {
    keys: Vec<String>,
    values: Vec<String>,
}

proof fn lemma_key_index_bounds(ks: Seq<String>, k: Seq<char>, i: int)
    requires
        0 <= i <= ks.len(),
    ensures
        i <= key_index(ks, k, i) <= ks.len(),
        key_index(ks, k, i) < ks.len() ==> ks[key_index(ks, k, i)]@ == k,
        forall|j: int| i <= j < key_index(ks, k, i) ==> (#[trigger] ks[j])@ != k,
    decreases ks.len() - i,
{
    if i < ks.len() && ks[i]@ != k {
        lemma_key_index_bounds(ks, k, i + 1);
    }
}

proof fn lemma_key_index_push(ks: Seq<String>, x: String, k: Seq<char>, i: int)
    requires
        0 <= i <= ks.len(),
    ensures
        key_index(ks.push(x), k, i) == if key_index(ks, k, i) < ks.len() {
            key_index(ks, k, i)
        } else if x@ == k {
            ks.len() as int
        } else {
            ks.len() + 1int
        },
    decreases ks.len() - i,
{
    if i < ks.len() {
        assert(ks.push(x)[i] == ks[i]);
        if ks[i]@ != k {
            lemma_key_index_push(ks, x, k, i + 1);
        }
    } else {
        assert(ks.push(x)[i] == x);
        if x@ != k {
            assert(key_index(ks.push(x), k, i + 1) == ks.len() + 1);
        }
    }
}

/// The views of the keys.
pub open spec fn key_views(ks: Seq<String>) -> Seq<Seq<char>> {
    ks.map_values(|k: String| k@)
}

impl View for ArgMap {
    type V = Map<Seq<char>, Seq<char>>;

    closed spec fn view(&self) -> Map<Seq<char>, Seq<char>> {
        Map::new(
            |k: Seq<char>| key_index(self.keys@, k, 0) < self.keys@.len(),
            |k: Seq<char>| self.values@[key_index(self.keys@, k, 0)]@,
        )
    }
}

impl ArgMap {
    /// The map's own invariant: one value per key.
    pub closed spec fn wf(&self) -> bool {
        &&& self.keys@.len() == self.values@.len()
        &&& key_views(self.keys@).no_duplicates()
    }

    /// An empty map.
    pub fn new() -> (r: ArgMap)
        ensures
            r.wf(),
            r@ == Map::<Seq<char>, Seq<char>>::empty(),
    {
        let r = ArgMap { keys: Vec::new(), values: Vec::new() };
        assert(r@ =~= Map::<Seq<char>, Seq<char>>::empty());
        r
    }

    /// Sets `key` to `value`, replacing any earlier value.
    pub fn insert(&mut self, key: String, value: String)
        requires
            old(self).wf(),
        ensures
            final(self).wf(),
            final(self)@ == old(self)@.insert(key@, value@),
    {
        let ghost ks = self.keys@;
        let n = self.keys.len();
        let mut i: usize = 0;
        while i < n && !(self.keys[i] == key)
            invariant
                n == self.keys@.len(),
                ks == self.keys@,
                i <= n,
                key_index(ks, key@, 0) == key_index(ks, key@, i as int),
            decreases n - i,
        {
            i += 1;
        }
        proof {
            lemma_key_index_bounds(ks, key@, 0);
        }
        if i < n {
            let ghost vs = self.values@;
            self.values.set(i, value);
            assert(key_index(ks, key@, 0) == i);
            assert forall|k: Seq<char>| #[trigger] self@.contains_key(k) == old(self)@.insert(
                key@,
                value@,
            ).contains_key(k) && (self@.contains_key(k) ==> self@[k] == old(self)@.insert(
                key@,
                value@,
            )[k]) by {
                lemma_key_index_bounds(ks, k, 0);
                if k != key@ && key_index(ks, k, 0) < ks.len() {
                    assert(key_index(ks, k, 0) != i);
                    assert(self.values@[key_index(ks, k, 0)] == vs[key_index(ks, k, 0)]);
                }
            }
            assert(self@ =~= old(self)@.insert(key@, value@));
        } else {
            self.keys.push(key);
            self.values.push(value);
            assert forall|k: Seq<char>| true implies key_index(self.keys@, k, 0) == if key_index(
                ks,
                k,
                0,
            ) < ks.len() {
                key_index(ks, k, 0)
            } else if key@ == k {
                ks.len() as int
            } else {
                ks.len() + 1int
            } by {
                lemma_key_index_push(ks, key, k, 0);
                lemma_key_index_bounds(ks, k, 0);
            }
            assert forall|k: Seq<char>| #[trigger] self@.contains_key(k) == old(self)@.insert(
                key@,
                value@,
            ).contains_key(k) && (self@.contains_key(k) ==> self@[k] == old(self)@.insert(
                key@,
                value@,
            )[k]) by {
                lemma_key_index_push(ks, key, k, 0);
                lemma_key_index_bounds(ks, k, 0);
                if key_index(ks, k, 0) < ks.len() {
                    assert(self.values@[key_index(ks, k, 0)] == old(self).values@[key_index(
                        ks,
                        k,
                        0,
                    )]);
                }
            }
            assert(self@ =~= old(self)@.insert(key@, value@));
            assert(key_views(self.keys@) =~= key_views(ks).push(key@));
            assert forall|j: int| 0 <= j < ks.len() implies key_views(ks)[j] != key@ by {
                assert(ks[j]@ != key@);
            }
        }
    }

    /// The value of `key`, if it is set.
    pub fn get(&self, key: &str) -> (r: Option<&String>)
        requires
            self.wf(),
        ensures
            match r {
                Some(v) => self@.contains_key(key@) && self@[key@] == v@,
                None => !self@.contains_key(key@),
            },
    {
        let wanted = String::from_str(key);
        let n = self.keys.len();
        let mut i: usize = 0;
        while i < n && !(self.keys[i] == wanted)
            invariant
                n == self.keys@.len(),
                wanted@ == key@,
                i <= n,
                key_index(self.keys@, key@, 0) == key_index(self.keys@, key@, i as int),
            decreases n - i,
        {
            i += 1;
        }
        if i < n {
            Some(&self.values[i])
        } else {
            None
        }
    }

    /// Whether `key` is set.
    pub fn contains_key(&self, key: &str) -> (r: bool)
        requires
            self.wf(),
        ensures
            r == self@.contains_key(key@),
    {
        self.get(key).is_some()
    }

    /// Whether no key is set.
    pub fn is_empty(&self) -> (r: bool)
        requires
            self.wf(),
        ensures
            r == (self@ == Map::<Seq<char>, Seq<char>>::empty()),
    {
        let r = self.keys.len() == 0;
        if r {
            assert(self@ =~= Map::<Seq<char>, Seq<char>>::empty());
        } else {
            assert(self@.contains_key(self.keys@[0]@));
        }
        r
    }

    /// The number of keys set.
    pub fn len(&self) -> (r: usize)
        requires
            self.wf(),
        ensures
            r == self@.dom().len(),
    {
        proof {
            self.lemma_dom_len();
        }
        self.keys.len()
    }

    proof fn lemma_dom_len(&self)
        requires
            self.wf(),
        ensures
            self@.dom().len() == self.keys@.len(),
    {
        let kv = key_views(self.keys@);
        assert forall|k: Seq<char>| #[trigger] self@.dom().contains(k) == kv.to_set().contains(k) by {
            lemma_key_index_bounds(self.keys@, k, 0);
            let ki = key_index(self.keys@, k, 0);
            if ki < self.keys@.len() {
                assert(kv[ki] == k);
                assert(kv.contains(k));
            }
            if kv.contains(k) {
                let j = choose|j: int| 0 <= j < kv.len() && kv[j] == k;
                assert(self.keys@[j]@ == k);
            }
        }
        assert(self@.dom() =~= kv.to_set());
        kv.unique_seq_to_set();
    }
}

/// An argument that starts a value: it does not begin with `-`.
pub open spec fn is_value_arg(a: Seq<char>) -> bool {
    !starts_with(a, seq!['-'])
}

/// A short option: `-` and one ASCII character (two bytes in all).
pub open spec fn is_short_option(a: Seq<char>) -> bool {
    a.len() == 2 && a[0] == '-' && (a[1] as u32) < 128
}

/// The map after the argument at `i` and the index of the next argument
/// to read. `--name=value` sets `name`; `--name` and `-x` take the next
/// argument as their value unless it begins with `-`, else `true`; other
/// arguments are skipped.
pub open spec fn read_arg(args: Seq<Seq<char>>, i: int, m: Map<Seq<char>, Seq<char>>) -> (
    Map<Seq<char>, Seq<char>>,
    int,
) {
    let a = args[i];
    let takes_next = i + 1 < args.len() && is_value_arg(args[i + 1]);
    if starts_with(a, seq!['-', '-']) {
        let key = a.subrange(2, a.len() as int);
        let eq = find_in(key, 0, key.len() as int, '=');
        if eq < key.len() {
            (m.insert(key.subrange(0, eq), key.subrange(eq + 1, key.len() as int)), i + 1)
        } else if takes_next {
            (m.insert(key, args[i + 1]), i + 2)
        } else {
            (m.insert(key, "true"@), i + 1)
        }
    } else if is_short_option(a) {
        let key = a.subrange(1, 2);
        if takes_next {
            (m.insert(key, args[i + 1]), i + 2)
        } else {
            (m.insert(key, "true"@), i + 1)
        }
    } else {
        (m, i + 1)
    }
}

/// The options read from `args[i..]` on top of `m`.
pub open spec fn read_args_from(args: Seq<Seq<char>>, i: int, m: Map<Seq<char>, Seq<char>>) -> Map<
    Seq<char>,
    Seq<char>,
>
    decreases args.len() + 1 - i,
{
    if i < 0 || i >= args.len() {
        m
    } else {
        let (m2, j) = read_arg(args, i, m);
        if j <= i || j > args.len() {
            m2
        } else {
            read_args_from(args, j, m2)
        }
    }
}

/// The options that `args` give.
pub open spec fn parsed_args(args: Seq<Seq<char>>) -> Map<Seq<char>, Seq<char>> {
    read_args_from(args, 0, Map::empty())
}

/// The views of a slice of strings.
pub open spec fn arg_views(args: Seq<String>) -> Seq<Seq<char>> {
    args.map_values(|a: String| a@)
}

fn is_value_chars(a: &Vec<char>) -> (r: bool)
    ensures
        r == is_value_arg(a@),
{
    let r = !(a.len() >= 1 && a[0] == '-');
    if a.len() >= 1 {
        assert(a@.subrange(0, 1) =~= seq![a@[0]]);
        assert(seq![a@[0]][0] == a@[0]);
        assert(seq!['-'][0] == '-');
    }
    r
}

/// Reads options from `args` (see `read_arg`); a later value of an option
/// replaces an earlier one.
pub fn parse_args_from_vec(args: &[String]) -> (r: ArgMap)
    ensures
        r.wf(),
        r@ == parsed_args(arg_views(args@)),
{
    let ghost av = arg_views(args@);
    let mut parsed = ArgMap::new();
    let n = args.len();
    let mut i: usize = 0;
    while i < n
        invariant
            n == args@.len(),
            av == arg_views(args@),
            i <= n,
            parsed.wf(),
            parsed_args(av) == read_args_from(av, i as int, parsed@),
        decreases n - i,
    {
        let a = chars_of(args[i].as_str());
        assert(a@ == av[i as int]);
        let takes_next = if i + 1 < n {
            let b = chars_of(args[i + 1].as_str());
            assert(b@ == av[i + 1]);
            is_value_chars(&b)
        } else {
            false
        };
        let ghost before = parsed@;
        let al = a.len();
        if al >= 2 && a[0] == '-' && a[1] == '-' {
            assert(a@.subrange(0, 2) =~= seq!['-', '-']);
            let key = copy_range(&a, 2, al);
            let kl = key.len();
            let eq = find_char(&key, 0, kl, '=');
            if eq < kl {
                let name = copy_range(&key, 0, eq);
                let value = copy_range(&key, eq + 1, kl);
                parsed.insert(string_of(&name), string_of(&value));
                i += 1;
            } else if takes_next {
                parsed.insert(string_of(&key), args[i + 1].clone());
                i += 2;
            } else {
                parsed.insert(string_of(&key), String::from_str("true"));
                i += 1;
            }
        } else if al == 2 && a[0] == '-' && (a[1] as u32) < 128 {
            proof {
                if al >= 2 && a@[1] == '-' {
                    assert(a@.subrange(0, 2) =~= seq!['-', '-']);
                }
                assert(!starts_with(a@, seq!['-', '-']));
            }
            let key = copy_range(&a, 1, 2);
            if takes_next {
                parsed.insert(string_of(&key), args[i + 1].clone());
                i += 2;
            } else {
                parsed.insert(string_of(&key), String::from_str("true"));
                i += 1;
            }
        } else {
            proof {
                if al >= 2 && a@[0] == '-' && a@[1] == '-' {
                } else if al >= 2 {
                    assert(!(a@.subrange(0, 2) =~= seq!['-', '-']) ==> !starts_with(a@, seq!['-', '-']));
                    if a@.subrange(0, 2) =~= seq!['-', '-'] {
                        assert(a@[0] == a@.subrange(0, 2)[0]);
                        assert(a@[1] == a@.subrange(0, 2)[1]);
                    }
                }
            }
            i += 1;
        }
    }
    parsed
}

} // verus!
