//! Character-level text utilities with mathematical models over `Seq<char>`.
//!
//! Text is handled as `Vec<char>`; each executable function states its
//! result through the spec functions of this module.
use vstd::prelude::*;

verus! {

/// Unicode `White_Space` characters, as used by `str::trim` and
/// `str::split_whitespace`.
pub open spec fn is_space(c: char) -> bool {
    ('\u{9}' <= c && c <= '\u{d}') || c == ' ' || c == '\u{85}' || c == '\u{a0}' || c
        == '\u{1680}' || ('\u{2000}' <= c && c <= '\u{200a}') || c == '\u{2028}' || c
        == '\u{2029}' || c == '\u{202f}' || c == '\u{205f}' || c == '\u{3000}'
}

/// `s` without its leading white space.
pub open spec fn trim_start(s: Seq<char>) -> Seq<char>
    decreases s.len(),
{
    if s.len() > 0 && is_space(s[0]) {
        trim_start(s.drop_first())
    } else {
        s
    }
}

/// `s` without its trailing white space.
pub open spec fn trim_end(s: Seq<char>) -> Seq<char>
    decreases s.len(),
{
    if s.len() > 0 && is_space(s.last()) {
        trim_end(s.drop_last())
    } else {
        s
    }
}

/// `s` without leading and trailing white space.
pub open spec fn trim(s: Seq<char>) -> Seq<char> {
    trim_end(trim_start(s))
}

/// `p` is a prefix of `s`.
pub open spec fn starts_with(s: Seq<char>, p: Seq<char>) -> bool {
    p.len() <= s.len() && s.subrange(0, p.len() as int) == p
}

/// The first index `k` with `i <= k < hi` and `s[k] == c`, or `hi` when there is none.
pub open spec fn find_in(s: Seq<char>, i: int, hi: int, c: char) -> int
    decreases hi - i,
{
    if i >= hi {
        hi
    } else if s[i] == c {
        i
    } else {
        find_in(s, i + 1, hi, c)
    }
}

/// The first index `k >= i` at which `s[k]` is white space, or `s.len()`.
pub open spec fn space_from(s: Seq<char>, i: int) -> int
    decreases s.len() - i,
{
    if i >= s.len() {
        s.len() as int
    } else if is_space(s[i]) {
        i
    } else {
        space_from(s, i + 1)
    }
}

/// The last index `k < j` at which `s[k]` is white space, or `-1`.
pub open spec fn space_before(s: Seq<char>, j: int) -> int
    decreases j,
{
    if j <= 0 {
        -1
    } else if is_space(s[j - 1]) {
        j - 1
    } else {
        space_before(s, j - 1)
    }
}

/// The first whitespace-delimited token of `s` (empty when `s` is blank).
pub open spec fn first_token(s: Seq<char>) -> Seq<char> {
    let t = trim_start(s);
    t.subrange(0, space_from(t, 0))
}

/// The last whitespace-delimited token of `s` (empty when `s` is blank).
pub open spec fn last_token(s: Seq<char>) -> Seq<char> {
    let t = trim_end(s);
    t.subrange(space_before(t, t.len() as int) + 1, t.len() as int)
}

/// `s` occurs in `t` at position `k`.
pub open spec fn occurs_at(t: Seq<char>, k: int, s: Seq<char>) -> bool {
    0 <= k && k + s.len() <= t.len() && t.subrange(k, k + s.len()) == s
}

/// The first position `k >= i` at which `p` occurs in `s`, or `s.len()`.
pub open spec fn find_seq_from(s: Seq<char>, i: int, p: Seq<char>) -> int
    decreases s.len() + 1 - i,
{
    if i < 0 || i + p.len() > s.len() {
        s.len() as int
    } else if occurs_at(s, i, p) {
        i
    } else {
        find_seq_from(s, i + 1, p)
    }
}

/// The pieces of `s` from position `i` on, split at each occurrence of `p`,
/// left to right (as `str::split` with a non-empty pattern).
pub open spec fn split_from(s: Seq<char>, i: int, p: Seq<char>) -> Seq<Seq<char>>
    decreases s.len() + 1 - i,
{
    if p.len() == 0 || i < 0 || i > s.len() {
        seq![]
    } else {
        let k = find_seq_from(s, i, p);
        if i <= k && k + p.len() <= s.len() {
            seq![s.subrange(i, k)] + split_from(s, k + p.len(), p)
        } else {
            seq![s.subrange(i, s.len() as int)]
        }
    }
}

/// The pieces of `s` split at each occurrence of `p`.
pub open spec fn split(s: Seq<char>, p: Seq<char>) -> Seq<Seq<char>> {
    split_from(s, 0, p)
}

/// The line of `s` that starts at `i` (as `str::lines` yields it: without
/// its `\n`, nor a `\r` right before that `\n`).
pub open spec fn line_at(s: Seq<char>, i: int) -> Seq<char> {
    let e = find_in(s, i, s.len() as int, '\n');
    if i < e && e < s.len() && s[e - 1] == '\r' {
        s.subrange(i, e - 1)
    } else {
        s.subrange(i, e)
    }
}

/// The value of a `label: value` line: the text after the first `:`,
/// trimmed; empty when the line has no `:`.
pub open spec fn colon_value(l: Seq<char>) -> Seq<char> {
    let k = find_in(l, 0, l.len() as int, ':');
    if k < l.len() {
        trim(l.subrange(k + 1, l.len() as int))
    } else {
        seq![]
    }
}

/// Scans the lines of `s` from position `i` on for the first one that, with
/// its leading white space removed, starts with `label`, and gives that
/// line's `colon_value`.
pub open spec fn field_from(s: Seq<char>, i: int, label: Seq<char>) -> Option<Seq<char>>
    decreases s.len() + 1 - i,
{
    if i < 0 || i >= s.len() {
        None
    } else {
        let e = find_in(s, i, s.len() as int, '\n');
        let l = line_at(s, i);
        if e < i || e > s.len() {
            None
        } else if starts_with(trim_start(l), label) {
            Some(colon_value(l))
        } else {
            field_from(s, e + 1, label)
        }
    }
}

/// The value of the first line of `s` labelled `label`, if any.
pub open spec fn field_value(s: Seq<char>, label: Seq<char>) -> Option<Seq<char>> {
    field_from(s, 0, label)
}

/// The views of a sequence of character vectors.
pub open spec fn views(vs: Seq<Vec<char>>) -> Seq<Seq<char>> {
    vs.map_values(|v: Vec<char>| v@)
}

/// Executable form of `is_space`.
pub fn space_char(c: char) -> (r: bool)
    ensures
        r == is_space(c),
{
    ('\u{9}' <= c && c <= '\u{d}') || c == ' ' || c == '\u{85}' || c == '\u{a0}' || c
        == '\u{1680}' || ('\u{2000}' <= c && c <= '\u{200a}') || c == '\u{2028}' || c
        == '\u{2029}' || c == '\u{202f}' || c == '\u{205f}' || c == '\u{3000}'
}

/// The characters of `s`, in order.
pub fn chars_of(s: &str) -> (r: Vec<char>)
    ensures
        r@ == s@,
{
    let mut r: Vec<char> = Vec::new();
    for c in it: s.chars()
        invariant
            r@ == it.seq().subrange(0, it.index() as int),
    {
        r.push(c);
    }
    r
}

/// Relies on `String::push`: appends one character to the string.
#[verifier::external_body]
pub(crate) fn push_char(s: &mut String, c: char)
    ensures
        final(s)@ == old(s)@.push(c),
{
    s.push(c);
}

/// The string made of the characters of `v`.
pub fn string_of(v: &Vec<char>) -> (r: String)
    ensures
        r@ == v@,
{
    let mut r = String::new();
    let n = v.len();
    for i in 0..n
        invariant
            n == v.len(),
            r@ == v@.subrange(0, i as int),
    {
        push_char(&mut r, v[i]);
        assert(v@.subrange(0, i + 1) =~= v@.subrange(0, i as int).push(v@[i as int]));
    }
    assert(v@.subrange(0, n as int) =~= v@);
    r
}

/// The characters `v[lo..hi]` as a new vector.
pub fn copy_range(v: &Vec<char>, lo: usize, hi: usize) -> (r: Vec<char>)
    requires
        lo <= hi <= v.len(),
    ensures
        r@ == v@.subrange(lo as int, hi as int),
{
    let mut r: Vec<char> = Vec::new();
    let mut i = lo;
    while i < hi
        invariant
            lo <= i <= hi,
            hi <= v.len(),
            r@ == v@.subrange(lo as int, i as int),
        decreases hi - i,
    {
        r.push(v[i]);
        assert(v@.subrange(lo as int, i + 1) =~= v@.subrange(lo as int, i as int).push(
            v@[i as int],
        ));
        i += 1;
    }
    r
}

/// The first index at or after `lo` in `v[..hi]` that is not white space.
pub fn skip_spaces(v: &Vec<char>, lo: usize, hi: usize) -> (k: usize)
    requires
        lo <= hi <= v.len(),
    ensures
        lo <= k <= hi,
        trim_start(v@.subrange(lo as int, hi as int)) == v@.subrange(k as int, hi as int),
{
    let mut k = lo;
    while k < hi && space_char(v[k])
        invariant
            lo <= k <= hi,
            hi <= v.len(),
            trim_start(v@.subrange(lo as int, hi as int)) == trim_start(
                v@.subrange(k as int, hi as int),
            ),
        decreases hi - k,
    {
        assert(v@.subrange(k as int, hi as int).drop_first() =~= v@.subrange(
            k + 1,
            hi as int,
        ));
        k += 1;
    }
    k
}

/// The end of `v[lo..hi]` once its trailing white space is removed.
pub fn trailing_end(v: &Vec<char>, lo: usize, hi: usize) -> (e: usize)
    requires
        lo <= hi <= v.len(),
    ensures
        lo <= e <= hi,
        trim_end(v@.subrange(lo as int, hi as int)) == v@.subrange(lo as int, e as int),
{
    let mut e = hi;
    while e > lo && space_char(v[e - 1])
        invariant
            lo <= e <= hi,
            hi <= v.len(),
            trim_end(v@.subrange(lo as int, hi as int)) == trim_end(
                v@.subrange(lo as int, e as int),
            ),
        decreases e - lo,
    {
        assert(v@.subrange(lo as int, e as int).drop_last() =~= v@.subrange(
            lo as int,
            e - 1,
        ));
        e -= 1;
    }
    e
}

/// `find_in` for vectors.
pub fn find_char(v: &Vec<char>, lo: usize, hi: usize, c: char) -> (k: usize)
    requires
        lo <= hi <= v.len(),
    ensures
        lo <= k <= hi,
        k == find_in(v@, lo as int, hi as int, c),
{
    let mut k = lo;
    while k < hi && v[k] != c
        invariant
            lo <= k <= hi,
            hi <= v.len(),
            find_in(v@, lo as int, hi as int, c) == find_in(v@, k as int, hi as int, c),
        decreases hi - k,
    {
        k += 1;
    }
    k
}

/// `space_from` for vectors.
pub fn find_space(v: &Vec<char>, lo: usize) -> (k: usize)
    requires
        lo <= v.len(),
    ensures
        lo <= k <= v.len(),
        k == space_from(v@, lo as int),
{
    let mut k = lo;
    while k < v.len() && !space_char(v[k])
        invariant
            lo <= k <= v.len(),
            space_from(v@, lo as int) == space_from(v@, k as int),
        decreases v.len() - k,
    {
        k += 1;
    }
    k
}

/// `space_before` for vectors, shifted by one: `0` when there is no white space.
pub fn space_end_before(v: &Vec<char>, j: usize) -> (k: usize)
    requires
        j <= v.len(),
    ensures
        k <= j,
        k == space_before(v@, j as int) + 1,
{
    let mut k = j;
    while k > 0 && !space_char(v[k - 1])
        invariant
            k <= j <= v.len(),
            space_before(v@, j as int) == space_before(v@, k as int),
        decreases k,
    {
        k -= 1;
    }
    k
}

/// Whether `p` is a prefix of `v[lo..hi]`.
pub fn starts_with_at(v: &Vec<char>, lo: usize, hi: usize, p: &Vec<char>) -> (r: bool)
    requires
        lo <= hi <= v.len(),
    ensures
        r == starts_with(v@.subrange(lo as int, hi as int), p@),
{
    if p.len() > hi - lo {
        return false;
    }
    let mut j: usize = 0;
    while j < p.len()
        invariant
            lo <= hi <= v.len(),
            p.len() <= hi - lo,
            j <= p.len(),
            forall|m: int| 0 <= m < j ==> v@[lo + m] == p@[m],
        decreases p.len() - j,
    {
        if v[lo + j] != p[j] {
            assert(v@.subrange(lo as int, hi as int).subrange(0, p.len() as int)[j as int]
                != p@[j as int]);
            return false;
        }
        j += 1;
    }
    assert(v@.subrange(lo as int, hi as int).subrange(0, p.len() as int) =~= p@);
    true
}

/// `first_token` of a whole vector.
pub fn first_token_of(v: &Vec<char>) -> (r: Vec<char>)
    ensures
        r@ == first_token(v@),
{
    let n = v.len();
    let k = skip_spaces(v, 0, n);
    assert(v@.subrange(0, n as int) =~= v@);
    let t = copy_range(v, k, n);
    let e = find_space(&t, 0);
    copy_range(&t, 0, e)
}

/// `last_token` of a whole vector.
pub fn last_token_of(v: &Vec<char>) -> (r: Vec<char>)
    ensures
        r@ == last_token(v@),
{
    let n = v.len();
    let e = trailing_end(v, 0, n);
    assert(v@.subrange(0, n as int) =~= v@);
    let t = copy_range(v, 0, e);
    let b = space_end_before(&t, e);
    copy_range(&t, b, e)
}

/// `trim` of a whole vector.
pub fn trimmed(v: &Vec<char>) -> (r: Vec<char>)
    ensures
        r@ == trim(v@),
{
    let n = v.len();
    let k = skip_spaces(v, 0, n);
    assert(v@.subrange(0, n as int) =~= v@);
    let e = trailing_end(v, k, n);
    copy_range(v, k, e)
}

/// The view of an optional character vector.
pub open spec fn opt_view(r: Option<Vec<char>>) -> Option<Seq<char>> {
    match r {
        Some(v) => Some(v@),
        None => None,
    }
}

/// `field_value` for vectors.
pub fn field_of(s: &Vec<char>, label: &Vec<char>) -> (r: Option<Vec<char>>)
    ensures
        opt_view(r) == field_value(s@, label@),
{
    let n = s.len();
    let mut i: usize = 0;
    while i < n
        invariant
            n == s.len(),
            i <= n,
            field_value(s@, label@) == field_from(s@, i as int, label@),
        decreases n - i,
    {
        let e = find_char(s, i, n, '\n');
        let le = if i < e && e < n && s[e - 1] == '\r' {
            e - 1
        } else {
            e
        };
        let line = copy_range(s, i, le);
        assert(line@ == line_at(s@, i as int));
        let ln = line.len();
        let ts = skip_spaces(&line, 0, ln);
        assert(line@.subrange(0, ln as int) =~= line@);
        if starts_with_at(&line, ts, ln, label) {
            let k = find_char(&line, 0, ln, ':');
            if k < ln {
                let a = skip_spaces(&line, k + 1, ln);
                let b = trailing_end(&line, a, ln);
                return Some(copy_range(&line, a, b));
            } else {
                return Some(Vec::new());
            }
        }
        if e == n {
            assert(field_from(s@, (e + 1) as int, label@) is None);
            return None;
        }
        i = e + 1;
    }
    None
}

/// Whether `p` occurs in `v` at position `k`.
pub fn occurs_at_exec(v: &Vec<char>, k: usize, p: &Vec<char>) -> (r: bool)
    requires
        k <= v.len(),
    ensures
        r == occurs_at(v@, k as int, p@),
{
    if p.len() > v.len() - k {
        return false;
    }
    let mut j: usize = 0;
    while j < p.len()
        invariant
            k <= v.len(),
            p.len() <= v.len() - k,
            j <= p.len(),
            forall|m: int| 0 <= m < j ==> v@[k + m] == p@[m],
        decreases p.len() - j,
    {
        if v[k + j] != p[j] {
            assert(v@.subrange(k as int, k + p.len())[j as int] != p@[j as int]);
            return false;
        }
        j += 1;
    }
    assert(v@.subrange(k as int, k + p.len()) =~= p@);
    true
}

/// `find_seq_from` for vectors.
pub fn find_seq(v: &Vec<char>, i: usize, p: &Vec<char>) -> (k: usize)
    requires
        i <= v.len(),
    ensures
        i <= k <= v.len(),
        k == find_seq_from(v@, i as int, p@),
{
    let n = v.len();
    let mut k = i;
    while k < n && p.len() <= n - k && !occurs_at_exec(v, k, p)
        invariant
            n == v.len(),
            i <= k <= n,
            find_seq_from(v@, i as int, p@) == find_seq_from(v@, k as int, p@),
        decreases n - k,
    {
        k += 1;
    }
    if k < n && p.len() <= n - k {
        k
    } else {
        if p.len() <= n - k {
            assert(v@.subrange(k as int, k as int) =~= p@);
        }
        n
    }
}

/// `split` for vectors, with a non-empty separator.
pub fn split_by(v: &Vec<char>, p: &Vec<char>) -> (r: Vec<Vec<char>>)
    requires
        p.len() > 0,
    ensures
        views(r@) == split(v@, p@),
{
    let n = v.len();
    let mut out: Vec<Vec<char>> = Vec::new();
    let mut i: usize = 0;
    loop
        invariant
            n == v.len(),
            p.len() > 0,
            i <= n,
            views(out@) + split_from(v@, i as int, p@) == split(v@, p@),
        decreases n + 1 - i,
    {
        let k = find_seq(v, i, p);
        let ghost before = out@;
        if k < n && p.len() <= n - k {
            let piece = copy_range(v, i, k);
            out.push(piece);
            assert(views(out@) =~= views(before).push(piece@));
            assert(views(out@) + split_from(v@, (k + p.len()) as int, p@) =~= views(before)
                + split_from(v@, i as int, p@));
            i = k + p.len();
        } else {
            let piece = copy_range(v, i, n);
            out.push(piece);
            assert(views(out@) =~= views(before).push(piece@));
            assert(views(out@) =~= views(before) + split_from(v@, i as int, p@));
            return out;
        }
    }
}

/// A decimal digit.
pub open spec fn is_digit(c: char) -> bool {
    '0' <= c && c <= '9'
}

/// The value of a decimal digit.
pub open spec fn digit_value(c: char) -> int {
    (c as u32) as int - ('0' as u32) as int
}

/// The number that a sequence of decimal digits spells.
pub open spec fn digits_value(s: Seq<char>) -> int
    decreases s.len(),
{
    if s.len() == 0 {
        0
    } else {
        10 * digits_value(s.drop_last()) + digit_value(s.last())
    }
}

/// Every character of `s` is a decimal digit.
pub open spec fn all_digits(s: Seq<char>) -> bool {
    forall|i: int| 0 <= i < s.len() ==> is_digit(#[trigger] s[i])
}

/// An optional sign followed by one or more decimal digits, as a number.
pub open spec fn parse_integer(s: Seq<char>) -> Option<int> {
    if s.len() > 0 && (s[0] == '+' || s[0] == '-') {
        let d = s.drop_first();
        if d.len() > 0 && all_digits(d) {
            Some(
                if s[0] == '-' {
                    -digits_value(d)
                } else {
                    digits_value(d)
                },
            )
        } else {
            None
        }
    } else if s.len() > 0 && all_digits(s) {
        Some(digits_value(s))
    } else {
        None
    }
}

/// What `str::parse::<i32>` accepts, with the value it gives.
pub open spec fn parse_i32(s: Seq<char>) -> Option<int> {
    match parse_integer(s) {
        Some(n) => if i32::MIN <= n <= i32::MAX {
            Some(n)
        } else {
            None
        },
        None => None,
    }
}

/// Reads a decimal `i32` as `str::parse::<i32>` does.
pub fn parse_i32_of(v: &Vec<char>) -> (r: Option<i32>)
    ensures
        match r {
            Some(x) => parse_i32(v@) == Some(x as int),
            None => parse_i32(v@) is None,
        },
{
    let n = v.len();
    if n == 0 {
        return None;
    }
    let neg = v[0] == '-';
    let start: usize = if v[0] == '+' || v[0] == '-' {
        1
    } else {
        0
    };
    if start == n {
        return None;
    }
    let ghost d = v@.subrange(start as int, n as int);
    assert(start == 1 ==> d =~= v@.drop_first());
    assert(start == 0 ==> d =~= v@);
    let cap: i64 = 2147483649;
    let mut acc: i64 = 0;
    let mut j = start;
    while j < n
        invariant
            n == v.len(),
            n > 0,
            start == (if v@[0] == '+' || v@[0] == '-' {
                1int
            } else {
                0int
            }),
            neg == (v@[0] == '-'),
            start <= j <= n,
            d == v@.subrange(start as int, n as int),
            0 <= acc <= cap,
            cap == 2147483649,
            acc == if digits_value(v@.subrange(start as int, j as int)) < cap {
                digits_value(v@.subrange(start as int, j as int))
            } else {
                cap as int
            },
            forall|m: int| start <= m < j ==> is_digit(#[trigger] v@[m]),
        decreases n - j,
    {
        let c = v[j];
        if !('0' <= c && c <= '9') {
            assert(d[j - start] == c);
            assert(!all_digits(d));
            if start == 1 {
                assert(parse_integer(v@) is None);
            } else {
                assert(!(v@[0] == '+' || v@[0] == '-'));
                assert(!all_digits(v@));
                assert(parse_integer(v@) is None);
            }
            return None;
        }
        let ghost prev = digits_value(v@.subrange(start as int, j as int));
        assert(v@.subrange(start as int, j + 1).drop_last() =~= v@.subrange(
            start as int,
            j as int,
        ));
        assert(digits_value(v@.subrange(start as int, j + 1)) == 10 * prev + digit_value(c));
        let dv = ((c as u32) - ('0' as u32)) as i64;
        if acc >= cap {
            assert(10 * prev >= prev) by (nonlinear_arith)
                requires
                    prev >= 2147483649,
            ;
            acc = cap;
        } else {
            let t = acc * 10 + dv;
            acc = if t > cap {
                cap
            } else {
                t
            };
        }
        j += 1;
    }
    assert(v@.subrange(start as int, n as int) == d);
    assert(all_digits(d)) by {
        assert forall|i: int| 0 <= i < d.len() implies is_digit(#[trigger] d[i]) by {
            assert(d[i] == v@[start + i]);
        }
    }
    if neg {
        if acc > 2147483648 {
            None
        } else {
            Some((-acc) as i32)
        }
    } else {
        if acc > 2147483647 {
            None
        } else {
            Some(acc as i32)
        }
    }
}

/// The character of a decimal digit `d < 10`.
pub open spec fn digit_char(d: int) -> char {
    if d == 0 {
        '0'
    } else if d == 1 {
        '1'
    } else if d == 2 {
        '2'
    } else if d == 3 {
        '3'
    } else if d == 4 {
        '4'
    } else if d == 5 {
        '5'
    } else if d == 6 {
        '6'
    } else if d == 7 {
        '7'
    } else if d == 8 {
        '8'
    } else {
        '9'
    }
}

/// The decimal spelling of `n`, as `Display` writes an unsigned integer.
pub open spec fn decimal(n: nat) -> Seq<char>
    decreases n,
{
    if n < 10 {
        seq![digit_char(n as int)]
    } else {
        decimal(n / 10).push(digit_char((n % 10) as int))
    }
}

fn digit_of(d: u64) -> (c: char)
    requires
        d < 10,
    ensures
        c == digit_char(d as int),
{
    if d == 0 {
        '0'
    } else if d == 1 {
        '1'
    } else if d == 2 {
        '2'
    } else if d == 3 {
        '3'
    } else if d == 4 {
        '4'
    } else if d == 5 {
        '5'
    } else if d == 6 {
        '6'
    } else if d == 7 {
        '7'
    } else if d == 8 {
        '8'
    } else {
        '9'
    }
}

/// Appends the decimal spelling of `n` to `s`.
pub fn push_decimal(s: &mut String, n: u64)
    ensures
        final(s)@ == old(s)@ + decimal(n as nat),
    decreases n,
{
    if n >= 10 {
        push_decimal(s, n / 10);
    }
    push_char(s, digit_of(n % 10));
    assert(final(s)@ =~= old(s)@ + decimal(n as nat));
}

/// Appends `other` to `s`.
pub fn push_str(s: &mut String, other: &str)
    ensures
        final(s)@ == old(s)@ + other@,
{
    s.append(other);
}

/// What `str::parse::<u64>` accepts, with the value it gives: an optional
/// `+` and one or more decimal digits, at most `u64::MAX`.
pub open spec fn parse_u64(s: Seq<char>) -> Option<int> {
    let d = if s.len() > 0 && s[0] == '+' {
        s.drop_first()
    } else {
        s
    };
    if d.len() > 0 && all_digits(d) && digits_value(d) <= u64::MAX {
        Some(digits_value(d))
    } else {
        None
    }
}

/// Reads a decimal `u64` as `str::parse::<u64>` does.
pub fn parse_u64_of(v: &Vec<char>) -> (r: Option<u64>)
    ensures
        match r {
            Some(x) => parse_u64(v@) == Some(x as int),
            None => parse_u64(v@) is None,
        },
{
    let n = v.len();
    let start: usize = if n > 0 && v[0] == '+' {
        1
    } else {
        0
    };
    if start == n {
        return None;
    }
    let ghost d = v@.subrange(start as int, n as int);
    assert(start == 1 ==> d =~= v@.drop_first());
    assert(start == 0 ==> d =~= v@);
    let cap: u128 = 18446744073709551616;
    let mut acc: u128 = 0;
    let mut j = start;
    while j < n
        invariant
            n == v.len(),
            n > 0,
            start == (if v@[0] == '+' {
                1int
            } else {
                0int
            }),
            start <= j <= n,
            d == v@.subrange(start as int, n as int),
            0 <= acc <= cap,
            cap == 18446744073709551616,
            acc == if digits_value(v@.subrange(start as int, j as int)) < cap {
                digits_value(v@.subrange(start as int, j as int))
            } else {
                cap as int
            },
            forall|m: int| start <= m < j ==> is_digit(#[trigger] v@[m]),
        decreases n - j,
    {
        let c = v[j];
        if !('0' <= c && c <= '9') {
            assert(d[j - start] == c);
            assert(!all_digits(d));
            return None;
        }
        let ghost prev = digits_value(v@.subrange(start as int, j as int));
        assert(v@.subrange(start as int, j + 1).drop_last() =~= v@.subrange(
            start as int,
            j as int,
        ));
        assert(digits_value(v@.subrange(start as int, j + 1)) == 10 * prev + digit_value(c));
        let dv = ((c as u32) - ('0' as u32)) as u128;
        if acc >= cap {
            assert(10 * prev >= prev) by (nonlinear_arith)
                requires
                    prev >= 18446744073709551616,
            ;
            acc = cap;
        } else {
            let t = acc * 10 + dv;
            acc = if t > cap {
                cap
            } else {
                t
            };
        }
        j += 1;
    }
    assert(v@.subrange(start as int, n as int) == d);
    assert(all_digits(d)) by {
        assert forall|i: int| 0 <= i < d.len() implies is_digit(#[trigger] d[i]) by {
            assert(d[i] == v@[start + i]);
        }
    }
    if acc >= cap {
        None
    } else {
        Some(acc as u64)
    }
}

/// `s` from the end of its first whitespace-delimited token on.
pub open spec fn after_first_token(s: Seq<char>) -> Seq<char> {
    let t = trim_start(s);
    t.subrange(space_from(t, 0), t.len() as int)
}

/// The first and second whitespace-delimited tokens of a vector.
pub fn two_tokens_of(v: &Vec<char>) -> (r: (Vec<char>, Vec<char>))
    ensures
        r.0@ == first_token(v@),
        r.1@ == first_token(after_first_token(v@)),
{
    let n = v.len();
    let k = skip_spaces(v, 0, n);
    assert(v@.subrange(0, n as int) =~= v@);
    let t = copy_range(v, k, n);
    let e = find_space(&t, 0);
    let first = copy_range(&t, 0, e);
    let rest = copy_range(&t, e, t.len());
    (first, first_token_of(&rest))
}

} // verus!
