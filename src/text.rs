//! Character-level helpers shared by the reply parsers: lines, whitespace
//! separated words, prefixes and decimal numbers.
use vstd::prelude::*;
use vstd::string::StrSliceExecFns;
use vstd::utf8::{decode_utf8, valid_utf8};

verus! {

/// Relies on `String::from_utf8`: it accepts exactly the well-formed UTF-8
/// byte strings, and the text it returns holds the characters they encode.
#[verifier::external_body]
pub(crate) fn utf8_text(b: Vec<u8>) -> (r: Option<String>)
    ensures
        r is Some <==> valid_utf8(b@),
        r matches Some(s) ==> s@ == decode_utf8(b@),
{
    String::from_utf8(b).ok()
}

/// The texts held by a sequence of strings.
pub open spec fn views(v: Seq<String>) -> Seq<Seq<char>> {
    v.map_values(|s: String| s@)
}

/// Unicode's `White_Space` property, which `char::is_whitespace` tests.
pub open spec fn is_space(c: char) -> bool {
    let u = c as u32;
    (0x09 <= u <= 0x0D) || u == 0x20 || u == 0x85 || u == 0xA0 || u == 0x1680 || (0x2000 <= u
        <= 0x200A) || u == 0x2028 || u == 0x2029 || u == 0x202F || u == 0x205F || u == 0x3000
}

/// The words of `s` that are complete, and the word that is still open,
/// when `s` is read from left to right.
pub open spec fn words_scan(s: Seq<char>) -> (Seq<Seq<char>>, Seq<char>)
    decreases s.len(),
{
    if s.len() == 0 {
        (Seq::empty(), Seq::empty())
    } else {
        let (done, open) = words_scan(s.drop_last());
        if !is_space(s.last()) {
            (done, open.push(s.last()))
        } else if open.len() > 0 {
            (done.push(open), Seq::empty())
        } else {
            (done, open)
        }
    }
}

/// The maximal runs of non-whitespace characters of `s`, in order
/// (what `str::split_whitespace` yields).
pub open spec fn words(s: Seq<char>) -> Seq<Seq<char>> {
    let (done, open) = words_scan(s);
    if open.len() > 0 {
        done.push(open)
    } else {
        done
    }
}

/// A line without the carriage return that ends it, if any.
pub open spec fn without_cr(l: Seq<char>) -> Seq<char> {
    if l.len() > 0 && l.last() == '\r' {
        l.drop_last()
    } else {
        l
    }
}

/// The lines of `s` that are complete, and the line that is still open,
/// when `s` is read from left to right.
pub open spec fn lines_scan(s: Seq<char>) -> (Seq<Seq<char>>, Seq<char>)
    decreases s.len(),
{
    if s.len() == 0 {
        (Seq::empty(), Seq::empty())
    } else {
        let (done, open) = lines_scan(s.drop_last());
        if s.last() == '\n' {
            (done.push(without_cr(open)), Seq::empty())
        } else {
            (done, open.push(s.last()))
        }
    }
}

/// The lines of `s`: each `\n` ends one, and drops the `\r` just before it;
/// text after the last `\n` is a last line (what `str::lines` yields).
pub open spec fn lines(s: Seq<char>) -> Seq<Seq<char>> {
    let (done, open) = lines_scan(s);
    if open.len() > 0 {
        done.push(open)
    } else {
        done
    }
}

/// An ASCII digit, `'0'` (48) to `'9'` (57).
pub open spec fn is_digit(c: char) -> bool {
    48 <= c as u32 <= 57
}

/// The number written by the decimal digits `ds`.
pub open spec fn digits_value(ds: Seq<char>) -> nat
    decreases ds.len(),
{
    if ds.len() == 0 {
        0
    } else {
        digits_value(ds.drop_last()) * 10 + (ds.last() as u32 - 48) as nat
    }
}

/// `s` without the `+` that it may start with.
pub open spec fn unsigned_part(s: Seq<char>) -> Seq<char> {
    if s.len() > 0 && s[0] == '+' {
        s.drop_first()
    } else {
        s
    }
}

pub open spec fn all_digits(ds: Seq<char>) -> bool {
    forall|i: int| 0 <= i < ds.len() ==> is_digit(#[trigger] ds[i])
}

/// The number that `s` writes in decimal: an optional `+`, then one or more
/// ASCII digits (the syntax that `str::parse` accepts for unsigned integers).
pub open spec fn decimal(s: Seq<char>) -> Option<nat> {
    let ds = unsigned_part(s);
    if ds.len() > 0 && all_digits(ds) {
        Some(digits_value(ds))
    } else {
        None
    }
}

/// The number that `s` writes in decimal, if it is at most `max`.
pub open spec fn decimal_upto(s: Seq<char>, max: nat) -> Option<nat> {
    match decimal(s) {
        Some(v) if v <= max => Some(v),
        _ => None,
    }
}

pub fn is_space_char(c: char) -> (r: bool)
    ensures
        r == is_space(c),
{
    let u = c as u32;
    (0x09 <= u && u <= 0x0D) || u == 0x20 || u == 0x85 || u == 0xA0 || u == 0x1680 || (0x2000
        <= u && u <= 0x200A) || u == 0x2028 || u == 0x2029 || u == 0x202F || u == 0x205F || u
        == 0x3000
}

/// The whitespace-separated words of `s`.
pub fn split_words(s: &str) -> (r: Vec<String>)
    ensures
        views(r@) == words(s@),
{
    let n = s.unicode_len();
    let mut out: Vec<String> = Vec::new();
    let mut start: usize = 0;
    let mut i: usize = 0;
    while i < n
        invariant
            n == s@.len(),
            start <= i <= n,
            words_scan(s@.take(i as int)) == (views(out@), s@.subrange(start as int, i as int)),
        decreases n - i,
    {
        let c = s.get_char(i);
        assert(s@.take(i + 1).drop_last() =~= s@.take(i as int));
        if is_space_char(c) {
            if start < i {
                let ghost before = out@;
                let w = s.substring_char(start, i).to_owned();
                out.push(w);
                assert(views(out@) =~= views(before).push(w@));
            }
            start = i + 1;
            assert(s@.subrange(start as int, i + 1) =~= Seq::<char>::empty());
        } else {
            assert(s@.subrange(start as int, i + 1) =~= s@.subrange(start as int, i as int).push(c));
        }
        i = i + 1;
    }
    assert(s@.take(n as int) =~= s@);
    if start < n {
        let ghost before = out@;
        let w = s.substring_char(start, n).to_owned();
        out.push(w);
        assert(views(out@) =~= views(before).push(w@));
    }
    out
}

/// The lines of `s`.
pub fn split_lines(s: &str) -> (r: Vec<String>)
    ensures
        views(r@) == lines(s@),
{
    let n = s.unicode_len();
    let mut out: Vec<String> = Vec::new();
    let mut start: usize = 0;
    let mut i: usize = 0;
    while i < n
        invariant
            n == s@.len(),
            start <= i <= n,
            lines_scan(s@.take(i as int)) == (views(out@), s@.subrange(start as int, i as int)),
        decreases n - i,
    {
        let c = s.get_char(i);
        assert(s@.take(i + 1).drop_last() =~= s@.take(i as int));
        if c == '\n' {
            let ghost open = s@.subrange(start as int, i as int);
            let end = if start < i && s.get_char(i - 1) == '\r' {
                i - 1
            } else {
                i
            };
            assert(s@.subrange(start as int, end as int) =~= without_cr(open));
            let ghost before = out@;
            let l = s.substring_char(start, end).to_owned();
            out.push(l);
            assert(views(out@) =~= views(before).push(l@));
            start = i + 1;
            assert(s@.subrange(start as int, i + 1) =~= Seq::<char>::empty());
        } else {
            assert(s@.subrange(start as int, i + 1) =~= s@.subrange(start as int, i as int).push(c));
        }
        i = i + 1;
    }
    assert(s@.take(n as int) =~= s@);
    if start < n {
        let ghost before = out@;
        let l = s.substring_char(start, n).to_owned();
        out.push(l);
        assert(views(out@) =~= views(before).push(l@));
    }
    out
}

/// The rest of `s` after `prefix`, if `s` starts with it.
pub fn strip_prefix<'a>(s: &'a str, prefix: &str) -> (r: Option<&'a str>)
    ensures
        prefix@.is_prefix_of(s@) <==> r is Some,
        r matches Some(rest) ==> rest@ == s@.skip(prefix@.len() as int),
{
    let n = s.unicode_len();
    let m = prefix.unicode_len();
    if m > n {
        return None;
    }
    let mut i: usize = 0;
    while i < m
        invariant
            n == s@.len(),
            m == prefix@.len(),
            m <= n,
            i <= m,
            forall|k: int| 0 <= k < i ==> s@[k] == prefix@[k],
        decreases m - i,
    {
        if s.get_char(i) != prefix.get_char(i) {
            return None;
        }
        i = i + 1;
    }
    Some(s.substring_char(m, n))
}

/// The part of `s` before `suffix`, if `s` ends with it.
pub fn strip_suffix<'a>(s: &'a str, suffix: &str) -> (r: Option<&'a str>)
    ensures
        (suffix@.len() <= s@.len() && s@.skip(s@.len() - suffix@.len()) == suffix@) <==> r is Some,
        r matches Some(rest) ==> rest@ == s@.take(s@.len() - suffix@.len()),
{
    let n = s.unicode_len();
    let m = suffix.unicode_len();
    if m > n {
        return None;
    }
    let d = n - m;
    let mut i: usize = 0;
    while i < m
        invariant
            n == s@.len(),
            m == suffix@.len(),
            d == n - m,
            i <= m,
            forall|k: int| 0 <= k < i ==> s@[d + k] == suffix@[k],
        decreases m - i,
    {
        if s.get_char(d + i) != suffix.get_char(i) {
            assert(s@.skip(d as int)[i as int] != suffix@[i as int]);
            return None;
        }
        i = i + 1;
    }
    assert(s@.skip(d as int) =~= suffix@);
    Some(s.substring_char(0, d))
}

/// Whether `s` starts with `prefix`.
pub fn starts_with(s: &str, prefix: &str) -> (r: bool)
    ensures
        r == prefix@.is_prefix_of(s@),
{
    strip_prefix(s, prefix).is_some()
}

/// The position of the first `c` in `s`, if any.
pub fn find_char(s: &str, c: char) -> (r: Option<usize>)
    ensures
        r is None <==> !s@.contains(c),
        r matches Some(k) ==> k < s@.len() && s@[k as int] == c && forall|j: int|
            0 <= j < k ==> s@[j] != c,
{
    let n = s.unicode_len();
    let mut i: usize = 0;
    while i < n
        invariant
            n == s@.len(),
            i <= n,
            forall|j: int| 0 <= j < i ==> s@[j] != c,
        decreases n - i,
    {
        if s.get_char(i) == c {
            return Some(i);
        }
        i = i + 1;
    }
    None
}

/// The position of the first `c` in `s` (meaningful when `s` holds a `c`).
pub open spec fn first_index(s: Seq<char>, c: char) -> int {
    choose|k: int| 0 <= k < s.len() && s[k] == c && forall|j: int| 0 <= j < k ==> s[j] != c
}

/// The text before and the text after the first `c` in `s`, if there is one
/// (what `str::split_once` returns).
pub open spec fn split_once(s: Seq<char>, c: char) -> Option<(Seq<char>, Seq<char>)> {
    if s.contains(c) {
        let k = first_index(s, c);
        Some((s.take(k), s.skip(k + 1)))
    } else {
        None
    }
}

/// The text before and the text after the first `c` in `s`, if there is one.
pub fn split_once_at<'a>(s: &'a str, c: char) -> (r: Option<(&'a str, &'a str)>)
    ensures
        r is None <==> split_once(s@, c) is None,
        r matches Some((a, b)) ==> split_once(s@, c) == Some((a@, b@)),
{
    match find_char(s, c) {
        None => None,
        Some(k) => {
            proof {
                let f = first_index(s@, c);
                assert(0 <= f < s@.len() && s@[f] == c && forall|j: int| 0 <= j < f ==> s@[j] != c);
                if f < k {
                    assert(s@[f] != c);
                } else if k < f {
                    assert(s@[k as int] != c);
                }
            }
            let n = s.unicode_len();
            Some((s.substring_char(0, k), s.substring_char(k + 1, n)))
        },
    }
}

/// The value written in decimal by `s`, if it is at most `max`.
pub fn parse_decimal(s: &str, max: u32) -> (r: Option<u32>)
    ensures
        r matches Some(v) ==> decimal_upto(s@, max as nat) == Some(v as nat),
        r is None ==> decimal_upto(s@, max as nat) is None,
{
    let n = s.unicode_len();
    let mut i: usize = 0;
    if n > 0 && s.get_char(0) == '+' {
        i = 1;
    }
    let start = i;
    let ghost ds = s@.skip(start as int);
    assert(ds == unsigned_part(s@));
    if start == n {
        return None;
    }
    let mut value: u32 = 0;
    while i < n
        invariant
            n == s@.len(),
            start <= i <= n,
            start < n,
            ds == s@.skip(start as int),
            ds == unsigned_part(s@),
            forall|k: int| 0 <= k < i - start ==> is_digit(#[trigger] ds[k]),
            value as nat == digits_value(ds.take(i - start)),
            value <= max,
        decreases n - i,
    {
        let c = s.get_char(i);
        assert(ds[i - start] == c);
        let u = c as u32;
        if !(48 <= u && u <= 57) {
            assert(!is_digit(ds[i - start]));
            assert(ds.len() == n - start);
            assert(!(forall|k: int| 0 <= k < ds.len() ==> is_digit(#[trigger] ds[k])));
            return None;
        }
        let d = u - 48;
        assert(ds.take(i - start + 1).drop_last() =~= ds.take(i - start));
        let next: u64 = value as u64 * 10 + d as u64;
        if next > max as u64 {
            proof {
                lemma_digits_grow(ds, i - start + 1);
            }
            return None;
        }
        value = next as u32;
        i = i + 1;
    }
    assert(ds.take(n - start) =~= ds);
    Some(value)
}

/// A string of digits writes at least the number that any prefix of it writes.
proof fn lemma_digits_grow(ds: Seq<char>, i: int)
    requires
        0 <= i <= ds.len(),
    ensures
        digits_value(ds.take(i)) <= digits_value(ds),
    decreases ds.len(),
{
    if i < ds.len() {
        lemma_digits_grow(ds.drop_last(), i);
        assert(ds.drop_last().take(i) =~= ds.take(i));
    } else {
        assert(ds.take(i) =~= ds);
    }
}

/// Relies on itertools' `Itertools::tuples`: the first tuple it yields
/// holds the first three items, and there is none with fewer than three.
#[verifier::external_body]
pub(crate) fn first_three(items: Vec<String>) -> (r: Option<(String, String, String)>)
    ensures
        r is Some <==> items@.len() >= 3,
        r matches Some(t) ==> t.0@ == items@[0]@ && t.1@ == items@[1]@ && t.2@ == items@[2]@,
{
    itertools::Itertools::tuples(items.into_iter()).next()
}

} // verus!
