//! Byte-level helpers for the line based system files (`/etc/hosts`, `/etc/services`,
//! `/etc/resolv.conf`): comments, whitespace, splitting into columns, decimal numbers.
use vstd::prelude::*;

use crate::error::{ErrorKind, IoError};

verus! {

/// The message of the error for an address that resolves to nothing.
pub const COULD_NOT_RESOLVE: &'static str = "could not resolve to any addresses";

/// The error for an address that resolves to nothing.
pub fn invalid_input() -> (e: IoError)
    ensures
        e == (IoError::Simple { kind: ErrorKind::InvalidInput, message: COULD_NOT_RESOLVE }),
{
    IoError::Simple { kind: ErrorKind::InvalidInput, message: COULD_NOT_RESOLVE }
}

/// The bytes that separate columns: tab, newline, form feed, carriage return, space.
pub open spec fn spec_is_whitespace(c: u8) -> bool {
    c == 9u8 || c == 10u8 || c == 12u8 || c == 13u8 || c == 32u8
}

/// Whether `c` separates columns.
pub fn is_whitespace(c: &u8) -> (r: bool)
    ensures
        r == spec_is_whitespace(*c),
{
    *c == 9u8 || *c == 10u8 || *c == 12u8 || *c == 13u8 || *c == 32u8
}

/// What splits a line: any whitespace byte, or one given byte.
#[derive(Clone, Copy, PartialEq, Eq, Debug)]
pub enum Sep {
    Whitespace,
    Byte(u8),
}

pub open spec fn is_sep(sep: Sep, c: u8) -> bool {
    match sep {
        Sep::Whitespace => spec_is_whitespace(c),
        Sep::Byte(b) => c == b,
    }
}

fn matches_sep(sep: Sep, c: u8) -> (r: bool)
    ensures
        r == is_sep(sep, c),
{
    match sep {
        Sep::Whitespace => is_whitespace(&c),
        Sep::Byte(b) => c == b,
    }
}

/// The position of the first separator in `s`, or its length when there is none.
pub open spec fn sep_index(s: Seq<u8>, sep: Sep) -> int
    decreases s.len(),
{
    if s.len() == 0 {
        0
    } else if is_sep(sep, s[0]) {
        0
    } else {
        1 + sep_index(s.drop_first(), sep)
    }
}

/// The pieces between separators, empty ones included: `n` separators give `n + 1`
/// pieces.
pub open spec fn split(s: Seq<u8>, sep: Sep) -> Seq<Seq<u8>>
    decreases s.len(),
{
    let k = sep_index(s, sep);
    if 0 <= k < s.len() {
        seq![s.take(k)] + split(s.skip(k + 1), sep)
    } else {
        seq![s]
    }
}

/// The non-empty pieces between whitespace.
pub open spec fn fields(s: Seq<u8>) -> Seq<Seq<u8>> {
    split(s, Sep::Whitespace).filter(|p: Seq<u8>| p.len() > 0)
}

/// A line with what follows its first `#` cut off.
pub open spec fn comment_free(s: Seq<u8>) -> Seq<u8> {
    s.take(sep_index(s, Sep::Byte(35u8)))
}

/// The first separator is at `k`: none before it, and `k` is a separator or the end.
pub proof fn lemma_sep_index(s: Seq<u8>, sep: Sep, k: int)
    requires
        0 <= k <= s.len(),
        forall|i: int| 0 <= i < k ==> !is_sep(sep, #[trigger] s[i]),
        k == s.len() || is_sep(sep, s[k]),
    ensures
        sep_index(s, sep) == k,
    decreases s.len(),
{
    if s.len() > 0 && k > 0 {
        assert forall|i: int| 0 <= i < k - 1 implies !is_sep(sep, #[trigger] s.drop_first()[i]) by {
            assert(s.drop_first()[i] == s[i + 1]);
        }
        lemma_sep_index(s.drop_first(), sep, k - 1);
    }
}

proof fn lemma_sep_index_bounds(s: Seq<u8>, sep: Sep)
    ensures
        0 <= sep_index(s, sep) <= s.len(),
        sep_index(s, sep) < s.len() ==> is_sep(sep, s[sep_index(s, sep)]),
        forall|i: int| 0 <= i < sep_index(s, sep) ==> !is_sep(sep, #[trigger] s[i]),
    decreases s.len(),
{
    if s.len() > 0 && !is_sep(sep, s[0]) {
        lemma_sep_index_bounds(s.drop_first(), sep);
        assert forall|i: int| 0 <= i < sep_index(s, sep) implies !is_sep(sep, #[trigger] s[i]) by {
            if i > 0 {
                assert(s[i] == s.drop_first()[i - 1]);
            }
        }
    }
}

/// Columns written one after another with one space between each two.
pub open spec fn joined(cols: Seq<Seq<u8>>) -> Seq<u8>
    decreases cols.len(),
{
    if cols.len() == 0 {
        Seq::empty()
    } else if cols.len() == 1 {
        cols[0]
    } else {
        cols[0] + seq![32u8] + joined(cols.drop_first())
    }
}

/// A column holds neither whitespace nor the comment mark `#`.
pub open spec fn plain_column(c: Seq<u8>) -> bool {
    forall|i: int| 0 <= i < c.len() ==> !spec_is_whitespace(#[trigger] c[i]) && c[i] != 35u8
}

proof fn lemma_joined_plain_bytes(cols: Seq<Seq<u8>>)
    requires
        forall|k: int| 0 <= k < cols.len() ==> plain_column(#[trigger] cols[k]),
    ensures
        forall|i: int| 0 <= i < joined(cols).len() ==> #[trigger] joined(cols)[i] != 35u8,
    decreases cols.len(),
{
    if cols.len() > 1 {
        let rest = cols.drop_first();
        assert forall|k: int| 0 <= k < rest.len() implies plain_column(#[trigger] rest[k]) by {
            assert(rest[k] == cols[k + 1]);
        }
        lemma_joined_plain_bytes(rest);
        let j = joined(cols);
        assert forall|i: int| 0 <= i < j.len() implies #[trigger] j[i] != 35u8 by {
            if i < cols[0].len() {
                assert(j[i] == cols[0][i]);
            } else if i > cols[0].len() {
                assert(j[i] == joined(rest)[i - cols[0].len() - 1]);
            }
        }
    } else if cols.len() == 1 {
        assert(plain_column(cols[0]));
    }
}

proof fn lemma_filter_keeps_all<A>(s: Seq<A>, pred: spec_fn(A) -> bool)
    requires
        forall|i: int| 0 <= i < s.len() ==> pred(#[trigger] s[i]),
    ensures
        s.filter(pred) == s,
    decreases s.len(),
{
    reveal(Seq::filter);
    if s.len() > 0 {
        assert forall|i: int| 0 <= i < s.drop_last().len() implies pred(
            #[trigger] s.drop_last()[i],
        ) by {
            assert(s.drop_last()[i] == s[i]);
        }
        lemma_filter_keeps_all(s.drop_last(), pred);
        assert(pred(s[s.len() - 1]));
        assert(s.drop_last().push(s.last()) =~= s);
    }
}

/// Columns joined by single spaces are read back as those columns: no comment is cut,
/// splitting at whitespace gives the columns, and when none is empty they are the
/// line's fields.
pub proof fn lemma_joined_columns(cols: Seq<Seq<u8>>)
    requires
        cols.len() >= 1,
        forall|k: int| 0 <= k < cols.len() ==> plain_column(#[trigger] cols[k]),
    ensures
        comment_free(joined(cols)) == joined(cols),
        split(joined(cols), Sep::Whitespace) == cols,
        (forall|k: int| 0 <= k < cols.len() ==> (#[trigger] cols[k]).len() > 0) ==> fields(
            joined(cols),
        ) == cols,
    decreases cols.len(),
{
    let j = joined(cols);
    lemma_joined_plain_bytes(cols);
    lemma_sep_index(j, Sep::Byte(35u8), j.len() as int);
    assert(j.take(j.len() as int) =~= j);
    assert(plain_column(cols[0]));
    if cols.len() == 1 {
        lemma_sep_index(j, Sep::Whitespace, j.len() as int);
        assert(split(j, Sep::Whitespace) =~= cols);
    } else {
        let rest = cols.drop_first();
        assert forall|k: int| 0 <= k < rest.len() implies plain_column(#[trigger] rest[k]) by {
            assert(rest[k] == cols[k + 1]);
        }
        lemma_joined_columns(rest);
        let k0 = cols[0].len() as int;
        assert forall|i: int| 0 <= i < k0 implies !is_sep(Sep::Whitespace, #[trigger] j[i]) by {
            assert(j[i] == cols[0][i]);
        }
        assert(j[k0] == 32u8);
        lemma_sep_index(j, Sep::Whitespace, k0);
        assert(j.take(k0) =~= cols[0]);
        assert(j.skip(k0 + 1) =~= joined(rest));
        assert(split(j, Sep::Whitespace) =~= cols);
    }
    if forall|k: int| 0 <= k < cols.len() ==> (#[trigger] cols[k]).len() > 0 {
        lemma_filter_keeps_all(cols, |p: Seq<u8>| p.len() > 0);
    }
}

/// Finds the first separator at or after `start`; returns the end when there is none.
fn find_sep(s: &[u8], start: usize, sep: Sep) -> (k: usize)
    requires
        start <= s@.len(),
    ensures
        start <= k <= s@.len(),
        k == start + sep_index(s@.skip(start as int), sep),
{
    let mut k = start;
    while k < s.len() && !matches_sep(sep, s[k])
        invariant
            start <= k <= s@.len(),
            forall|i: int| start <= i < k ==> !is_sep(sep, #[trigger] s@[i]),
        decreases s@.len() - k,
    {
        k = k + 1;
    }
    proof {
        let t = s@.skip(start as int);
        assert forall|i: int| 0 <= i < k - start implies !is_sep(sep, #[trigger] t[i]) by {
            assert(t[i] == s@[start + i]);
        }
        lemma_sep_index(t, sep, k - start);
    }
    k
}

/// Splits `s` at every separator, keeping empty pieces.
pub fn split_by(s: &[u8], sep: Sep) -> (pieces: Vec<&[u8]>)
    ensures
        pieces@.map_values(|p: &[u8]| p@) == split(s@, sep),
{
    let mut pieces: Vec<&[u8]> = Vec::new();
    let mut start: usize = 0;
    proof {
        assert(s@.skip(0) =~= s@);
        assert(pieces@.map_values(|p: &[u8]| p@) =~= Seq::<Seq<u8>>::empty());
        assert(Seq::<Seq<u8>>::empty() + split(s@, sep) =~= split(s@, sep));
    }
    loop
        invariant
            start <= s@.len(),
            pieces@.map_values(|p: &[u8]| p@) + split(s@.skip(start as int), sep) == split(
                s@,
                sep,
            ),
        decreases s@.len() - start,
    {
        let k = find_sep(s, start, sep);
        let ghost t = s@.skip(start as int);
        proof {
            lemma_sep_index_bounds(t, sep);
        }
        pieces.push(&s[start..k]);
        proof {
            assert(s@.subrange(start as int, k as int) =~= t.take(k - start));
        }
        if k >= s.len() {
            proof {
                assert(split(t, sep) =~= seq![t]);
                assert(t =~= s@.subrange(start as int, k as int));
                assert(pieces@.map_values(|p: &[u8]| p@) =~= pieces@.drop_last().map_values(
                    |p: &[u8]| p@,
                ).push(t));
                let e = s@.skip(s@.len() as int);
                assert(e =~= Seq::<u8>::empty());
                assert(sep_index(e, sep) == 0);
                assert(split(e, sep) =~= seq![e]);
            }
            return pieces;
        }
        proof {
            assert(t.skip(k - start + 1) =~= s@.skip(k + 1));
            assert(pieces@.map_values(|p: &[u8]| p@) =~= pieces@.drop_last().map_values(
                |p: &[u8]| p@,
            ).push(t.take(k - start)));
            assert(split(t, sep) =~= seq![t.take(k - start)] + split(s@.skip(k + 1), sep));
        }
        start = k + 1;
    }
}

/// Cuts the line at its first `#`.
pub fn remove_comment(line: &[u8]) -> (r: &[u8])
    ensures
        r@ == comment_free(line@),
{
    let i = find_sep(line, 0, Sep::Byte(35u8));
    proof {
        assert(line@.skip(0) =~= line@);
    }
    &line[0..i]
}

/// The non-empty whitespace separated columns of a line.
pub fn fields_of(s: &[u8]) -> (cols: Vec<&[u8]>)
    ensures
        cols@.map_values(|p: &[u8]| p@) == fields(s@),
{
    let pieces = split_by(s, Sep::Whitespace);
    let mut cols: Vec<&[u8]> = Vec::new();
    let mut i: usize = 0;
    while i < pieces.len()
        invariant
            i <= pieces@.len(),
            pieces@.map_values(|p: &[u8]| p@) == split(s@, Sep::Whitespace),
            cols@.map_values(|p: &[u8]| p@) == pieces@.map_values(|p: &[u8]| p@).take(
                i as int,
            ).filter(|p: Seq<u8>| p.len() > 0),
        decreases pieces@.len() - i,
    {
        let ghost ps = pieces@.map_values(|p: &[u8]| p@);
        proof {
            assert(ps.take(i as int + 1).drop_last() =~= ps.take(i as int));
            reveal(Seq::filter);
        }
        if pieces[i].len() > 0 {
            cols.push(pieces[i]);
            proof {
                assert(cols@.map_values(|p: &[u8]| p@) =~= cols@.drop_last().map_values(
                    |p: &[u8]| p@,
                ).push(ps[i as int]));
            }
        }
        i = i + 1;
    }
    proof {
        assert(pieces@.map_values(|p: &[u8]| p@).take(pieces@.len() as int) =~= pieces@.map_values(
            |p: &[u8]| p@,
        ));
    }
    cols
}

/// `std::str::from_utf8`: trusted to succeed exactly on the byte strings that are valid
/// UTF-8, as vstd's `valid_utf8` describes them.
#[verifier::external_body]
pub fn is_utf8(bytes: &[u8]) -> (r: bool)
    ensures
        r == vstd::utf8::valid_utf8(bytes@),
{
    std::str::from_utf8(bytes).is_ok()
}

/// `s` without the prefix `p`, when `s` starts with it.
pub open spec fn spec_strip_prefix(s: Seq<u8>, p: Seq<u8>) -> Option<Seq<u8>> {
    if p.len() <= s.len() && s.take(p.len() as int) == p {
        Some(s.skip(p.len() as int))
    } else {
        None
    }
}

/// `s` without the prefix `p`, when `s` starts with it.
pub fn strip_prefix<'a>(s: &'a [u8], p: &[u8]) -> (r: Option<&'a [u8]>)
    ensures
        match spec_strip_prefix(s@, p@) {
            Some(rest) => r is Some && r->0@ == rest,
            None => r is None,
        },
{
    if p.len() > s.len() {
        return None;
    }
    let head = &s[0..p.len()];
    if bytes_eq(head, p) {
        proof {
            assert(s@.subrange(p@.len() as int, s@.len() as int) =~= s@.skip(p@.len() as int));
        }
        Some(&s[p.len()..s.len()])
    } else {
        proof {
            assert(head@ =~= s@.take(p@.len() as int));
        }
        None
    }
}

/// Whether two byte strings are equal.
pub fn bytes_eq(a: &[u8], b: &[u8]) -> (r: bool)
    ensures
        r == (a@ == b@),
{
    if a.len() != b.len() {
        return false;
    }
    let mut i: usize = 0;
    while i < a.len()
        invariant
            a@.len() == b@.len(),
            i <= a@.len(),
            forall|j: int| 0 <= j < i ==> a@[j] == b@[j],
        decreases a@.len() - i,
    {
        if a[i] != b[i] {
            return false;
        }
        i = i + 1;
    }
    proof {
        assert(a@ =~= b@);
    }
    true
}

/// The value of a run of ASCII digits.
pub open spec fn digits_value(s: Seq<u8>) -> nat
    decreases s.len(),
{
    if s.len() == 0 {
        0
    } else {
        digits_value(s.drop_last()) * 10 + (s.last() - 48u8) as nat
    }
}

pub open spec fn is_digit(c: u8) -> bool {
    48u8 <= c <= 57u8
}

/// The digits of a decimal number: what follows one leading `+`, if there is one.
pub open spec fn decimal_digits(s: Seq<u8>) -> Seq<u8> {
    if s.len() > 0 && s[0] == 43u8 {
        s.drop_first()
    } else {
        s
    }
}

/// How the standard library reads an unsigned decimal number no larger than `max`: an
/// optional `+`, then one or more ASCII digits, nothing else.
pub open spec fn parse_decimal(s: Seq<u8>, max: nat) -> Option<nat> {
    let d = decimal_digits(s);
    if d.len() > 0 && (forall|i: int| 0 <= i < d.len() ==> is_digit(#[trigger] d[i]))
        && digits_value(d) <= max {
        Some(digits_value(d))
    } else {
        None
    }
}

/// Reading decimal numbers: one digit reads as its value; a digit written after a number
/// `v` makes `10 * v` plus that digit; any other byte after it, and empty text, read as
/// nothing; a leading `+` is skipped; a number above `max` reads as nothing.
pub proof fn lemma_decimal_reading(t: Seq<u8>, v: nat, m: nat, d: nat, c: u8, max: nat)
    requires
        t.len() > 0,
        forall|i: int| 0 <= i < t.len() ==> is_digit(#[trigger] t[i]),
        parse_decimal(t, m) == Some(v),
        d < 10,
    ensures
        parse_decimal(seq![(48 + d) as u8], max) == (if d <= max {
            Some(d)
        } else {
            None
        }),
        parse_decimal(t.push((48 + d) as u8), max) == (if 10 * v + d <= max {
            Some(10 * v + d)
        } else {
            None
        }),
        !(48 <= c <= 57) ==> parse_decimal(t.push(c), max) is None,
        parse_decimal(Seq::<u8>::empty(), max) is None,
        parse_decimal(seq![43u8] + t, max) == parse_decimal(t, max),
{
    let one = seq![(48 + d) as u8];
    assert(((48 + d) as u8) as int == 48 + d);
    assert(one.last() == (48 + d) as u8);
    assert(digits_value(Seq::<u8>::empty()) == 0);
    assert(decimal_digits(one) == one);
    assert(one.drop_last() =~= Seq::<u8>::empty());
    assert(digits_value(one) == d);
    let longer = t.push((48 + d) as u8);
    assert(decimal_digits(t) == t);
    assert(decimal_digits(longer) == longer);
    assert(longer.drop_last() =~= t);
    assert(digits_value(longer) == digits_value(t) * 10 + d);
    assert forall|i: int| 0 <= i < longer.len() implies is_digit(#[trigger] longer[i]) by {
        if i < t.len() {
            assert(longer[i] == t[i]);
        }
    }
    let other = t.push(c);
    assert(decimal_digits(other) == other);
    if !(48 <= c <= 57) {
        assert(!is_digit(other[other.len() - 1]));
    }
    let plus = seq![43u8] + t;
    assert(plus.drop_first() =~= t);
}

proof fn lemma_digits_value_grows(s: Seq<u8>, i: int)
    requires
        0 <= i <= s.len(),
        forall|j: int| 0 <= j < s.len() ==> is_digit(#[trigger] s[j]),
    ensures
        digits_value(s.take(i)) <= digits_value(s),
    decreases s.len() - i,
{
    if i < s.len() {
        lemma_digits_value_grows(s, i + 1);
        assert(s.take(i + 1).drop_last() =~= s.take(i));
    } else {
        assert(s.take(i) =~= s);
    }
}

/// Reads an unsigned decimal number no larger than `max`.
pub fn parse_decimal_exec(s: &[u8], max: u32) -> (r: Option<u32>)
    ensures
        match parse_decimal(s@, max as nat) {
            Some(v) => r == Some(v as u32),
            None => r is None,
        },
{
    let mut start: usize = 0;
    if s.len() > 0 && s[0] == 43u8 {
        start = 1;
    }
    let ghost d = decimal_digits(s@);
    proof {
        assert(d =~= s@.skip(start as int));
    }
    if start >= s.len() {
        return None;
    }
    let mut acc: u64 = 0;
    let mut i: usize = start;
    while i < s.len()
        invariant
            start <= i <= s@.len(),
            start < s@.len(),
            d == s@.skip(start as int),
            d == decimal_digits(s@),
            acc == digits_value(d.take(i - start)),
            acc <= max,
            forall|j: int| 0 <= j < i - start ==> is_digit(#[trigger] d[j]),
        decreases s@.len() - i,
    {
        let c = s[i];
        proof {
            assert(d[i - start] == c);
            assert(d.take(i - start + 1).drop_last() =~= d.take(i - start));
        }
        if c < 48u8 || c > 57u8 {
            proof {
                assert(!is_digit(d[i - start]));
            }
            return None;
        }
        acc = acc * 10 + (c - 48u8) as u64;
        if acc > max as u64 {
            proof {
                if forall|j: int| 0 <= j < d.len() ==> is_digit(#[trigger] d[j]) {
                    lemma_digits_value_grows(d, i - start + 1);
                    assert(digits_value(d) > max);
                }
            }
            return None;
        }
        i = i + 1;
    }
    proof {
        assert(d.take(i - start) =~= d);
    }
    Some(acc as u32)
}

} // verus!
