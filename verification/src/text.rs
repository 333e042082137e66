//! The small grammar of scene descriptions, on bytes: blanks, separators
//! and decimal numbers.

use crate::scalar::{clamp, saturate, Scalar};
use vstd::prelude::*;
use vstd::slice::slice_subrange;

verus! {

/// The bytes that the grammar names.
pub const TAB: u8 = 9;

pub const NEWLINE: u8 = 10;

pub const SPACE: u8 = 32;

pub const PLUS: u8 = 43;

pub const COMMA: u8 = 44;

pub const MINUS: u8 = 45;

pub const POINT: u8 = 46;

pub const SLASH: u8 = 47;

pub const ZERO: u8 = 48;

/// A space or a tab.
pub open spec fn is_blank(b: u8) -> bool {
    b == SPACE || b == TAB
}

/// A byte that counts as white space at the ends of a line or a field.
pub open spec fn is_space(b: u8) -> bool {
    b == SPACE || (TAB <= b <= 13)
}

/// A decimal digit.
pub open spec fn is_digit(b: u8) -> bool {
    ZERO <= b <= 57
}

/// The first `n` bytes of `s` with every run of blanks replaced by one
/// space.
pub open spec fn collapsed_upto(s: Seq<u8>, n: int) -> Seq<u8>
    decreases n,
{
    if n <= 0 {
        Seq::empty()
    } else if !is_blank(s[n - 1]) {
        collapsed_upto(s, n - 1).push(s[n - 1])
    } else if n >= 2 && is_blank(s[n - 2]) {
        collapsed_upto(s, n - 1)
    } else {
        collapsed_upto(s, n - 1).push(SPACE)
    }
}

/// `s` with every run of blanks replaced by one space.
pub open spec fn to_single_whitespace_spec(s: Seq<u8>) -> Seq<u8> {
    collapsed_upto(s, s.len() as int)
}

/// Replaces every run of spaces and tabs by one space.
pub fn to_single_whitespace(s: &[u8]) -> (out: Vec<u8>)
    ensures
        out@ == to_single_whitespace_spec(s@),
{
    let mut out: Vec<u8> = Vec::new();
    let mut i: usize = 0;
    while i < s.len()
        invariant
            i <= s.len(),
            out@ == collapsed_upto(s@, i as int),
        decreases s.len() - i,
    {
        let c = s[i];
        if c == SPACE || c == TAB {
            if !(i >= 1 && (s[i - 1] == SPACE || s[i - 1] == TAB)) {
                out.push(SPACE);
            }
        } else {
            out.push(c);
        }
        i = i + 1;
    }
    out
}

/// Tells whether two texts hold the same bytes.
pub fn same_bytes(a: &[u8], b: &[u8]) -> (r: bool)
    ensures
        r == (a@ == b@),
{
    if a.len() != b.len() {
        return false;
    }
    let mut k: usize = 0;
    while k < a.len()
        invariant
            k <= a.len(),
            a.len() == b.len(),
            forall|j: int| 0 <= j < k ==> a@[j] == b@[j],
        decreases a.len() - k,
    {
        if a[k] != b[k] {
            return false;
        }
        k = k + 1;
    }
    assert(a@ =~= b@);
    true
}

/// The separator `sep` stands in `s` at index `at`.
pub open spec fn stands_at(s: Seq<u8>, sep: Seq<u8>, at: int) -> bool {
    0 <= at && at + sep.len() <= s.len() && s.subrange(at, at + sep.len()) == sep
}

fn found_at(s: &[u8], sep: &[u8], at: usize) -> (r: bool)
    requires
        at <= s.len(),
    ensures
        r == stands_at(s@, sep@, at as int),
{
    if sep.len() > s.len() - at {
        return false;
    }
    let mut k: usize = 0;
    while k < sep.len()
        invariant
            k <= sep.len(),
            at + sep.len() <= s.len(),
            forall|j: int| 0 <= j < k ==> s@[at + j] == sep@[j],
        decreases sep.len() - k,
    {
        if s[at + k] != sep[k] {
            assert(s@.subrange(at as int, at + sep.len())[k as int] != sep@[k as int]);
            return false;
        }
        k = k + 1;
    }
    assert(s@.subrange(at as int, at + sep.len()) =~= sep@);
    true
}

/// The pieces into which the separators cut `s`, where the piece at hand
/// begins at `start` and the search for the next separator stands at `at`.
/// Separators are found from left to right and do not overlap.
pub open spec fn pieces(s: Seq<u8>, sep: Seq<u8>, start: int, at: int) -> Seq<Seq<u8>>
    decreases s.len() - at,
{
    if sep.len() == 0 || at < 0 || at + sep.len() > s.len() {
        seq![s.subrange(start, s.len() as int)]
    } else if stands_at(s, sep, at) {
        seq![s.subrange(start, at)] + pieces(s, sep, at + sep.len(), at + sep.len())
    } else {
        pieces(s, sep, start, at + 1)
    }
}

/// The pieces of `s` between the separators: one more than there are
/// separators.
pub open spec fn split_spec(s: Seq<u8>, sep: Seq<u8>) -> Seq<Seq<u8>> {
    pieces(s, sep, 0, 0)
}

/// The pieces put together again, the separator between each two.
pub open spec fn join_spec(parts: Seq<Seq<u8>>, sep: Seq<u8>) -> Seq<u8>
    decreases parts.len(),
{
    if parts.len() == 0 {
        Seq::empty()
    } else if parts.len() == 1 {
        parts[0]
    } else {
        parts[0] + sep + join_spec(parts.drop_first(), sep)
    }
}

/// The views of a list of slices.
pub open spec fn views(list: Seq<&[u8]>) -> Seq<Seq<u8>> {
    Seq::new(list.len(), |i: int| list[i]@)
}

/// Cuts `s` at every separator.
pub fn split<'a>(s: &'a [u8], sep: &[u8]) -> (out: Vec<&'a [u8]>)
    ensures
        views(out@) == split_spec(s@, sep@),
{
    let mut out: Vec<&'a [u8]> = Vec::new();
    let mut start: usize = 0;
    let mut at: usize = 0;
    if sep.len() > 0 {
        while sep.len() <= s.len() - at
            invariant
                sep.len() > 0,
                start <= at <= s.len(),
                split_spec(s@, sep@) == views(out@) + pieces(s@, sep@, start as int, at as int),
            decreases s.len() - at,
        {
            if found_at(s, sep, at) {
                let piece = slice_subrange(s, start, at);
                let ghost before = views(out@);
                out.push(piece);
                assert(views(out@) =~= before + seq![s@.subrange(start as int, at as int)]);
                at = at + sep.len();
                start = at;
            } else {
                at = at + 1;
            }
        }
    }
    let last = slice_subrange(s, start, s.len());
    let ghost before = views(out@);
    out.push(last);
    assert(views(out@) =~= before + seq![s@.subrange(start as int, s@.len() as int)]);
    out
}

/// The index of the first byte at or after `from` that is no white space,
/// or the length of `s`.
pub open spec fn skip_spaces(s: Seq<u8>, from: int) -> int
    decreases s.len() - from,
{
    if 0 <= from < s.len() && is_space(s[from]) {
        skip_spaces(s, from + 1)
    } else {
        from
    }
}

/// The index after the last byte before `to` and not before `from` that is
/// no white space, or `from`.
pub open spec fn drop_spaces(s: Seq<u8>, from: int, to: int) -> int
    decreases to,
{
    if 0 <= from < to <= s.len() && is_space(s[to - 1]) {
        drop_spaces(s, from, to - 1)
    } else {
        to
    }
}

/// `s` without the white space at its ends.
pub open spec fn trim_spec(s: Seq<u8>) -> Seq<u8> {
    let from = skip_spaces(s, 0);
    s.subrange(from, drop_spaces(s, from, s.len() as int))
}

fn space(b: u8) -> (r: bool)
    ensures
        r == is_space(b),
{
    b == SPACE || (TAB <= b && b <= 13)
}

/// Drops the white space at both ends.
pub fn trim<'a>(s: &'a [u8]) -> (out: &'a [u8])
    ensures
        out@ == trim_spec(s@),
{
    let mut from: usize = 0;
    while from < s.len() && space(s[from])
        invariant
            from <= s.len(),
            skip_spaces(s@, 0) == skip_spaces(s@, from as int),
        decreases s.len() - from,
    {
        from = from + 1;
    }
    let mut to: usize = s.len();
    while from < to && space(s[to - 1])
        invariant
            from <= to <= s.len(),
            drop_spaces(s@, from as int, s@.len() as int) == drop_spaces(
                s@,
                from as int,
                to as int,
            ),
        decreases to,
    {
        to = to - 1;
    }
    slice_subrange(s, from, to)
}

/// The digit that stands in `s` at index `i`; zero where none does.
pub open spec fn digit_at(s: Seq<u8>, i: int) -> nat {
    if 0 <= i < s.len() && is_digit(s[i]) {
        (s[i] - ZERO) as nat
    } else {
        0
    }
}

/// The number that the `n` places of `s` from index `from` on spell in
/// decimal, a place without a digit read as zero.
pub open spec fn spelled(s: Seq<u8>, from: int, n: int) -> nat
    decreases n,
{
    if n <= 0 {
        0
    } else {
        spelled(s, from, n - 1) * 10 + digit_at(s, from + n - 1)
    }
}

/// The index of the first byte at or after `from` that is no digit, or the
/// length of `s`.
pub open spec fn digits_end(s: Seq<u8>, from: int) -> int
    decreases s.len() - from,
{
    if 0 <= from < s.len() && is_digit(s[from]) {
        digits_end(s, from + 1)
    } else {
        from
    }
}

/// Where the digits of a number begin: after its sign, if it has one.
pub open spec fn whole_start(s: Seq<u8>) -> int {
    if s.len() > 0 && (s[0] == MINUS || s[0] == PLUS) {
        1
    } else {
        0
    }
}

/// Where the digits after the point begin. Without a point the number has
/// none, and they begin where the digits before it end.
pub open spec fn fraction_start(s: Seq<u8>) -> int {
    let end = digits_end(s, whole_start(s));
    if end < s.len() && s[end] == POINT {
        end + 1
    } else {
        end
    }
}

/// Where the digits after the point end.
pub open spec fn fraction_end(s: Seq<u8>) -> int {
    digits_end(s, fraction_start(s))
}

/// How many digits stand before the point.
pub open spec fn whole_len(s: Seq<u8>) -> int {
    digits_end(s, whole_start(s)) - whole_start(s)
}

/// How many digits stand after the point.
pub open spec fn fraction_len(s: Seq<u8>) -> int {
    fraction_end(s) - fraction_start(s)
}

/// The letter that begins an exponent.
pub open spec fn is_exponent_mark(b: u8) -> bool {
    b == 101 || b == 69
}

/// Where the digits of the exponent begin: after the letter and after the
/// sign of the exponent, if it has one.
pub open spec fn exponent_start(s: Seq<u8>) -> int {
    let at = fraction_end(s) + 1;
    if 0 <= at < s.len() && (s[at] == MINUS || s[at] == PLUS) {
        at + 1
    } else {
        at
    }
}

/// The exponent of ten that `s` names; zero where it names none.
pub open spec fn exponent_value(s: Seq<u8>) -> int {
    let at = fraction_end(s) + 1;
    let from = exponent_start(s);
    let size = spelled(s, from, s.len() - from);
    if fraction_end(s) >= s.len() {
        0
    } else if 0 <= at < s.len() && s[at] == MINUS {
        -size
    } else {
        size as int
    }
}

/// `s` is a decimal number: a sign or none; digits, and a point followed
/// by digits or none, with a digit on at least one side of the point; and an
/// exponent or none, which is the letter `e`, a sign or none, and digits.
/// Nothing else stands in `s`.
pub open spec fn is_number(s: Seq<u8>) -> bool {
    let last = fraction_end(s);
    whole_len(s) + fraction_len(s) > 0 && (last == s.len() || (0 <= last < s.len()
        && is_exponent_mark(s[last]) && exponent_start(s) < s.len() && digits_end(
        s,
        exponent_start(s),
    ) == s.len()))
}

/// The digit at place `j` of the digits of `s`, those before and those
/// after the point taken as one row; zero past the end of the row.
pub open spec fn mantissa_digit(s: Seq<u8>, j: int) -> nat {
    if 0 <= j < whole_len(s) {
        digit_at(s, whole_start(s) + j)
    } else if whole_len(s) <= j < whole_len(s) + fraction_len(s) {
        digit_at(s, fraction_start(s) + j - whole_len(s))
    } else {
        0
    }
}

/// The number that the first `n` places of the row of digits spell.
pub open spec fn placed(s: Seq<u8>, n: int) -> nat
    decreases n,
{
    if n <= 0 {
        0
    } else {
        placed(s, n - 1) * 10 + mantissa_digit(s, n - 1)
    }
}

/// How many places of the row of digits stand before the thirteenth place
/// behind the point, once the exponent has moved the point.
pub open spec fn places_kept(s: Seq<u8>) -> int {
    whole_len(s) + exponent_value(s) + PLACES
}

/// The number that `s` spells, in raw units: what stands after the thirteenth
/// place behind the point is dropped, and the result is saturated.
pub open spec fn number_value(s: Seq<u8>) -> int {
    let size = placed(s, places_kept(s));
    if s.len() > 0 && s[0] == MINUS {
        clamp(-size)
    } else {
        clamp(size as int)
    }
}

/// The number that `s` spells, if it spells one.
pub open spec fn parse_number_spec(s: Seq<u8>) -> Option<Scalar> {
    if is_number(s) {
        Some(Scalar { raw: number_value(s) as i64 })
    } else {
        None
    }
}

fn digit(b: u8) -> (r: bool)
    ensures
        r == is_digit(b),
{
    ZERO <= b && b <= 57
}

/// The decimal places that a number holds.
pub const PLACES: u8 = 13;

/// More than any number that survives saturation.
pub const SIZE_CAP: u128 = 100_000_000_000_000_000_000;

/// More than any exponent that tells between two numbers.
pub const EXPONENT_CAP: u128 = 1_000_000_000_000_000_000_000_000_000_000;

/// What a number grows to after more digits is no less than it was.
pub proof fn lemma_spelled_grows(s: Seq<u8>, from: int, n: int, m: int)
    requires
        0 <= n <= m,
    ensures
        spelled(s, from, n) <= spelled(s, from, m),
    decreases m - n,
{
    if n < m {
        lemma_spelled_grows(s, from, n, m - 1);
        assert(spelled(s, from, m - 1) * 10 >= spelled(s, from, m - 1)) by (nonlinear_arith);
    }
}

/// What the row of digits spells grows with the places.
pub proof fn lemma_placed_grows(s: Seq<u8>, n: int, m: int)
    requires
        n <= m,
    ensures
        placed(s, n) <= placed(s, m),
    decreases m - n,
{
    if n < m {
        lemma_placed_grows(s, n, m - 1);
        if m > 0 {
            assert(placed(s, m - 1) * 10 >= placed(s, m - 1)) by (nonlinear_arith);
        }
    }
}

/// The digits that begin at `from` end at or after `from`, and within `s`
/// where `from` is within it.
pub proof fn lemma_digits_end_bounds(s: Seq<u8>, from: int)
    ensures
        from <= digits_end(s, from),
        from <= s.len() ==> digits_end(s, from) <= s.len(),
    decreases s.len() - from,
{
    if 0 <= from < s.len() && is_digit(s[from]) {
        lemma_digits_end_bounds(s, from + 1);
    }
}

/// A row of digits that spells zero spells zero with any number of places
/// past its end.
pub proof fn lemma_placed_zero(s: Seq<u8>, n: int, m: int)
    requires
        whole_len(s) + fraction_len(s) <= n <= m,
        placed(s, n) == 0,
    ensures
        placed(s, m) == 0,
    decreases m - n,
{
    lemma_digits_end_bounds(s, whole_start(s));
    lemma_digits_end_bounds(s, fraction_start(s));
    if n < m {
        lemma_placed_zero(s, n, m - 1);
        assert(mantissa_digit(s, m - 1) == 0);
    }
}

/// From `from` up to where the digits end, digits stand.
pub proof fn lemma_digits_before_end(s: Seq<u8>, from: int, i: int)
    requires
        0 <= from <= i < digits_end(s, from),
    ensures
        0 <= i < s.len(),
        is_digit(s[i]),
        digits_end(s, from) == digits_end(s, i),
    decreases i - from,
{
    if from < i {
        lemma_digits_before_end(s, from + 1, i);
    }
}

fn scan_digits(s: &[u8], from: usize) -> (end: usize)
    requires
        from <= s.len(),
    ensures
        from <= end <= s.len(),
        end == digits_end(s@, from as int),
{
    let mut i: usize = from;
    while i < s.len() && digit(s[i])
        invariant
            from <= i <= s.len(),
            digits_end(s@, from as int) == digits_end(s@, i as int),
        decreases s.len() - i,
    {
        i = i + 1;
    }
    i
}

/// `size` holds `exact`, or stands at the cap where `exact` is at the cap
/// or over it.
pub open spec fn held(size: u128, exact: nat) -> bool {
    &&& size <= SIZE_CAP
    &&& size < SIZE_CAP ==> size == exact
    &&& size == SIZE_CAP ==> exact >= SIZE_CAP
}

/// Reads the digits from `from` to the end of `s` as a number, held at the
/// cap where it is over it.
fn read_exponent(s: &[u8], from: usize) -> (e: u128)
    requires
        from <= s.len(),
        digits_end(s@, from as int) == s@.len(),
    ensures
        e <= EXPONENT_CAP,
        e < EXPONENT_CAP ==> e == spelled(s@, from as int, s@.len() - from),
        e == EXPONENT_CAP ==> spelled(s@, from as int, s@.len() - from) >= EXPONENT_CAP,
{
    let mut i: usize = from;
    let mut e: u128 = 0;
    while i < s.len()
        invariant
            from <= i <= s.len(),
            digits_end(s@, from as int) == s@.len(),
            e <= EXPONENT_CAP,
            e < EXPONENT_CAP ==> e == spelled(s@, from as int, i - from),
            e == EXPONENT_CAP ==> spelled(s@, from as int, i - from) >= EXPONENT_CAP,
        decreases s.len() - i,
    {
        proof {
            lemma_digits_before_end(s@, from as int, i as int);
        }
        let d = (s[i] - ZERO) as u128;
        assert(d == digit_at(s@, i as int));
        assert(spelled(s@, from as int, i + 1 - from) == spelled(s@, from as int, i - from) * 10
            + d);
        if e >= EXPONENT_CAP / 10 {
            proof {
                if e == EXPONENT_CAP {
                    lemma_spelled_grows(s@, from as int, i - from, i + 1 - from);
                }
            }
            e = EXPONENT_CAP;
        } else {
            e = e * 10 + d;
        }
        i = i + 1;
    }
    e
}

/// Reads the first `n` places of the row of digits.
fn read_places(s: &[u8], n: usize) -> (size: u128)
    requires
        0 <= n <= whole_len(s@) + fraction_len(s@),
    ensures
        held(size, placed(s@, n as int)),
{
    let start: usize = if s.len() > 0 && (s[0] == MINUS || s[0] == PLUS) {
        1
    } else {
        0
    };
    let end = scan_digits(s, start);
    let after: usize = if end < s.len() && s[end] == POINT {
        end + 1
    } else {
        end
    };
    let whole_digits = end - start;
    let mut size: u128 = 0;
    let mut j: usize = 0;
    while j < n
        invariant
            j <= n <= whole_len(s@) + fraction_len(s@),
            start == whole_start(s@),
            end == digits_end(s@, start as int),
            after == fraction_start(s@),
            start <= end <= s.len(),
            after <= s.len(),
            whole_digits == end - start,
            held(size, placed(s@, j as int)),
        decreases n - j,
    {
        proof {
            lemma_digits_end_bounds(s@, after as int);
            if j < whole_digits {
                lemma_digits_before_end(s@, start as int, start + j);
            } else {
                lemma_digits_before_end(s@, after as int, after + (j - whole_digits));
            }
        }
        let at: usize = if j < whole_digits {
            start + j
        } else {
            after + (j - whole_digits)
        };
        let d = (s[at] - ZERO) as u128;
        assert(d == mantissa_digit(s@, j as int));
        assert(placed(s@, j + 1) == placed(s@, j as int) * 10 + d);
        if size >= SIZE_CAP / 10 {
            proof {
                if size == SIZE_CAP {
                    lemma_placed_grows(s@, j as int, j + 1);
                }
            }
            size = SIZE_CAP;
        } else {
            size = size * 10 + d;
        }
        j = j + 1;
    }
    size
}

/// Puts `room` zeros behind the whole row of digits, which spells `size`.
/// Where the result is under the cap, the zeros are fewer than twenty.
fn append_zeros(s: &[u8], size: u128, room: i128) -> (r: u128)
    requires
        room >= 0,
        1 <= size,
        held(size, placed(s@, whole_len(s@) + fraction_len(s@))),
    ensures
        held(r, placed(s@, whole_len(s@) + fraction_len(s@) + room)),
        r < SIZE_CAP ==> room < 20,
{
    let ghost digits = whole_len(s@) + fraction_len(s@);
    let mut r = size;
    let mut zeros: i128 = 0;
    while zeros < room && r < SIZE_CAP
        invariant
            digits == whole_len(s@) + fraction_len(s@),
            0 <= zeros <= room,
            1 <= r,
            held(r, placed(s@, digits + zeros)),
            r < SIZE_CAP ==> r >= pow10(zeros as nat),
        decreases room - zeros,
    {
        proof {
            lemma_digits_end_bounds(s@, whole_start(s@));
            lemma_digits_end_bounds(s@, fraction_start(s@));
        }
        assert(mantissa_digit(s@, digits + zeros) == 0);
        assert(placed(s@, digits + zeros + 1) == placed(s@, digits + zeros) * 10);
        assert(pow10((zeros + 1) as nat) == pow10(zeros as nat) * 10);
        if r >= SIZE_CAP / 10 {
            r = SIZE_CAP;
        } else {
            r = r * 10;
        }
        zeros = zeros + 1;
    }
    proof {
        if r < SIZE_CAP {
            if zeros >= 20 {
                lemma_pow10_grows(20, zeros as nat);
                lemma_pow10_twenty();
            }
        } else {
            lemma_placed_grows(s@, digits + zeros, digits + room);
        }
    }
    r
}

/// The exponent that was read agrees with the exponent that `s` names:
/// it is that exponent, or it stands at the cap where that exponent is at
/// the cap or past it.
pub open spec fn exponent_held(s: Seq<u8>, exponent: u128, downward: bool) -> bool {
    &&& exponent <= EXPONENT_CAP
    &&& exponent < EXPONENT_CAP ==> exponent_value(s) == (if downward {
        -(exponent as int)
    } else {
        exponent as int
    })
    &&& exponent == EXPONENT_CAP ==> (if downward {
        exponent_value(s) <= -(EXPONENT_CAP as int)
    } else {
        exponent_value(s) >= EXPONENT_CAP as int
    })
}

/// Tells whether `s` is a number, and if it is, how many digits stand
/// before the point, how many in all, and the exponent with its direction.
fn read_shape(s: &[u8]) -> (r: Option<(usize, usize, u128, bool)>)
    ensures
        r is Some <==> is_number(s@),
        r matches Some((whole_digits, digits, exponent, downward)) ==> {
            &&& whole_digits == whole_len(s@)
            &&& digits == whole_len(s@) + fraction_len(s@)
            &&& exponent_held(s@, exponent, downward)
        },
{
    let start: usize = if s.len() > 0 && (s[0] == MINUS || s[0] == PLUS) {
        1
    } else {
        0
    };
    let end = scan_digits(s, start);
    let after: usize = if end < s.len() && s[end] == POINT {
        end + 1
    } else {
        end
    };
    let last = scan_digits(s, after);
    let whole_digits = end - start;
    let digits = whole_digits + (last - after);
    if digits == 0 {
        return None;
    }
    if last == s.len() {
        return Some((whole_digits, digits, 0, false));
    }
    if !(s[last] == 101 || s[last] == 69) {
        return None;
    }
    let downward = s.len() - last > 1 && s[last + 1] == MINUS;
    let from: usize = if s.len() - last > 1 && (s[last + 1] == MINUS || s[last + 1] == PLUS) {
        last + 2
    } else {
        last + 1
    };
    if from >= s.len() {
        return None;
    }
    if scan_digits(s, from) != s.len() {
        return None;
    }
    let exponent = read_exponent(s, from);
    Some((whole_digits, digits, exponent, downward))
}

/// Reads a decimal number.
pub fn parse_number(s: &[u8]) -> (r: Option<Scalar>)
    ensures
        r == parse_number_spec(s@),
{
    let negative = s.len() > 0 && s[0] == MINUS;
    let (whole_digits, digits, exponent, downward) = match read_shape(s) {
        Some(shape) => shape,
        None => {
            return None;
        },
    };
    let ghost kept = places_kept(s@);
    // the places that count; where the exponent is held at its cap, they
    // are so many or so few that their number tells nothing more
    let places: i128 = if downward {
        whole_digits as i128 + PLACES as i128 - exponent as i128
    } else {
        whole_digits as i128 + PLACES as i128 + exponent as i128
    };
    assert(exponent < EXPONENT_CAP ==> places == kept);
    assert(exponent == EXPONENT_CAP && downward ==> kept <= places < 0);
    assert(exponent == EXPONENT_CAP && !downward ==> kept >= places >= digits + 20);
    if places <= 0 {
        return Some(Scalar { raw: 0 });
    }
    let size = if places <= digits as i128 {
        read_places(s, places as usize)
    } else {
        let row = read_places(s, digits);
        if row == 0 {
            proof {
                lemma_placed_zero(s@, digits as int, kept);
            }
            0
        } else {
            let padded = append_zeros(s, row, places - digits as i128);
            proof {
                if padded == SIZE_CAP {
                    lemma_placed_grows(s@, places as int, kept);
                }
            }
            padded
        }
    };
    assert(held(size, placed(s@, kept)));
    Some(Scalar { raw: saturate(negative, size) })
}

/// Ten to the power of `n`.
pub open spec fn pow10(n: nat) -> nat
    decreases n,
{
    if n == 0 {
        1
    } else {
        pow10((n - 1) as nat) * 10
    }
}

proof fn lemma_pow10_grows(a: nat, b: nat)
    requires
        a <= b,
    ensures
        1 <= pow10(a) <= pow10(b),
    decreases b,
{
    if a < b {
        lemma_pow10_grows(a, (b - 1) as nat);
    } else if a > 0 {
        lemma_pow10_grows((a - 1) as nat, (a - 1) as nat);
    }
}

proof fn lemma_pow10_twenty()
    ensures
        pow10(20) == 100_000_000_000_000_000_000,
{
    reveal_with_fuel(pow10, 21);
}

} // verus!
