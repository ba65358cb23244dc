//! Header field values as byte strings: the text test, prefixes, splitting on
//! a separator, and unsigned numbers in decimal and hexadecimal.

use vstd::prelude::*;
use vstd::slice::*;
use vstd::string::*;

verus! {

/// A byte that may stand in a header value read as text: printable ASCII or a
/// horizontal tab.
pub open spec fn is_visible_ascii(b: u8) -> bool {
    (32 <= b && b < 127) || b == 9
}

/// A header value can be read as text when every byte of it is visible ASCII.
pub open spec fn is_header_text(value: Seq<u8>) -> bool {
    forall|i: int| 0 <= i < value.len() ==> is_visible_ascii(#[trigger] value[i])
}

/// The views of a list of byte strings.
pub open spec fn views(pieces: Seq<&[u8]>) -> Seq<Seq<u8>> {
    Seq::new(pieces.len(), |i: int| pieces[i]@)
}

/// Whether `pat` stands in `s` at index `at`.
pub open spec fn occurs_at(s: Seq<u8>, pat: Seq<u8>, at: int) -> bool {
    0 <= at && at + pat.len() <= s.len() && s.subrange(at, at + pat.len()) == pat
}

/// The pieces of `s` from `piece_start` on, when the search for the next
/// separator has reached `at`: the separators are the occurrences of `pat`
/// found from left to right, none overlapping another.
pub open spec fn split_scan(s: Seq<u8>, pat: Seq<u8>, piece_start: int, at: int) -> Seq<Seq<u8>>
    decreases s.len() - at,
{
    if pat.len() == 0 || at < piece_start || piece_start < 0 || at + pat.len() > s.len() {
        seq![s.subrange(piece_start, s.len() as int)]
    } else if occurs_at(s, pat, at) {
        seq![s.subrange(piece_start, at)] + split_scan(
            s,
            pat,
            at + pat.len(),
            at + pat.len(),
        )
    } else {
        split_scan(s, pat, piece_start, at + 1)
    }
}

/// The pieces of `s` between the occurrences of a non-empty separator `pat`.
/// There is always at least one piece; with no separator in `s` it is `s`.
pub open spec fn split(s: Seq<u8>, pat: Seq<u8>) -> Seq<Seq<u8>> {
    split_scan(s, pat, 0, 0)
}

/// The pieces joined again, with `pat` between neighbours.
pub open spec fn join(pieces: Seq<Seq<u8>>, pat: Seq<u8>) -> Seq<u8>
    decreases pieces.len(),
{
    if pieces.len() == 0 {
        Seq::empty()
    } else if pieces.len() == 1 {
        pieces[0]
    } else {
        pieces[0] + pat + join(pieces.skip(1), pat)
    }
}

/// A decimal digit.
pub open spec fn is_digit(b: u8) -> bool {
    48 <= b && b <= 57
}

pub open spec fn all_digits(s: Seq<u8>) -> bool {
    forall|i: int| 0 <= i < s.len() ==> is_digit(#[trigger] s[i])
}

/// The number that a string of decimal digits writes.
pub open spec fn digits_value(digits: Seq<u8>) -> nat
    decreases digits.len(),
{
    if digits.len() == 0 {
        0
    } else {
        digits_value(digits.drop_last()) * 10 + (digits.last() - 48) as nat
    }
}

/// What is left of a number's text after one leading plus sign is dropped.
pub open spec fn unsigned_body(text: Seq<u8>) -> Seq<u8> {
    if text.len() > 0 && text[0] == 43 {
        text.skip(1)
    } else {
        text
    }
}

/// The `u64` that `text` writes: an optional `+`, then one or more decimal
/// digits whose value fits. Anything else writes no number.
pub open spec fn parse_unsigned(text: Seq<u8>) -> Option<u64> {
    let body = unsigned_body(text);
    if body.len() > 0 && all_digits(body) && digits_value(body) <= u64::MAX {
        Some(digits_value(body) as u64)
    } else {
        None
    }
}

/// The character for one digit below 16: `0` to `9`, then `a` to `f`.
pub open spec fn digit_char(d: nat) -> u8 {
    if d < 10 {
        (48 + d) as u8
    } else {
        (87 + d) as u8
    }
}

/// `n` written in base `base` (2 to 16), most significant digit first and
/// without leading zeros; zero is written `0`.
pub open spec fn radix_digits(n: nat, base: nat) -> Seq<u8>
    decreases n,
    via radix_digits_decreases
{
    if base < 2 || n < base {
        seq![digit_char(n)]
    } else {
        radix_digits(n / base, base).push(digit_char(n % base))
    }
}

#[via_fn]
proof fn radix_digits_decreases(n: nat, base: nat) {
    if base >= 2 && n >= base {
        lemma_quotient_smaller(n, base);
    }
}

/// Dividing a number by a base of at least 2 that does not exceed it gives
/// less.
pub proof fn lemma_quotient_smaller(n: nat, base: nat)
    requires
        2 <= base <= n,
    ensures
        n / base < n,
{
    assert(n / base < n) by (nonlinear_arith)
        requires
            2 <= base <= n,
    ;
}

pub open spec fn decimal(n: nat) -> Seq<u8> {
    radix_digits(n, 10)
}

pub open spec fn lower_hex(n: nat) -> Seq<u8> {
    radix_digits(n, 16)
}

/// The number that `digits` writes in base `base`, read back digit by digit.
pub open spec fn radix_value(digits: Seq<u8>, base: nat) -> nat
    decreases digits.len(),
{
    if digits.len() == 0 {
        0
    } else {
        radix_value(digits.drop_last(), base) * base + char_digit(digits.last())
    }
}

/// The digit that a character of `digit_char` stands for.
pub open spec fn char_digit(c: u8) -> nat {
    if c < 58 {
        (c - 48) as nat
    } else {
        (c - 87) as nat
    }
}

/// The bytes of a string literal.
pub fn literal(s: &str) -> (bytes: Vec<u8>)
    ensures
        bytes@ == s.spec_bytes(),
{
    slice_to_vec(s.as_bytes())
}

/// Appends the bytes of a string literal.
pub fn push_literal(out: &mut Vec<u8>, s: &str)
    ensures
        final(out)@ == old(out)@ + s.spec_bytes(),
{
    push_bytes(out, s.as_bytes());
}

/// Appends `bytes` to `out`.
pub fn push_bytes(out: &mut Vec<u8>, bytes: &[u8])
    ensures
        final(out)@ == old(out)@ + bytes@,
{
    let mut i: usize = 0;
    while i < bytes.len()
        invariant
            i <= bytes.len(),
            out@ == old(out)@ + bytes@.take(i as int),
        decreases bytes.len() - i,
    {
        out.push(bytes[i]);
        i += 1;
    }
    assert(bytes@.take(bytes.len() as int) == bytes@);
}

/// A copy of `bytes`.
pub fn copy_bytes(bytes: &[u8]) -> (out: Vec<u8>)
    ensures
        out@ == bytes@,
{
    let mut out: Vec<u8> = Vec::new();
    push_bytes(&mut out, bytes);
    out
}

/// Whether a header value can be read as text.
pub fn header_is_text(value: &[u8]) -> (ok: bool)
    ensures
        ok == is_header_text(value@),
{
    let mut i: usize = 0;
    while i < value.len()
        invariant
            i <= value.len(),
            forall|j: int| 0 <= j < i ==> is_visible_ascii(#[trigger] value@[j]),
        decreases value.len() - i,
    {
        let b: u8 = value[i];
        if !((b >= 32 && b < 127) || b == 9) {
            return false;
        }
        i += 1;
    }
    true
}

/// Whether two byte strings are the same.
pub fn bytes_equal(a: &[u8], b: &[u8]) -> (same: bool)
    ensures
        same == (a@ == b@),
{
    if a.len() != b.len() {
        return false;
    }
    let mut i: usize = 0;
    while i < a.len()
        invariant
            i <= a.len(),
            a.len() == b.len(),
            a@.take(i as int) == b@.take(i as int),
        decreases a.len() - i,
    {
        if a[i] != b[i] {
            return false;
        }
        assert(a@.take(i + 1) == a@.take(i as int).push(a@[i as int]));
        assert(b@.take(i + 1) == b@.take(i as int).push(b@[i as int]));
        i += 1;
    }
    assert(a@.take(a.len() as int) == a@);
    assert(b@.take(b.len() as int) == b@);
    true
}

/// Whether `pat` stands in `text` at index `at`.
pub fn matches_at(text: &[u8], pat: &[u8], at: usize) -> (yes: bool)
    ensures
        yes == occurs_at(text@, pat@, at as int),
{
    if pat.len() > text.len() || at > text.len() - pat.len() {
        return false;
    }
    bytes_equal(slice_subrange(text, at, at + pat.len()), pat)
}

/// Whether `text` begins with `prefix`.
pub fn starts_with(text: &[u8], prefix: &[u8]) -> (yes: bool)
    ensures
        yes == prefix@.is_prefix_of(text@),
{
    matches_at(text, prefix, 0)
}

/// Splits `text` at every occurrence of the separator `pat`, found from left
/// to right. With an empty separator the text stays in one piece.
pub fn split_on<'a>(text: &'a [u8], pat: &[u8]) -> (pieces: Vec<&'a [u8]>)
    ensures
        views(pieces@) == split(text@, pat@),
        pieces@.len() >= 1,
{
    let mut pieces: Vec<&'a [u8]> = Vec::new();
    let mut start: usize = 0;
    let mut at: usize = 0;
    assert(views(pieces@) + split_scan(text@, pat@, 0, 0) == split(text@, pat@));
    while pat.len() > 0 && pat.len() <= text.len() && at <= text.len() - pat.len()
        invariant
            start <= at <= text.len(),
            split(text@, pat@) == views(pieces@) + split_scan(
                text@,
                pat@,
                start as int,
                at as int,
            ),
        decreases text.len() - at,
    {
        if matches_at(text, pat, at) {
            let ghost before = views(pieces@);
            pieces.push(slice_subrange(text, start, at));
            assert(views(pieces@) == before + seq![text@.subrange(start as int, at as int)]);
            at = at + pat.len();
            start = at;
        } else {
            at = at + 1;
        }
    }
    let ghost before = views(pieces@);
    pieces.push(slice_subrange(text, start, text.len()));
    assert(views(pieces@) == before + seq![text@.subrange(start as int, text.len() as int)]);
    pieces
}

/// Along a string of digits, a prefix never writes a larger number than the
/// whole.
pub proof fn lemma_digits_value_grows(digits: Seq<u8>, k: int)
    requires
        all_digits(digits),
        0 <= k <= digits.len(),
    ensures
        digits_value(digits.take(k)) <= digits_value(digits),
    decreases digits.len(),
{
    if k == digits.len() {
        assert(digits.take(k) == digits);
    } else {
        let init = digits.drop_last();
        assert(init.take(k) == digits.take(k));
        assert(all_digits(init)) by {
            assert forall|i: int| 0 <= i < init.len() implies is_digit(#[trigger] init[i]) by {
                assert(init[i] == digits[i]);
            }
        }
        lemma_digits_value_grows(init, k);
        assert(is_digit(digits[digits.len() - 1]));
    }
}

/// Reads an unsigned decimal number: an optional `+`, then digits. `None` for
/// an empty body, for any other character, and for a value above `u64::MAX`.
pub fn parse_u64(text: &[u8]) -> (value: Option<u64>)
    ensures
        value == parse_unsigned(text@),
{
    let start: usize = if text.len() > 0 && text[0] == 43 {
        1
    } else {
        0
    };
    if start == text.len() {
        return None;
    }
    let ghost body = unsigned_body(text@);
    assert(body == text@.skip(start as int));
    let mut acc: u64 = 0;
    let mut i: usize = start;
    assert(body.take(0) == Seq::<u8>::empty());
    while i < text.len()
        invariant
            start <= i <= text.len(),
            body == text@.skip(start as int),
            body == unsigned_body(text@),
            all_digits(body.take(i - start)),
            acc == digits_value(body.take(i - start)),
        decreases text.len() - i,
    {
        let b: u8 = text[i];
        assert(body[i - start] == b);
        if b < 48 || b > 57 {
            return None;
        }
        let d: u64 = (b - 48) as u64;
        let ghost next = body.take(i - start + 1);
        assert(next.drop_last() == body.take(i - start));
        assert(next.last() == b);
        assert(all_digits(next)) by {
            assert forall|j: int| 0 <= j < next.len() implies is_digit(#[trigger] next[j]) by {
                if j < i - start {
                    assert(next[j] == body.take(i - start)[j]);
                }
            }
        }
        if acc > (u64::MAX - d) / 10 {
            proof {
                assert(digits_value(next) > u64::MAX);
                if all_digits(body) {
                    lemma_digits_value_grows(body, i - start + 1);
                }
            }
            return None;
        }
        acc = acc * 10 + d;
        i += 1;
    }
    assert(body.take(i - start) == body);
    Some(acc)
}

/// The character for a digit below 16.
fn digit_to_char(d: u64) -> (c: u8)
    requires
        d < 16,
    ensures
        c == digit_char(d as nat),
{
    if d < 10 {
        (48 + d) as u8
    } else {
        (87 + d) as u8
    }
}

/// Writes `n` in base `base`.
fn to_radix(n: u64, base: u64) -> (out: Vec<u8>)
    requires
        2 <= base <= 16,
    ensures
        out@ == radix_digits(n as nat, base as nat),
    decreases n,
{
    if n < base {
        let mut out: Vec<u8> = Vec::new();
        out.push(digit_to_char(n));
        assert(out@ == seq![digit_char(n as nat)]);
        out
    } else {
        proof {
            lemma_quotient_smaller(n as nat, base as nat);
        }
        let mut out = to_radix(n / base, base);
        out.push(digit_to_char(n % base));
        out
    }
}

/// Writes `n` in decimal, without sign or leading zeros.
pub fn to_decimal(n: u64) -> (out: Vec<u8>)
    ensures
        out@ == decimal(n as nat),
{
    to_radix(n, 10)
}

/// Writes `n` in hexadecimal with the digits `0` to `9` and `a` to `f`,
/// without prefix or leading zeros.
pub fn to_lower_hex(n: u64) -> (out: Vec<u8>)
    ensures
        out@ == lower_hex(n as nat),
{
    to_radix(n, 16)
}

/// A split always gives at least one piece.
pub proof fn lemma_split_scan_not_empty(s: Seq<u8>, pat: Seq<u8>, piece_start: int, at: int)
    ensures
        split_scan(s, pat, piece_start, at).len() >= 1,
    decreases s.len() - at,
{
    if pat.len() == 0 || at < piece_start || piece_start < 0 || at + pat.len() > s.len() {
    } else if occurs_at(s, pat, at) {
    } else {
        lemma_split_scan_not_empty(s, pat, piece_start, at + 1);
    }
}

/// The pieces of a split, joined again with the separator between them, are
/// the text that was split.
pub proof fn lemma_split_scan_joins_back(s: Seq<u8>, pat: Seq<u8>, piece_start: int, at: int)
    requires
        0 <= piece_start <= at,
        piece_start <= s.len(),
    ensures
        join(split_scan(s, pat, piece_start, at), pat) == s.subrange(piece_start, s.len() as int),
    decreases s.len() - at,
{
    if pat.len() == 0 || at + pat.len() > s.len() {
    } else if occurs_at(s, pat, at) {
        let next = at + pat.len();
        let head = seq![s.subrange(piece_start, at)];
        let rest = split_scan(s, pat, next, next);
        lemma_split_scan_not_empty(s, pat, next, next);
        lemma_split_scan_joins_back(s, pat, next, next);
        assert((head + rest).skip(1) == rest);
        assert((head + rest)[0] == s.subrange(piece_start, at));
        assert(s.subrange(piece_start, at) + pat + s.subrange(next, s.len() as int) == s.subrange(
            piece_start,
            s.len() as int,
        )) by {
            assert(s.subrange(at, next) == pat);
            assert(s.subrange(piece_start, at) + s.subrange(at, next) + s.subrange(
                next,
                s.len() as int,
            ) =~= s.subrange(piece_start, s.len() as int));
        }
    } else {
        lemma_split_scan_joins_back(s, pat, piece_start, at + 1);
    }
}

/// Joining the pieces of a text with the separator gives the text back.
pub proof fn lemma_split_joins_back(s: Seq<u8>, pat: Seq<u8>)
    ensures
        join(split(s, pat), pat) == s,
{
    lemma_split_scan_joins_back(s, pat, 0, 0);
    assert(s.subrange(0, s.len() as int) == s);
}

/// A text shorter than the separator is its own single piece.
pub proof fn lemma_split_short(s: Seq<u8>, pat: Seq<u8>)
    requires
        s.len() < pat.len(),
    ensures
        split(s, pat) == seq![s],
{
    assert(s.subrange(0, s.len() as int) == s);
}

/// Reading back what `radix_digits` wrote gives the number again.
pub proof fn lemma_radix_round_trip(n: nat, base: nat)
    requires
        2 <= base <= 16,
    ensures
        radix_value(radix_digits(n, base), base) == n,
    decreases n,
{
    if n < base {
        let one = seq![digit_char(n)];
        assert(one.drop_last() == Seq::<u8>::empty());
        assert(radix_value(one.drop_last(), base) == 0);
        assert(radix_value(one, base) == 0 * base + char_digit(one.last()));
    } else {
        let init = radix_digits(n / base, base);
        let all = init.push(digit_char(n % base));
        lemma_quotient_smaller(n, base);
        lemma_radix_round_trip(n / base, base);
        assert(all.drop_last() == init);
        assert(char_digit(digit_char(n % base)) == n % base);
        assert(n == (n / base) * base + n % base) by (nonlinear_arith)
            requires
                base > 0,
        ;
    }
}

/// Different numbers are written differently.
pub proof fn lemma_radix_digits_injective(a: nat, b: nat, base: nat)
    requires
        2 <= base <= 16,
        radix_digits(a, base) == radix_digits(b, base),
    ensures
        a == b,
{
    lemma_radix_round_trip(a, base);
    lemma_radix_round_trip(b, base);
}

} // verus!
