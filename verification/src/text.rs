//! Text of bounded length, as the device stores it.
//!
//! The bound is on the UTF-8 bytes. The strings are those of the `heapless`
//! crate, one capacity for each use: 16 bytes for an IP address, 32 for a
//! network name, 64 for a password.

use vstd::prelude::*;

verus! {

/// The fixed-capacity string of the `heapless` crate.
#[verifier::external_type_specification]
#[verifier::external_body]
pub struct ExBoundedString<const N: usize>(heapless::String<N>);

/// `Clone` of a bounded string: the same string.
pub assume_specification<const N: usize>[ <heapless::String<N> as Clone>::clone ](
    s: &heapless::String<N>,
) -> (r: heapless::String<N>)
    ensures
        r == *s,
;

/// How many bytes `chars` take in UTF-8.
pub open spec fn utf8_len(chars: Seq<char>) -> nat {
    vstd::utf8::encode_utf8(chars).len()
}

/// The characters of a string of at most 16 bytes.
pub uninterp spec fn text16(s: heapless::String<16>) -> Seq<char>;

/// `heapless::String::new` at capacity 16: a string without characters.
#[verifier::external_body]
pub(crate) fn new16() -> (s: heapless::String<16>)
    ensures
        text16(s) == Seq::<char>::empty(),
{
    heapless::String::new()
}

/// `heapless::String::push` at capacity 16: appends `c` where its bytes still
/// fit, and else leaves the string as it was and fails.
#[verifier::external_body]
pub(crate) fn push16(s: &mut heapless::String<16>, c: char) -> (r: Result<(), ()>)
    ensures
        if utf8_len(text16(*old(s)).push(c)) <= 16 {
            r is Ok && text16(*final(s)) == text16(*old(s)).push(c)
        } else {
            r is Err && text16(*final(s)) == text16(*old(s))
        },
{
    s.push(c)
}

/// `heapless::String::as_str` at capacity 16.
#[verifier::external_body]
pub(crate) fn as_str16(s: &heapless::String<16>) -> (r: &str)
    ensures
        r@ == text16(*s),
{
    s.as_str()
}

/// The characters of a string of at most 32 bytes.
pub uninterp spec fn text32(s: heapless::String<32>) -> Seq<char>;

/// `heapless::String::new` at capacity 32: a string without characters.
#[verifier::external_body]
pub(crate) fn new32() -> (s: heapless::String<32>)
    ensures
        text32(s) == Seq::<char>::empty(),
{
    heapless::String::new()
}

/// `heapless::String::push` at capacity 32: appends `c` where its bytes still
/// fit, and else leaves the string as it was and fails.
#[verifier::external_body]
pub(crate) fn push32(s: &mut heapless::String<32>, c: char) -> (r: Result<(), ()>)
    ensures
        if utf8_len(text32(*old(s)).push(c)) <= 32 {
            r is Ok && text32(*final(s)) == text32(*old(s)).push(c)
        } else {
            r is Err && text32(*final(s)) == text32(*old(s))
        },
{
    s.push(c)
}

/// `heapless::String::as_bytes` at capacity 32: the UTF-8 bytes, never more
/// than the capacity.
#[verifier::external_body]
pub(crate) fn bytes32(s: &heapless::String<32>) -> (bytes: &[u8])
    ensures
        bytes@ == vstd::utf8::encode_utf8(text32(*s)),
        bytes@.len() <= 32,
{
    s.as_bytes()
}

/// `heapless::String::try_from` at capacity 32: the same characters, where
/// their bytes fit.
#[verifier::external_body]
pub(crate) fn try_from32(s: &str) -> (r: Result<heapless::String<32>, ()>)
    ensures
        if utf8_len(s@) <= 32 {
            r is Ok && text32(r->Ok_0) == s@
        } else {
            r is Err
        },
{
    heapless::String::try_from(s)
}

/// The characters of a string of at most 64 bytes.
pub uninterp spec fn text64(s: heapless::String<64>) -> Seq<char>;

/// `heapless::String::new` at capacity 64: a string without characters.
#[verifier::external_body]
pub(crate) fn new64() -> (s: heapless::String<64>)
    ensures
        text64(s) == Seq::<char>::empty(),
{
    heapless::String::new()
}

/// `heapless::String::push` at capacity 64: appends `c` where its bytes still
/// fit, and else leaves the string as it was and fails.
#[verifier::external_body]
pub(crate) fn push64(s: &mut heapless::String<64>, c: char) -> (r: Result<(), ()>)
    ensures
        if utf8_len(text64(*old(s)).push(c)) <= 64 {
            r is Ok && text64(*final(s)) == text64(*old(s)).push(c)
        } else {
            r is Err && text64(*final(s)) == text64(*old(s))
        },
{
    s.push(c)
}

/// `heapless::String::as_bytes` at capacity 64: the UTF-8 bytes, never more
/// than the capacity.
#[verifier::external_body]
pub(crate) fn bytes64(s: &heapless::String<64>) -> (bytes: &[u8])
    ensures
        bytes@ == vstd::utf8::encode_utf8(text64(*s)),
        bytes@.len() <= 64,
{
    s.as_bytes()
}

/// `heapless::String::try_from` at capacity 64: the same characters, where
/// their bytes fit.
#[verifier::external_body]
pub(crate) fn try_from64(s: &str) -> (r: Result<heapless::String<64>, ()>)
    ensures
        if utf8_len(s@) <= 64 {
            r is Ok && text64(r->Ok_0) == s@
        } else {
            r is Err
        },
{
    heapless::String::try_from(s)
}

/// Appending a character appends its bytes.
pub(crate) proof fn lemma_utf8_push(chars: Seq<char>, c: char)
    ensures
        vstd::utf8::encode_utf8(chars.push(c)) == vstd::utf8::encode_utf8(chars)
            + vstd::utf8::encode_scalar(c as u32),
    decreases chars.len(),
{
    let more = chars.push(c);
    if chars.len() == 0 {
        assert(more.drop_first() =~= Seq::<char>::empty());
        assert(vstd::utf8::encode_utf8(more.drop_first()) =~= Seq::<u8>::empty());
        assert(more[0] == c);
        assert(vstd::utf8::encode_utf8(chars) =~= Seq::<u8>::empty());
    } else {
        lemma_utf8_push(chars.drop_first(), c);
        assert(more.drop_first() =~= chars.drop_first().push(c));
        assert(more[0] == chars[0]);
    }
}

/// A longer text takes at least as many bytes.
pub(crate) proof fn lemma_utf8_prefix(chars: Seq<char>, n: int)
    requires
        0 <= n <= chars.len(),
    ensures
        utf8_len(chars.take(n)) <= utf8_len(chars),
    decreases chars.len() - n,
{
    if n < chars.len() {
        lemma_utf8_prefix(chars, n + 1);
        lemma_utf8_push(chars.take(n), chars[n]);
        assert(chars.take(n).push(chars[n]) =~= chars.take(n + 1));
    } else {
        assert(chars.take(n) =~= chars);
    }
}

/// `String::push`: appends one character.
pub assume_specification[ String::push ](s: &mut String, c: char)
    ensures
        final(s)@ == old(s)@.push(c),
;

/// The character of a decimal digit.
pub open spec fn digit(d: nat) -> char {
    (48 + d) as char
}

/// `n` in decimal, without leading zeros.
pub open spec fn decimal(n: nat) -> Seq<char>
    decreases n,
{
    if n < 10 {
        seq![digit(n)]
    } else {
        decimal(n / 10).push(digit(n % 10))
    }
}

/// Append `n` in decimal.
pub(crate) fn push_decimal(out: &mut String, n: u64)
    ensures
        final(out)@ == old(out)@ + decimal(n as nat),
    decreases n,
{
    if n >= 10 {
        push_decimal(out, n / 10);
    }
    let d: u8 = (n % 10) as u8;
    out.push((48 + d) as char);
    assert(out@ =~= old(out)@ + decimal(n as nat));
}

/// Text of one byte for each character.
pub open spec fn ascii(chars: Seq<char>) -> bool {
    forall|i: int| 0 <= i < chars.len() ==> (#[trigger] chars[i] as u32) < 128
}

/// ASCII text takes a byte for each character, and the bytes are the characters.
pub(crate) proof fn lemma_ascii_bytes(chars: Seq<char>)
    requires
        ascii(chars),
    ensures
        utf8_len(chars) == chars.len(),
        forall|i: int|
            0 <= i < chars.len() ==> #[trigger] vstd::utf8::encode_utf8(chars)[i] == chars[i] as u32,
    decreases chars.len(),
{
    if chars.len() > 0 {
        let rest = chars.drop_last();
        let c = chars.last() as u32;
        lemma_ascii_bytes(rest);
        lemma_utf8_push(rest, chars.last());
        assert(rest.push(chars.last()) =~= chars);
        assert(vstd::utf8::leading_byte_width_1(c) == c) by (bit_vector)
            requires
                c < 128,
        ;
        assert forall|i: int| 0 <= i < chars.len() implies #[trigger] vstd::utf8::encode_utf8(
            chars,
        )[i] == chars[i] as u32 by {
            if i < rest.len() {
                assert(vstd::utf8::encode_utf8(rest)[i] == rest[i] as u32);
            }
        }
    }
}

pub(crate) proof fn lemma_decimal_ascii(n: nat)
    ensures
        ascii(decimal(n)),
        n < 10 ==> decimal(n).len() == 1,
        10 <= n < 100 ==> decimal(n).len() == 2,
        100 <= n < 1000 ==> decimal(n).len() == 3,
    decreases n,
{
    if n >= 10 {
        lemma_decimal_ascii(n / 10);
    }
}

/// Append a byte in decimal. There has to be room for its digits.
pub(crate) fn push_decimal16(out: &mut heapless::String<16>, n: u8)
    requires
        ascii(text16(*old(out))),
        text16(*old(out)).len() + decimal(n as nat).len() <= 16,
    ensures
        text16(*final(out)) == text16(*old(out)) + decimal(n as nat),
        ascii(text16(*final(out))),
    decreases n,
{
    proof {
        lemma_decimal_ascii(n as nat);
    }
    if n >= 10 {
        push_decimal16(out, n / 10);
    }
    let d: u8 = n % 10;
    let ghost more = text16(*out).push(digit(d as nat));
    proof {
        lemma_ascii_bytes(more);
    }
    let _ = push16(out, (48 + d) as char);
    assert(more =~= text16(*old(out)) + decimal(n as nat));
}

/// The number that decimal digits mean.
pub open spec fn number_of(digits: Seq<char>) -> int
    decreases digits.len(),
{
    if digits.len() == 0 {
        0
    } else {
        10 * number_of(digits.drop_last()) + (digits.last() as u32 - 48)
    }
}

/// A number in decimal means that number, is made of digits alone, and has no
/// leading zero.
pub proof fn law_decimal_means_its_number(n: nat)
    ensures
        number_of(decimal(n)) == n,
        decimal(n).len() > 0,
        forall|i: int| 0 <= i < decimal(n).len() ==> '0' <= (#[trigger] decimal(n)[i]) <= '9',
        n > 0 ==> decimal(n)[0] != '0',
    decreases n,
{
    if n < 10 {
        assert(decimal(n).drop_last() =~= Seq::<char>::empty());
        reveal_with_fuel(number_of, 2);
    } else {
        law_decimal_means_its_number(n / 10);
        assert(decimal(n).drop_last() =~= decimal(n / 10));
    }
}

} // verus!
