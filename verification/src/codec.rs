//! Secrets as base32 text (RFC 4648, without padding) and the key bytes they stand for.
//!
//! A text of the 32 characters is a number written in base 32, five bits a character. Its bytes
//! are the same number written in base 256, without the last bits of the text that fill no
//! byte.
use crate::error::{ErrorKind, TotpError, TotpResult};
use crate::number::{
    big_endian, bytes_number, lemma_big_endian_len, lemma_bytes_number_bound,
    lemma_bytes_of_number, lemma_number_of_bytes,
};
use crate::text::{normalize, normalized};
use base32::Alphabet;
use vstd::arithmetic::div_mod::{
    lemma_div_by_multiple, lemma_fundamental_div_mod, lemma_fundamental_div_mod_converse,
    lemma_mod_multiples_basic, lemma_multiply_divide_lt,
};
use vstd::arithmetic::power2::{lemma2_to64, lemma_pow2_adds, lemma_pow2_pos, pow2};
use vstd::prelude::*;

verus! {

/// Whether a character is one of the 32 of the base32 alphabet of RFC 4648.
pub open spec fn is_base32_char(ch: char) -> bool {
    ('A' <= ch <= 'Z') || ('2' <= ch <= '7')
}

/// Whether every character of a text is of the base32 alphabet. The padding character is not.
pub open spec fn is_base32_text(text: Seq<char>) -> bool {
    forall|at: int| 0 <= at < text.len() ==> is_base32_char(#[trigger] text[at])
}

/// Whether a text of `len` characters can stand for whole bytes: after its groups of eight
/// characters, 2, 4, 5 or 7 characters hold 1, 2, 3 or 4 bytes, and 1, 3 or 6 hold no whole number.
pub open spec fn is_base32_length(len: nat) -> bool {
    len % 8 != 1 && len % 8 != 3 && len % 8 != 6
}

/// Whether a text, as it stands, is base32 for some bytes.
pub open spec fn is_base32(text: Seq<char>) -> bool {
    is_base32_text(text) && is_base32_length(text.len())
}

/// The five bits that a character of the alphabet stands for: `A` to `Z` are 0 to 25, and `2`
/// to `7` are 26 to 31.
pub open spec fn quintet(ch: char) -> nat {
    if 'A' <= ch <= 'Z' {
        (ch as int - 'A' as int) as nat
    } else {
        (ch as int - '2' as int + 26) as nat
    }
}

/// A text read as a number in base 32, most significant character first.
pub open spec fn base32_number(text: Seq<char>) -> nat
    decreases text.len(),
{
    if text.len() == 0 {
        0
    } else {
        base32_number(text.drop_last()) * 32 + quintet(text.last())
    }
}

/// The number of bits at the end of a text of `len` characters that fill no byte.
pub open spec fn leftover_bits(len: nat) -> nat {
    (len * 5) % 8
}

/// The bytes that a base32 text stands for: five for each eight characters, rounded down,
/// holding the number of the text without its leftover bits.
pub open spec fn decoded(text: Seq<char>) -> Seq<u8> {
    big_endian(base32_number(text) / pow2(leftover_bits(text.len())), text.len() * 5 / 8)
}

/// Bytes that may be missing, as contracts speak of them.
pub open spec fn bytes_view(bytes: Option<Vec<u8>>) -> Option<Seq<u8>> {
    match bytes {
        Some(bytes) => Some(bytes@),
        None => None,
    }
}

/// `base32::decode` with `Alphabet::RFC4648`, on a text that is base32. It reads such a text
/// always, and gives five bytes for each eight characters, rounded down: the number that the
/// text writes in base 32, without its leftover bits, written in base 256.
#[verifier::external_body]
fn decode_rfc4648(text: &str) -> (bytes: Option<Vec<u8>>)
    requires
        is_base32(text@),
    ensures
        bytes_view(bytes) == Some(decoded(text@)),
{
    base32::decode(Alphabet::RFC4648 { padding: false }, text)
}

/// Tells whether a text, as it stands, is base32 for some bytes.
pub fn check_base32(text: &str) -> (valid: bool)
    ensures
        valid == is_base32(text@),
{
    broadcast use vstd::string::is_ascii_spec_bytes;

    if !text.is_ascii() {
        assert(!is_base32_text(text@)) by {
            if is_base32_text(text@) {
                assert forall|at: int| 0 <= at < text@.len() implies '\0' <= #[trigger] text@[at]
                    <= '\u{7f}' by {
                    assert(is_base32_char(text@[at]));
                }
            }
        }
        return false;
    }
    let len: usize = text.unicode_len();
    let mut index: usize = 0;
    while index < len
        invariant
            index <= len == text@.len(),
            text.is_ascii(),
            is_base32_text(text@.take(index as int)),
        decreases len - index,
    {
        let byte: u8 = text.get_ascii(index);
        let in_alphabet: bool = (65 <= byte && byte <= 90) || (50 <= byte && byte <= 55);
        assert(in_alphabet == is_base32_char(text@[index as int]));
        if !in_alphabet {
            return false;
        }
        index = index + 1;
    }
    assert(text@.take(len as int) == text@);
    let rest: usize = len % 8;
    rest != 1 && rest != 3 && rest != 6
}

/// What decoding a text that needs no cleaning gives: its bytes, where it is base32.
pub open spec fn decode_clean_outcome(text: Seq<char>) -> Result<Seq<u8>, ErrorKind> {
    if is_base32(text) {
        Ok(decoded(text))
    } else {
        Err(ErrorKind::InvalidEncoding)
    }
}

/// Bytes or a failure, as contracts speak of them.
pub open spec fn bytes_outcome(result: TotpResult<Vec<u8>>) -> Result<Seq<u8>, ErrorKind> {
    match result {
        Ok(bytes) => Ok(bytes@),
        Err(error) => Err(error.kind),
    }
}

/// Decodes a text that is already clean: no spaces, upper case. It succeeds exactly on base32
/// text, and then gives five bytes for each eight characters, rounded down.
pub fn decode_clean(text: &str) -> (result: TotpResult<Vec<u8>>)
    ensures
        bytes_outcome(result) == decode_clean_outcome(text@),
        result matches Ok(bytes) ==> bytes@.len() == text@.len() * 5 / 8,
{
    if !check_base32(text) {
        return Err(TotpError::of(ErrorKind::InvalidEncoding));
    }
    proof {
        lemma_big_endian_len(
            base32_number(text@) / pow2(leftover_bits(text@.len())),
            text@.len() * 5 / 8,
        );
    }
    match decode_rfc4648(text) {
        Some(bytes) => Ok(bytes),
        None => Err(TotpError::of(ErrorKind::InvalidEncoding)),
    }
}

/// What decoding a secret gives: the bytes of its clean form, where that is base32.
pub open spec fn decode_outcome(text: Seq<char>) -> Result<Seq<u8>, ErrorKind> {
    decode_clean_outcome(normalized(text))
}

/// Decodes a secret as it was typed: spaces and letter case do not count. It succeeds exactly
/// where the clean form of the secret is base32.
pub fn decode(text: &str) -> (result: TotpResult<Vec<u8>>)
    ensures
        bytes_outcome(result) == decode_outcome(text@),
        result matches Ok(bytes) ==> bytes@.len() == normalized(text@).len() * 5 / 8,
{
    let clean: String = normalize(text);
    decode_clean(clean.as_str())
}

/// The character of the alphabet that stands for five bits.
pub open spec fn base32_char(value: nat) -> char {
    if value < 26 {
        (value + 'A' as int) as u8 as char
    } else {
        (value - 26 + '2' as int) as u8 as char
    }
}

/// The last `len` characters of a number written in base 32, most significant first.
pub open spec fn base32_digits(value: nat, len: nat) -> Seq<char>
    decreases len,
{
    if len == 0 {
        Seq::empty()
    } else {
        base32_digits(value / 32, (len - 1) as nat).push(base32_char(value % 32))
    }
}

/// The number of characters that stand for `len` bytes: eight for each five bytes, rounded up.
pub open spec fn encoded_len(len: nat) -> nat {
    (len * 8 + 4) / 5
}

/// The base32 text of some bytes, without padding: the number of the bytes, with zero bits
/// behind it to fill the last character.
pub open spec fn encoded(bytes: Seq<u8>) -> Seq<char> {
    let len = encoded_len(bytes.len());
    base32_digits(bytes_number(bytes) * pow2((len * 5 - bytes.len() * 8) as nat), len)
}

/// Whether the leftover bits of a text are zero, as they are in a text that was encoded.
pub open spec fn is_canonical(text: Seq<char>) -> bool {
    base32_number(text) % pow2(leftover_bits(text.len())) == 0
}

/// A text of `len` characters of the alphabet is a number below 32 to the power `len`.
pub proof fn lemma_base32_number_bound(text: Seq<char>)
    requires
        is_base32_text(text),
    ensures
        base32_number(text) < pow2(text.len() * 5),
    decreases text.len(),
{
    lemma2_to64();
    if text.len() > 0 {
        let front = text.drop_last();
        lemma_base32_number_bound(front);
        assert(is_base32_char(text.last()));
        lemma_pow2_adds(front.len() * 5, 5);
        assert(base32_number(front) * 32 + 32 <= pow2(front.len() * 5) * 32) by (nonlinear_arith)
            requires
                base32_number(front) < pow2(front.len() * 5),
        ;
        assert(front.len() * 5 + 5 == text.len() * 5);
    }
}

/// Writing the number of a text in base 32 gives the text back.
pub proof fn lemma_digits_of_number(text: Seq<char>)
    requires
        is_base32_text(text),
    ensures
        base32_digits(base32_number(text), text.len()) == text,
    decreases text.len(),
{
    if text.len() > 0 {
        let front = text.drop_last();
        let last = text.last();
        lemma_digits_of_number(front);
        assert(is_base32_char(last));
        let number = base32_number(text);
        lemma_fundamental_div_mod_converse(
            number as int,
            32,
            base32_number(front) as int,
            quintet(last) as int,
        );
        assert(base32_char(quintet(last)) == last);
        assert(base32_digits(number, text.len()) =~= front.push(last));
        assert(front.push(last) =~= text);
    }
}

/// The bytes and the leftover bits of a last group of `rest` characters, where a last group
/// can have that many.
spec fn group_bytes(rest: int) -> (int, int) {
    if rest == 0 {
        (0, 0)
    } else if rest == 2 {
        (1, 2)
    } else if rest == 4 {
        (2, 4)
    } else if rest == 5 {
        (3, 1)
    } else {
        (4, 3)
    }
}

/// The characters of a last group that holds `rest` bytes.
spec fn group_chars(rest: int) -> int {
    if rest == 0 {
        0
    } else if rest == 1 {
        2
    } else if rest == 2 {
        4
    } else if rest == 3 {
        5
    } else {
        7
    }
}

/// How the lengths go together: a text of a length that base32 text can have spends its bits
/// on its bytes and on fewer than five leftover bits, and takes as many characters as the
/// encoding of that many bytes.
pub proof fn lemma_lengths_of_text(len: nat)
    requires
        is_base32_length(len),
    ensures
        len * 5 == (len * 5 / 8) * 8 + leftover_bits(len),
        leftover_bits(len) < 5,
        encoded_len(len * 5 / 8) == len,
{
    let groups = len as int / 8;
    let rest = len as int % 8;
    lemma_fundamental_div_mod(len as int, 8);
    let (bytes, bits) = group_bytes(rest);
    let count = groups * 5 + bytes;
    assert(len * 5 == count * 8 + bits);
    lemma_fundamental_div_mod_converse((len * 5) as int, 8, count, bits);
    assert(count * 8 + 4 == len * 5 + (4 - bits));
    lemma_fundamental_div_mod_converse(count * 8 + 4, 5, len as int, 4 - bits);
}

/// How the lengths go together: the text of `count` bytes has a length that base32 text can
/// have, spends fewer than five bits on filling its last character, and stands for `count`
/// bytes.
pub proof fn lemma_lengths_of_bytes(count: nat)
    ensures
        is_base32_length(encoded_len(count)),
        encoded_len(count) * 5 == count * 8 + leftover_bits(encoded_len(count)),
        leftover_bits(encoded_len(count)) < 5,
        encoded_len(count) * 5 / 8 == count,
{
    let groups = count as int / 5;
    let rest = count as int % 5;
    lemma_fundamental_div_mod(count as int, 5);
    let chars = group_chars(rest);
    let len = groups * 8 + chars;
    let bits = chars * 5 - rest * 8;
    assert(0 <= bits < 5);
    assert(count * 8 + 4 == len * 5 + (4 - bits));
    lemma_fundamental_div_mod_converse((count * 8 + 4) as int, 5, len, 4 - bits);
    assert(encoded_len(count) == len);
    lemma_fundamental_div_mod_converse(len, 8, groups, chars);
    assert(len * 5 == count * 8 + bits);
    lemma_fundamental_div_mod_converse(len * 5, 8, count as int, bits);
}

/// A number written in `len` characters is a text of `len` characters of the alphabet, and
/// reading it as a number gives the number back, where it fits.
pub proof fn lemma_number_of_digits(value: nat, len: nat)
    requires
        value < pow2(len * 5),
    ensures
        base32_digits(value, len).len() == len,
        is_base32_text(base32_digits(value, len)),
        base32_number(base32_digits(value, len)) == value,
    decreases len,
{
    lemma2_to64();
    if len > 0 {
        let rest = (len - 1) as nat;
        lemma_pow2_adds(5, rest * 5);
        assert(5 + rest * 5 == len * 5);
        lemma_multiply_divide_lt(value as int, 32, pow2(rest * 5) as int);
        lemma_number_of_digits(value / 32, rest);
        lemma_fundamental_div_mod(value as int, 32);
        let text = base32_digits(value, len);
        let last = base32_char(value % 32);
        assert(text.drop_last() =~= base32_digits(value / 32, rest));
        assert(text.last() == last);
        assert(is_base32_char(last) && quintet(last) == value % 32);
        assert forall|at: int| 0 <= at < text.len() implies is_base32_char(#[trigger] text[at]) by {
            if at < rest {
                assert(text[at] == text.drop_last()[at]);
            }
        }
    }
}

/// Whether the leftover bits of a base32 text are zero shows in its last character alone:
/// they are the lowest bits of that character.
pub proof fn lemma_canonical_in_last_character(text: Seq<char>)
    requires
        is_base32(text),
        text.len() > 0,
    ensures
        leftover_bits(text.len()) < 5,
        is_canonical(text) <==> quintet(text.last()) % pow2(leftover_bits(text.len())) == 0,
{
    let leftover = leftover_bits(text.len());
    let front = base32_number(text.drop_last());
    let last = quintet(text.last());
    lemma_lengths_of_text(text.len());
    lemma2_to64();
    assert(base32_number(text) == front * 32 + last);
    if leftover == 1 {
        lemma_fundamental_div_mod_converse(
            (front * 32 + last) as int,
            2,
            front * 16 + last as int / 2,
            last as int % 2,
        );
    } else if leftover == 2 {
        lemma_fundamental_div_mod_converse(
            (front * 32 + last) as int,
            4,
            front * 8 + last as int / 4,
            last as int % 4,
        );
    } else if leftover == 3 {
        lemma_fundamental_div_mod_converse(
            (front * 32 + last) as int,
            8,
            front * 4 + last as int / 8,
            last as int % 8,
        );
    } else if leftover == 4 {
        lemma_fundamental_div_mod_converse(
            (front * 32 + last) as int,
            16,
            front * 2 + last as int / 16,
            last as int % 16,
        );
    }
}

/// Decoding, then encoding again, gives the text back: a text that is base32 and whose leftover
/// bits are zero is the base32 text of the bytes it stands for.
pub proof fn lemma_decode_then_encode(text: Seq<char>)
    requires
        is_base32(text),
        is_canonical(text),
    ensures
        encoded(decoded(text)) == text,
{
    let len = text.len();
    let count = len * 5 / 8;
    let leftover = leftover_bits(len);
    let number = base32_number(text);
    let unit = pow2(leftover);
    let kept = number / unit;
    lemma_lengths_of_text(len);
    assert(unit > 0) by {
        lemma_pow2_pos(leftover);
    }
    assert(kept < pow2(count * 8)) by {
        lemma_base32_number_bound(text);
        lemma_pow2_adds(leftover, count * 8);
        assert(leftover + count * 8 == len * 5);
        lemma_multiply_divide_lt(number as int, unit as int, pow2(count * 8) as int);
    }
    let bytes = decoded(text);
    assert(bytes == big_endian(kept, count));
    assert(bytes.len() == count) by {
        lemma_big_endian_len(kept, count);
    }
    assert(bytes_number(bytes) == kept) by {
        lemma_number_of_bytes(kept, count);
    }
    assert(kept * unit == number) by {
        lemma_fundamental_div_mod(number as int, unit as int);
        assert(number as int % unit as int == 0);
        assert(kept * unit == unit * kept) by (nonlinear_arith);
    }
    assert((encoded_len(count) * 5 - count * 8) as nat == leftover);
    assert(encoded(bytes) == base32_digits(number, len));
    lemma_digits_of_number(text);
}

/// Decoding a secret, then encoding its bytes, gives the clean form of the secret back, where
/// the secret decodes and the leftover bits of its clean form are zero.
pub proof fn lemma_decode_round_trip(secret: Seq<char>)
    requires
        decode_outcome(secret) is Ok,
        is_canonical(normalized(secret)),
    ensures
        encoded(decode_outcome(secret)->Ok_0) == normalized(secret),
{
    lemma_decode_then_encode(normalized(secret));
}

/// Encoding, then decoding again, gives the bytes back: the base32 text of any bytes is
/// base32, its leftover bits are zero, and it stands for those bytes.
pub proof fn lemma_encode_then_decode(bytes: Seq<u8>)
    ensures
        is_base32(encoded(bytes)),
        is_canonical(encoded(bytes)),
        decoded(encoded(bytes)) == bytes,
{
    let count = bytes.len();
    let len = encoded_len(count);
    let fill = leftover_bits(len);
    let number = bytes_number(bytes);
    let unit = pow2(fill);
    lemma_lengths_of_bytes(count);
    assert((len * 5 - count * 8) as nat == fill);
    let text = encoded(bytes);
    assert(text == base32_digits(number * unit, len));
    assert(unit > 0) by {
        lemma_pow2_pos(fill);
    }
    assert(number * unit < pow2(len * 5)) by {
        lemma_bytes_number_bound(bytes);
        lemma_pow2_adds(count * 8, fill);
        assert(count * 8 + fill == len * 5);
        assert(number * unit < pow2(count * 8) * unit) by (nonlinear_arith)
            requires
                number < pow2(count * 8),
                unit > 0,
        ;
    }
    lemma_number_of_digits(number * unit, len);
    assert(base32_number(text) % unit == 0) by {
        lemma_mod_multiples_basic(number as int, unit as int);
    }
    assert(base32_number(text) / unit == number) by {
        lemma_div_by_multiple(number as int, unit as int);
    }
    assert(decoded(text) == big_endian(number, count));
    lemma_bytes_of_number(bytes);
}

} // verus!
