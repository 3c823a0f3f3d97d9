//! Counter-based and time-based one-time passwords (RFC 4226, RFC 6238).
use crate::codec::{decode, decode_outcome, is_base32};
use crate::config::{Record, TotpOptions};
use crate::error::{text_outcome, ErrorKind, TotpError, TotpResult};
use crate::keyed_hash::{counter_bytes, keyed_hash, sign, write_counter, HashAlgorithm};
use crate::secrets::{get_secret, secret_of, Keychain};
use crate::text::{digit_char, digit_to_char, normalized};
use vstd::prelude::*;

verus! {

/// How the code of a record is made.
#[derive(Clone, Copy, Debug, PartialEq, Eq, Structural)]
pub enum TokenAlgorithm {
    /// A time-based one-time password over HMAC-SHA-1, from a base32 secret.
    TotpSha1,
    /// An RSA SecurID token, from an exported token.
    SToken,
}

/// The number of seconds in the time step that RFC 6238 recommends.
pub const RFC6238_RECOMMENDED_TIMESTEP: u64 = 30;

/// The number of digits in a code where nothing else is asked for.
pub const DEFAULT_DIGITS: usize = 6;

/// The longest code that can be asked for.
pub const MAX_DIGITS: usize = 8;

/// Ten to the power `exponent`.
pub open spec fn pow10(exponent: nat) -> nat
    decreases exponent,
{
    if exponent == 0 {
        1
    } else {
        10 * pow10((exponent - 1) as nat)
    }
}

/// Where in a signature its code is read: the low four bits of the last byte.
pub open spec fn dynamic_offset(signature: Seq<u8>) -> int {
    signature.last() as int % 16
}

/// Whether a signature is long enough to hold the four bytes at its dynamic offset.
pub open spec fn can_truncate(signature: Seq<u8>) -> bool {
    signature.len() >= 1 && dynamic_offset(signature) + 4 <= signature.len()
}

/// The 31-bit number that a signature holds at its dynamic offset: four bytes, most
/// significant first, without the top bit of the first.
pub open spec fn truncated(signature: Seq<u8>) -> int {
    let offset = dynamic_offset(signature);
    (signature[offset] as int % 128) * 0x100_0000 + signature[offset + 1] as int * 0x1_0000
        + signature[offset + 2] as int * 0x100 + signature[offset + 3] as int
}

/// Dynamic truncation of a signature (RFC 4226, section 5.3).
pub fn truncate(signature: &[u8]) -> (value: u32)
    requires
        can_truncate(signature@),
    ensures
        value == truncated(signature@),
        value < 0x8000_0000,
{
    let last: u8 = signature[signature.len() - 1];
    let offset: usize = (last & 0xF) as usize;
    assert(last & 0xF == last % 16) by (bit_vector);
    let high: u8 = signature[offset];
    let mid: u8 = signature[offset + 1];
    let lower: u8 = signature[offset + 2];
    let bottom: u8 = signature[offset + 3];
    let value: u32 = ((high as u32 & 0x7F) << 24) | ((mid as u32) << 16) | ((lower as u32) << 8)
        | (bottom as u32);
    assert(((high as u32 & 0x7F) << 24) | ((mid as u32) << 16) | ((lower as u32) << 8) | (
    bottom as u32) == (high as u32 % 128) * 0x100_0000 + (mid as u32) * 0x1_0000 + (lower as u32)
        * 0x100 + (bottom as u32)) by (bit_vector);
    value
}

/// Ten to the power `exponent`, for the powers that fit in 32 bits.
fn power_of_ten(exponent: usize) -> (power: u32)
    requires
        exponent <= 9,
    ensures
        power == pow10(exponent as nat),
{
    proof {
        reveal_with_fuel(pow10, 10);
    }
    match exponent {
        0 => 1,
        1 => 10,
        2 => 100,
        3 => 1_000,
        4 => 10_000,
        5 => 100_000,
        6 => 1_000_000,
        7 => 10_000_000,
        8 => 100_000_000,
        _ => 1_000_000_000,
    }
}

/// The decimal digit of `code` that stands `index` places from the left when `code` is written
/// in `digits` digits.
pub open spec fn code_digit(code: nat, digits: nat, index: int) -> int {
    (code / pow10((digits - 1 - index) as nat)) as int % 10
}

/// `code` written in exactly `digits` decimal digits, with zeros in front where it is short.
pub open spec fn code_digits(code: nat, digits: nat) -> Seq<char> {
    Seq::new(digits, |index: int| digit_char(code_digit(code, digits, index)))
}

/// Writes a code in exactly `digits` decimal digits, with zeros in front where it is short.
pub fn format_code(code: u32, digits: usize) -> (text: String)
    requires
        1 <= digits <= 9,
        code < pow10(digits as nat),
    ensures
        text@ == code_digits(code as nat, digits as nat),
        text@.len() == digits,
{
    let mut text = String::new();
    let mut index: usize = 0;
    while index < digits
        invariant
            index <= digits <= 9,
            text@.len() == index,
            forall|at: int|
                0 <= at < index ==> text@[at] == digit_char(
                    code_digit(code as nat, digits as nat, at),
                ),
        decreases digits - index,
    {
        let power: u32 = power_of_ten(digits - 1 - index);
        assert(power > 0) by {
            reveal_with_fuel(pow10, 10);
        }
        let digit: u8 = ((code / power) % 10) as u8;
        text.push(digit_to_char(digit));
        index = index + 1;
    }
    text
}

/// The number that the signature of `counter` under `key` truncates to.
pub open spec fn hotp_value(key: Seq<u8>, counter: u64, algorithm: HashAlgorithm) -> int {
    truncated(keyed_hash(algorithm, key, counter_bytes(counter)))
}

/// The code of `counter` under `key`: the truncated signature of the counter's eight bytes,
/// reduced to `digits` decimal digits.
pub open spec fn hotp_code(
    key: Seq<u8>,
    counter: u64,
    algorithm: HashAlgorithm,
    digits: nat,
) -> Seq<char> {
    code_digits((hotp_value(key, counter, algorithm) % pow10(digits) as int) as nat, digits)
}

/// What asking for a code gives: the code, where `digits` is a length that codes can have.
pub open spec fn hotp_outcome(
    key: Seq<u8>,
    counter: u64,
    algorithm: HashAlgorithm,
    digits: nat,
) -> Result<Seq<char>, ErrorKind> {
    if 1 <= digits <= MAX_DIGITS {
        Ok(hotp_code(key, counter, algorithm, digits))
    } else {
        Err(ErrorKind::DigitsOutOfRange)
    }
}

/// A code has the length that was asked for, and is made of decimal digits: zeros in front
/// are kept.
pub proof fn lemma_code_has_its_digits(
    key: Seq<u8>,
    counter: u64,
    algorithm: HashAlgorithm,
    digits: nat,
)
    ensures
        hotp_code(key, counter, algorithm, digits).len() == digits,
        forall|at: int|
            0 <= at < digits ==> '0' <= #[trigger] hotp_code(key, counter, algorithm, digits)[at]
                <= '9',
        hotp_outcome(key, counter, algorithm, digits) matches Ok(code) ==> code.len() == digits,
{
}

/// The one-time password of `counter` under `key` (RFC 4226), in `digits` decimal digits.
///
/// The code is a function of the four arguments. It has exactly `digits` characters, each a
/// decimal digit. A length outside `1..=8` is refused.
pub fn hotp(key: &[u8], counter: u64, algorithm: HashAlgorithm, digits: usize) -> (result:
    TotpResult<String>)
    ensures
        text_outcome(result) == hotp_outcome(key@, counter, algorithm, digits as nat),
        result matches Ok(code) ==> code@.len() == digits && forall|at: int|
            0 <= at < code@.len() ==> '0' <= #[trigger] code@[at] <= '9',
{
    if digits < 1 || digits > MAX_DIGITS {
        return Err(TotpError::of(ErrorKind::DigitsOutOfRange));
    }
    let message: [u8; 8] = write_counter(counter);
    let signature: Vec<u8> = sign(algorithm, key, message.as_slice());
    let value: u32 = truncate(signature.as_slice());
    let modulus: u32 = power_of_ten(digits);
    assert(modulus > 0) by {
        reveal_with_fuel(pow10, 10);
    }
    let code: u32 = value % modulus;
    let text: String = format_code(code, digits);
    Ok(text)
}

/// The index of the time step that holds the moment `time_since_epoch`.
pub open spec fn time_counter(time_since_epoch: u64, time_step: u64) -> u64 {
    (time_since_epoch / time_step) as u64
}

/// The time-based one-time password (RFC 6238) of the moment `time_since_epoch`, in seconds
/// since the Unix epoch, for time steps of `time_step` seconds: the code of the step's index.
pub fn totp(
    secret: &[u8],
    time_since_epoch: u64,
    time_step: u64,
    length: usize,
    algo: HashAlgorithm,
) -> (result: TotpResult<String>)
    requires
        time_step > 0,
    ensures
        text_outcome(result) == hotp_outcome(
            secret@,
            time_counter(time_since_epoch, time_step),
            algo,
            length as nat,
        ),
        result matches Ok(code) ==> code@.len() == length,
{
    hotp(secret, time_since_epoch / time_step, algo, length)
}

/// What asking for the standard code of a secret gives: the six-digit code over SHA-1 of the
/// time step of 30 seconds that holds the moment `now`, where the secret is base32.
pub open spec fn sha1_code_outcome(secret: Seq<char>, now: u64) -> Result<Seq<char>, ErrorKind> {
    match decode_outcome(secret) {
        Ok(key) => hotp_outcome(
            key,
            time_counter(now, RFC6238_RECOMMENDED_TIMESTEP),
            HashAlgorithm::Sha1,
            DEFAULT_DIGITS as nat,
        ),
        Err(kind) => Err(kind),
    }
}

/// The standard time-based code of a base32 secret at the moment `now`, in seconds since the
/// Unix epoch: six digits, SHA-1, steps of 30 seconds. Spaces and letter case in the secret do
/// not count. It fails exactly where the secret is not base32.
pub fn generate_sha1_code(secret: String, now: u64) -> (result: TotpResult<String>)
    ensures
        text_outcome(result) == sha1_code_outcome(secret@, now),
        result is Ok <==> is_base32(normalized(secret@)),
        result matches Ok(code) ==> code@.len() == DEFAULT_DIGITS,
        result matches Err(error) ==> error.kind == ErrorKind::InvalidEncoding,
{
    match decode(secret.as_str()) {
        Ok(key) => totp(
            key.as_slice(),
            now,
            RFC6238_RECOMMENDED_TIMESTEP,
            DEFAULT_DIGITS,
            HashAlgorithm::Sha1,
        ),
        Err(error) => Err(error),
    }
}

/// What asking for the standard code of a record gives: the code of its secret, where the
/// secret is found.
pub open spec fn standard_totp_outcome(
    name: Seq<char>,
    record: Record,
    keychain: Map<Seq<char>, Seq<char>>,
    now: u64,
) -> Result<Seq<char>, ErrorKind> {
    match secret_of(name, record, keychain) {
        Ok(secret) => sha1_code_outcome(secret, now),
        Err(kind) => Err(kind),
    }
}

/// The standard time-based code of the token `name` at the moment `now`: its secret is looked
/// for where the record says, and the code is made from it.
pub fn standard_totp(name: &str, options: &TotpOptions, keychain: &Keychain, now: u64) -> (result:
    TotpResult<String>)
    ensures
        text_outcome(result) == standard_totp_outcome(name@, options@, keychain@, now),
        result matches Ok(code) ==> code@.len() == DEFAULT_DIGITS,
{
    match get_secret(name, options, keychain) {
        Ok(secret) => generate_sha1_code(secret, now),
        Err(error) => Err(error),
    }
}

} // verus!
