//! The keyed hashes (HMAC) that sign a counter, and the bytes they sign.
use crate::number::{big_endian, bytes_number, lemma_big_endian_len, lemma_number_of_bytes};
use byteorder::{BigEndian, ByteOrder};
use crypto::hmac::Hmac;
use crypto::mac::Mac;
use crypto::sha1::Sha1;
use crypto::sha2::{Sha256, Sha512};
use vstd::arithmetic::power2::lemma2_to64;
use vstd::prelude::*;

verus! {

/// The digest that a keyed hash is built on.
#[derive(Clone, Copy, Debug, PartialEq, Eq, Structural)]
pub enum HashAlgorithm {
    Sha1,
    Sha256,
    Sha512,
}

/// HMAC-SHA-1 of `message` under `key`.
pub uninterp spec fn hmac_sha1(key: Seq<u8>, message: Seq<u8>) -> Seq<u8>;

/// HMAC-SHA-256 of `message` under `key`.
pub uninterp spec fn hmac_sha256(key: Seq<u8>, message: Seq<u8>) -> Seq<u8>;

/// HMAC-SHA-512 of `message` under `key`.
pub uninterp spec fn hmac_sha512(key: Seq<u8>, message: Seq<u8>) -> Seq<u8>;

impl HashAlgorithm {
    /// The number of bytes in a signature of this algorithm.
    pub open spec fn signature_len(self) -> nat {
        match self {
            HashAlgorithm::Sha1 => 20,
            HashAlgorithm::Sha256 => 32,
            HashAlgorithm::Sha512 => 64,
        }
    }

    /// The number of bytes in a signature of this algorithm.
    pub fn output_len(self) -> (len: usize)
        ensures
            len == self.signature_len(),
    {
        match self {
            HashAlgorithm::Sha1 => 20,
            HashAlgorithm::Sha256 => 32,
            HashAlgorithm::Sha512 => 64,
        }
    }
}

/// The signature of `message` under `key` with the given algorithm.
pub open spec fn keyed_hash(algorithm: HashAlgorithm, key: Seq<u8>, message: Seq<u8>) -> Seq<u8> {
    match algorithm {
        HashAlgorithm::Sha1 => hmac_sha1(key, message),
        HashAlgorithm::Sha256 => hmac_sha256(key, message),
        HashAlgorithm::Sha512 => hmac_sha512(key, message),
    }
}

/// `crypto::hmac::Hmac` over `crypto::sha1::Sha1`: keyed with `key`, fed `message` once, and
/// finished. The code is a function of the two byte strings and has the 20 bytes of a SHA-1 digest.
#[verifier::external_body]
fn sign_sha1(key: &[u8], message: &[u8]) -> (code: Vec<u8>)
    ensures
        code@ == hmac_sha1(key@, message@),
        code@.len() == 20,
{
    let mut mac = Hmac::new(Sha1::new(), key);
    mac.input(message);
    mac.result().code().to_vec()
}

/// `crypto::hmac::Hmac` over `crypto::sha2::Sha256`: keyed with `key`, fed `message` once, and
/// finished. The code is a function of the two byte strings and has the 32 bytes of a SHA-256
/// digest.
#[verifier::external_body]
fn sign_sha256(key: &[u8], message: &[u8]) -> (code: Vec<u8>)
    ensures
        code@ == hmac_sha256(key@, message@),
        code@.len() == 32,
{
    let mut mac = Hmac::new(Sha256::new(), key);
    mac.input(message);
    mac.result().code().to_vec()
}

/// `crypto::hmac::Hmac` over `crypto::sha2::Sha512`: keyed with `key`, fed `message` once, and
/// finished. The code is a function of the two byte strings and has the 64 bytes of a SHA-512
/// digest.
#[verifier::external_body]
fn sign_sha512(key: &[u8], message: &[u8]) -> (code: Vec<u8>)
    ensures
        code@ == hmac_sha512(key@, message@),
        code@.len() == 64,
{
    let mut mac = Hmac::new(Sha512::new(), key);
    mac.input(message);
    mac.result().code().to_vec()
}

/// Signs `message` under `key` with the given algorithm.
pub fn sign(algorithm: HashAlgorithm, key: &[u8], message: &[u8]) -> (signature: Vec<u8>)
    ensures
        signature@ == keyed_hash(algorithm, key@, message@),
        signature@.len() == algorithm.signature_len(),
{
    match algorithm {
        HashAlgorithm::Sha1 => sign_sha1(key, message),
        HashAlgorithm::Sha256 => sign_sha256(key, message),
        HashAlgorithm::Sha512 => sign_sha512(key, message),
    }
}

/// The eight bytes of `counter`, most significant first: the message that a code signs.
pub open spec fn counter_bytes(counter: u64) -> Seq<u8> {
    big_endian(counter as nat, 8)
}

/// `byteorder::BigEndian::write_u64` into a buffer of eight bytes: the buffer then holds the
/// bytes of `counter` in big-endian order.
#[verifier::external_body]
pub(crate) fn write_counter(counter: u64) -> (buffer: [u8; 8])
    ensures
        buffer@ == counter_bytes(counter),
{
    let mut buffer = [0u8; 8];
    BigEndian::write_u64(&mut buffer, counter);
    buffer
}

/// Counters that differ are signed as messages that differ: the bytes of a counter, read as a
/// number, are the counter.
pub proof fn lemma_counter_bytes_differ(first: u64, second: u64)
    ensures
        counter_bytes(first).len() == 8,
        bytes_number(counter_bytes(first)) == first,
        first != second ==> counter_bytes(first) != counter_bytes(second),
{
    lemma2_to64();
    lemma_number_of_bytes(first as nat, 8);
    lemma_number_of_bytes(second as nat, 8);
    lemma_big_endian_len(first as nat, 8);
}

} // verus!
