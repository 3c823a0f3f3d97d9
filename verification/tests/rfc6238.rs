use otp::keyed_hash::HashAlgorithm;
use otp::totp::{totp, RFC6238_RECOMMENDED_TIMESTEP};
use otp::TotpResult;

const RFC_SECRET_SEED: &[u8] = b"12345678901234567890";

// The seed repeated to the length of the digest (SHA-1: 20 bytes, SHA-256: 32, SHA-512: 64),
// as in appendix A of RFC 6238.
fn rfc6238_test(
    time_since_epoch: u64,
    digest: HashAlgorithm,
    expected_code: &str,
) -> TotpResult<()> {
    let secret: Vec<u8> = std::iter::repeat(RFC_SECRET_SEED)
        .flatten()
        .take(digest.output_len())
        .cloned()
        .collect();

    let code = totp(
        &secret,
        time_since_epoch,
        RFC6238_RECOMMENDED_TIMESTEP,
        8,
        digest,
    )?;

    assert_eq!(code, expected_code);

    Ok(())
}

#[test]
fn rfc6238_sha1_tests() {
    let algo = HashAlgorithm::Sha1;
    rfc6238_test(59, algo, "94287082").unwrap();
    rfc6238_test(1_111_111_109, algo, "07081804").unwrap();
    rfc6238_test(1_111_111_111, algo, "14050471").unwrap();
    rfc6238_test(1_234_567_890, algo, "89005924").unwrap();
    rfc6238_test(2_000_000_000, algo, "69279037").unwrap();
    rfc6238_test(20_000_000_000, algo, "65353130").unwrap();
}

#[test]
fn rfc6238_sha256_tests() {
    let algo = HashAlgorithm::Sha256;
    rfc6238_test(59, algo, "46119246").unwrap();
    rfc6238_test(1_111_111_109, algo, "68084774").unwrap();
    rfc6238_test(1_111_111_111, algo, "67062674").unwrap();
    rfc6238_test(1_234_567_890, algo, "91819424").unwrap();
    rfc6238_test(2_000_000_000, algo, "90698825").unwrap();
    rfc6238_test(20_000_000_000, algo, "77737706").unwrap();
}

#[test]
fn rfc6238_sha512_tests() {
    let algo = HashAlgorithm::Sha512;
    rfc6238_test(59, algo, "90693936").unwrap();
    rfc6238_test(1_111_111_109, algo, "25091201").unwrap();
    rfc6238_test(1_111_111_111, algo, "99943326").unwrap();
    rfc6238_test(1_234_567_890, algo, "93441116").unwrap();
    rfc6238_test(2_000_000_000, algo, "38618901").unwrap();
    rfc6238_test(20_000_000_000, algo, "47863826").unwrap();
}
