use lafs::base32::b2a;
use lafs::hashutil::{ssk_pubkey_fingerprint_hash, ssk_writekey_hash};
use lafs::keys::read_private_key_pem;
use lafs::{capability_for_key, derive_lafs_mutable, is_supported_format, mutable_capability, DeriveError};
use rsa::pkcs1::{DecodeRsaPrivateKey, EncodeRsaPrivateKey};
use rsa::pkcs8::{EncodePrivateKey, EncodePublicKey, LineEnding};
use rsa::RsaPrivateKey;

fn generate_rsa_private_key() -> RsaPrivateKey {
    let mut rng = rand::thread_rng();
    RsaPrivateKey::new(&mut rng, 2048).expect("failed to generate RSA private key")
}

/// The base-64 lines of a 1024-bit key made for these tests, as a PKCS#1 document.
fn fixed_key_pkcs1_body() -> String {
    let lines = [
        "MIICXQIBAAKBgQCp0FgdQlhVNuyu+EMy9mM2LJSS8Ki+4Vi+v1eG1kxltIcFhAJQ",
        "f6ysCT/cnAjRg4IVdAiO8kqxvjkmyWuh0VGMWar29AdqJQGl1km4cvvm208LqfLC",
        "aJRvVcaCL3mALh5VILVoCuehsx6rLH7pC3Ymb5EjqS0Z3bAdnAMWAGjh8QIDAQAB",
        "AoGBAKH9w/C1d3pi2MnYvpIBBIeLY3gA55ifc38THLXd/CcRXbRfR63u/ZNnh2o1",
        "1xu2bgN1Gyzx6VtBcVeU0X4eJcFFJE8CcwE71mhRn5lMi70S9pwokirIzYhliOY5",
        "SwY2P6VxpMRRFjmLctOnvNy2ylWx/gecLaiHo594IBNHKvShAkEA2cNFd9qNbeQ3",
        "b5NkaZC+uhIHQh2iPrpi1YIynTDyslesyJ80zhX2bMPLVVj8FwxrQXT+3O8bHl2t",
        "gk3ZOzUhfQJBAMehtDm5dH2PREHXwS329rPVj6ICqaWvnx+/IcH9u/Ao2kd8Rqfj",
        "X1mZX4oISRLAV8PEwPLokOkncig0munRLIUCQED6x+vvx2wXQYOF09y8WG1lm8za",
        "0uMs8vkLFNdbF9Cn4OMsvrEQVKw38KDTIMYv6oFpy/NZVhpFkdTkLgJA5HECQHGw",
        "cp4pMuFK1PmWcOrHacoSxqDiWVEFil6fEA+VfBGSgnURnn+Aas3xHcrTWyI1rgXM",
        "qIHt1pEhqM6i3tJoEK0CQQCzLtCmzSaGsTyHy0D4DWYDh72UZJOVnPv2nrqenFyC",
        "mgtGjLIJoQXNEMawcSG/ehYx6A1Sw7pQrs+kLH0gm6M+",
    ];
    lines.join("\n")
}

/// The same key as a PKCS#8 document.
fn fixed_key_pkcs8_body() -> String {
    let lines = [
        "MIICdwIBADANBgkqhkiG9w0BAQEFAASCAmEwggJdAgEAAoGBAKnQWB1CWFU27K74",
        "QzL2YzYslJLwqL7hWL6/V4bWTGW0hwWEAlB/rKwJP9ycCNGDghV0CI7ySrG+OSbJ",
        "a6HRUYxZqvb0B2olAaXWSbhy++bbTwup8sJolG9VxoIveYAuHlUgtWgK56GzHqss",
        "fukLdiZvkSOpLRndsB2cAxYAaOHxAgMBAAECgYEAof3D8LV3emLYydi+kgEEh4tj",
        "eADnmJ9zfxMctd38JxFdtF9Hre79k2eHajXXG7ZuA3UbLPHpW0FxV5TRfh4lwUUk",
        "TwJzATvWaFGfmUyLvRL2nCiSKsjNiGWI5jlLBjY/pXGkxFEWOYty06e83LbKVbH+",
        "B5wtqIejn3ggE0cq9KECQQDZw0V32o1t5Ddvk2RpkL66EgdCHaI+umLVgjKdMPKy",
        "V6zInzTOFfZsw8tVWPwXDGtBdP7c7xseXa2CTdk7NSF9AkEAx6G0Obl0fY9EQdfB",
        "Lfb2s9WPogKppa+fH78hwf278CjaR3xGp+NfWZlfighJEsBXw8TA8uiQ6SdyKDSa",
        "6dEshQJAQPrH6+/HbBdBg4XT3LxYbWWbzNrS4yzy+QsU11sX0Kfg4yy+sRBUrDfw",
        "oNMgxi/qgWnL81lWGkWR1OQuAkDkcQJAcbByniky4UrU+ZZw6sdpyhLGoOJZUQWK",
        "Xp8QD5V8EZKCdRGef4BqzfEdytNbIjWuBcyoge3WkSGozqLe0mgQrQJBALMu0KbN",
        "JoaxPIfLQPgNZgOHvZRkk5Wc+/aeup6cXIKaC0aMsgmhBc0QxrBxIb96FjHoDVLD",
        "ulCuz6QsfSCboz4=",
    ];
    lines.join("\n")
}

fn armour(kind: &str, body: &str) -> String {
    format!("-----BEGIN {kind}-----\n{body}\n-----END {kind}-----\n", kind = kind, body = body)
}

fn fixed_key_pkcs1_pem() -> String {
    armour("RSA PRIVATE KEY", &fixed_key_pkcs1_body())
}

fn fixed_key_pkcs8_pem() -> String {
    armour("PRIVATE KEY", &fixed_key_pkcs8_body())
}

const FIXED_KEY_WRITEKEY: &str = "r2bqisiab7woi3bkdtz4ysy5ye";
const FIXED_KEY_FINGERPRINT: &str = "t3oobcybiu3gmsa5dln27mg7wlrmegfd44qbmhuixq3kwof3ydja";

#[test]
fn test_derive_lafs_mutable_from_pkcs1() {
    let private_key = generate_rsa_private_key();
    let pem_pkcs1 = private_key.to_pkcs1_pem(LineEnding::LF).unwrap();
    let result = derive_lafs_mutable(&pem_pkcs1, "SSK").unwrap();
    assert_eq!(result.starts_with("URI:SSK:"), true);
}

#[test]
fn test_derive_lafs_mutable_from_pkcs8() {
    let private_key = generate_rsa_private_key();
    let pem_pkcs8 = private_key.to_pkcs8_pem(LineEnding::LF).unwrap();
    let result = derive_lafs_mutable(&pem_pkcs8, "SSK").unwrap();
    assert_eq!(result.starts_with("URI:SSK:"), true);
}

#[test]
fn test_derive_lafs_mutable_pkcs1_eq_pkcs8() {
    let private_key = generate_rsa_private_key();
    let pem_pkcs1 = private_key.to_pkcs1_pem(LineEnding::LF).unwrap();
    let pem_pkcs8 = private_key.to_pkcs8_pem(LineEnding::LF).unwrap();
    let result_pkcs1 = derive_lafs_mutable(&pem_pkcs1, "SSK").unwrap();
    let result_pkcs8 = derive_lafs_mutable(&pem_pkcs8, "SSK").unwrap();
    assert_eq!(result_pkcs1, result_pkcs8);
}

#[test]
fn fixed_key_gives_known_sdmf_capability() {
    let expected = format!("URI:SSK:{}:{}", FIXED_KEY_WRITEKEY, FIXED_KEY_FINGERPRINT);
    assert_eq!(derive_lafs_mutable(&fixed_key_pkcs1_pem(), "SSK"), Ok(expected));
}

#[test]
fn fixed_key_gives_known_mdmf_capability() {
    let expected = format!("URI:MDMF:{}:{}", FIXED_KEY_WRITEKEY, FIXED_KEY_FINGERPRINT);
    assert_eq!(derive_lafs_mutable(&fixed_key_pkcs8_pem(), "MDMF"), Ok(expected));
}

#[test]
fn fixed_key_same_capability_from_both_containers() {
    let legacy = derive_lafs_mutable(&fixed_key_pkcs1_pem(), "SSK");
    let modern = derive_lafs_mutable(&fixed_key_pkcs8_pem(), "SSK");
    assert!(legacy.is_ok());
    assert_eq!(legacy, modern);
}

#[test]
fn derivation_is_repeatable() {
    let pem = fixed_key_pkcs8_pem();
    assert_eq!(derive_lafs_mutable(&pem, "MDMF"), derive_lafs_mutable(&pem, "MDMF"));
    assert_eq!(derive_lafs_mutable(&pem, "nope"), derive_lafs_mutable(&pem, "nope"));
}

#[test]
fn capability_has_four_fields_of_the_expected_lengths() {
    let uri = derive_lafs_mutable(&fixed_key_pkcs1_pem(), "MDMF").unwrap();
    let fields: Vec<&str> = uri.split(':').collect();
    assert_eq!(fields.len(), 4);
    assert_eq!(fields[0], "URI");
    assert_eq!(fields[1], "MDMF");
    assert_eq!(fields[2].len(), 26);
    assert_eq!(fields[3].len(), 52);
}

#[test]
fn both_readings_give_the_same_encodings() {
    let legacy = read_private_key_pem(&fixed_key_pkcs1_pem()).unwrap();
    let modern = read_private_key_pem(&fixed_key_pkcs8_pem()).unwrap();
    assert_eq!(legacy.private_der, modern.private_der);
    assert_eq!(legacy.public_der, modern.public_der);
    assert_eq!(legacy.private_der.len(), 635);
    assert_eq!(legacy.public_der.len(), 162);
    assert_eq!(legacy.private_der[0], 0x30);
    assert_eq!(legacy.public_der[0], 0x30);
}

#[test]
fn encodings_are_those_of_the_key() {
    let private_key = RsaPrivateKey::from_pkcs1_pem(&fixed_key_pkcs1_pem()).unwrap();
    let key = read_private_key_pem(&fixed_key_pkcs1_pem()).unwrap();
    assert_eq!(key.private_der, private_key.to_pkcs8_der().unwrap().as_bytes().to_vec());
    assert_eq!(
        key.public_der,
        private_key.to_public_key().to_public_key_der().unwrap().as_bytes().to_vec()
    );
}

#[test]
fn text_that_is_no_key_is_a_parse_error() {
    assert_eq!(derive_lafs_mutable("", "SSK"), Err(DeriveError::Parse));
    assert_eq!(derive_lafs_mutable("not a key", "SSK"), Err(DeriveError::Parse));
    let wrong_label = armour("EC PRIVATE KEY", &fixed_key_pkcs1_body());
    assert_eq!(derive_lafs_mutable(&wrong_label, "SSK"), Err(DeriveError::Parse));
    let swapped = armour("PRIVATE KEY", &fixed_key_pkcs1_body());
    assert_eq!(derive_lafs_mutable(&swapped, "SSK"), Err(DeriveError::Parse));
    assert!(read_private_key_pem("not a key").is_none());
}

#[test]
fn unknown_label_is_an_unsupported_format() {
    let pem = fixed_key_pkcs1_pem();
    assert_eq!(derive_lafs_mutable(&pem, "CHK"), Err(DeriveError::UnsupportedFormat));
    assert_eq!(derive_lafs_mutable(&pem, ""), Err(DeriveError::UnsupportedFormat));
    assert_eq!(derive_lafs_mutable(&pem, "ssk"), Err(DeriveError::UnsupportedFormat));
    assert_eq!(derive_lafs_mutable(&pem, "SSK:"), Err(DeriveError::UnsupportedFormat));
    assert_eq!(derive_lafs_mutable(&pem, "MDM"), Err(DeriveError::UnsupportedFormat));
}

#[test]
fn parse_error_comes_before_unsupported_format() {
    assert_eq!(derive_lafs_mutable("not a key", "CHK"), Err(DeriveError::Parse));
    assert_eq!(capability_for_key(None, "CHK"), Err(DeriveError::Parse));
    assert_eq!(capability_for_key(None, "SSK"), Err(DeriveError::Parse));
}

#[test]
fn supported_formats_are_ssk_and_mdmf() {
    assert!(is_supported_format("SSK"));
    assert!(is_supported_format("MDMF"));
    assert!(!is_supported_format("SDMF"));
    assert!(!is_supported_format("SSL"));
    assert!(!is_supported_format("mdmf"));
    assert!(!is_supported_format(""));
    assert!(!is_supported_format("SS\u{39a}"));
}

#[test]
fn capability_is_assembled_from_hashes_of_the_encodings() {
    let private_der = [1u8, 2, 3];
    let public_der = [4u8, 5];
    let writekey = String::from_utf8(b2a(&ssk_writekey_hash(&private_der))).unwrap();
    let fingerprint = String::from_utf8(b2a(&ssk_pubkey_fingerprint_hash(&public_der))).unwrap();
    assert_eq!(
        mutable_capability("SSK", &private_der, &public_der),
        format!("URI:SSK:{}:{}", writekey, fingerprint)
    );
}

#[test]
fn capability_of_empty_encodings() {
    assert_eq!(
        mutable_capability("SSK", b"", b""),
        "URI:SSK:ykpgmdbpgbb6yqz5oluw2q26ye:3opzw4hhm2sgncjx224qmt5ipqgagn7h5zivnfzqycvgqgmgz35q"
    );
}
