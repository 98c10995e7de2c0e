use ubase64::alpha::{base64_reverse_alphabet, std_alphabet, url_alphabet};
use ubase64::config::{Base64Config, Base64Padding};
use ubase64::decode::Base64Decoder;
use ubase64::encode::Base64Encoder;
use ubase64::{decode_std, encode_std, Error};

fn rfc4648_cases() -> Vec<(&'static [u8], &'static str)> {
    vec![
        (b"" as &[u8], ""),
        (b"f", "Zg=="),
        (b"fo", "Zm8="),
        (b"foo", "Zm9v"),
        (b"foob", "Zm9vYg=="),
        (b"fooba", "Zm9vYmE="),
        (b"foobar", "Zm9vYmFy"),
    ]
}

fn config_with(padding: Base64Padding) -> Base64Config {
    let alphabet = std_alphabet();
    let rev_alphabet = base64_reverse_alphabet(&alphabet);
    Base64Config::new(alphabet, rev_alphabet, padding)
}

#[test]
fn test_std_decode_rfc4648_tests() {
    for (expected, encoded) in rfc4648_cases() {
        let config = Base64Config::standard();
        let decoder = Base64Decoder::new(&config);
        let decoded = decoder.decode(encoded).unwrap();
        assert_eq!(decoded, expected);
    }
}

#[test]
fn test_std_encode_rfc4648_tests() {
    for (decoded, expected) in rfc4648_cases() {
        let config = Base64Config::standard();
        let encoder = Base64Encoder::new(&config);
        let encoded = encoder.encode(decoded).unwrap();
        assert_eq!(encoded, expected);
    }
}

#[test]
fn test_round_trip_all_policies() {
    let inputs: Vec<&[u8]> = vec![
        b"",
        b"f",
        b"fo",
        b"foo",
        b"foobar",
        &[0, 255, 10, 33, 128, 7],
        &[251, 239, 190],
    ];
    for padding in [Base64Padding::Auto, Base64Padding::Strict, Base64Padding::No] {
        let config = config_with(padding);
        let encoder = Base64Encoder::new(&config);
        let decoder = Base64Decoder::new(&config);
        for input in &inputs {
            let encoded = encoder.encode(input).unwrap();
            let decoded = decoder.decode(&encoded).unwrap();
            assert_eq!(&decoded, input);
        }
    }
}

#[test]
fn test_encode_same_config_twice_is_identical() {
    let config = Base64Config::standard();
    let encoder = Base64Encoder::new(&config);
    let first = encoder.encode(b"some input bytes").unwrap();
    let second = encoder.encode(b"some input bytes").unwrap();
    assert_eq!(first, second);
}

#[test]
fn test_strict_rejects_length_not_multiple_of_four() {
    let config = config_with(Base64Padding::Strict);
    let decoder = Base64Decoder::new(&config);
    assert_eq!(decoder.decode("Zg").unwrap_err(), Error::DecodeInvalidInputLength);
    assert_eq!(decoder.decode("Zm9vY").unwrap_err(), Error::DecodeInvalidInputLength);
    assert_eq!(decoder.decode("Zg==").unwrap(), b"f");
}

#[test]
fn test_no_padding_decode() {
    let config = config_with(Base64Padding::No);
    let decoder = Base64Decoder::new(&config);
    assert_eq!(decoder.decode("Zg").unwrap(), b"f");
    // Pad characters are not stripped under `No`: they pass through the
    // reverse lookup as foreign characters mapping to index 0.
    assert_eq!(decoder.decode("Zg==").unwrap(), &[102, 0, 0]);
}

#[test]
fn test_auto_decodes_padded_and_unpadded() {
    assert_eq!(decode_std("Zg==").unwrap(), b"f");
    assert_eq!(decode_std("Zg").unwrap(), b"f");
    assert_eq!(decode_std("Zm8=").unwrap(), b"fo");
    assert_eq!(decode_std("Zm8").unwrap(), b"fo");
}

#[test]
fn test_remainder_of_one_is_rejected() {
    // Five characters with no padding: post-trim length 5 % 4 == 1.
    assert_eq!(decode_std("Zm9vY").unwrap_err(), Error::DecodeUnexpectedRemainderChars);
    let config = config_with(Base64Padding::No);
    let decoder = Base64Decoder::new(&config);
    assert_eq!(decoder.decode("Zm9vY").unwrap_err(), Error::DecodeUnexpectedRemainderChars);
}

#[test]
fn test_url_safe_substitutes_plus_and_slash() {
    let std_config = config_with(Base64Padding::No);
    let std_encoder = Base64Encoder::new(&std_config);
    let url_config = Base64Config::url_safe();
    let url_encoder = Base64Encoder::new(&url_config);
    assert_eq!(std_encoder.encode(&[251, 239, 190]).unwrap(), "++++");
    assert_eq!(url_encoder.encode(&[251, 239, 190]).unwrap(), "----");
    assert_eq!(std_encoder.encode(&[255, 255, 255]).unwrap(), "////");
    assert_eq!(url_encoder.encode(&[255, 255, 255]).unwrap(), "____");
}

#[test]
fn test_url_safe_round_trip() {
    let config = Base64Config::url_safe();
    let encoder = Base64Encoder::new(&config);
    let decoder = Base64Decoder::new(&config);
    let input: &[u8] = &[251, 239, 190, 255, 255, 255, 1];
    let encoded = encoder.encode(input).unwrap();
    assert_eq!(decoder.decode(&encoded).unwrap(), input);
}

#[test]
fn test_empty_input_every_configuration() {
    for padding in [Base64Padding::Auto, Base64Padding::Strict, Base64Padding::No] {
        let config = config_with(padding);
        let encoder = Base64Encoder::new(&config);
        let decoder = Base64Decoder::new(&config);
        assert_eq!(encoder.encode(b"").unwrap(), "");
        assert_eq!(decoder.decode("").unwrap(), b"");
    }
    let url_config = Base64Config::url_safe();
    assert_eq!(Base64Encoder::new(&url_config).encode(b"").unwrap(), "");
    assert_eq!(Base64Decoder::new(&url_config).decode("").unwrap(), b"");
}

#[test]
fn test_no_padding_policy_encodes_without_padding() {
    let config = config_with(Base64Padding::No);
    let encoder = Base64Encoder::new(&config);
    assert_eq!(encoder.encode(b"f").unwrap(), "Zg");
    assert_eq!(encoder.encode(b"fo").unwrap(), "Zm8");
    assert_eq!(encoder.encode(b"foo").unwrap(), "Zm9v");
}

#[test]
fn test_encode_std_matches_standard_configuration() {
    assert_eq!(encode_std(b"Hello, world!").unwrap(), "SGVsbG8sIHdvcmxkIQ==");
    assert_eq!(decode_std("SGVsbG8sIHdvcmxkIQ==").unwrap(), b"Hello, world!");
}

#[test]
fn test_reverse_alphabet_inverts_forward_alphabet() {
    let alphabet = std_alphabet();
    let rev = base64_reverse_alphabet(&alphabet);
    assert_eq!(rev.len(), 256);
    for (i, c) in alphabet.iter().enumerate() {
        assert_eq!(rev[*c as usize], i as u8);
    }
    assert_eq!(rev[b'A' as usize], 0);
    assert_eq!(rev[b'/' as usize], 63);
    // Bytes outside the alphabet map to 0.
    assert_eq!(rev[b'-' as usize], 0);
    assert_eq!(rev[b'=' as usize], 0);

    let url = url_alphabet();
    let url_rev = base64_reverse_alphabet(&url);
    assert_eq!(url_rev[b'-' as usize], 62);
    assert_eq!(url_rev[b'_' as usize], 63);
    assert_eq!(url_rev[b'+' as usize], 0);
}

#[test]
fn test_out_of_alphabet_bytes_pass_through_lookup() {
    // The decoder makes no membership check: foreign characters read slot 0
    // of the reverse table, aliasing the alphabet's first character.
    assert_eq!(decode_std("!@#$").unwrap(), decode_std("AAAA").unwrap());
}
