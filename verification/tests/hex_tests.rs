use ai_translate::hex::{hex_decode, hex_decode_is_defined, hex_encode, HexError};

#[test]
fn hex_encode_writes_lower_case_pairs() {
    assert_eq!(hex_encode(&[0x00, 0xab, 0xff, 0x10]), "00abff10");
    assert_eq!(hex_encode(&[]), "");
}

#[test]
fn hex_round_trip() {
    let bytes: Vec<u8> = (0..=255u8).collect();
    assert_eq!(hex_decode(&hex_encode(&bytes)).unwrap(), bytes);
}

#[test]
fn hex_decode_accepts_upper_case_and_surrounding_space() {
    assert_eq!(hex_decode(" 0aFF \n").unwrap(), vec![0x0a, 0xff]);
    assert_eq!(hex_decode("").unwrap(), Vec::<u8>::new());
}

#[test]
fn hex_decode_reads_a_plus_sign_as_from_str_radix_does() {
    assert_eq!(hex_decode("+f").unwrap(), vec![0x0f]);
}

#[test]
fn hex_decode_errors() {
    assert_eq!(hex_decode("abc"), Err(HexError::OddLength));
    assert_eq!(hex_decode("zz"), Err(HexError::InvalidDigit));
    assert_eq!(hex_decode("-1"), Err(HexError::InvalidDigit));
    assert_eq!(hex_decode("éé"), Err(HexError::InvalidDigit));
    assert_eq!(HexError::OddLength.message(), "invalid encrypted api key");
    assert_eq!(HexError::InvalidDigit.message(), "invalid digit found in string");
}

#[test]
fn hex_decode_is_defined_where_pairs_fall_on_char_boundaries() {
    assert!(hex_decode_is_defined("00ff"));
    assert!(hex_decode_is_defined("aé"));
    assert!(hex_decode_is_defined("zzaé"));
    assert!(hex_decode_is_defined("éé"));
    assert!(!hex_decode_is_defined("aéb"));
    assert!(!hex_decode_is_defined("00aéb"));
}

#[test]
fn lower_case_hex_text_reads_back_and_encodes_to_itself() {
    let text = "00ff10a9";
    let bytes = hex_decode(text).unwrap();
    assert_eq!(bytes, vec![0x00, 0xff, 0x10, 0xa9]);
    assert_eq!(hex_encode(&bytes), text);
}
