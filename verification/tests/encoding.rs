use rem_exec::encoding::holds_nul;
use rem_exec::{base64_decode, base64_encode, encode_bytes, Encoding};

#[test]
fn base64_encode_handles_empty_and_padding_cases() {
    assert_eq!(base64_encode(b""), "");
    assert_eq!(base64_encode(b"f"), "Zg==");
    assert_eq!(base64_encode(b"fo"), "Zm8=");
    assert_eq!(base64_encode(b"foo"), "Zm9v");
    assert_eq!(base64_encode(b"hello\n"), "aGVsbG8K");
}

#[test]
fn base64_decode_reverses_encode_for_all_padding_cases() {
    for sample in [
        &b""[..],
        b"f",
        b"fo",
        b"foo",
        b"hello\n",
        &[0u8, 1, 2, 253, 254, 255],
    ] {
        assert_eq!(base64_decode(&base64_encode(sample)).unwrap(), sample);
    }
}

#[test]
fn base64_decode_ignores_whitespace_and_rejects_garbage() {
    assert_eq!(base64_decode("Zm9v\n").unwrap(), b"foo");
    assert_eq!(base64_decode(" Zm 9v ").unwrap(), b"foo");
    assert!(base64_decode("Zm9v!").is_err());
    assert!(base64_decode("Zg=").is_err()); // truncated
}

#[test]
fn encode_bytes_picks_utf8_for_text_and_base64_for_binary() {
    assert_eq!(
        encode_bytes(b"plain text\n"),
        ("plain text\n".to_string(), Encoding::Utf8)
    );
    // Embedded NUL and invalid UTF-8 fall back to base64.
    assert_eq!(encode_bytes(b"a\0b").1, Encoding::Base64);
    assert_eq!(encode_bytes(&[0xff, 0xfe]).1, Encoding::Base64);
}

#[test]
fn binary_output_is_shown_as_its_base64() {
    assert_eq!(
        encode_bytes(&[0xff, 0xfe]),
        ("//4=".to_string(), Encoding::Base64)
    );
    assert_eq!(Encoding::Utf8.as_str(), "utf8");
    assert_eq!(Encoding::Base64.as_str(), "base64");
}

#[test]
fn every_byte_survives_base64() {
    let all: Vec<u8> = (0..=255u8).collect();
    for n in 0..all.len() {
        let text = base64_encode(&all[..n]);
        assert_eq!(text.len(), (n + 2) / 3 * 4);
        assert_eq!(base64_decode(&text).unwrap(), &all[..n]);
    }
}

#[test]
fn a_nul_byte_is_noticed() {
    assert!(holds_nul("a\0b"));
    assert!(!holds_nul("ab"));
}

#[test]
fn a_foreign_byte_is_an_error_after_the_padding_too() {
    assert_eq!(base64_decode("Zg==!"), Err("base64: invalid byte 0x21".to_string()));
    assert_eq!(base64_decode("Zg==\n"), Ok(b"f".to_vec()));
    assert_eq!(base64_decode("Zm8= \t!"), Err("base64: invalid byte 0x21".to_string()));
    // Symbols and padding there decode to nothing.
    assert_eq!(base64_decode("Zg==Zg=="), Ok(b"f".to_vec()));
    assert_eq!(base64_decode("Zg==="), Ok(b"f".to_vec()));
    // Inside the padded group a symbol is misplaced.
    assert_eq!(base64_decode("Zg=a"), Err("base64: data after padding".to_string()));
}
