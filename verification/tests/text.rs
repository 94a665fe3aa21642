use wslg_clipboard::text::{
    unix_to_windows_newlines, utf16_to_utf8, utf8_to_utf16, validate_utf8,
    windows_to_unix_newlines, TextError,
};
use wslg_clipboard::MAX_TEXT_BYTES;

#[test]
fn normalizes_newlines_in_both_directions() {
    assert_eq!(windows_to_unix_newlines("a\r\nb\rc\n"), "a\nb\nc\n");
    assert_eq!(unix_to_windows_newlines("a\r\nb\rc\n"), "a\r\nb\r\nc\r\n");
}

#[test]
fn utf_round_trip_preserves_unicode() {
    let input = "中文 😀\nsecond".as_bytes();
    let wide = utf8_to_utf16(input).unwrap();
    assert_eq!(utf16_to_utf8(&wide[..wide.len() - 1]).unwrap(), input);
}

#[test]
fn rejects_embedded_nul() {
    assert_eq!(validate_utf8(b"a\0b"), Err(TextError::EmbeddedNul));
}

#[test]
fn validate_accepts_text_and_rejects_the_rest() {
    assert_eq!(validate_utf8("héllo".as_bytes()), Ok("héllo"));
    assert_eq!(validate_utf8(&[0xff, 0xfe]), Err(TextError::InvalidUtf8));
    let large = vec![b'a'; MAX_TEXT_BYTES + 1];
    assert_eq!(
        validate_utf8(&large),
        Err(TextError::TooLarge { actual: MAX_TEXT_BYTES + 1, limit: MAX_TEXT_BYTES })
    );
    assert_eq!(validate_utf8(b""), Ok(""));
}

#[test]
fn utf16_units_carry_crlf_and_terminator() {
    assert_eq!(utf8_to_utf16(b"a\nb").unwrap(), vec![97, 13, 10, 98, 0]);
    assert_eq!(utf8_to_utf16("😀".as_bytes()).unwrap(), vec![0xD83D, 0xDE00, 0]);
    assert_eq!(utf8_to_utf16(b"a\0"), Err(TextError::EmbeddedNul));
}

#[test]
fn utf16_input_is_checked() {
    assert_eq!(utf16_to_utf8(&[0xD800]), Err(TextError::InvalidUtf16));
    assert_eq!(utf16_to_utf8(&[97, 0, 98]), Err(TextError::EmbeddedNul));
    assert_eq!(utf16_to_utf8(&[97, 13, 10, 98, 13]).unwrap(), b"a\nb\n".to_vec());
}

#[test]
fn newline_conversion_edge_cases() {
    assert_eq!(windows_to_unix_newlines(""), "");
    assert_eq!(windows_to_unix_newlines("\r\r\n\n"), "\n\n\n");
    assert_eq!(unix_to_windows_newlines("\r\n\r"), "\r\n\r\n");
    assert_eq!(windows_to_unix_newlines(&unix_to_windows_newlines("x\ny\rz")), "x\ny\nz");
}

#[test]
fn text_error_messages() {
    assert_eq!(TextError::EmbeddedNul.message(), "clipboard text contains an embedded NUL");
    assert_eq!(
        TextError::TooLarge { actual: 5, limit: 4 }.message(),
        "clipboard text is 5 bytes, limit is 4"
    );
    assert_eq!(TextError::InvalidUtf8.message(), "clipboard text is not valid UTF-8");
    assert_eq!(TextError::InvalidUtf16.message(), "clipboard text is not valid UTF-16");
}

#[test]
fn linux_text_is_normal_after_one_pass() {
    for input in ["a\r\r\nb", "\r", "x\n\ry\r\n", "plain"] {
        let once = windows_to_unix_newlines(input);
        assert!(!once.contains('\r'));
        assert_eq!(windows_to_unix_newlines(&once), once);
    }
}

#[test]
fn newline_forms_are_consistent() {
    for input in ["a\r\r\nb\n", "\r\n\r", "x", "", "\n\n"] {
        let lf = windows_to_unix_newlines(input);
        assert!(lf.len() <= input.len());
        let kept: String = input.chars().filter(|c| *c != '\r' && *c != '\n').collect();
        let kept_lf: String = lf.chars().filter(|c| *c != '\r' && *c != '\n').collect();
        assert_eq!(kept, kept_lf);
        let crlf = unix_to_windows_newlines(input);
        assert_eq!(unix_to_windows_newlines(&crlf), crlf);
        assert_eq!(windows_to_unix_newlines(&crlf), lf);
        assert_eq!(unix_to_windows_newlines(&lf), crlf);
        assert_eq!(crlf.matches('\r').count(), crlf.matches("\r\n").count());
        assert_eq!(crlf.matches('\n').count(), crlf.matches("\r\n").count());
    }
}
