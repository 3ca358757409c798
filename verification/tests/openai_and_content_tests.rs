use thief_fm_translation_agent::file_content::{decode_file_bytes, is_escaped_ascii_content};
use thief_fm_translation_agent::openai_client::{
    completion_messages, completion_model, completion_text, is_model_found, ChatRole,
};

#[test]
fn request_has_system_then_user_message() {
    let messages = completion_messages("system prompt", "book text");
    assert_eq!(messages.len(), 2);
    assert_eq!(messages[0].role, ChatRole::System);
    assert_eq!(messages[0].content, "system prompt");
    assert_eq!(messages[1].role, ChatRole::User);
    assert_eq!(messages[1].content, "book text");
    assert_eq!(completion_model(), "gpt-4o");
}

#[test]
fn answer_is_first_choice_content() {
    assert_eq!(
        completion_text(vec![Some("first".to_string()), Some("second".to_string())]),
        Some("first".to_string())
    );
    assert_eq!(completion_text(vec![None, Some("second".to_string())]), None);
    assert_eq!(completion_text(Vec::new()), None);
}

#[test]
fn model_found_when_id_present() {
    assert!(is_model_found("gpt-4o"));
    assert!(!is_model_found(""));
}

#[test]
fn ascii_file_decodes_unchanged() {
    let decoded = decode_file_bytes(b"Garrett's book\r\n");
    assert_eq!(decoded.text, "Garrett's book\r\n");
    assert!(!decoded.had_errors);
    assert!(!decoded.used_fallback);
    assert_eq!(decoded.charset, chardet::detect(b"Garrett's book\r\n").0);
}

#[test]
fn utf8_file_decodes_polish_text() {
    let text = "Zażółć gęślą jaźń, zażółć gęślą jaźń, zażółć gęślą jaźń.";
    let decoded = decode_file_bytes(text.as_bytes());
    assert_eq!(decoded.charset, chardet::detect(text.as_bytes()).0);
    if !decoded.used_fallback {
        assert_eq!(decoded.text, text);
    }
}

#[test]
fn unknown_charset_falls_back() {
    let bytes = [0x81u8, 0x8d, 0x8f, 0x90, 0x9d];
    let decoded = decode_file_bytes(&bytes);
    let known = encoding_rs::Encoding::for_label(decoded.charset.as_bytes()).is_some();
    assert_eq!(decoded.used_fallback, !known);
}

#[test]
fn empty_file_decodes_to_empty_text() {
    let decoded = decode_file_bytes(b"");
    assert_eq!(decoded.text, "");
    assert!(decoded.used_fallback);
    assert!(!decoded.had_errors);
}

#[test]
fn escaped_ascii_is_recognised() {
    assert!(is_escaped_ascii_content(&[0x1b]));
    assert!(is_escaped_ascii_content(b"abc\x1bdef"));
    assert!(is_escaped_ascii_content(&[0x1b, 0xa0]));
    assert!(!is_escaped_ascii_content(b"abcdef"));
    assert!(!is_escaped_ascii_content(&[0x1b, 0xc3, 0xa9]));
    assert!(!is_escaped_ascii_content(b""));
}

#[test]
fn windows_1252_bytes_decode() {
    let bytes = [0x47u8, 0x61, 0x72, 0x72, 0x65, 0x74, 0x74, 0x80];
    let decoded = decode_file_bytes(&bytes);
    let (expected, _, errors) = if decoded.used_fallback {
        encoding_rs::WINDOWS_1252.decode(&bytes)
    } else {
        encoding_rs::Encoding::for_label(decoded.charset.as_bytes()).unwrap().decode(&bytes)
    };
    assert_eq!(decoded.text, expected);
    assert_eq!(decoded.had_errors, errors);
}
