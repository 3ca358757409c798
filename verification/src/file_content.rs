use vstd::prelude::*;
use vstd::string::*;
use vstd::utf8::*;

use encoding_rs::Encoding;

use crate::constants::FALLBACK_ENCODING_LABEL;

verus! {

/// The charset name that `chardet::detect` reports for some bytes.
pub uninterp spec fn detected_charset(bytes: Seq<u8>) -> Seq<char>;

/// Whether `encoding_rs::Encoding::for_label` knows a label.
pub uninterp spec fn is_encoding_label(label: Seq<u8>) -> bool;

/// The text, and whether malformed sequences were replaced, that
/// `encoding_rs::Encoding::decode` gives for `bytes` with the encoding that
/// `label` names.
pub uninterp spec fn decoded_with_label(label: Seq<u8>, bytes: Seq<u8>) -> (Seq<char>, bool);

/// Bytes that all lie in the ASCII range.
pub open spec fn is_ascii_bytes(bytes: Seq<u8>) -> bool {
    forall|i: int| 0 <= i < bytes.len() ==> bytes[i] < 0x80
}

/// The characters that ASCII bytes stand for.
pub open spec fn ascii_text(bytes: Seq<u8>) -> Seq<char> {
    bytes.map_values(|b: u8| b as char)
}

/// The label `ascii`, in bytes.
pub open spec fn ascii_label() -> Seq<u8> {
    seq![0x61u8, 0x73u8, 0x63u8, 0x69u8, 0x69u8]
}

/// The label `windows-1252`, in bytes.
pub open spec fn windows_1252_label() -> Seq<u8> {
    seq![
        0x77u8,
        0x69u8,
        0x6eu8,
        0x64u8,
        0x6fu8,
        0x77u8,
        0x73u8,
        0x2du8,
        0x31u8,
        0x32u8,
        0x35u8,
        0x32u8,
    ]
}

/// The labels of Windows-1252 that decoding of ASCII relies on.
pub open spec fn is_windows_1252_label(label: Seq<u8>) -> bool {
    label == ascii_label() || label == windows_1252_label()
}

/// A byte that charset detection counts as non-ASCII: its top bit is set, and it
/// is not the no-break space 0xA0.
pub open spec fn is_detection_high_byte(b: u8) -> bool {
    b >= 0x80 && b != 0xa0
}

/// Bytes with an ESC (0x1B) and no byte that detection counts as non-ASCII.
/// Detection then probes for escape-coded charsets (ISO-2022, HZ), and when
/// that probing recognises nothing, `chardet::detect` stops at an unreachable
/// state and panics.
pub open spec fn is_escaped_ascii(bytes: Seq<u8>) -> bool {
    &&& forall|i: int| 0 <= i < bytes.len() ==> !is_detection_high_byte(#[trigger] bytes[i])
    &&& exists|i: int| 0 <= i < bytes.len() && bytes[i] == 0x1bu8
}

/// Whether some bytes are escaped ASCII, on which charset detection panics.
pub fn is_escaped_ascii_content(bytes: &[u8]) -> (escaped: bool)
    ensures
        escaped == is_escaped_ascii(bytes@),
{
    let n = bytes.len();
    let mut has_escape = false;
    for i in 0..n
        invariant
            n == bytes@.len(),
            forall|k: int| 0 <= k < i ==> !is_detection_high_byte(#[trigger] bytes@[k]),
            has_escape <==> exists|k: int| 0 <= k < i && bytes@[k] == 0x1bu8,
    {
        let b = bytes[i];
        if b >= 0x80 && b != 0xa0 {
            assert(is_detection_high_byte(bytes@[i as int]));
            return false;
        }
        if b == 0x1b {
            has_escape = true;
        }
    }
    has_escape
}

/// Calls `chardet::detect`, which runs a fresh detector over all of `bytes`, and
/// keeps the charset name it reports; the result is named `detected_charset`.
/// Empty input gets the empty name, and non-empty ASCII input without ESC gets
/// `ascii`. Escaped ASCII is left out, since detection may panic on it. The
/// confidence and language that it also reports are dropped.
#[verifier::external_body]
fn detect_charset(bytes: &[u8]) -> (charset: String)
    requires
        !is_escaped_ascii(bytes@),
    ensures
        charset@ == detected_charset(bytes@),
        bytes@.len() == 0 ==> charset@.len() == 0,
        bytes@.len() > 0 && is_ascii_bytes(bytes@) && !is_escaped_ascii(bytes@) ==> charset@
            == seq!['a', 's', 'c', 'i', 'i'],
{
    chardet::detect(bytes).0
}

/// Looks the encoding up with `encoding_rs::Encoding::for_label` and, when the
/// label is known, decodes with `Encoding::decode`; the result is named
/// `decoded_with_label`. The empty label is unknown; `ascii` and `windows-1252`
/// are labels of Windows-1252, which decodes ASCII bytes to the same
/// characters without errors.
#[verifier::external_body]
fn decode_with_label(label: &[u8], bytes: &[u8]) -> (decoded: Option<(String, bool)>)
    ensures
        decoded is Some <==> is_encoding_label(label@),
        match decoded {
            Some(d) => d.0@ == decoded_with_label(label@, bytes@).0 && d.1 == decoded_with_label(
                label@,
                bytes@,
            ).1,
            None => true,
        },
        label@.len() == 0 ==> decoded is None,
        is_windows_1252_label(label@) ==> decoded is Some,
        is_windows_1252_label(label@) && is_ascii_bytes(bytes@) ==> match decoded {
            Some(d) => d.0@ == ascii_text(bytes@) && !d.1,
            None => false,
        },
{
    match Encoding::for_label(label) {
        Some(encoding) => {
            let (text, _used, had_errors) = encoding.decode(bytes);
            Some((text.into_owned(), had_errors))
        },
        None => None,
    }
}

/// A file's text, decoded with the charset detected in its bytes.
pub struct DecodedText {
    /// The decoded text.
    pub text: String,
    /// The charset name that detection reported.
    pub charset: String,
    /// Whether the charset was unknown, so that Windows-1252 was used instead.
    pub used_fallback: bool,
    /// Whether some bytes could not be decoded and were replaced.
    pub had_errors: bool,
}

/// Decodes the raw bytes of a file: detects their charset, decodes with the
/// encoding of that name, and falls back to Windows-1252 when there is none.
/// ASCII content comes back unchanged. Escaped ASCII, on which detection
/// panics, is left out.
pub fn decode_file_bytes(raw: &[u8]) -> (decoded: DecodedText)
    requires
        !is_escaped_ascii(raw@),
    ensures
        decoded.charset@ == detected_charset(raw@),
        decoded.used_fallback == !is_encoding_label(encode_utf8(decoded.charset@)),
        !decoded.used_fallback ==> decoded.text@ == decoded_with_label(
            encode_utf8(decoded.charset@),
            raw@,
        ).0 && decoded.had_errors == decoded_with_label(encode_utf8(decoded.charset@), raw@).1,
        decoded.used_fallback ==> decoded.text@ == decoded_with_label(windows_1252_label(), raw@).0
            && decoded.had_errors == decoded_with_label(windows_1252_label(), raw@).1,
        is_ascii_bytes(raw@) ==> decoded.text@ == ascii_text(raw@) && !decoded.had_errors,
{
    let charset = detect_charset(raw);
    proof {
        let name = seq!['a', 's', 'c', 'i', 'i'];
        if raw@.len() > 0 && is_ascii_bytes(raw@) {
            assert(is_ascii_chars(name));
            is_ascii_chars_encode_utf8(name);
            assert(encode_utf8(name) =~= ascii_label());
        }
        if raw@.len() == 0 {
            assert(charset@ =~= Seq::<char>::empty());
            assert(encode_utf8(charset@) =~= Seq::<u8>::empty());
        }
    }
    match decode_with_label(charset.as_str().as_bytes(), raw) {
        Some((text, had_errors)) => DecodedText { text, charset, used_fallback: false, had_errors },
        None => {
            let label = FALLBACK_ENCODING_LABEL.as_bytes();
            proof {
                reveal_strlit("windows-1252");
                assert(is_ascii_chars(FALLBACK_ENCODING_LABEL@));
                is_ascii_chars_encode_utf8(FALLBACK_ENCODING_LABEL@);
                assert(label@ =~= windows_1252_label());
            }
            match decode_with_label(label, raw) {
                Some((text, had_errors)) => DecodedText {
                    text,
                    charset,
                    used_fallback: true,
                    had_errors,
                },
                // Unreachable: the fallback label is always known.
                None => DecodedText {
                    text: String::new(),
                    charset,
                    used_fallback: true,
                    had_errors: true,
                },
            }
        },
    }
}

} // verus!
