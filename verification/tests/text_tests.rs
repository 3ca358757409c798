use thief_fm_translation_agent::polish::remove_polish_chars;
use thief_fm_translation_agent::text::{has_prefix, has_suffix, replace_text, same_text, trim};

#[test]
fn polish_letters_lose_diacritics() {
    assert_eq!(remove_polish_chars("Zażółć gęślą jaźń"), "Zazolc gesla jazn");
    assert_eq!(remove_polish_chars("ĄĆĘŁŃÓŚŹŻ"), "ACELNOSZZ");
    assert_eq!(remove_polish_chars("ąćęłńóśźż"), "acelnoszz");
}

#[test]
fn other_text_is_kept() {
    assert_eq!(remove_polish_chars("Garrett, the master thief."), "Garrett, the master thief.");
    assert_eq!(remove_polish_chars("Ü ß é"), "Ü ß é");
    assert_eq!(remove_polish_chars(""), "");
}

#[test]
fn removing_twice_changes_nothing() {
    let once = remove_polish_chars("Mroczny Projekt: Złodziej");
    assert_eq!(remove_polish_chars(&once), once);
    assert_eq!(once.chars().count(), "Mroczny Projekt: Złodziej".chars().count());
}

#[test]
fn replace_matches_std_replace() {
    for s in ["english/english", "engenglishlish", "", "eng", "polish", "a/english/b.str"] {
        assert_eq!(replace_text(s, "english", "polish"), s.replace("english", "polish"));
    }
    assert_eq!(replace_text("aaa", "aa", "b"), "aaa".replace("aa", "b"));
}

#[test]
fn prefix_suffix_and_equality() {
    assert!(has_prefix("miss20", "miss"));
    assert!(!has_prefix("mis", "miss"));
    assert!(has_suffix("miss1/english/goals.str", "goals.str"));
    assert!(!has_suffix("str", "goals.str"));
    assert!(same_text("abc", "abc"));
    assert!(!same_text("abc", "abd"));
    assert!(!same_text("abc", "ab"));
}

#[test]
fn trim_matches_std_trim() {
    for s in [
        "",
        "   ",
        "  t \r\n",
        "\u{3000}tak\u{2028}",
        "\u{a0}\u{85}x y\u{1680}",
        "\u{200b}x\u{200b}",
        "a\tb",
        "\u{2000}\u{200a}\u{202f}\u{205f}z\u{2029}\u{b}\u{c}",
    ] {
        assert_eq!(trim(s), s.trim());
    }
}
