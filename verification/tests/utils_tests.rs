use thief_fm_translation_agent::utils::{
    check_fm_directory, file_extension, has_entry_with_extension, is_affirmative,
    is_valid_api_key, mask_api_key, offered_update, release_version, stored_key_outcome,
    FmDirectoryCheck, StoredKeyOutcome,
};

#[test]
fn api_key_needs_prefix() {
    assert!(is_valid_api_key("sk-proj-abc"));
    assert!(is_valid_api_key("sk-"));
    assert!(!is_valid_api_key("sk"));
    assert!(!is_valid_api_key("pk-abc"));
    assert!(!is_valid_api_key(""));
    assert!(!is_valid_api_key(" sk-abc"));
}

#[test]
fn mask_shows_six_bytes() {
    assert_eq!(mask_api_key("sk-1234567890"), "sk-123****");
    assert_eq!(mask_api_key("sk-123"), "sk-123****");
}

#[test]
fn mask_of_short_key_is_only_the_mask() {
    assert_eq!(mask_api_key("abcd"), "****");
    assert_eq!(mask_api_key(""), "****");
}

#[test]
fn mask_keeps_whole_characters() {
    assert_eq!(mask_api_key("żółwik"), "żół****");
}

#[test]
fn empty_answer_is_yes() {
    assert!(is_affirmative(""));
    assert!(is_affirmative("\n"));
    assert!(is_affirmative("   "));
}

#[test]
fn yes_letter_in_any_case() {
    assert!(is_affirmative("t"));
    assert!(is_affirmative("T"));
    assert!(is_affirmative("  t \r\n"));
}

#[test]
fn other_answers_are_no() {
    assert!(!is_affirmative("n"));
    assert!(!is_affirmative("tak"));
    assert!(!is_affirmative("y"));
}

#[test]
fn release_version_strips_prefixes() {
    assert_eq!(release_version("v1.2.3"), "1.2.3");
    assert_eq!(release_version("vv2.0"), "2.0");
    assert_eq!(release_version("1.0.0"), "1.0.0");
    assert_eq!(release_version("v"), "");
    assert_eq!(release_version("1.0v"), "1.0v");
}

#[test]
fn update_offered_when_versions_differ() {
    assert_eq!(offered_update("v0.1.0", "0.1.0"), None);
    assert_eq!(offered_update("v0.2.0", "0.1.0"), Some("0.2.0".to_string()));
    assert_eq!(offered_update("0.1.0-beta", "0.1.0"), Some("0.1.0-beta".to_string()));
}

#[test]
fn stored_valid_key_is_used() {
    match stored_key_outcome(Ok("sk-abc".to_string())) {
        StoredKeyOutcome::Use(k) => assert_eq!(k, "sk-abc"),
        StoredKeyOutcome::Replace(_) => panic!("key should be used"),
    }
}

#[test]
fn stored_corrupted_key_is_replaced() {
    match stored_key_outcome(Ok("garbage".to_string())) {
        StoredKeyOutcome::Use(_) => panic!("key should be replaced"),
        StoredKeyOutcome::Replace(m) => assert_eq!(m, "Zapisany klucz API jest niepoprawny."),
    }
}

#[test]
fn unreadable_key_is_replaced_with_reason() {
    match stored_key_outcome(Err("brak pliku".to_string())) {
        StoredKeyOutcome::Use(_) => panic!("key should be replaced"),
        StoredKeyOutcome::Replace(m) => {
            assert_eq!(m, "Błąd podczas odczytu klucza API: brak pliku")
        }
    }
}

#[test]
fn extensions_follow_path_rules() {
    assert_eq!(file_extension("miss20.mis"), Some("mis".to_string()));
    assert_eq!(file_extension("a.b.STR"), Some("STR".to_string()));
    assert_eq!(file_extension("archive."), Some("".to_string()));
    assert_eq!(file_extension(".hidden"), None);
    assert_eq!(file_extension("noext"), None);
    assert_eq!(file_extension(".."), None);
    assert_eq!(file_extension("."), None);
    assert_eq!(file_extension(""), None);
    for name in ["miss20.mis", "a.b.STR", "archive.", ".hidden", "noext", "..", "x.y.z"] {
        let expected = std::path::Path::new(name)
            .extension()
            .map(|e| e.to_string_lossy().to_string());
        assert_eq!(file_extension(name), expected);
    }
}

#[test]
fn mission_file_detection_is_exact() {
    let names = vec!["readme.txt".to_string(), "miss20.mis".to_string()];
    assert!(has_entry_with_extension(&names, "mis"));
    let upper = vec!["MISS20.MIS".to_string()];
    assert!(!has_entry_with_extension(&upper, "mis"));
    assert!(!has_entry_with_extension(&Vec::new(), "mis"));
}

#[test]
fn fm_directory_checks_in_order() {
    let with_mis = vec!["miss20.mis".to_string()];
    let without = vec!["strings".to_string()];
    assert_eq!(check_fm_directory(false, false, &with_mis), FmDirectoryCheck::Missing);
    assert_eq!(check_fm_directory(true, false, &with_mis), FmDirectoryCheck::NotADirectory);
    assert_eq!(check_fm_directory(true, true, &without), FmDirectoryCheck::NoMissionFiles);
    assert_eq!(check_fm_directory(true, true, &with_mis), FmDirectoryCheck::Valid);
}

#[test]
fn fm_directory_messages() {
    assert_eq!(FmDirectoryCheck::Missing.problem_message(), Some("Katalog nie istnieje!"));
    assert_eq!(
        FmDirectoryCheck::NotADirectory.problem_message(),
        Some("Podana ścieżka jest nieprawidłowa!")
    );
    assert_eq!(
        FmDirectoryCheck::NoMissionFiles.problem_message(),
        Some("Nie znaleziono plików misji!")
    );
    assert_eq!(FmDirectoryCheck::Valid.problem_message(), None);
}
