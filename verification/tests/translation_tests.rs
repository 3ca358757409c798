use thief_fm_translation_agent::translation_service::{
    find_entry, goals_cache_filename, is_mission_dir_name, is_string_file, plan_cache_entry,
    require_entry, translated_path, EntryKind,
};

fn names(list: &[&str]) -> Vec<String> {
    list.iter().map(|s| s.to_string()).collect()
}

#[test]
fn entries_are_found_ignoring_case() {
    let entries = names(&["Books", "STRINGS", "strings", "intrface"]);
    assert_eq!(find_entry(&entries, "strings"), Some(1));
    assert_eq!(find_entry(&entries, "books"), Some(0));
    assert_eq!(find_entry(&entries, "english"), None);
}

#[test]
fn required_entries_report_what_is_missing() {
    let entries = names(&["books"]);
    assert_eq!(require_entry(&entries, "books", EntryKind::Directory), Ok(0));
    assert_eq!(
        require_entry(&entries, "strings", EntryKind::Directory),
        Err("Nie znaleziono katalogu: strings".to_string())
    );
    assert_eq!(
        require_entry(&entries, "objnames.str", EntryKind::File),
        Err("Nie znaleziono pliku: objnames.str".to_string())
    );
}

#[test]
fn mission_directories() {
    assert!(is_mission_dir_name("miss20"));
    assert!(is_mission_dir_name("MISS1"));
    assert!(!is_mission_dir_name("mis"));
    assert!(!is_mission_dir_name("english"));
    assert_eq!(goals_cache_filename("miss20"), "miss20/english/goals.str");
}

#[test]
fn string_files_by_extension() {
    assert!(is_string_file("book1.str"));
    assert!(is_string_file("BOOK1.STR"));
    assert!(!is_string_file("book1.txt"));
    assert!(!is_string_file(".str"));
    assert!(!is_string_file("str"));
}

#[test]
fn translated_paths_point_to_polish() {
    assert_eq!(
        translated_path("C:/FMs/m1/books/english/book1.str"),
        "C:/FMs/m1/books/polish/book1.str"
    );
    assert_eq!(translated_path("C:/FMs/m1/books/book1.str"), "C:/FMs/m1/books/book1.str");
    assert_eq!(translated_path("english/english"), "polish/polish");
}

#[test]
fn cached_files_are_skipped() {
    assert!(plan_cache_entry("book1.str", "a/english/book1.str", Some(3)).is_none());
    let plan = plan_cache_entry("book1.str", "a/english/book1.str", None).unwrap();
    assert_eq!(plan.filename, "book1.str");
    assert_eq!(plan.original_path, "a/english/book1.str");
    assert_eq!(plan.translated_path, "a/polish/book1.str");
}
