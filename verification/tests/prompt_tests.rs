use thief_fm_translation_agent::prompt_service::{
    prompt_file_url, prompt_index_url, Prompt, PromptFileInfo, PromptService,
};
use thief_fm_translation_agent::translation_cache_service::{
    base_prompt_type, cache_path_components, translation_prompt,
};

fn prompt(content: &str, version: &str, prompt_type: &str) -> Prompt {
    Prompt {
        content: content.to_string(),
        version: version.to_string(),
        prompt_type: prompt_type.to_string(),
    }
}

fn service() -> PromptService {
    PromptService::new(vec![
        prompt("Translate item names.", "1.0", "items"),
        prompt("Keep these names: Garrett.", "1.1", "proper_nouns"),
        prompt("Translate books.", "2.0", "books"),
        prompt("Second items prompt.", "3.0", "items"),
    ])
}

#[test]
fn first_prompt_of_type_is_found() {
    let s = service();
    let p = s.get_prompt_by_type("items").unwrap();
    assert_eq!(p.content, "Translate item names.");
    assert_eq!(p.version, "1.0");
    assert_eq!(s.get_prompt_by_type("books").unwrap().version, "2.0");
}

#[test]
fn missing_prompt_type_gives_none() {
    let s = service();
    assert!(s.get_prompt_by_type("objectives").is_none());
    assert!(s.get_prompt_by_type("Items").is_none());
    assert!(PromptService::new(Vec::new()).get_prompt_by_type("items").is_none());
}

#[test]
fn overview_lists_type_and_version() {
    let lines = service().overview_lines();
    assert_eq!(
        lines,
        vec!["items ->> 1.0", "proper_nouns ->> 1.1", "books ->> 2.0", "items ->> 3.0"]
    );
}

#[test]
fn prompt_urls() {
    assert_eq!(
        prompt_index_url(),
        "https://raw.githubusercontent.com/raven4444/ThiefFMTranslationAgent/refs/heads/master/assets/prompts/prompts.json"
    );
    assert_eq!(
        prompt_file_url("books.txt"),
        "https://raw.githubusercontent.com/raven4444/ThiefFMTranslationAgent/refs/heads/master/assets/prompts/books.txt"
    );
}

#[test]
fn prompt_from_index_entry() {
    let info = PromptFileInfo {
        file: "items.txt".to_string(),
        version: "4.2".to_string(),
        prompt_type: "items".to_string(),
    };
    let p = Prompt::from_info(info, "text".to_string());
    assert_eq!(p.content, "text");
    assert_eq!(p.version, "4.2");
    assert_eq!(p.prompt_type, "items");
}

#[test]
fn prompt_type_follows_file_name() {
    assert_eq!(base_prompt_type("objnames.str"), "items");
    assert_eq!(base_prompt_type("miss20/english/goals.str"), "objectives");
    assert_eq!(base_prompt_type("goals.str"), "objectives");
    assert_eq!(base_prompt_type("book1.str"), "books");
    assert_eq!(base_prompt_type("OBJNAMES.STR"), "books");
}

#[test]
fn translation_prompt_joins_base_and_proper_nouns() {
    let s = service();
    assert_eq!(
        translation_prompt(&s, "objnames.str"),
        Ok("Translate item names.\nKeep these names: Garrett.".to_string())
    );
    assert_eq!(
        translation_prompt(&s, "book.str"),
        Ok("Translate books.\nKeep these names: Garrett.".to_string())
    );
}

#[test]
fn translation_prompt_reports_missing_prompt() {
    let s = service();
    assert_eq!(
        translation_prompt(&s, "miss1/english/goals.str"),
        Err("Nie znaleziono promptu: objectives".to_string())
    );
    let no_nouns = PromptService::new(vec![prompt("x", "1", "items")]);
    assert_eq!(
        translation_prompt(&no_nouns, "objnames.str"),
        Err("Nie znaleziono promptu: proper_nouns".to_string())
    );
}

#[test]
fn cache_path_layout() {
    assert_eq!(
        cache_path_components("mission1"),
        vec!["ThiefFMTranslationAgent", "cache", "mission1", "cache.sqlite"]
    );
}
