use vstd::prelude::*;

verus! {

pub const APP_NAME: &'static str = "ThiefFMTranslationAgent";
pub const CACHE_DB_NAME: &'static str = "cache.sqlite";
pub const CACHE_DIRECTORY: &'static str = "cache";
pub const SALT_SIZE_CONSTANT: usize = 32;
pub const NONCE_SIZE_CONSTANT: usize = 12;

pub const API_KEY_PREFIX: &'static str = "sk-";
pub const CENSORSHIP: &'static str = "****";
pub const YES: &'static str = "t";
pub const VERSION_PREFIX: &'static str = "v";
pub const KEY_CORRUPTED: &'static str = "Zapisany klucz API jest niepoprawny.";
pub const KEY_RETRIEVAL_ERROR: &'static str = "Błąd podczas odczytu klucza API:";
pub const MISSING_DIRECTORY: &'static str = "Katalog nie istnieje!";
pub const INVALID_PATH: &'static str = "Podana ścieżka jest nieprawidłowa!";
pub const MISSING_FM_FILES: &'static str = "Nie znaleziono plików misji!";
pub const DIRECTORY_NOT_FOUND: &'static str = "Nie znaleziono katalogu: ";
pub const FILE_NOT_FOUND: &'static str = "Nie znaleziono pliku: ";
pub const PROMPT_NOT_FOUND: &'static str = "Nie znaleziono promptu: ";

pub const OPENAI_MODEL: &'static str = "gpt-4o";
pub const FILE_SERVER_BASE_URL: &'static str = "https://raw.githubusercontent.com/raven4444/ThiefFMTranslationAgent/refs/heads/master/assets/prompts/";
pub const FALLBACK_ENCODING_LABEL: &'static str = "windows-1252";
pub const PROMPTS_FILE: &'static str = "prompts.json";

pub const MIS_EXTENSION: &'static str = "mis";
pub const STR_EXTENSION: &'static str = "str";
pub const STRINGS_DIR: &'static str = "strings";
pub const ENGLISH_DIR: &'static str = "english";
pub const POLISH_DIR: &'static str = "polish";
pub const OBJNAMES_FILE: &'static str = "objnames.str";
pub const INTRFACE_DIR: &'static str = "intrface";
pub const BOOKS_DIR: &'static str = "books";
pub const MISS_DIR: &'static str = "miss";
pub const GOALS_FILE: &'static str = "goals.str";
pub const PATH_TO_GOALS: &'static str = "/english/goals.str";

/// The prompt types: these names, chosen by this library, must match the `type`
/// fields of the prompt index on the file server. The message for a missing
/// prompt above is this library's own wording too.
pub const PROMPT_TYPE_PROPER_NOUNS: &'static str = "proper_nouns";
pub const PROMPT_TYPE_ITEMS: &'static str = "items";
pub const PROMPT_TYPE_OBJECTIVES: &'static str = "objectives";
pub const PROMPT_TYPE_BOOKS: &'static str = "books";

} // verus!
