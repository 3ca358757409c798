//! The logic of an agent that translates the texts of Thief fan missions into
//! Polish with OpenAI models: recognising API keys and fan mission
//! directories, sealing the API key for one machine, choosing the prompt for
//! each cached file, planning where translations go, and stripping Polish
//! diacritics that the game's fonts cannot show.
pub mod constants;
pub mod file_content;
pub mod openai_client;
pub mod polish;
pub mod prompt_service;
pub mod secure_storage;
pub mod text;
pub mod translation_cache_service;
pub mod translation_service;
pub mod utils;
