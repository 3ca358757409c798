use vstd::prelude::*;
use vstd::string::*;

use crate::constants::{
    APP_NAME, CACHE_DB_NAME, CACHE_DIRECTORY, GOALS_FILE, OBJNAMES_FILE, PROMPT_NOT_FOUND,
    PROMPT_TYPE_BOOKS, PROMPT_TYPE_ITEMS, PROMPT_TYPE_OBJECTIVES, PROMPT_TYPE_PROPER_NOUNS,
};
use crate::prompt_service::{prompt_of_type, Prompt, PromptService};
use crate::text::{concat, has_suffix, owned, same_text};

verus! {

broadcast use vstd::string::group_string_axioms;

/// The type of the prompt that translates a cached file: items for the object
/// names file, objectives for goals files, books for everything else.
pub open spec fn base_prompt_type_of(filename: Seq<char>) -> Seq<char> {
    if filename == OBJNAMES_FILE@ {
        PROMPT_TYPE_ITEMS@
    } else if GOALS_FILE@.len() <= filename.len() && filename.skip(
        filename.len() - GOALS_FILE@.len(),
    ) == GOALS_FILE@ {
        PROMPT_TYPE_OBJECTIVES@
    } else {
        PROMPT_TYPE_BOOKS@
    }
}

/// The type of the prompt that translates the cached file `filename`.
pub fn base_prompt_type(filename: &str) -> (prompt_type: &'static str)
    ensures
        prompt_type@ == base_prompt_type_of(filename@),
        filename@ == OBJNAMES_FILE@ ==> prompt_type@ == PROMPT_TYPE_ITEMS@,
        filename@ != OBJNAMES_FILE@ && (exists|stem: Seq<char>| filename@ == stem + GOALS_FILE@)
            ==> prompt_type@ == PROMPT_TYPE_OBJECTIVES@,
        filename@ != OBJNAMES_FILE@ && !(exists|stem: Seq<char>| filename@ == stem + GOALS_FILE@)
            ==> prompt_type@ == PROMPT_TYPE_BOOKS@,
{
    proof {
        let g = GOALS_FILE@;
        let f = filename@;
        if exists|stem: Seq<char>| f == stem + g {
            let stem = choose|stem: Seq<char>| f == stem + g;
            assert(f.skip(f.len() - g.len()) =~= g);
        }
        if g.len() <= f.len() && f.skip(f.len() - g.len()) == g {
            assert(f =~= f.take(f.len() - g.len()) + g);
        }
    }
    if same_text(filename, OBJNAMES_FILE) {
        PROMPT_TYPE_ITEMS
    } else if has_suffix(filename, GOALS_FILE) {
        PROMPT_TYPE_OBJECTIVES
    } else {
        PROMPT_TYPE_BOOKS
    }
}

/// The system prompt for translating a cached file, or the message saying which
/// prompt is missing: the proper-nouns prompt is looked up first, then the
/// prompt of the file's type; the text is the latter, a line break, and the
/// former.
pub open spec fn translation_prompt_of(prompts: Seq<Prompt>, filename: Seq<char>) -> Result<
    Seq<char>,
    Seq<char>,
> {
    match prompt_of_type(prompts, PROMPT_TYPE_PROPER_NOUNS@) {
        None => Err(PROMPT_NOT_FOUND@ + PROMPT_TYPE_PROPER_NOUNS@),
        Some(proper_nouns) => match prompt_of_type(prompts, base_prompt_type_of(filename)) {
            None => Err(PROMPT_NOT_FOUND@ + base_prompt_type_of(filename)),
            Some(base) => Ok(base.content@ + seq!['\n'] + proper_nouns.content@),
        },
    }
}

/// Builds the system prompt for translating the cached file `filename`.
pub fn translation_prompt(prompts: &PromptService, filename: &str) -> (prompt: Result<String, String>)
    ensures
        match prompt {
            Ok(text) => translation_prompt_of(prompts.prompts@, filename@) == Ok::<
                Seq<char>,
                Seq<char>,
            >(text@),
            Err(message) => translation_prompt_of(prompts.prompts@, filename@) == Err::<
                Seq<char>,
                Seq<char>,
            >(message@),
        },
        prompt is Ok <==> (prompt_of_type(prompts.prompts@, PROMPT_TYPE_PROPER_NOUNS@) is Some
            && prompt_of_type(prompts.prompts@, base_prompt_type_of(filename@)) is Some),
        match prompt {
            Ok(text) => match (
                prompt_of_type(prompts.prompts@, base_prompt_type_of(filename@)),
                prompt_of_type(prompts.prompts@, PROMPT_TYPE_PROPER_NOUNS@),
            ) {
                (Some(base), Some(proper_nouns)) => text@ == base.content@ + seq!['\n']
                    + proper_nouns.content@,
                _ => false,
            },
            Err(_) => true,
        },
{
    let proper_nouns = match prompts.get_prompt_by_type(PROMPT_TYPE_PROPER_NOUNS) {
        Some(p) => p,
        None => {
            return Err(concat(PROMPT_NOT_FOUND, PROMPT_TYPE_PROPER_NOUNS));
        },
    };
    let base_type = base_prompt_type(filename);
    let base = match prompts.get_prompt_by_type(base_type) {
        Some(p) => p,
        None => {
            return Err(concat(PROMPT_NOT_FOUND, base_type));
        },
    };
    let head = concat(base.content.as_str(), "\n");
    proof {
        reveal_strlit("\n");
        assert("\n"@ =~= seq!['\n']);
    }
    Ok(concat(head.as_str(), proper_nouns.content.as_str()))
}

/// The path of a mission's translation cache, below the user's local data
/// directory, as its components: the application's directory, the cache
/// directory, the mission directory's name, and the database file.
pub fn cache_path_components(mission_dir_name: &str) -> (components: Vec<String>)
    ensures
        components@.len() == 4,
        components@[0]@ == APP_NAME@,
        components@[1]@ == CACHE_DIRECTORY@,
        components@[2]@ == mission_dir_name@,
        components@[3]@ == CACHE_DB_NAME@,
{
    let mut components: Vec<String> = Vec::new();
    components.push(owned(APP_NAME));
    components.push(owned(CACHE_DIRECTORY));
    components.push(owned(mission_dir_name));
    components.push(owned(CACHE_DB_NAME));
    components
}

/// Whenever both the prompt of the file's type and the proper-nouns prompt
/// exist, the system prompt is the former, a line break and the latter, for
/// every file type; when either is missing there is no system prompt.
pub proof fn lemma_translation_prompt_joins(prompts: Seq<Prompt>, filename: Seq<char>)
    ensures
        match (
            prompt_of_type(prompts, base_prompt_type_of(filename)),
            prompt_of_type(prompts, PROMPT_TYPE_PROPER_NOUNS@),
        ) {
            (Some(base), Some(proper_nouns)) => translation_prompt_of(prompts, filename) == Ok::<
                Seq<char>,
                Seq<char>,
            >(base.content@ + seq!['\n'] + proper_nouns.content@),
            _ => translation_prompt_of(prompts, filename) is Err,
        },
{
}

} // verus!
