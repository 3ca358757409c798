use vstd::prelude::*;
use vstd::string::*;

use crate::constants::{
    DIRECTORY_NOT_FOUND, ENGLISH_DIR, FILE_NOT_FOUND, MISS_DIR, PATH_TO_GOALS, POLISH_DIR,
    STR_EXTENSION,
};
use crate::text::{
    concat, free_of, has_prefix, lemma_replace_all_removes_pattern, lowercase_of, owned, replace_all,
    replace_text, same_text, to_lowercase,
};
use crate::utils::{extension_of, file_extension};

verus! {

broadcast use vstd::string::group_string_axioms;

/// `i` is the first position in `names` of a name that, lowercased, is `target`.
pub open spec fn is_first_match(names: Seq<String>, target: Seq<char>, i: int) -> bool {
    &&& 0 <= i < names.len()
    &&& lowercase_of(names[i]@) == target
    &&& forall|j: int| 0 <= j < i ==> lowercase_of((#[trigger] names[j])@) != target
}

/// The first directory entry whose name, lowercased, is `target` (entry names
/// on the game's file system differ only in case from the expected ones).
pub fn find_entry(names: &Vec<String>, target: &str) -> (found: Option<usize>)
    ensures
        match found {
            Some(i) => is_first_match(names@, target@, i as int),
            None => forall|i: int|
                0 <= i < names@.len() ==> lowercase_of((#[trigger] names@[i])@) != target@,
        },
        found matches Some(i) ==> i < names@.len() && lowercase_of(names@[i as int]@) == target@
            && forall|j: int| 0 <= j < i ==> lowercase_of((#[trigger] names@[j])@) != target@,
{
    let n = names.len();
    for i in 0..n
        invariant
            n == names@.len(),
            forall|j: int| 0 <= j < i ==> lowercase_of((#[trigger] names@[j])@) != target@,
    {
        let lower = to_lowercase(names[i].as_str());
        if same_text(lower.as_str(), target) {
            return Some(i);
        }
    }
    None
}

/// Whether the entry sought is a directory or a file, which decides the message
/// when it is missing.
#[derive(PartialEq, Eq, Structural, Debug, Clone, Copy)]
pub enum EntryKind {
    Directory,
    File,
}

/// The message given when an entry of the given kind and name is missing.
pub open spec fn missing_entry_message(kind: EntryKind, target: Seq<char>) -> Seq<char> {
    match kind {
        EntryKind::Directory => DIRECTORY_NOT_FOUND@ + target,
        EntryKind::File => FILE_NOT_FOUND@ + target,
    }
}

/// Finds an entry that must be present, or gives the message saying it is not.
pub fn require_entry(names: &Vec<String>, target: &str, kind: EntryKind) -> (found: Result<
    usize,
    String,
>)
    ensures
        match found {
            Ok(i) => is_first_match(names@, target@, i as int),
            Err(message) => message@ == missing_entry_message(kind, target@) && forall|i: int|
                0 <= i < names@.len() ==> lowercase_of((#[trigger] names@[i])@) != target@,
        },
        found matches Err(message) ==> (kind == EntryKind::Directory ==> message@
            == DIRECTORY_NOT_FOUND@ + target@) && (kind == EntryKind::File ==> message@
            == FILE_NOT_FOUND@ + target@),
        found is Ok <==> exists|i: int|
            0 <= i < names@.len() && lowercase_of((#[trigger] names@[i])@) == target@,
{
    match find_entry(names, target) {
        Some(i) => Ok(i),
        None => match kind {
            EntryKind::Directory => Err(concat(DIRECTORY_NOT_FOUND, target)),
            EntryKind::File => Err(concat(FILE_NOT_FOUND, target)),
        },
    }
}

/// Whether a directory entry's name marks a mission directory: lowercased, it
/// starts with the mission prefix.
pub fn is_mission_dir_name(name: &str) -> (mission: bool)
    ensures
        mission == (MISS_DIR@.len() <= lowercase_of(name@).len() && lowercase_of(name@).take(
            MISS_DIR@.len() as int,
        ) == MISS_DIR@),
{
    let lower = to_lowercase(name);
    has_prefix(lower.as_str(), MISS_DIR)
}

/// The name under which a mission's goals file is cached.
pub fn goals_cache_filename(mission_dir: &str) -> (filename: String)
    ensures
        filename@ == mission_dir@ + PATH_TO_GOALS@,
{
    concat(mission_dir, PATH_TO_GOALS)
}

/// Whether a file name has the extension of string files, in any case.
pub open spec fn is_string_file_name(name: Seq<char>) -> bool {
    match extension_of(name) {
        Some(e) => lowercase_of(e) == STR_EXTENSION@,
        None => false,
    }
}

/// Whether a book directory entry is a string file to translate.
pub fn is_string_file(name: &str) -> (yes: bool)
    ensures
        yes == is_string_file_name(name@),
        yes <==> (extension_of(name@) matches Some(e) && lowercase_of(e) == STR_EXTENSION@),
{
    match file_extension(name) {
        Some(e) => {
            let lower = to_lowercase(e.as_str());
            same_text(lower.as_str(), STR_EXTENSION)
        },
        None => false,
    }
}

/// Where the translation of a file goes: its path with every English directory
/// name replaced by the Polish one.
pub fn translated_path(original_path: &str) -> (path: String)
    ensures
        path@ == replace_all(original_path@, ENGLISH_DIR@, POLISH_DIR@),
        free_of(path@, ENGLISH_DIR@),
{
    proof {
        reveal_strlit("english");
        reveal_strlit("polish");
        lemma_replace_all_removes_pattern(original_path@, ENGLISH_DIR@, POLISH_DIR@);
    }
    replace_text(original_path, ENGLISH_DIR, POLISH_DIR)
}

/// A file that is to be put in the translation cache.
pub struct CacheEntryPlan {
    /// The name under which the file is cached.
    pub filename: String,
    /// Where the file was read.
    pub original_path: String,
    /// Where its translation will be written.
    pub translated_path: String,
}

/// Decides whether a file found in the mission goes into the cache: a file
/// already cached (its row id is given) is skipped; otherwise its entry is
/// planned.
pub fn plan_cache_entry(custom_filename: &str, original_path: &str, cached_id: Option<i64>) -> (plan:
    Option<CacheEntryPlan>)
    ensures
        cached_id is Some ==> plan is None,
        cached_id is None ==> (plan matches Some(p) && p.filename@ == custom_filename@
            && p.original_path@ == original_path@ && p.translated_path@ == replace_all(
            original_path@,
            ENGLISH_DIR@,
            POLISH_DIR@,
        )),
{
    match cached_id {
        Some(_) => None,
        None => Some(
            CacheEntryPlan {
                filename: owned(custom_filename),
                original_path: owned(original_path),
                translated_path: translated_path(original_path),
            },
        ),
    }
}

} // verus!
