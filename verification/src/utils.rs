use vstd::prelude::*;
use vstd::string::*;
use vstd::utf8::*;

use crate::constants::{
    API_KEY_PREFIX, CENSORSHIP, INVALID_PATH, KEY_CORRUPTED, KEY_RETRIEVAL_ERROR, MISSING_DIRECTORY,
    MISSING_FM_FILES, MIS_EXTENSION, VERSION_PREFIX, YES,
};
use crate::text::{
    chars_occur_at, chars_of, concat, lemma_encode_utf8_concat, has_prefix, lowercase_of, owned, same_text,
    string_of_range, to_lowercase, trim, trimmed,
};

verus! {

broadcast use vstd::string::group_string_axioms;

/// A text that starts with the prefix of OpenAI API keys.
pub open spec fn has_api_key_prefix(key: Seq<char>) -> bool {
    API_KEY_PREFIX@.len() <= key.len() && key.take(API_KEY_PREFIX@.len() as int) == API_KEY_PREFIX@
}

/// Whether `key` has the shape of an OpenAI API key: it starts with the key prefix.
pub fn is_valid_api_key(key: &str) -> (valid: bool)
    ensures
        valid == has_api_key_prefix(key@),
        valid <==> exists|rest: Seq<char>| key@ == API_KEY_PREFIX@ + rest,
{
    proof {
        if has_api_key_prefix(key@) {
            let rest = key@.skip(API_KEY_PREFIX@.len() as int);
            assert(key@ =~= API_KEY_PREFIX@ + rest);
        }
        if exists|rest: Seq<char>| key@ == API_KEY_PREFIX@ + rest {
            let rest = choose|rest: Seq<char>| key@ == API_KEY_PREFIX@ + rest;
            assert(key@.take(API_KEY_PREFIX@.len() as int) =~= API_KEY_PREFIX@);
        }
    }
    has_prefix(key, API_KEY_PREFIX)
}

/// What is shown of a key: its first six bytes (as text) followed by the mask,
/// or the mask alone for a key of at most four bytes.
pub open spec fn masked_key(key_bytes: Seq<u8>) -> Seq<char> {
    if key_bytes.len() > 4 {
        decode_utf8(key_bytes.take(6)) + CENSORSHIP@
    } else {
        CENSORSHIP@
    }
}

/// Hides an API key for display. A key longer than four bytes must have a
/// character boundary at byte six (slicing it there would fail otherwise).
pub fn mask_api_key(api_key: &str) -> (masked: String)
    requires
        api_key.spec_bytes().len() <= 4 || is_char_boundary(api_key.spec_bytes(), 6),
    ensures
        masked@ == masked_key(api_key.spec_bytes()),
        api_key.spec_bytes().len() > 4 ==> masked@ == decode_utf8(api_key.spec_bytes().take(6))
            + CENSORSHIP@,
        api_key.spec_bytes().len() > 4 ==> encode_utf8(masked@) == api_key.spec_bytes().take(6)
            + encode_utf8(CENSORSHIP@),
        api_key.spec_bytes().len() <= 4 ==> masked@ == CENSORSHIP@,
{
    proof {
        encode_utf8_valid_utf8(api_key@);
    }
    if api_key.as_bytes().len() > 4 {
        let (head, _rest) = api_key.split_at(6);
        proof {
            encode_utf8_decode_utf8(head@);
            lemma_encode_utf8_concat(head@, CENSORSHIP@);
            assert(api_key.spec_bytes().take(6) =~= api_key.spec_bytes().subrange(0, 6));
        }
        concat(head, CENSORSHIP)
    } else {
        owned(CENSORSHIP)
    }
}

/// An answer to a yes/no question whose default is yes: an empty answer, or
/// the yes letter in any case, surrounding white space ignored.
pub open spec fn is_affirmative_answer(input: Seq<char>) -> bool {
    let answer = lowercase_of(trimmed(input));
    answer.len() == 0 || lowercase_of(answer) == YES@
}

/// Decides a yes/no answer typed by the user, where yes is the default.
pub fn is_affirmative(input: &str) -> (yes: bool)
    ensures
        yes == is_affirmative_answer(input@),
        yes <==> (lowercase_of(trimmed(input@)).len() == 0 || lowercase_of(
            lowercase_of(trimmed(input@)),
        ) == YES@),
{
    let answer = to_lowercase(trim(input).as_str());
    if answer.as_str().is_empty() {
        return true;
    }
    let again = to_lowercase(answer.as_str());
    same_text(again.as_str(), YES)
}

/// `s` with every leading repetition of the non-empty `prefix` removed (as
/// `str::trim_start_matches` does).
pub open spec fn strip_leading(s: Seq<char>, prefix: Seq<char>) -> Seq<char>
    decreases s.len(),
{
    if 0 < prefix.len() <= s.len() && s.take(prefix.len() as int) == prefix {
        strip_leading(s.skip(prefix.len() as int), prefix)
    } else {
        s
    }
}

/// The version that a release tag names: the tag without its leading version
/// prefixes.
pub fn release_version(tag: &str) -> (version: String)
    ensures
        version@ == strip_leading(tag@, VERSION_PREFIX@),
        version@.len() <= tag@.len(),
        version@ == tag@.skip(tag@.len() - version@.len()),
        forall|i: int| 0 <= i < tag@.len() - version@.len() ==> tag@[i] == 'v',
        version@.len() > 0 ==> version@[0] != 'v',
{
    let chars = chars_of(tag);
    let prefix = chars_of(VERSION_PREFIX);
    let mut start: usize = 0;
    proof {
        assert(tag@.skip(0) =~= tag@);
        reveal_strlit("v");
        assert(prefix@ =~= seq!['v']);
    }
    while start < chars.len() && prefix.len() > 0 && prefix.len() <= chars.len() - start
        && chars_occur_at(&chars, &prefix, start)
        invariant
            chars@ == tag@,
            prefix@ == VERSION_PREFIX@,
            start <= chars@.len(),
            strip_leading(tag@.skip(start as int), prefix@) == strip_leading(tag@, prefix@),
            prefix@ == seq!['v'],
            forall|i: int| 0 <= i < start ==> tag@[i] == 'v',
        decreases chars@.len() - start,
    {
        proof {
            assert(tag@.subrange(start as int, start + 1)[0] == tag@[start as int]);
            let rest = tag@.skip(start as int);
            assert(rest.take(prefix@.len() as int) =~= tag@.subrange(
                start as int,
                start + prefix@.len(),
            ));
            assert(rest.skip(prefix@.len() as int) =~= tag@.skip(start + prefix@.len()));
        }
        start = start + prefix.len();
    }
    proof {
        let rest = tag@.skip(start as int);
        if start < chars@.len() {
            assert(tag@.subrange(start as int, start + 1)[0] == tag@[start as int]);
            if tag@[start as int] == 'v' {
                assert(tag@.subrange(start as int, start + 1) =~= seq!['v']);
            }
        }
        if 0 < prefix@.len() <= rest.len() {
            assert(rest.take(prefix@.len() as int) =~= tag@.subrange(
                start as int,
                start + prefix@.len(),
            ));
        }
    }
    let rest = string_of_range(chars.as_slice(), start, chars.len());
    proof {
        assert(rest@ =~= tag@.skip(start as int));
    }
    rest
}

/// The version to offer when the latest release, named by its tag, differs
/// from the running version; nothing when they are the same.
pub fn offered_update(latest_tag: &str, current_version: &str) -> (offer: Option<String>)
    ensures
        match offer {
            Some(v) => v@ == strip_leading(latest_tag@, VERSION_PREFIX@) && v@ != current_version@,
            None => strip_leading(latest_tag@, VERSION_PREFIX@) == current_version@,
        },
{
    let latest = release_version(latest_tag);
    if same_text(latest.as_str(), current_version) {
        None
    } else {
        Some(latest)
    }
}

/// What to do with a key read back from secure storage.
pub enum StoredKeyOutcome {
    /// The stored key has the shape of an API key and is used.
    Use(String),
    /// A new key must be asked for; the message says why.
    Replace(String),
}

/// Decides on a key read back from secure storage, or on the error (as text)
/// that reading it gave.
pub fn stored_key_outcome(read: Result<String, String>) -> (outcome: StoredKeyOutcome)
    ensures
        match read {
            Ok(key) => if has_api_key_prefix(key@) {
                outcome == StoredKeyOutcome::Use(key)
            } else {
                outcome matches StoredKeyOutcome::Replace(message) && message@ == KEY_CORRUPTED@
            },
            Err(error) => outcome matches StoredKeyOutcome::Replace(message) && message@
                == KEY_RETRIEVAL_ERROR@ + seq![' '] + error@,
        },
{
    match read {
        Ok(key) => {
            if is_valid_api_key(key.as_str()) {
                StoredKeyOutcome::Use(key)
            } else {
                StoredKeyOutcome::Replace(owned(KEY_CORRUPTED))
            }
        },
        Err(error) => {
            let head = concat(KEY_RETRIEVAL_ERROR, " ");
            proof {
                reveal_strlit(" ");
            }
            StoredKeyOutcome::Replace(concat(head.as_str(), error.as_str()))
        },
    }
}

/// `k` is the position of the last dot in `name`.
pub open spec fn is_last_dot(name: Seq<char>, k: int) -> bool {
    &&& 0 <= k < name.len()
    &&& name[k] == '.'
    &&& forall|j: int| k < j < name.len() ==> name[j] != '.'
}

/// The extension of a file name, as `Path::extension` gives it: the text after
/// the last dot, unless there is no dot, the only dot begins the name, or the
/// name is `.` or `..`.
pub open spec fn extension_of(name: Seq<char>) -> Option<Seq<char>> {
    if name == seq!['.'] || name == seq!['.', '.'] {
        None
    } else if exists|k: int| is_last_dot(name, k) {
        let k = choose|k: int| is_last_dot(name, k);
        if k == 0 {
            None
        } else {
            Some(name.skip(k + 1))
        }
    } else {
        None
    }
}

/// The extension of a directory entry's file name.
pub fn file_extension(name: &str) -> (extension: Option<String>)
    ensures
        match extension {
            Some(e) => extension_of(name@) == Some(e@),
            None => extension_of(name@) is None,
        },
{
    let cs = chars_of(name);
    if (cs.len() == 1 && cs[0] == '.') || (cs.len() == 2 && cs[0] == '.' && cs[1] == '.') {
        proof {
            assert(name@ =~= seq!['.'] || name@ =~= seq!['.', '.']);
        }
        return None;
    }
    let mut i: usize = cs.len();
    while i > 0
        invariant
            cs@ == name@,
            i <= cs@.len(),
            !(name@ == seq!['.'] || name@ == seq!['.', '.']),
            forall|j: int| i <= j < cs@.len() ==> cs@[j] != '.',
        decreases i,
    {
        if cs[i - 1] == '.' {
            proof {
                assert(is_last_dot(name@, i - 1));
                assert forall|k: int| is_last_dot(name@, k) implies k == i - 1 by {
                    if k < i - 1 {
                        assert(name@[i - 1] == '.');
                    }
                }
            }
            if i == 1 {
                return None;
            }
            return Some(string_of_range(cs.as_slice(), i, cs.len()));
        }
        i = i - 1;
    }
    proof {
        assert forall|k: int| !is_last_dot(name@, k) by {
            if is_last_dot(name@, k) {
                assert(cs@[k] == '.');
            }
        }
    }
    None
}

/// Whether some entry name has extension `ext` (compared exactly).
pub open spec fn some_entry_has_extension(names: Seq<String>, ext: Seq<char>) -> bool {
    exists|i: int| 0 <= i < names.len() && extension_of(#[trigger] names[i]@) == Some(ext)
}

/// Whether some entry among `names` has extension `ext`.
pub fn has_entry_with_extension(names: &Vec<String>, ext: &str) -> (found: bool)
    ensures
        found == some_entry_has_extension(names@, ext@),
        found <==> exists|i: int| 0 <= i < names@.len() && extension_of(names@[i]@) == Some(ext@),
{
    let n = names.len();
    for i in 0..n
        invariant
            n == names@.len(),
            forall|j: int| 0 <= j < i ==> extension_of(#[trigger] names@[j]@) != Some(ext@),
    {
        let e = file_extension(names[i].as_str());
        match e {
            Some(e) => {
                if same_text(e.as_str(), ext) {
                    return true;
                }
            },
            None => {},
        }
    }
    false
}

/// The verdict on a directory offered as a fan mission directory.
#[derive(PartialEq, Eq, Structural, Debug, Clone, Copy)]
pub enum FmDirectoryCheck {
    /// Nothing exists at the path.
    Missing,
    /// The path names something that is not a directory.
    NotADirectory,
    /// The directory holds no mission file.
    NoMissionFiles,
    /// The directory holds a fan mission.
    Valid,
}

/// The verdict on a path, from whether it exists, whether it is a directory,
/// and the names of its entries.
pub open spec fn fm_directory_verdict(exists: bool, is_dir: bool, names: Seq<String>) -> FmDirectoryCheck {
    if !exists {
        FmDirectoryCheck::Missing
    } else if !is_dir {
        FmDirectoryCheck::NotADirectory
    } else if !some_entry_has_extension(names, MIS_EXTENSION@) {
        FmDirectoryCheck::NoMissionFiles
    } else {
        FmDirectoryCheck::Valid
    }
}

/// Checks a path offered as a fan mission directory: it must exist, be a
/// directory, and hold at least one mission file.
pub fn check_fm_directory(exists: bool, is_dir: bool, entry_names: &Vec<String>) -> (check:
    FmDirectoryCheck)
    ensures
        check == fm_directory_verdict(exists, is_dir, entry_names@),
        !exists ==> check == FmDirectoryCheck::Missing,
        exists && !is_dir ==> check == FmDirectoryCheck::NotADirectory,
        exists && is_dir ==> (check == FmDirectoryCheck::Valid <==> exists|i: int|
            0 <= i < entry_names@.len() && extension_of(entry_names@[i]@) == Some(MIS_EXTENSION@)),
        exists && is_dir ==> (check == FmDirectoryCheck::NoMissionFiles <==> forall|i: int|
            0 <= i < entry_names@.len() ==> extension_of(entry_names@[i]@) != Some(MIS_EXTENSION@)),
{
    if !exists {
        FmDirectoryCheck::Missing
    } else if !is_dir {
        FmDirectoryCheck::NotADirectory
    } else if !has_entry_with_extension(entry_names, MIS_EXTENSION) {
        FmDirectoryCheck::NoMissionFiles
    } else {
        FmDirectoryCheck::Valid
    }
}

impl FmDirectoryCheck {
    /// The message shown to the user when the directory is refused.
    pub fn problem_message(&self) -> (message: Option<&'static str>)
        ensures
            match self {
                FmDirectoryCheck::Missing => message == Some(MISSING_DIRECTORY),
                FmDirectoryCheck::NotADirectory => message == Some(INVALID_PATH),
                FmDirectoryCheck::NoMissionFiles => message == Some(MISSING_FM_FILES),
                FmDirectoryCheck::Valid => message is None,
            },
    {
        match self {
            FmDirectoryCheck::Missing => Some(MISSING_DIRECTORY),
            FmDirectoryCheck::NotADirectory => Some(INVALID_PATH),
            FmDirectoryCheck::NoMissionFiles => Some(MISSING_FM_FILES),
            FmDirectoryCheck::Valid => None,
        }
    }
}

/// For every key longer than four bytes, whatever its length, what is shown is
/// its first six bytes followed by the mask; a shorter key shows the mask alone.
pub proof fn lemma_masked_key_shows_six_bytes(key_bytes: Seq<u8>)
    ensures
        key_bytes.len() > 4 ==> masked_key(key_bytes) == decode_utf8(key_bytes.take(6))
            + CENSORSHIP@,
        key_bytes.len() <= 4 ==> masked_key(key_bytes) == CENSORSHIP@,
{
}

/// A name made of a non-empty stem, a dot and a dot-free extension has that
/// extension (unless the name is `..`).
pub proof fn lemma_extension_of_dotted_name(stem: Seq<char>, ext: Seq<char>)
    requires
        stem.len() > 0,
        !(stem == seq!['.'] && ext.len() == 0),
        forall|j: int| 0 <= j < ext.len() ==> ext[j] != '.',
    ensures
        extension_of(stem + seq!['.'] + ext) == Some(ext),
{
    let name = stem + seq!['.'] + ext;
    let k = stem.len() as int;
    assert(name[k] == '.');
    assert forall|j: int| k < j < name.len() implies name[j] != '.' by {
        assert(name[j] == ext[j - k - 1]);
    }
    assert(is_last_dot(name, k));
    assert forall|m: int| is_last_dot(name, m) implies m == k by {
        if m < k {
            assert(name[k] == '.');
        }
    }
    if name == seq!['.'] {
        assert(name.len() == 1);
    }
    if name == seq!['.', '.'] {
        assert(name.len() == 2);
        assert(stem.len() == 1 && ext.len() == 0);
        assert(stem =~= seq!['.']);
    }
    assert(name.skip(k + 1) =~= ext);
}

/// A name without a dot has no extension.
pub proof fn lemma_extension_of_undotted_name(name: Seq<char>)
    requires
        forall|j: int| 0 <= j < name.len() ==> name[j] != '.',
    ensures
        extension_of(name) is None,
{
    if name == seq!['.'] {
        assert(name[0] == '.');
    }
    if name == seq!['.', '.'] {
        assert(name[0] == '.');
    }
}

/// An entry with the extension anywhere among the names, not only last, is
/// enough for a directory to hold a file with that extension.
pub proof fn lemma_entry_at_any_position(names: Seq<String>, ext: Seq<char>, i: int)
    requires
        0 <= i < names.len(),
        extension_of(names[i]@) == Some(ext),
    ensures
        some_entry_has_extension(names, ext),
        ext == MIS_EXTENSION@ ==> fm_directory_verdict(true, true, names)
            == FmDirectoryCheck::Valid,
{
}

/// An existing directory is refused for want of mission files exactly when no
/// entry, at any position, has the mission extension.
pub proof fn lemma_fm_directory_verdict(exists: bool, is_dir: bool, names: Seq<String>)
    ensures
        !exists ==> fm_directory_verdict(exists, is_dir, names) == FmDirectoryCheck::Missing,
        exists && !is_dir ==> fm_directory_verdict(exists, is_dir, names)
            == FmDirectoryCheck::NotADirectory,
        exists && is_dir ==> (fm_directory_verdict(exists, is_dir, names)
            == FmDirectoryCheck::Valid <==> exists|i: int|
            0 <= i < names.len() && extension_of(names[i]@) == Some(MIS_EXTENSION@)),
{
}

} // verus!
