use vstd::prelude::*;
use vstd::string::*;

use crate::constants::{FILE_SERVER_BASE_URL, PROMPTS_FILE};
use crate::text::{concat, same_text};

verus! {

broadcast use vstd::string::group_string_axioms;

/// The index of the prompt files on the file server.
pub struct PromptCollection {
    pub prompts: Vec<PromptFileInfo>,
}

/// One entry of the prompt index: the file that holds a prompt, its version and
/// its type.
pub struct PromptFileInfo {
    pub file: String,
    pub version: String,
    pub prompt_type: String,
}

/// A prompt: its text, version and type.
pub struct Prompt {
    pub content: String,
    pub version: String,
    pub prompt_type: String,
}

/// The prompts known to the application, in the order of the index.
pub struct PromptService {
    pub prompts: Vec<Prompt>,
}

impl Prompt {
    /// The prompt that the index entry `info` describes, with the text
    /// downloaded from its file.
    pub fn from_info(info: PromptFileInfo, content: String) -> (prompt: Prompt)
        ensures
            prompt.content == content,
            prompt.version == info.version,
            prompt.prompt_type == info.prompt_type,
    {
        Prompt { content, version: info.version, prompt_type: info.prompt_type }
    }
}

/// The address of a file on the prompt file server.
pub fn prompt_file_url(file: &str) -> (url: String)
    ensures
        url@ == FILE_SERVER_BASE_URL@ + file@,
{
    concat(FILE_SERVER_BASE_URL, file)
}

/// The address of the prompt index on the file server.
pub fn prompt_index_url() -> (url: String)
    ensures
        url@ == FILE_SERVER_BASE_URL@ + PROMPTS_FILE@,
{
    prompt_file_url(PROMPTS_FILE)
}

/// `i` is the first position in `prompts` of a prompt of type `prompt_type`.
pub open spec fn is_first_of_type(prompts: Seq<Prompt>, prompt_type: Seq<char>, i: int) -> bool {
    &&& 0 <= i < prompts.len()
    &&& prompts[i].prompt_type@ == prompt_type
    &&& forall|j: int| 0 <= j < i ==> (#[trigger] prompts[j]).prompt_type@ != prompt_type
}

/// The first prompt of type `prompt_type` in `prompts`, if there is one.
pub open spec fn prompt_of_type(prompts: Seq<Prompt>, prompt_type: Seq<char>) -> Option<Prompt> {
    if exists|i: int| is_first_of_type(prompts, prompt_type, i) {
        Some(prompts[choose|i: int| is_first_of_type(prompts, prompt_type, i)])
    } else {
        None
    }
}

/// The overview line of one prompt: its type, an arrow and its version.
pub open spec fn overview_line(prompt: Prompt) -> Seq<char> {
    prompt.prompt_type@ + " ->> "@ + prompt.version@
}

impl PromptService {
    /// A service over the given prompts.
    pub fn new(prompts: Vec<Prompt>) -> (service: PromptService)
        ensures
            service.prompts@ == prompts@,
    {
        PromptService { prompts }
    }

    /// The first prompt of the given type, if there is one.
    pub fn get_prompt_by_type(&self, prompt_type: &str) -> (found: Option<&Prompt>)
        ensures
            match found {
                Some(p) => exists|i: int|
                    is_first_of_type(self.prompts@, prompt_type@, i) && *p == self.prompts@[i],
                None => forall|i: int|
                    0 <= i < self.prompts@.len() ==> (#[trigger] self.prompts@[i]).prompt_type@
                        != prompt_type@,
            },
            match found {
                Some(p) => prompt_of_type(self.prompts@, prompt_type@) == Some(*p),
                None => prompt_of_type(self.prompts@, prompt_type@) is None,
            },
    {
        let n = self.prompts.len();
        for i in 0..n
            invariant
                n == self.prompts@.len(),
                forall|j: int|
                    0 <= j < i ==> (#[trigger] self.prompts@[j]).prompt_type@ != prompt_type@,
        {
            if same_text(self.prompts[i].prompt_type.as_str(), prompt_type) {
                assert(is_first_of_type(self.prompts@, prompt_type@, i as int));
                proof {
                    let k = choose|k: int| is_first_of_type(self.prompts@, prompt_type@, k);
                    if k < i {
                        assert(self.prompts@[k].prompt_type@ != prompt_type@);
                    } else if k > i {
                        assert(self.prompts@[i as int].prompt_type@ != prompt_type@);
                    }
                }
                return Some(&self.prompts[i]);
            }
        }
        None
    }

    /// One overview line per prompt, in order.
    pub fn overview_lines(&self) -> (lines: Vec<String>)
        ensures
            lines@.len() == self.prompts@.len(),
            forall|i: int|
                0 <= i < lines@.len() ==> (#[trigger] lines@[i])@ == overview_line(
                    self.prompts@[i],
                ),
            forall|i: int|
                0 <= i < lines@.len() ==> (#[trigger] lines@[i])@ == self.prompts@[i].prompt_type@
                    + " ->> "@ + self.prompts@[i].version@,
    {
        let mut lines: Vec<String> = Vec::new();
        let n = self.prompts.len();
        for i in 0..n
            invariant
                n == self.prompts@.len(),
                lines@.len() == i,
                forall|j: int|
                    0 <= j < i ==> (#[trigger] lines@[j])@ == overview_line(self.prompts@[j]),
        {
            let p = &self.prompts[i];
            let head = concat(p.prompt_type.as_str(), " ->> ");
            lines.push(concat(head.as_str(), p.version.as_str()));
        }
        lines
    }
}

/// The prompt found for a type has that type and is the first such in the
/// list; none is found exactly when no prompt has the type.
pub proof fn lemma_prompt_of_type(prompts: Seq<Prompt>, prompt_type: Seq<char>)
    ensures
        match prompt_of_type(prompts, prompt_type) {
            Some(p) => p.prompt_type@ == prompt_type && exists|i: int|
                0 <= i < prompts.len() && prompts[i] == p && forall|j: int|
                    0 <= j < i ==> (#[trigger] prompts[j]).prompt_type@ != prompt_type,
            None => forall|i: int|
                0 <= i < prompts.len() ==> (#[trigger] prompts[i]).prompt_type@ != prompt_type,
        },
{
    if !(exists|i: int| is_first_of_type(prompts, prompt_type, i)) {
        assert forall|i: int|
            0 <= i < prompts.len() implies (#[trigger] prompts[i]).prompt_type@ != prompt_type by {
            if prompts[i].prompt_type@ == prompt_type {
                let k = lemma_first_of_type_exists(prompts, prompt_type, i);
            }
        }
    }
}

/// When some prompt has the type, a first one does.
proof fn lemma_first_of_type_exists(prompts: Seq<Prompt>, prompt_type: Seq<char>, i: int) -> (k: int)
    requires
        0 <= i < prompts.len(),
        prompts[i].prompt_type@ == prompt_type,
    ensures
        is_first_of_type(prompts, prompt_type, k),
    decreases i,
{
    if exists|j: int| 0 <= j < i && (#[trigger] prompts[j]).prompt_type@ == prompt_type {
        let j = choose|j: int| 0 <= j < i && (#[trigger] prompts[j]).prompt_type@ == prompt_type;
        lemma_first_of_type_exists(prompts, prompt_type, j)
    } else {
        i
    }
}

} // verus!
