use vstd::prelude::*;
use vstd::string::*;

use crate::constants::OPENAI_MODEL;
use crate::text::owned;

verus! {

broadcast use vstd::string::group_string_axioms;

/// Who speaks in a chat message.
#[derive(PartialEq, Eq, Structural, Debug, Clone, Copy)]
pub enum ChatRole {
    System,
    User,
}

/// One message of a chat completion request.
pub struct ChatMessage {
    pub role: ChatRole,
    pub content: String,
}

/// The model that translations are asked of.
pub fn completion_model() -> (model: String)
    ensures
        model@ == OPENAI_MODEL@,
{
    owned(OPENAI_MODEL)
}

/// The messages of a completion request: the system prompt, then the user's
/// text.
pub fn completion_messages(system_prompt: &str, user_prompt: &str) -> (messages: Vec<ChatMessage>)
    ensures
        messages@.len() == 2,
        messages@[0].role == ChatRole::System,
        messages@[0].content@ == system_prompt@,
        messages@[1].role == ChatRole::User,
        messages@[1].content@ == user_prompt@,
{
    let mut messages: Vec<ChatMessage> = Vec::new();
    messages.push(ChatMessage { role: ChatRole::System, content: owned(system_prompt) });
    messages.push(ChatMessage { role: ChatRole::User, content: owned(user_prompt) });
    messages
}

/// The answer of a completion: the content of its first choice, when there is
/// a first choice and it has content.
pub fn completion_text(choice_contents: Vec<Option<String>>) -> (text: Option<String>)
    ensures
        choice_contents@.len() == 0 ==> text is None,
        choice_contents@.len() > 0 ==> text == choice_contents@[0],
{
    let mut contents = choice_contents;
    if contents.len() == 0 {
        None
    } else {
        contents.swap_remove(0)
    }
}

/// Whether the model lookup that checks a key found the model: its id is not
/// empty.
pub fn is_model_found(model_id: &str) -> (found: bool)
    ensures
        found == (model_id@.len() > 0),
{
    !model_id.is_empty()
}

} // verus!
