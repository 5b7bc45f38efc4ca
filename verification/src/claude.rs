//! The data handed to and received from the text-generation service:
//! how a request is composed from a system prompt and a content bundle,
//! and how the generated text is read out of a response.
//!
//! The transport — serialisation, headers, the network call — lives
//! outside the library and works on mirror types of these.
use vstd::prelude::*;
use vstd::string::StringExecFns;

verus! {

/// One message of a request.
pub struct Message {
    /// Who speaks: the requests built here always say `user`.
    pub role: String,
    /// What is said.
    pub content: String,
}

/// A request to the text-generation service.
pub struct ClaudeRequest {
    /// The model asked for.
    pub model: String,
    /// The conversation so far: here, a single user message.
    pub messages: Vec<Message>,
    /// The ceiling on the generated text's length, in tokens.
    pub max_tokens: u32,
}

/// One part of a response.
pub struct Content {
    /// The generated text.
    pub text: String,
}

/// A response from the text-generation service.
pub struct ClaudeResponse {
    /// The response's parts; the first one carries the generated text.
    pub content: Vec<Content>,
}

/// The single user message a request carries: the system prompt, a
/// blank line, then the user's content.
pub open spec fn spec_combined_message(system: Seq<char>, user: Seq<char>) -> Seq<char> {
    system + "\n\n"@ + user
}

/// Compose the request for one generation: the configured model, the
/// fixed token ceiling, and one user message holding the system prompt
/// and the content bundle separated by a blank line.
pub fn build_request(model: &str, system_prompt: &str, user_message: &str) -> (r: ClaudeRequest)
    ensures
        r.model@ == model@,
        r.max_tokens == 4096,
        r.messages@.len() == 1,
        r.messages@[0].role@ == "user"@,
        r.messages@[0].content@ == spec_combined_message(system_prompt@, user_message@),
{
    let mut content = String::from_str(system_prompt);
    content.append("\n\n");
    content.append(user_message);
    let mut messages: Vec<Message> = Vec::new();
    messages.push(Message { role: String::from_str("user"), content });
    ClaudeRequest { model: String::from_str(model), messages, max_tokens: 4096 }
}

/// Read the generated text out of a response: the first content part's
/// text, or nothing when the response carries no part at all.
pub fn first_text(resp: &ClaudeResponse) -> (r: Option<&String>)
    ensures
        r is Some <==> resp.content@.len() > 0,
        match r {
            Some(t) => t@ == resp.content@[0].text@,
            None => true,
        },
{
    if resp.content.len() > 0 {
        Some(&resp.content[0].text)
    } else {
        None
    }
}

} // verus!
