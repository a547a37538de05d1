//! AI requests: provider checks, and the prompt of a document transformation.
use vstd::prelude::*;
use crate::ai::provider::{msgs_view, ChatCompletionMessage};
use crate::db::models::ChatSession;
use crate::text::{byte_prefix, char_count_at_byte, chars_of, int_decimal, owned, push_i64, push_str, str_len, truncate_bytes, truncated, utf8_len};

verus! {

/// The error for a provider id that is not configured.
pub fn provider_not_found(id: i64) -> (r: String)
    ensures
        r@ == "Provider with id "@ + int_decimal(id as int) + " not found"@,
{
    let mut r = owned("Provider with id ");
    push_i64(&mut r, id);
    push_str(&mut r, " not found");
    r
}

/// The message that tests a provider's connection.
pub fn connection_test_messages() -> (r: Vec<ChatCompletionMessage>)
    ensures
        msgs_view(r@) == seq![("user"@, "Say 'Hello! Connection successful.' in exactly those words."@)],
{
    let r = vec![ChatCompletionMessage::new("user", "Say 'Hello! Connection successful.' in exactly those words.")];
    assert(msgs_view(r@) =~= seq![("user"@, "Say 'Hello! Connection successful.' in exactly those words."@)]);
    r
}

/// The provider a session names, if the session exists and names one.
pub fn session_provider_id(session: &Option<ChatSession>) -> (r: Option<i64>)
    ensures
        r == match session { Some(s) => s.provider_id, None => None },
{
    match session {
        Some(s) => s.provider_id,
        None => None,
    }
}

/// The system prompt of a document transformation: the instructions, then
/// the document's path and its text cut to 8000 bytes.
pub open spec fn transform_prompt(path: Seq<char>, text: Seq<char>) -> Seq<char> {
    "You are a document transformation assistant. The user will provide a prompt describing how to transform the following document. Apply the transformation and return the result.\n\n--- Document: "@
        + path + " ---\n"@ + truncated(text, 8000, "...\n[truncated]"@)
}

/// The messages of a document transformation: the system prompt with the
/// document, then the user's prompt. A text longer than 8000 bytes must
/// have a character boundary at byte 8000.
pub fn transform_messages(path: &str, text: &str, prompt: &str) -> (r: Vec<ChatCompletionMessage>)
    requires
        utf8_len(text@) > 8000 ==> byte_prefix(text@, 8000) is Some,
    ensures
        msgs_view(r@) == seq![("system"@, transform_prompt(path@, text@)), ("user"@, prompt@)],
{
    let body = truncate_bytes(text, 8000, "...\n[truncated]");
    let mut system = owned(
        "You are a document transformation assistant. The user will provide a prompt describing how to transform the following document. Apply the transformation and return the result.\n\n--- Document: ",
    );
    push_str(&mut system, path);
    push_str(&mut system, " ---\n");
    push_str(&mut system, body.as_str());
    let r = vec![
        ChatCompletionMessage::new("system", system.as_str()),
        ChatCompletionMessage::new("user", prompt),
    ];
    assert(msgs_view(r@) =~= seq![("system"@, transform_prompt(path@, text@)), ("user"@, prompt@)]);
    r
}

} // verus!

verus! {

/// The messages the `transform_document` tool sends: those of
/// `transform_messages`; when the text is longer than 8000 bytes and byte
/// 8000 falls inside a character, an error instead.
pub fn transform_tool_messages(path: &str, text: &str, prompt: &str) -> (r: Result<Vec<ChatCompletionMessage>, String>)
    ensures
        utf8_len(text@) > 8000 && byte_prefix(text@, 8000) is None ==> (r matches Err(e)
            && e@ == "transform_document cannot cut the document at byte 8000, which falls inside a character"@),
        !(utf8_len(text@) > 8000 && byte_prefix(text@, 8000) is None) ==> (r matches Ok(ms)
            && msgs_view(ms@) == seq![("system"@, transform_prompt(path@, text@)), ("user"@, prompt@)]),
{
    if str_len(text) > 8000 {
        let v = chars_of(text);
        if char_count_at_byte(&v, 8000).is_none() {
            return Err(owned("transform_document cannot cut the document at byte 8000, which falls inside a character"));
        }
    }
    Ok(transform_messages(path, text, prompt))
}

} // verus!
