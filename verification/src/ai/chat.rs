//! Chat sessions: which provider answers, which stored messages the model
//! sees, and how a new message is recorded.
use vstd::prelude::*;
use crate::ai::provider::{msg_view, msgs_view, ChatCompletionMessage};
use crate::db::models::ChatMessage;
use crate::text::{owned, same_text};
use crate::json::json_string_list;

verus! {

/// A provider lookup, in the order they are tried.
pub enum ProviderLookup {
    /// The provider the session names.
    ById(i64),
    /// The provider marked as default.
    Default,
    /// The first provider configured.
    First,
}

/// The outcome of one lookup.
pub enum Resolution<P> {
    /// This provider answers.
    Found(P),
    /// Try this lookup next.
    Next(ProviderLookup),
    /// No provider is configured.
    Missing(String),
}

/// The message given when no provider is configured.
pub open spec fn no_provider_message() -> Seq<char> {
    "No LLM provider configured. Please add a provider in Settings."@
}

/// The first lookup for a session: its own provider when it names one,
/// otherwise the default provider.
pub open spec fn first_lookup_of(provider_id: Option<i64>) -> ProviderLookup {
    match provider_id {
        Some(id) => ProviderLookup::ById(id),
        None => ProviderLookup::Default,
    }
}

/// The lookup tried after `l` finds nothing: the session's provider falls
/// back to the default, the default to the first one, and the first one to
/// nothing.
pub open spec fn next_lookup(l: ProviderLookup) -> Option<ProviderLookup> {
    match l {
        ProviderLookup::ById(_) => Some(ProviderLookup::Default),
        ProviderLookup::Default => Some(ProviderLookup::First),
        ProviderLookup::First => None,
    }
}

/// The first lookup for a session.
pub fn first_lookup(provider_id: Option<i64>) -> (r: ProviderLookup)
    ensures
        r == first_lookup_of(provider_id),
{
    match provider_id {
        Some(id) => ProviderLookup::ById(id),
        None => ProviderLookup::Default,
    }
}

/// Decides after a lookup: a provider found answers; otherwise the next
/// lookup is tried, and after the last one no provider is configured.
pub fn resolve_step<P>(lookup: ProviderLookup, found: Option<P>) -> (r: Resolution<P>)
    ensures
        match found {
            Some(p) => r == Resolution::Found(p),
            None => match next_lookup(lookup) {
                Some(n) => r == Resolution::<P>::Next(n),
                None => r matches Resolution::Missing(m) && m@ == no_provider_message(),
            },
        },
{
    match found {
        Some(p) => Resolution::Found(p),
        None => match lookup {
            ProviderLookup::ById(_) => Resolution::Next(ProviderLookup::Default),
            ProviderLookup::Default => Resolution::Next(ProviderLookup::First),
            ProviderLookup::First => {
                Resolution::Missing(owned("No LLM provider configured. Please add a provider in Settings."))
            },
        },
    }
}

/// What lookup `l` finds, given what each kind of lookup finds.
pub open spec fn answer_of<P>(l: ProviderLookup, by_id: Option<P>, default: Option<P>, first: Option<P>) -> Option<P> {
    match l {
        ProviderLookup::ById(_) => by_id,
        ProviderLookup::Default => default,
        ProviderLookup::First => first,
    }
}

/// The provider reached from lookup `l` on: the first found along the
/// fallback chain (at most three lookups).
pub open spec fn chain_from<P>(l: ProviderLookup, by_id: Option<P>, default: Option<P>, first: Option<P>, fuel: nat) -> Option<P>
    decreases fuel,
{
    match answer_of(l, by_id, default, first) {
        Some(p) => Some(p),
        None => match next_lookup(l) {
            Some(n) => if fuel == 0 { None } else { chain_from(n, by_id, default, first, (fuel - 1) as nat) },
            None => None,
        },
    }
}

/// The provider a session resolves to, given what each lookup finds: its own
/// provider, else the default, else the first configured, else none.
pub open spec fn resolved<P>(provider_id: Option<i64>, by_id: Option<P>, default: Option<P>, first: Option<P>) -> Option<P> {
    match (provider_id, by_id) {
        (Some(_), Some(p)) => Some(p),
        _ => match default {
            Some(p) => Some(p),
            None => first,
        },
    }
}

/// Law: following `first_lookup` and `next_lookup` until a provider is found
/// settles on the session's provider, else the default, else the first one;
/// none is found only when every lookup came back empty.
pub proof fn law_provider_fallback_order<P>(provider_id: Option<i64>, by_id: Option<P>, default: Option<P>, first: Option<P>)
    ensures
        chain_from(first_lookup_of(provider_id), by_id, default, first, 2) == resolved(provider_id, by_id, default, first),
{
    reveal_with_fuel(chain_from, 3);
}

} // verus!

verus! {

/// A role the model is shown: `user`, `assistant` or `system`.
pub open spec fn is_model_role(role: Seq<char>) -> bool {
    role == "user"@ || role == "assistant"@ || role == "system"@
}

/// The stored messages the model is shown, as role/content pairs, in order.
pub open spec fn history_view(ms: Seq<ChatMessage>) -> Seq<(Seq<char>, Seq<char>)>
    decreases ms.len(),
{
    if ms.len() == 0 {
        Seq::empty()
    } else {
        let rest = history_view(ms.drop_last());
        if is_model_role(ms.last().role@) {
            rest.push((ms.last().role@, ms.last().content@))
        } else {
            rest
        }
    }
}

/// Converts the stored messages of a session to the form the API expects,
/// keeping the user, assistant and system messages in order.
pub fn load_chat_history(messages: &Vec<ChatMessage>) -> (r: Vec<ChatCompletionMessage>)
    ensures
        msgs_view(r@) == history_view(messages@),
{
    let mut r: Vec<ChatCompletionMessage> = Vec::new();
    let mut i: usize = 0;
    while i < messages.len()
        invariant
            i <= messages@.len(),
            msgs_view(r@) == history_view(messages@.take(i as int)),
        decreases messages@.len() - i,
    {
        let m = &messages[i];
        let role = m.role.as_str();
        proof {
            assert(messages@.take(i + 1).drop_last() == messages@.take(i as int));
            assert(messages@.take(i + 1).last() == *m);
        }
        if same_text(role, "user") || same_text(role, "assistant") || same_text(role, "system") {
            let ghost before = r@;
            r.push(ChatCompletionMessage { role: m.role.clone(), content: m.content.clone() });
            proof {
                assert(msgs_view(r@) =~= msgs_view(before).push((m.role@, m.content@)));
            }
        }
        i = i + 1;
    }
    assert(messages@.take(messages@.len() as int) == messages@);
    r
}

/// `serde_json::to_string` on a list of strings. Its compact writer puts
/// out `[`, the strings, each quoted and escaped by its escape table,
/// separated by commas, and `]`; writing strings into memory cannot fail.
#[verifier::external_body]
fn json_list_text(items: &[String]) -> (r: Option<String>)
    ensures
        r is Some,
        r.unwrap()@ == json_string_list(items@.map_values(|s: String| s@)),
{
    serde_json::to_string(items).ok()
}

/// The record of a new chat message: the attached file paths as a JSON
/// array, no tool calls, and no id or
/// creation time yet (the database sets them).
pub fn chat_message_record(session_id: i64, role: &str, content: &str, attached_files: &[String]) -> (m: ChatMessage)
    ensures
        m.id is None,
        m.session_id == session_id,
        m.role@ == role@,
        m.content@ == content@,
        m.attached_files@ == json_string_list(attached_files@.map_values(|s: String| s@)),
        m.tool_calls@ == "[]"@,
        m.created_at@ == Seq::<char>::empty(),
{
    let attached_json = match json_list_text(attached_files) {
        Some(t) => t,
        None => owned("[]"),
    };
    ChatMessage {
        id: None,
        session_id,
        role: owned(role),
        content: owned(content),
        attached_files: attached_json,
        tool_calls: owned("[]"),
        created_at: String::new(),
    }
}

/// The messages of a plain chat completion: the history, then the user's message.
pub fn completion_messages(history: &Vec<ChatCompletionMessage>, user_message: &str) -> (r: Vec<ChatCompletionMessage>)
    ensures
        msgs_view(r@) == msgs_view(history@).push(("user"@, user_message@)),
{
    let mut messages = crate::ai::provider::copy_messages(history);
    messages.push(ChatCompletionMessage::new("user", user_message));
    assert(msgs_view(messages@) =~= msgs_view(history@).push(("user"@, user_message@)));
    messages
}

/// The history without empty assistant messages (placeholders of answers
/// still being written).
pub open spec fn without_placeholders(h: Seq<(Seq<char>, Seq<char>)>) -> Seq<(Seq<char>, Seq<char>)> {
    h.filter(|m: (Seq<char>, Seq<char>)| !(m.0 == "assistant"@ && m.1.len() == 0))
}

/// The history a new message is answered from: placeholders removed, and the
/// new message itself removed when it is the last one.
pub open spec fn prior_history(h: Seq<(Seq<char>, Seq<char>)>, message: Seq<char>) -> Seq<(Seq<char>, Seq<char>)> {
    let kept = without_placeholders(h);
    if kept.len() > 0 && kept.last().1 == message {
        kept.drop_last()
    } else {
        kept
    }
}

/// The history a new message is answered from: the stored history without
/// empty assistant placeholders, and without its last message when that is
/// the message being answered.
pub fn history_for_completion(history: Vec<ChatCompletionMessage>, message: &str) -> (r: Vec<ChatCompletionMessage>)
    ensures
        msgs_view(r@) == prior_history(msgs_view(history@), message@),
{
    let ghost h = msgs_view(history@);
    let mut kept: Vec<ChatCompletionMessage> = Vec::new();
    let mut i: usize = 0;
    while i < history.len()
        invariant
            i <= history@.len(),
            h == msgs_view(history@),
            msgs_view(kept@) == without_placeholders(h.take(i as int)),
        decreases history@.len() - i,
    {
        let m = &history[i];
        proof {
            reveal_with_fuel(Seq::<_>::filter, 1);
            assert(h.take(i + 1).drop_last() == h.take(i as int));
            assert(h.take(i + 1).last() == msg_view(*m));
        }
        if !(same_text(m.role.as_str(), "assistant") && m.content.as_str().is_empty()) {
            let ghost before = kept@;
            kept.push(m.duplicate());
            proof {
                assert(msgs_view(kept@) =~= msgs_view(before).push(msg_view(*m)));
            }
        }
        i = i + 1;
    }
    assert(h.take(history@.len() as int) == h);
    let n = kept.len();
    if n > 0 && same_text(kept[n - 1].content.as_str(), message) {
        let ghost before = kept@;
        kept.pop();
        proof {
            assert(msgs_view(kept@) =~= msgs_view(before).drop_last());
        }
    }
    kept
}

} // verus!
