//! Messages exchanged with an OpenAI-compatible chat-completion API, the
//! payloads of the events sent to the user interface, and the parts of a
//! request and of its response that the client computes.
use vstd::prelude::*;
use crate::json::{json_get, opt_at, opt_get, opt_str, JsonValue};
use crate::text::{chars_of, owned, push_str, string_of_range};

verus! {

/// One chat message: a role (`system`, `user`, `assistant`, `tool`) and its text.
#[derive(Debug)]
pub struct ChatCompletionMessage {
    pub role: String,
    pub content: String,
}

/// A message as a pair of texts: role and content.
pub open spec fn msg_view(m: ChatCompletionMessage) -> (Seq<char>, Seq<char>) {
    (m.role@, m.content@)
}

/// The messages of `ms` as pairs of texts.
pub open spec fn msgs_view(ms: Seq<ChatCompletionMessage>) -> Seq<(Seq<char>, Seq<char>)> {
    ms.map_values(|m: ChatCompletionMessage| msg_view(m))
}

impl ChatCompletionMessage {
    /// A message with the given role and content.
    pub fn new(role: &str, content: &str) -> (r: ChatCompletionMessage)
        ensures
            msg_view(r) == (role@, content@),
    {
        ChatCompletionMessage { role: owned(role), content: owned(content) }
    }

    /// A copy of this message.
    pub fn duplicate(&self) -> (r: ChatCompletionMessage)
        ensures
            r == *self,
    {
        ChatCompletionMessage { role: self.role.clone(), content: self.content.clone() }
    }
}

/// A copy of the messages of `ms`.
pub fn copy_messages(ms: &Vec<ChatCompletionMessage>) -> (r: Vec<ChatCompletionMessage>)
    ensures
        r@ == ms@,
{
    let mut r: Vec<ChatCompletionMessage> = Vec::new();
    let mut i: usize = 0;
    while i < ms.len()
        invariant
            i <= ms@.len(),
            r@ == ms@.take(i as int),
        decreases ms@.len() - i,
    {
        r.push(ms[i].duplicate());
        i = i + 1;
        assert(r@ == ms@.take(i as int));
    }
    assert(ms@.take(ms@.len() as int) == ms@);
    r
}

/// Payload of a streamed token event.
pub struct TokenPayload {
    pub session_id: i64,
    pub message_id: i64,
    pub token: String,
}

/// Payload of the event that ends a streamed response.
pub struct DonePayload {
    pub session_id: i64,
    pub message_id: i64,
    pub full_content: String,
    pub sources: Vec<String>,
}

/// Payload of an error event.
pub struct ErrorPayload {
    pub session_id: i64,
    pub error: String,
}

/// The chat-completion client. Sending requests is left to the caller.
pub struct LlmClient;

/// `s` without its trailing `/` characters.
pub open spec fn trim_slashes(s: Seq<char>) -> Seq<char>
    decreases s.len(),
{
    if s.len() > 0 && s.last() == '/' {
        trim_slashes(s.drop_last())
    } else {
        s
    }
}

/// The assistant text of a non-streamed completion,
/// `choices[0].message.content`, or the empty text.
pub open spec fn completion_text(v: JsonValue) -> Seq<char> {
    match opt_str(opt_get(opt_get(opt_at(json_get(v, "choices"@), 0), "message"@), "content"@)) {
        Some(t) => t,
        None => Seq::empty(),
    }
}

impl LlmClient {
    /// The chat-completions endpoint of a provider: its base URL (which
    /// names the API version, such as `https://api.openai.com/v1`) without
    /// trailing slashes, then `/chat/completions`.
    pub fn completions_url(base_url: &str) -> (r: String)
        ensures
            r@ == trim_slashes(base_url@) + "/chat/completions"@,
    {
        let v = chars_of(base_url);
        let mut end = v.len();
        assert(v@.take(end as int) == v@);
        while end > 0 && v[end - 1] == '/'
            invariant
                end <= v@.len(),
                trim_slashes(v@) == trim_slashes(v@.take(end as int)),
            decreases end,
        {
            assert(v@.take(end as int).drop_last() == v@.take(end - 1));
            end = end - 1;
        }
        let mut r = string_of_range(&v, 0, end);
        assert(v@.subrange(0, end as int) == v@.take(end as int));
        push_str(&mut r, "/chat/completions");
        r
    }

    /// The `Authorization` header value: `Bearer` and the key, when a key is set.
    pub fn authorization(api_key: &str) -> (r: Option<String>)
        ensures
            api_key@.len() == 0 ==> r is None,
            api_key@.len() > 0 ==> (r matches Some(h) && h@ == "Bearer "@ + api_key@),
    {
        if api_key.is_empty() {
            None
        } else {
            let mut h = owned("Bearer ");
            push_str(&mut h, api_key);
            Some(h)
        }
    }

    /// The assistant text of a parsed non-streamed completion response.
    pub fn completion_content(json: &JsonValue) -> (r: String)
        ensures
            r@ == completion_text(*json),
    {
        let content = match json.get("choices") {
            Some(c) => match c.at(0) {
                Some(first) => match first.get("message") {
                    Some(m) => match m.get("content") {
                        Some(x) => x.as_str(),
                        None => None,
                    },
                    None => None,
                },
                None => None,
            },
            None => None,
        };
        match content {
            Some(t) => owned(t),
            None => {
                proof {
                    reveal_strlit("");
                }
                owned("")
            },
        }
    }

    /// The error reported when the API answers with an unsuccessful status.
    pub fn api_error(status: &str, body: &str) -> (r: String)
        ensures
            r@ == "LLM API returned "@ + status@ + ": "@ + body@,
    {
        let mut r = owned("LLM API returned ");
        push_str(&mut r, status);
        push_str(&mut r, ": ");
        push_str(&mut r, body);
        r
    }
}

} // verus!

verus! {

/// Law: the endpoint is the base URL, without any trailing slashes, then
/// `/chat/completions`: a base URL that does not end in `/` is kept whole,
/// and adding slashes at its end changes nothing.
pub proof fn law_endpoint_extends_the_base_url(base: Seq<char>, slashes: nat)
    requires
        base.len() == 0 || base.last() != '/',
    ensures
        trim_slashes(base) == base,
        trim_slashes(base + Seq::new(slashes, |i: int| '/')) == base,
    decreases slashes,
{
    let t = base + Seq::new(slashes, |i: int| '/');
    if slashes > 0 {
        law_endpoint_extends_the_base_url(base, (slashes - 1) as nat);
        assert(t.drop_last() =~= base + Seq::new((slashes - 1) as nat, |i: int| '/'));
    } else {
        assert(t =~= base);
    }
}

} // verus!
