//! Retrieval-augmented generation: the prompt built from the documents a
//! search finds.
use vstd::prelude::*;
use crate::ai::provider::{msgs_view, ChatCompletionMessage};
use crate::text::{byte_prefix, join, joined, owned, push_str, truncate_bytes, truncated, utf8_len};

verus! {

/// The RAG pipeline: searches indexed documents, builds a context-enriched
/// prompt, and streams the response; searching, reading and streaming are
/// left to the caller.
pub struct RagPipeline;

/// The context entry of one document.
pub open spec fn document_part(path: Seq<char>, text: Seq<char>) -> Seq<char> {
    "--- Document: "@ + path + " ---\n"@ + text + "\n"@
}

/// The context entry of one search hit: its extracted text cut to 2000
/// bytes, or, when no text could be extracted, its snippet if it has one.
pub open spec fn hit_part(path: Seq<char>, extracted: Option<Seq<char>>, snippet: Seq<char>) -> Option<Seq<char>> {
    match extracted {
        Some(t) => Some(document_part(path, truncated(t, 2000, "..."@))),
        None => if snippet.len() > 0 { Some(document_part(path, snippet)) } else { None },
    }
}

/// The system prompt for the context entries `parts`.
pub open spec fn rag_prompt(parts: Seq<Seq<char>>) -> Seq<char> {
    if parts.len() == 0 {
        "You are a helpful assistant. The user asked a question but no relevant documents were found in their library. Answer to the best of your ability and let them know that no matching documents were found."@
    } else {
        "You are a helpful assistant with access to the user's document library. Use the following document excerpts to answer the user's question. Cite the document paths when referencing specific information.\n\n"@
            + joined(parts, "\n"@)
            + "\nIf the documents don't contain enough information to fully answer the question, say so and provide what you can based on the available context."@
    }
}

impl RagPipeline {
    /// The context entry of one search hit.
    pub fn hit_context(path: &str, extracted: Option<&str>, snippet: &str) -> (r: Option<String>)
        requires
            extracted matches Some(t) ==> (utf8_len(t@) > 2000 ==> byte_prefix(t@, 2000) is Some),
        ensures
            match r {
                Some(x) => hit_part(path@, match extracted { Some(t) => Some(t@), None => None }, snippet@) == Some(x@),
                None => hit_part(path@, match extracted { Some(t) => Some(t@), None => None }, snippet@) is None,
            },
    {
        let body = match extracted {
            Some(t) => truncate_bytes(t, 2000, "..."),
            None => {
                if snippet.is_empty() {
                    return None;
                }
                owned(snippet)
            },
        };
        let mut part = owned("--- Document: ");
        push_str(&mut part, path);
        push_str(&mut part, " ---\n");
        push_str(&mut part, body.as_str());
        push_str(&mut part, "\n");
        Some(part)
    }

    /// The system prompt for the context entries gathered.
    pub fn system_prompt(parts: &Vec<String>) -> (r: String)
        ensures
            r@ == rag_prompt(parts@.map_values(|p: String| p@)),
    {
        if parts.len() == 0 {
            return owned(
                "You are a helpful assistant. The user asked a question but no relevant documents were found in their library. Answer to the best of your ability and let them know that no matching documents were found.",
            );
        }
        let mut prompt = owned(
            "You are a helpful assistant with access to the user's document library. Use the following document excerpts to answer the user's question. Cite the document paths when referencing specific information.\n\n",
        );
        let body = join(parts, "\n");
        push_str(&mut prompt, body.as_str());
        push_str(
            &mut prompt,
            "\nIf the documents don't contain enough information to fully answer the question, say so and provide what you can based on the available context.",
        );
        prompt
    }

    /// The messages sent to the model: the system prompt, then the user's query.
    pub fn messages(parts: &Vec<String>, user_query: &str) -> (r: Vec<ChatCompletionMessage>)
        ensures
            msgs_view(r@) == seq![("system"@, rag_prompt(parts@.map_values(|p: String| p@))), ("user"@, user_query@)],
    {
        let prompt = Self::system_prompt(parts);
        let r = vec![
            ChatCompletionMessage::new("system", prompt.as_str()),
            ChatCompletionMessage::new("user", user_query),
        ];
        assert(msgs_view(r@) =~= seq![("system"@, rag_prompt(parts@.map_values(|p: String| p@))), ("user"@, user_query@)]);
        r
    }
}

} // verus!
