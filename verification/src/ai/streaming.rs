//! Server-sent-event (SSE) decoding of streamed chat completions.
use vstd::prelude::*;
use crate::json::{json_at, json_get, json_parse, key_index, opt_at, opt_get, opt_str, parse_json, JsonValue};
use crate::text::{
    chars_of, decode_utf8_lossy, has_prefix, push_str, starts_with, string_of_range, trim_range,
    trim_spec, utf8_lossy, owned, is_ws, trim_start_spec, trim_end_spec,
};

verus! {

/// Event name for individual streaming tokens.
pub const EVENT_AI_TOKEN: &'static str = "ai:token";

/// Event name emitted when streaming is complete.
pub const EVENT_AI_DONE: &'static str = "ai:done";

/// Event name emitted on errors.
pub const EVENT_AI_ERROR: &'static str = "ai:error";

/// Event name emitted for each agent reasoning step.
pub const EVENT_AGENT_STEP: &'static str = "ai:agent_step";

/// The content delta of a parsed chunk, `choices[0].delta.content`, when it
/// is a non-empty string.
pub open spec fn delta_of(v: JsonValue) -> Option<Seq<char>> {
    match opt_str(opt_get(opt_get(opt_at(json_get(v, "choices"@), 0), "delta"@), "content"@)) {
        Some(t) => if t.len() == 0 { None } else { Some(t) },
        None => None,
    }
}

/// The token carried by one SSE line: the line starts with `data: ` and the
/// rest parses to a chunk with a non-empty content delta.
pub open spec fn sse_token(line: Seq<char>) -> Option<Seq<char>> {
    if has_prefix(line, "data: "@) {
        match json_parse(line.skip(6)) {
            Some(v) => delta_of(v),
            None => None,
        }
    } else {
        None
    }
}

/// Extracts the content delta token, if present, from a parsed chunk
/// `{"choices":[{"delta":{"content":"token"}}]}`.
pub fn delta_content(json: &JsonValue) -> (r: Option<String>)
    ensures
        match r {
            Some(t) => delta_of(*json) == Some(t@),
            None => delta_of(*json) is None,
        },
{
    let content = match json.get("choices") {
        Some(c) => match c.at(0) {
            Some(first) => match first.get("delta") {
                Some(d) => match d.get("content") {
                    Some(x) => x.as_str(),
                    None => None,
                },
                None => None,
            },
            None => None,
        },
        None => None,
    };
    match content {
        Some(t) => {
            if t.is_empty() {
                None
            } else {
                Some(owned(t))
            }
        },
        None => None,
    }
}

/// Parses a single SSE line and extracts the content delta token, if present.
///
/// Expected format: `data: {"choices":[{"delta":{"content":"token"}}]}`
pub fn parse_sse_line(line: &str) -> (r: Option<String>)
    ensures
        match r {
            Some(t) => sse_token(line@) == Some(t@),
            None => sse_token(line@) is None,
        },
{
    let v = chars_of(line);
    let prefix = chars_of("data: ");
    proof {
        reveal_strlit("data: ");
    }
    if !starts_with(&v, &prefix) {
        return None;
    }
    let data = string_of_range(&v, 6, v.len());
    assert(data@ == line@.skip(6));
    match parse_json(data.as_str()) {
        Some(json) => delta_content(&json),
        None => None,
    }
}

} // verus!

verus! {

/// Something the stream decoder reports: a token, or the end of the
/// response with its full content.
pub enum SseEvent {
    Token(String),
    Done(String),
}

/// An event as a pair: whether it marks the end, and its text.
pub open spec fn event_view(e: SseEvent) -> (bool, Seq<char>) {
    match e {
        SseEvent::Token(t) => (false, t@),
        SseEvent::Done(f) => (true, f@),
    }
}

/// The events of `es` as pairs.
pub open spec fn events_view(es: Seq<SseEvent>) -> Seq<(bool, Seq<char>)> {
    es.map_values(|e: SseEvent| event_view(e))
}

/// Index of the first line feed of `s` at or after `i`.
pub open spec fn next_newline(s: Seq<char>, i: int) -> Option<int>
    decreases s.len() - i,
{
    if i < 0 || i >= s.len() {
        None
    } else if s[i] == '\n' {
        Some(i)
    } else {
        next_newline(s, i + 1)
    }
}

/// What decoding the complete lines of a buffer yields: where the unread
/// rest starts, the accumulated content, the events, and whether the end
/// marker was seen.
pub struct SseOutcome {
    pub rest: int,
    pub full: Seq<char>,
    pub events: Seq<(bool, Seq<char>)>,
    pub done: bool,
}

proof fn lemma_next_newline_range(s: Seq<char>, i: int)
    requires
        0 <= i,
    ensures
        next_newline(s, i) matches Some(j) ==> i <= j < s.len() && s[j] == '\n',
        next_newline(s, i) is None ==> forall|k: int| i <= k < s.len() ==> s[k] != '\n',
    decreases s.len() - i,
{
    if i < s.len() && s[i] != '\n' {
        lemma_next_newline_range(s, i + 1);
    }
}

/// Decodes the complete lines of `s` from index `i` on, with `full` the
/// content accumulated so far. Each line is trimmed; blank lines are
/// skipped; `data: [DONE]` ends the response; other lines contribute their
/// token, if any.
pub open spec fn sse_lines(s: Seq<char>, i: int, full: Seq<char>) -> SseOutcome
    decreases s.len() - i,
{
    match next_newline(s, i) {
        Some(j) => if 0 <= i <= j < s.len() {
            let line = trim_spec(s.subrange(i, j));
            if line.len() == 0 {
                sse_lines(s, j + 1, full)
            } else if line == "data: [DONE]"@ {
                SseOutcome { rest: j + 1, full, events: seq![(true, full)], done: true }
            } else {
                match sse_token(line) {
                    Some(t) => {
                        let o = sse_lines(s, j + 1, full + t);
                        SseOutcome { rest: o.rest, full: o.full, events: seq![(false, t)] + o.events, done: o.done }
                    },
                    None => sse_lines(s, j + 1, full),
                }
            }
        } else {
            SseOutcome { rest: i, full, events: Seq::empty(), done: false }
        },
        None => SseOutcome { rest: i, full, events: Seq::empty(), done: false },
    }
}

/// The text of a chunk of the response body: its characters when it is
/// valid UTF-8, else its lossy decoding.
pub open spec fn chunk_text(bytes: Seq<u8>) -> Seq<char> {
    if vstd::utf8::valid_utf8(bytes) {
        vstd::utf8::decode_utf8(bytes)
    } else {
        utf8_lossy(bytes)
    }
}

/// Decoder state of a streamed completion: the text not yet split into
/// lines, and the content received so far.
pub struct SseStream {
    pub buffer: String,
    pub full_content: String,
}

/// Index of the first line feed of `v` at or after `i`.
fn find_newline(v: &Vec<char>, i: usize) -> (r: Option<usize>)
    requires
        i <= v@.len(),
    ensures
        r matches Some(j) ==> next_newline(v@, i as int) == Some(j as int),
        r is None ==> next_newline(v@, i as int) is None,
{
    let mut j = i;
    while j < v.len()
        invariant
            i <= j <= v@.len(),
            next_newline(v@, i as int) == next_newline(v@, j as int),
        decreases v@.len() - j,
    {
        if v[j] == '\n' {
            return Some(j);
        }
        j = j + 1;
    }
    None
}

impl SseStream {
    /// A decoder that has received nothing.
    pub fn new() -> (r: SseStream)
        ensures
            r.buffer@ == Seq::<char>::empty(),
            r.full_content@ == Seq::<char>::empty(),
    {
        SseStream { buffer: String::new(), full_content: String::new() }
    }

    /// Feeds one chunk of the response body. The chunk is decoded as UTF-8
    /// (lossily) and appended to the buffer; every complete line is then
    /// decoded. When the end marker is seen, the last event is `Done` with
    /// the full content and the caller stops reading.
    pub fn feed(&mut self, chunk: &[u8]) -> (events: Vec<SseEvent>)
        ensures
            ({
                let s = old(self).buffer@ + chunk_text(chunk@);
                let o = sse_lines(s, 0, old(self).full_content@);
                &&& events_view(events@) == o.events
                &&& final(self).full_content@ == o.full
                &&& final(self).buffer@ == s.skip(o.rest)
            }),
    {
        let ghost buf0 = self.buffer@;
        let ghost full0 = self.full_content@;
        let text = decode_utf8_lossy(chunk);
        push_str(&mut self.buffer, text.as_str());
        let v = chars_of(self.buffer.as_str());
        let ghost s = v@;
        assert(s == buf0 + chunk_text(chunk@));
        let mut events: Vec<SseEvent> = Vec::new();
        let mut i: usize = 0;
        let done_marker = chars_of("data: [DONE]");
        proof {
            reveal_strlit("data: [DONE]");
        }
        loop
            invariant
                s == v@,
                s == buf0 + chunk_text(chunk@),
                buf0 == old(self).buffer@,
                full0 == old(self).full_content@,
                i <= v@.len(),
                done_marker@ == "data: [DONE]"@,
                ({
                    let o = sse_lines(s, i as int, self.full_content@);
                    sse_lines(s, 0, full0) == SseOutcome {
                        rest: o.rest,
                        full: o.full,
                        events: events_view(events@) + o.events,
                        done: o.done,
                    }
                }),
            decreases v@.len() - i,
        {
            let ghost full_now = self.full_content@;
            let ghost ev_now = events_view(events@);
            match find_newline(&v, i) {
                None => {
                    assert(events_view(events@) + Seq::<(bool, Seq<char>)>::empty() == events_view(events@));
                    self.buffer = string_of_range(&v, i, v.len());
                    assert(self.buffer@ == s.skip(i as int));
                    return events;
                },
                Some(j) => {
                    proof {
                        lemma_next_newline_range(s, i as int);
                    }
                    assert(j < v.len());
                    let line = trim_range(&v, i, j);
                    let lv = chars_of(line.as_str());
                    i = j + 1;
                    if lv.len() == 0 {
                    } else if crate::text::same_text(line.as_str(), "data: [DONE]") {
                        let ghost old_events = events@;
                        events.push(SseEvent::Done(self.full_content.clone()));
                        proof {
                            assert(events@ == old_events.push(SseEvent::Done(self.full_content)));
                            assert(events_view(events@) =~= ev_now + seq![(true, full_now)]);
                        }
                        self.buffer = string_of_range(&v, i, v.len());
                        assert(self.buffer@ == s.skip(i as int));
                        return events;
                    } else {
                        match parse_sse_line(line.as_str()) {
                            Some(token) => {
                                push_str(&mut self.full_content, token.as_str());
                                let ghost old_events = events@;
                                events.push(SseEvent::Token(token));
                                proof {
                                    assert(events@ == old_events.push(SseEvent::Token(token)));
                                    assert(events_view(events@) =~= ev_now + seq![(false, token@)]);
                                    let o = sse_lines(s, i as int, self.full_content@);
                                    assert(ev_now + (seq![(false, token@)] + o.events) =~= events_view(events@) + o.events);
                                }
                            },
                            None => {},
                        }
                    }
                },
            }
        }
    }
}

} // verus!

verus! {

/// The concatenated texts of the token events of `es`.
pub open spec fn token_text(es: Seq<(bool, Seq<char>)>) -> Seq<char>
    decreases es.len(),
{
    if es.len() == 0 {
        Seq::empty()
    } else if es[0].0 {
        token_text(es.drop_first())
    } else {
        es[0].1 + token_text(es.drop_first())
    }
}

/// Law: decoding lines accumulates exactly the tokens it reports, in order;
/// the end marker is reported at most once, as the last event, with the full
/// content; and without it no end is reported.
pub proof fn law_stream_content_is_its_tokens(s: Seq<char>, i: int, full: Seq<char>)
    requires
        0 <= i,
    ensures
        ({
            let o = sse_lines(s, i, full);
            &&& o.full == full + token_text(o.events)
            &&& o.done ==> o.events.len() > 0 && o.events.last() == (true, o.full)
            &&& forall|k: int| 0 <= k < o.events.len() && o.events[k].0 ==> o.done && k == o.events.len() - 1
        }),
    decreases s.len() - i,
{
    lemma_next_newline_range(s, i);
    match next_newline(s, i) {
        Some(j) => {
            let line = trim_spec(s.subrange(i, j));
            if line.len() == 0 {
                law_stream_content_is_its_tokens(s, j + 1, full);
            } else if line == "data: [DONE]"@ {
                let es = seq![(true, full)];
                assert(es.drop_first() =~= Seq::<(bool, Seq<char>)>::empty());
                assert(token_text(es) == token_text(es.drop_first()));
                assert(full + Seq::<char>::empty() =~= full);
            } else {
                match sse_token(line) {
                    Some(t) => {
                        law_stream_content_is_its_tokens(s, j + 1, full + t);
                        let o = sse_lines(s, j + 1, full + t);
                        let es = seq![(false, t)] + o.events;
                        assert(es.drop_first() =~= o.events);
                        assert(token_text(es) == t + token_text(o.events));
                        assert(full + t + token_text(o.events) =~= full + (t + token_text(o.events)));
                        assert forall|k: int| 0 <= k < es.len() && es[k].0 implies o.done && k == es.len() - 1 by {
                            assert(k >= 1);
                            assert(es[k] == o.events[k - 1]);
                        }
                        if o.done {
                            assert(es.last() == o.events.last());
                        }
                    },
                    None => {
                        law_stream_content_is_its_tokens(s, j + 1, full);
                    },
                }
            }
        },
        None => {
            assert(full + Seq::<char>::empty() =~= full);
        },
    }
}

} // verus!

verus! {

proof fn lemma_next_newline_prefix(s1: Seq<char>, s2: Seq<char>, i: int)
    requires
        0 <= i,
        next_newline(s1, i) is Some,
    ensures
        next_newline(s1 + s2, i) == next_newline(s1, i),
    decreases s1.len() - i,
{
    if i < s1.len() && s1[i] != '\n' {
        lemma_next_newline_prefix(s1, s2, i + 1);
    }
}

proof fn lemma_next_newline_shift(t: Seq<char>, r: int, k: int)
    requires
        0 <= r <= t.len(),
        0 <= k,
    ensures
        match next_newline(t.skip(r), k) {
            Some(j) => next_newline(t, r + k) == Some(j + r),
            None => next_newline(t, r + k) is None,
        },
    decreases t.len() - r - k,
{
    if r + k < t.len() && t[r + k] != '\n' {
        lemma_next_newline_shift(t, r, k + 1);
    }
}

proof fn lemma_lines_rest_bounds(s: Seq<char>, i: int, full: Seq<char>)
    requires
        0 <= i <= s.len(),
    ensures
        i <= sse_lines(s, i, full).rest <= s.len(),
    decreases s.len() - i,
{
    lemma_next_newline_range(s, i);
    match next_newline(s, i) {
        Some(j) => {
            let line = trim_spec(s.subrange(i, j));
            if line.len() == 0 {
                lemma_lines_rest_bounds(s, j + 1, full);
            } else if line == "data: [DONE]"@ {
            } else {
                match sse_token(line) {
                    Some(t) => lemma_lines_rest_bounds(s, j + 1, full + t),
                    None => lemma_lines_rest_bounds(s, j + 1, full),
                }
            }
        },
        None => {},
    }
}

/// Decoding the lines of `s1 + s2` from `i` decodes the complete lines of
/// `s1` first, then goes on where that stopped.
proof fn lemma_lines_prefix(s1: Seq<char>, s2: Seq<char>, i: int, full: Seq<char>)
    requires
        0 <= i <= s1.len(),
        !sse_lines(s1, i, full).done,
    ensures
        ({
            let o = sse_lines(s1, i, full);
            let q = sse_lines(s1 + s2, o.rest, o.full);
            sse_lines(s1 + s2, i, full) == SseOutcome { rest: q.rest, full: q.full, events: o.events + q.events, done: q.done }
        }),
    decreases s1.len() - i,
{
    let s = s1 + s2;
    lemma_next_newline_range(s1, i);
    match next_newline(s1, i) {
        Some(j) => {
            lemma_next_newline_prefix(s1, s2, i);
            assert(s.subrange(i, j) =~= s1.subrange(i, j));
            let line = trim_spec(s1.subrange(i, j));
            if line.len() == 0 {
                lemma_lines_prefix(s1, s2, j + 1, full);
            } else if line == "data: [DONE]"@ {
            } else {
                match sse_token(line) {
                    Some(t) => {
                        lemma_lines_prefix(s1, s2, j + 1, full + t);
                        let o1 = sse_lines(s1, j + 1, full + t);
                        let q = sse_lines(s, o1.rest, o1.full);
                        assert(seq![(false, t)] + (o1.events + q.events) =~= (seq![(false, t)] + o1.events) + q.events);
                    },
                    None => {
                        lemma_lines_prefix(s1, s2, j + 1, full);
                    },
                }
            }
        },
        None => {
            let q = sse_lines(s, i, full);
            assert(Seq::<(bool, Seq<char>)>::empty() + q.events =~= q.events);
        },
    }
}

/// Decoding from `r + k` in `t` is decoding from `k` in what follows `r`.
proof fn lemma_lines_shift(t: Seq<char>, r: int, k: int, full: Seq<char>)
    requires
        0 <= r <= t.len(),
        0 <= k,
    ensures
        ({
            let a = sse_lines(t, r + k, full);
            let b = sse_lines(t.skip(r), k, full);
            a == SseOutcome { rest: b.rest + r, full: b.full, events: b.events, done: b.done }
        }),
    decreases t.len() - r - k,
{
    let u = t.skip(r);
    lemma_next_newline_shift(t, r, k);
    lemma_next_newline_range(u, k);
    match next_newline(u, k) {
        Some(j) => {
            assert(t.subrange(r + k, j + r) =~= u.subrange(k, j));
            let line = trim_spec(u.subrange(k, j));
            if line.len() == 0 {
                lemma_lines_shift(t, r, j + 1, full);
            } else if line == "data: [DONE]"@ {
            } else {
                match sse_token(line) {
                    Some(tok) => lemma_lines_shift(t, r, j + 1, full + tok),
                    None => lemma_lines_shift(t, r, j + 1, full),
                }
            }
        },
        None => {},
    }
}

/// Law: where a response is split into chunks does not matter. Feeding a
/// decoder with buffer `buffer` and content `full` the text `first` and then,
/// unless the end was seen, the text `second`, reports the same events and
/// ends in the same state as feeding `first + second` at once.
pub proof fn law_stream_split_is_invisible(buffer: Seq<char>, full: Seq<char>, first: Seq<char>, second: Seq<char>)
    ensures
        ({
            let s1 = buffer + first;
            let o1 = sse_lines(s1, 0, full);
            let s2 = s1.skip(o1.rest) + second;
            let o2 = sse_lines(s2, 0, o1.full);
            let o = sse_lines(s1 + second, 0, full);
            !o1.done ==> {
                &&& o.events == o1.events + o2.events
                &&& o.full == o2.full
                &&& o.done == o2.done
                &&& (s1 + second).skip(o.rest) == s2.skip(o2.rest)
            }
        }),
{
    let s1 = buffer + first;
    let o1 = sse_lines(s1, 0, full);
    if !o1.done {
        let t = s1 + second;
        lemma_lines_rest_bounds(s1, 0, full);
        lemma_lines_prefix(s1, second, 0, full);
        lemma_lines_shift(t, o1.rest, 0, o1.full);
        assert(t.skip(o1.rest) =~= s1.skip(o1.rest) + second);
        let o2 = sse_lines(s1.skip(o1.rest) + second, 0, o1.full);
        lemma_lines_rest_bounds(s1.skip(o1.rest) + second, 0, o1.full);
        assert(t.skip(o2.rest + o1.rest) =~= (s1.skip(o1.rest) + second).skip(o2.rest));
    }
}

} // verus!

verus! {

proof fn lemma_lines_prefix_done(s1: Seq<char>, s2: Seq<char>, i: int, full: Seq<char>)
    requires
        0 <= i <= s1.len(),
        sse_lines(s1, i, full).done,
    ensures
        sse_lines(s1 + s2, i, full) == sse_lines(s1, i, full),
    decreases s1.len() - i,
{
    let s = s1 + s2;
    lemma_next_newline_range(s1, i);
    match next_newline(s1, i) {
        Some(j) => {
            lemma_next_newline_prefix(s1, s2, i);
            assert(s.subrange(i, j) =~= s1.subrange(i, j));
            let line = trim_spec(s1.subrange(i, j));
            if line.len() == 0 {
                lemma_lines_prefix_done(s1, s2, j + 1, full);
            } else if line == "data: [DONE]"@ {
            } else {
                match sse_token(line) {
                    Some(t) => lemma_lines_prefix_done(s1, s2, j + 1, full + t),
                    None => lemma_lines_prefix_done(s1, s2, j + 1, full),
                }
            }
        },
        None => {},
    }
}

/// When decoding stops without the end marker, no line feed is left unread.
proof fn lemma_lines_rest_quiet(s: Seq<char>, i: int, full: Seq<char>)
    requires
        0 <= i <= s.len(),
        !sse_lines(s, i, full).done,
    ensures
        next_newline(s, sse_lines(s, i, full).rest) is None,
    decreases s.len() - i,
{
    lemma_next_newline_range(s, i);
    match next_newline(s, i) {
        Some(j) => {
            let line = trim_spec(s.subrange(i, j));
            if line.len() == 0 {
                lemma_lines_rest_quiet(s, j + 1, full);
            } else if line == "data: [DONE]"@ {
            } else {
                match sse_token(line) {
                    Some(t) => lemma_lines_rest_quiet(s, j + 1, full + t),
                    None => lemma_lines_rest_quiet(s, j + 1, full),
                }
            }
        },
        None => {},
    }
}

/// What feeding the texts `texts` one after another reports, starting from a
/// decoder with buffer `buffer` and content `full`: each feed decodes the
/// complete lines of the buffer and the new text, and the feeding stops after
/// the end marker.
pub struct StreamRun {
    pub events: Seq<(bool, Seq<char>)>,
    pub full: Seq<char>,
    pub done: bool,
}

/// The outcome of feeding `texts` in turn, as `SseStream::feed` states each step.
pub open spec fn stream_run(buffer: Seq<char>, full: Seq<char>, texts: Seq<Seq<char>>) -> StreamRun
    decreases texts.len(),
{
    if texts.len() == 0 {
        StreamRun { events: Seq::empty(), full, done: false }
    } else {
        let s = buffer + texts[0];
        let o = sse_lines(s, 0, full);
        if o.done {
            StreamRun { events: o.events, full: o.full, done: true }
        } else {
            let r = stream_run(s.skip(o.rest), o.full, texts.drop_first());
            StreamRun { events: o.events + r.events, full: r.full, done: r.done }
        }
    }
}

proof fn lemma_stream_run_whole(buffer: Seq<char>, full: Seq<char>, texts: Seq<Seq<char>>)
    requires
        next_newline(buffer, 0) is None,
    ensures
        ({
            let r = stream_run(buffer, full, texts);
            let o = sse_lines(buffer + texts.flatten(), 0, full);
            r.events == o.events && r.full == o.full && r.done == o.done
        }),
    decreases texts.len(),
{
    if texts.len() == 0 {
        assert(buffer + texts.flatten() =~= buffer);
    } else {
        let s = buffer + texts[0];
        let more = texts.drop_first().flatten();
        let whole = s + more;
        assert(buffer + texts.flatten() =~= whole);
        let o = sse_lines(s, 0, full);
        if o.done {
            lemma_lines_prefix_done(s, more, 0, full);
        } else {
            lemma_lines_rest_bounds(s, 0, full);
            lemma_lines_prefix(s, more, 0, full);
            lemma_lines_shift(whole, o.rest, 0, o.full);
            assert(whole.skip(o.rest) =~= s.skip(o.rest) + more);
            lemma_lines_rest_quiet(s, 0, full);
            lemma_next_newline_shift(s, o.rest, 0);
            lemma_stream_run_whole(s.skip(o.rest), o.full, texts.drop_first());
        }
    }
}

proof fn lemma_decode_concat(b1: Seq<u8>, b2: Seq<u8>)
    requires
        vstd::utf8::valid_utf8(b1),
        vstd::utf8::valid_utf8(b2),
    ensures
        vstd::utf8::valid_utf8(b1 + b2),
        vstd::utf8::decode_utf8(b1 + b2) == vstd::utf8::decode_utf8(b1) + vstd::utf8::decode_utf8(b2),
    decreases b1.len(),
{
    vstd::utf8::valid_utf8_concat(b1, b2);
    if b1.len() == 0 {
        assert(b1 + b2 =~= b2);
        assert(vstd::utf8::decode_utf8(b1) =~= Seq::<char>::empty());
    } else {
        let rest = vstd::utf8::pop_first_scalar(b1);
        assert(rest.len() < b1.len());
        lemma_decode_concat(rest, b2);
        assert(vstd::utf8::pop_first_scalar(b1 + b2) =~= rest + b2);
        assert(vstd::utf8::decode_first_scalar(b1 + b2) == vstd::utf8::decode_first_scalar(b1));
        let c = seq![vstd::utf8::decode_first_scalar(b1) as char];
        assert(c + (vstd::utf8::decode_utf8(rest) + vstd::utf8::decode_utf8(b2))
            =~= (c + vstd::utf8::decode_utf8(rest)) + vstd::utf8::decode_utf8(b2));
    }
}

proof fn lemma_chunks_text(chunks: Seq<Seq<u8>>)
    requires
        forall|i: int| 0 <= i < chunks.len() ==> vstd::utf8::valid_utf8(#[trigger] chunks[i]),
    ensures
        vstd::utf8::valid_utf8(chunks.flatten()),
        chunk_text(chunks.flatten()) == chunks.map_values(|c: Seq<u8>| chunk_text(c)).flatten(),
    decreases chunks.len(),
{
    let texts = chunks.map_values(|c: Seq<u8>| chunk_text(c));
    if chunks.len() == 0 {
        assert(texts.flatten() =~= Seq::<char>::empty());
        assert(vstd::utf8::decode_utf8(Seq::<u8>::empty()) =~= Seq::<char>::empty());
    } else {
        let rest = chunks.drop_first();
        assert forall|i: int| 0 <= i < rest.len() implies vstd::utf8::valid_utf8(#[trigger] rest[i]) by {
            assert(rest[i] == chunks[i + 1]);
        }
        lemma_chunks_text(rest);
        assert(vstd::utf8::valid_utf8(chunks[0]));
        lemma_decode_concat(chunks[0], rest.flatten());
        assert(texts.drop_first() =~= rest.map_values(|c: Seq<u8>| chunk_text(c)));
        assert(texts[0] == chunk_text(chunks[0]));
    }
}

/// Law: where a response body is cut into chunks does not matter. Feeding a
/// fresh decoder the chunks one by one (stopping after the end marker)
/// reports the same events, ends with the same content and sees the end
/// exactly when decoding the whole body at once does, for every cut at
/// character boundaries (every chunk valid UTF-8), including cuts after the
/// end marker.
pub proof fn law_stream_chunks_are_invisible(chunks: Seq<Seq<u8>>)
    requires
        forall|i: int| 0 <= i < chunks.len() ==> vstd::utf8::valid_utf8(#[trigger] chunks[i]),
    ensures
        ({
            let r = stream_run(Seq::empty(), Seq::empty(), chunks.map_values(|c: Seq<u8>| chunk_text(c)));
            let o = sse_lines(chunk_text(chunks.flatten()), 0, Seq::empty());
            r.events == o.events && r.full == o.full && r.done == o.done
        }),
{
    lemma_chunks_text(chunks);
    let texts = chunks.map_values(|c: Seq<u8>| chunk_text(c));
    lemma_stream_run_whole(Seq::empty(), Seq::empty(), texts);
    assert(Seq::<char>::empty() + texts.flatten() =~= texts.flatten());
}

} // verus!

verus! {

/// `o` is an object whose first member is `key` with value `v`.
pub open spec fn first_member(o: JsonValue, key: Seq<char>, v: JsonValue) -> bool {
    match o {
        JsonValue::Object(ps) => ps@.len() > 0 && ps@[0].0@ == key && ps@[0].1 == v,
        _ => false,
    }
}

/// `a` is an array whose first element is `v`.
pub open spec fn first_item(a: JsonValue, v: JsonValue) -> bool {
    match a {
        JsonValue::Array(items) => items@.len() > 0 && items@[0] == v,
        _ => false,
    }
}

proof fn lemma_first_member_get(o: JsonValue, key: Seq<char>, v: JsonValue)
    requires
        first_member(o, key, v),
    ensures
        json_get(o, key) == Some(v),
{
    match o {
        JsonValue::Object(ps) => {
            let p = ps@;
            assert(0 <= 0 < p.len() && p[0].0@ == key);
            let i = choose|i: int| 0 <= i < p.len() && p[i].0@ == key && forall|j: int| 0 <= j < i ==> p[j].0@ != key;
            assert(forall|j: int| 0 <= j < 0 ==> p[j].0@ != key);
            if i > 0 {
                assert(p[0].0@ != key);
            }
            assert(key_index(p, key) == Some(0int));
        },
        _ => {},
    }
}

/// Law: a token is the delta content exactly as it was sent. For every line
/// `data: ` + `d` where `d` parses to a chunk whose `choices` starts with a
/// choice whose `delta` holds the string `content`, the line yields that
/// string unchanged, white space and all, when it is not empty, and no
/// token when it is empty.
pub proof fn law_token_is_the_sent_delta(
    d: Seq<char>,
    chunk: JsonValue,
    choices: JsonValue,
    choice: JsonValue,
    delta: JsonValue,
    content: String,
)
    requires
        json_parse(d) == Some(chunk),
        first_member(chunk, "choices"@, choices),
        first_item(choices, choice),
        first_member(choice, "delta"@, delta),
        first_member(delta, "content"@, JsonValue::Str(content)),
    ensures
        content@.len() > 0 ==> sse_token(seq!['d', 'a', 't', 'a', ':', ' '] + d) == Some(content@),
        content@.len() == 0 ==> sse_token(seq!['d', 'a', 't', 'a', ':', ' '] + d) is None,
{
    let line = seq!['d', 'a', 't', 'a', ':', ' '] + d;
    reveal_strlit("data: ");
    assert(line.subrange(0, 6) =~= "data: "@);
    assert(line.skip(6) =~= d);
    lemma_first_member_get(chunk, "choices"@, choices);
    lemma_first_member_get(choice, "delta"@, delta);
    lemma_first_member_get(delta, "content"@, JsonValue::Str(content));
    assert(json_at(choices, 0) == Some(choice));
}

} // verus!

verus! {

/// Law: the line `data: [DONE]` ends the response. Decoding a text whose
/// first line is that marker reports exactly one event, the end, with the
/// content so far, and takes nothing from what follows.
pub proof fn law_done_line_ends_the_stream(full: Seq<char>, rest: Seq<char>)
    ensures
        ({
            let o = sse_lines("data: [DONE]"@ + seq!['\n'] + rest, 0, full);
            &&& o.done
            &&& o.full == full
            &&& o.events == seq![(true, full)]
            &&& o.rest == 13
        }),
{
    reveal_strlit("data: [DONE]");
    let m = "data: [DONE]"@;
    let s = m + seq!['\n'] + rest;
    assert(s.subrange(0, 12) =~= m);
    assert forall|k: int| 0 <= k < 12 implies s[k] != '\n' by {
        assert(s[k] == m[k]);
    }
    assert(s[12] == '\n');
    assert(next_newline(s, 12) == Some(12int));
    assert(next_newline(s, 11) == Some(12int));
    assert(next_newline(s, 10) == Some(12int));
    assert(next_newline(s, 9) == Some(12int));
    assert(next_newline(s, 8) == Some(12int));
    assert(next_newline(s, 7) == Some(12int));
    assert(next_newline(s, 6) == Some(12int));
    assert(next_newline(s, 5) == Some(12int));
    assert(next_newline(s, 4) == Some(12int));
    assert(next_newline(s, 3) == Some(12int));
    assert(next_newline(s, 2) == Some(12int));
    assert(next_newline(s, 1) == Some(12int));
    assert(next_newline(s, 0) == Some(12int));
    assert(!is_ws(m[0]));
    assert(trim_start_spec(m) == m);
    assert(!is_ws(m.last()));
    assert(trim_end_spec(m) == m);
    assert(trim_spec(s.subrange(0, 12)) == m);
}

} // verus!
