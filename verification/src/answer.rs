//! How an explain request uses the answer cache: what a cache hit is
//! answered with, and what is kept of an answer that came from the model.
use vstd::prelude::*;
use crate::ollama::OllamaChunk;
use crate::types::{ExplainRequest, ExplainResponse, Lens};

verus! {

/// What an explain request does after looking its key up in the cache.
pub enum CacheLookup {
    /// Answer at once with this response (a non-streaming request).
    Reply(ExplainResponse),
    /// Send this text as one token, then end the stream (a streaming request).
    Burst(String),
    /// Nothing cached: ask the model.
    AskModel,
}

/// The next step of `req` given what the cache holds for its key: a cached
/// text answers at once (a response marked `cached`, or a one-token stream);
/// without one the model is asked.
pub fn after_cache_lookup(req: &ExplainRequest, cached: Option<String>) -> (r: CacheLookup)
    ensures
        cached is None <==> r is AskModel,
        cached matches Some(c) ==> (!req.stream <==> r is Reply),
        cached matches Some(c) ==> (!req.stream ==> (r matches CacheLookup::Reply(resp)
            && resp.explanation@ == c@ && resp.cached && resp.word@ == req.word@ && resp.lens
            == req.lens)),
        cached matches Some(c) ==> (req.stream ==> (r matches CacheLookup::Burst(t) && t@ == c@)),
{
    match cached {
        None => CacheLookup::AskModel,
        Some(c) => {
            if req.stream {
                CacheLookup::Burst(c)
            } else {
                CacheLookup::Reply(
                    ExplainResponse {
                        explanation: c,
                        lens: req.lens,
                        word: req.word.clone(),
                        cached: true,
                    },
                )
            }
        },
    }
}

/// The response to a non-streaming request for an answer the model just
/// gave: not marked `cached`.
pub fn fresh_response(word: String, lens: Lens, explanation: String) -> (r: ExplainResponse)
    ensures
        r.word@ == word@,
        r.lens == lens,
        r.explanation@ == explanation@,
        !r.cached,
{
    ExplainResponse { explanation, lens, word, cached: false }
}

/// What is kept of a complete answer from the model.
pub struct Recording {
    /// The answer goes into the history.
    pub history: bool,
    /// The answer goes into the answer cache.
    pub cache: bool,
}

/// What is kept of a complete answer: every answer is recorded in the
/// history; only answers to non-streaming requests are cached.
pub fn recording_for(stream: bool) -> (r: Recording)
    ensures
        r.history,
        r.cache == !stream,
{
    Recording { history: true, cache: !stream }
}

// ── Relaying a streamed answer ───────────────────────────────────────────────

/// One event sent to the browser while an answer streams.
pub enum RelayEvent {
    /// A piece of the answer.
    Token(String),
    /// The answer is complete; it holds the whole answer, which is recorded.
    Done(String),
    /// Something went wrong; it holds the notice.
    Error(String),
}

/// An event as plain values: its kind (0 token, 1 done, 2 error) and text.
pub open spec fn relay_view(e: RelayEvent) -> (int, Seq<char>) {
    match e {
        RelayEvent::Token(t) => (0, t@),
        RelayEvent::Done(t) => (1, t@),
        RelayEvent::Error(t) => (2, t@),
    }
}

/// A decoded answer object as plain values; `None` for a line that did not
/// decode, which is skipped.
pub open spec fn chunk_view(c: Option<OllamaChunk>) -> Option<(Seq<char>, bool)> {
    match c {
        Some(k) => Some((k.response@, k.done)),
        None => None,
    }
}

/// Relaying the answer objects `cs` after the answer `full` so far: the
/// answer afterwards, and the events sent. Each object's text, when not
/// empty, goes out as a token; an object marked done then sends the whole
/// answer so far as the `done` event.
pub open spec fn relay_spec(full: Seq<char>, cs: Seq<Option<(Seq<char>, bool)>>) -> (Seq<char>, Seq<(int, Seq<char>)>)
    decreases cs.len(),
{
    if cs.len() == 0 {
        (full, seq![])
    } else {
        let (full1, evs1) = match cs[0] {
            None => (full, Seq::<(int, Seq<char>)>::empty()),
            Some((r, d)) => {
                let f = full + r;
                (
                    f,
                    (if r.len() > 0 {
                        seq![(0int, r)]
                    } else {
                        Seq::<(int, Seq<char>)>::empty()
                    }) + (if d {
                        seq![(1int, f)]
                    } else {
                        Seq::<(int, Seq<char>)>::empty()
                    }),
                )
            },
        };
        let rest = relay_spec(full1, cs.drop_first());
        (rest.0, evs1 + rest.1)
    }
}

/// Relays the answer objects decoded from one piece of the model's stream
/// (`None` for a line that did not decode): extends the answer `full_text`
/// and gives the events to send, in order.
pub fn relay_chunks(full_text: &mut String, chunks: &Vec<Option<OllamaChunk>>) -> (evs: Vec<RelayEvent>)
    ensures
        ({
            let r = relay_spec(
                old(full_text)@,
                chunks@.map_values(|c: Option<OllamaChunk>| chunk_view(c)),
            );
            &&& final(full_text)@ == r.0
            &&& evs@.map_values(|e: RelayEvent| relay_view(e)) == r.1
        }),
{
    let ghost cs = chunks@.map_values(|c: Option<OllamaChunk>| chunk_view(c));
    let ghost goal = relay_spec(full_text@, cs);
    let mut evs: Vec<RelayEvent> = Vec::new();
    let mut i: usize = 0;
    assert(cs.skip(0) == cs);
    assert(evs@.map_values(|e: RelayEvent| relay_view(e)) + goal.1 =~= goal.1);
    while i < chunks.len()
        invariant
            i <= chunks@.len() == cs.len(),
            cs == chunks@.map_values(|c: Option<OllamaChunk>| chunk_view(c)),
            relay_spec(full_text@, cs.skip(i as int)).0 == goal.0,
            evs@.map_values(|e: RelayEvent| relay_view(e)) + relay_spec(
                full_text@,
                cs.skip(i as int),
            ).1 == goal.1,
        decreases chunks.len() - i,
    {
        let ghost rest = cs.skip(i as int);
        let ghost acc = evs@.map_values(|e: RelayEvent| relay_view(e));
        let ghost f0 = full_text@;
        assert(rest[0] == chunk_view(chunks@[i as int]));
        assert(rest.drop_first() =~= cs.skip(i + 1));
        match &chunks[i] {
            None => {
                assert(Seq::<(int, Seq<char>)>::empty() + relay_spec(f0, cs.skip(i + 1)).1
                    =~= relay_spec(f0, cs.skip(i + 1)).1);
            },
            Some(c) => {
                let ghost r = c.response@;
                let n = c.response.as_str().unicode_len();
                full_text.append(c.response.as_str());
                let ghost mid = evs@.map_values(|e: RelayEvent| relay_view(e));
                if n > 0 {
                    evs.push(RelayEvent::Token(c.response.clone()));
                }
                let ghost tok = if r.len() > 0 {
                    seq![(0int, r)]
                } else {
                    Seq::<(int, Seq<char>)>::empty()
                };
                assert(evs@.map_values(|e: RelayEvent| relay_view(e)) =~= acc + tok);
                if c.done {
                    let ghost before = evs@.map_values(|e: RelayEvent| relay_view(e));
                    evs.push(RelayEvent::Done(full_text.clone()));
                    assert(evs@.map_values(|e: RelayEvent| relay_view(e)) =~= before.push(
                        (1int, full_text@),
                    ));
                }
                let ghost dn = if c.done {
                    seq![(1int, f0 + r)]
                } else {
                    Seq::<(int, Seq<char>)>::empty()
                };
                assert(evs@.map_values(|e: RelayEvent| relay_view(e)) =~= acc + (tok + dn));
                assert(acc + ((tok + dn) + relay_spec(full_text@, cs.skip(i + 1)).1) =~= (acc + (
                tok + dn)) + relay_spec(full_text@, cs.skip(i + 1)).1);
            },
        }
        i = i + 1;
    }
    assert(cs.skip(i as int) =~= Seq::<Option<(Seq<char>, bool)>>::empty());
    assert(evs@.map_values(|e: RelayEvent| relay_view(e)) + Seq::<(int, Seq<char>)>::empty()
        =~= evs@.map_values(|e: RelayEvent| relay_view(e)));
    evs
}

/// The event sent when reading the model's stream fails, with the reader's
/// description `detail`.
pub fn read_error_event(detail: &str) -> (e: RelayEvent)
    ensures
        relay_view(e) == (2int, "Stream read error: "@ + detail@),
{
    let mut m = String::from_str("Stream read error: ");
    m.append(detail);
    RelayEvent::Error(m)
}

/// The event sent when the model's stream stalls; the stream ends after it.
pub fn timeout_event() -> (e: RelayEvent)
    ensures
        relay_view(e) == (2int, "Stream timed out"@),
{
    RelayEvent::Error(String::from_str("Stream timed out"))
}

} // verus!
