//! The decisions of the chat screen: when a message may be sent, which
//! message a regeneration restarts from, and how streamed tokens extend the
//! reply being shown.
use vstd::prelude::*;
use crate::text::{chars_of, decimal, push_decimal, trim, trim_bounds, string_from_range};
use crate::types::{Lens, Role};

verus! {

/// The word to send for the text in the input box: the trimmed text, unless
/// it is empty or an answer is still loading.
pub fn prepare_send(input: &str, loading: bool) -> (w: Option<String>)
    ensures
        w is Some <==> (!loading && trim(input@).len() > 0),
        w matches Some(x) ==> x@ == trim(input@),
{
    let v = chars_of(input);
    let (lo, hi) = trim_bounds(&v);
    if hi == lo || loading {
        None
    } else {
        Some(string_from_range(&v, lo, hi))
    }
}

/// The position of the last message written by the user, if any: a
/// regeneration keeps the conversation up to and including it.
pub fn regenerate_point(roles: &[Role]) -> (p: Option<usize>)
    ensures
        p matches Some(i) ==> i < roles@.len() && roles@[i as int] == Role::User && forall|k: int|
            i < k < roles@.len() ==> roles@[k] != Role::User,
        p is None ==> forall|k: int| 0 <= k < roles@.len() ==> roles@[k] != Role::User,
{
    let mut i = roles.len();
    while i > 0
        invariant
            i <= roles@.len(),
            forall|k: int| i <= k < roles@.len() ==> roles@[k] != Role::User,
        decreases i,
    {
        if roles[i - 1] == Role::User {
            return Some(i - 1);
        }
        i = i - 1;
    }
    None
}

/// Whether the conversation holds an answer (which offers regeneration and
/// clearing).
pub fn has_responses(roles: &[Role]) -> (b: bool)
    ensures
        b <==> exists|k: int| 0 <= k < roles@.len() && roles@[k] == Role::Assistant,
{
    let mut i: usize = 0;
    while i < roles.len()
        invariant
            i <= roles@.len(),
            forall|k: int| 0 <= k < i ==> roles@[k] != Role::Assistant,
        decreases roles.len() - i,
    {
        if roles[i] == Role::Assistant {
            return true;
        }
        i = i + 1;
    }
    false
}

/// The text that the decoded tokens `ts` add to a reply: the tokens in
/// order, up to the first `done` mark.
pub open spec fn reply_text(ts: Seq<(Seq<char>, bool)>) -> Seq<char>
    decreases ts.len(),
{
    if ts.len() == 0 || ts[0].1 {
        seq![]
    } else {
        ts[0].0 + reply_text(ts.drop_first())
    }
}

/// Whether the tokens `ts` hold a `done` mark.
pub open spec fn has_done(ts: Seq<(Seq<char>, bool)>) -> bool {
    exists|k: int| 0 <= k < ts.len() && ts[k].1
}

/// However the tokens arrive in batches, the reply is the same: adding
/// batch `a` and then batch `b` (unless `a` held a `done` mark) gives what
/// adding `a + b` at once gives, and `a + b` holds a `done` mark exactly
/// when `a` or `b` does.
pub proof fn law_reply_batches(a: Seq<(Seq<char>, bool)>, b: Seq<(Seq<char>, bool)>)
    ensures
        reply_text(a + b) == if has_done(a) {
            reply_text(a)
        } else {
            reply_text(a) + reply_text(b)
        },
        has_done(a + b) == (has_done(a) || has_done(b)),
    decreases a.len(),
{
    if a.len() == 0 {
        assert(a + b =~= b);
        assert(Seq::<char>::empty() + reply_text(b) =~= reply_text(b));
    } else {
        let t = a.drop_first();
        assert((a + b).drop_first() =~= t + b);
        assert((a + b)[0] == a[0]);
        law_reply_batches(t, b);
        if !a[0].1 {
            assert(a[0].0 + (reply_text(t) + reply_text(b)) =~= (a[0].0 + reply_text(t))
                + reply_text(b));
        }
        if has_done(a) && !a[0].1 {
            let k = choose|k: int| 0 <= k < a.len() && a[k].1;
            assert(t[k - 1].1);
        }
        if has_done(t) {
            let k = choose|k: int| 0 <= k < t.len() && t[k].1;
            assert(a[k + 1].1);
        }
        if has_done(b) {
            let k = choose|k: int| 0 <= k < b.len() && b[k].1;
            assert((a + b)[a.len() + k].1);
        }
        if has_done(a + b) {
            let k = choose|k: int| 0 <= k < (a + b).len() && (a + b)[k].1;
            if k < a.len() {
                assert(a[k].1);
            } else {
                assert(b[k - a.len()].1);
            }
        }
    }
}

/// A reply is the plain text of its tokens: a token that is not a done
/// mark adds exactly its own text, all of it, to the reply, and a done mark
/// adds nothing; so before the first done mark the reply is the tokens'
/// texts one after another, nothing dropped, trimmed or added.
pub proof fn law_reply_is_token_text(ts: Seq<(Seq<char>, bool)>, t: Seq<char>)
    requires
        !has_done(ts),
    ensures
        reply_text(seq![(t, false)]) == t,
        reply_text(ts.push((t, false))) == reply_text(ts) + t,
        reply_text(ts.push((t, true))) == reply_text(ts),
        reply_text(ts.push((t, false))).len() == reply_text(ts).len() + t.len(),
{
    let one = seq![(t, false)];
    assert(one.drop_first() =~= Seq::<(Seq<char>, bool)>::empty());
    assert(reply_text(one) == t + reply_text(Seq::<(Seq<char>, bool)>::empty()));
    assert(t + Seq::<char>::empty() =~= t);
    assert(ts.push((t, false)) =~= ts + one);
    law_reply_batches(ts, one);
    let fin = seq![(t, true)];
    assert(ts.push((t, true)) =~= ts + fin);
    law_reply_batches(ts, fin);
    assert(reply_text(ts) + Seq::<char>::empty() =~= reply_text(ts));
}

/// Extends the reply `content` by decoded tokens, stopping at the first
/// `done` mark; says whether one was seen.
pub fn apply_tokens(content: &mut String, tokens: &Vec<(String, bool)>) -> (done: bool)
    ensures
        final(content)@ == old(content)@ + reply_text(
            tokens@.map_values(|t: (String, bool)| (t.0@, t.1)),
        ),
        done == has_done(tokens@.map_values(|t: (String, bool)| (t.0@, t.1))),
{
    let ghost ts = tokens@.map_values(|t: (String, bool)| (t.0@, t.1));
    let ghost c0 = content@;
    let mut i: usize = 0;
    assert(ts.skip(0) == ts);
    assert(c0 + reply_text(ts) =~= content@ + reply_text(ts.skip(0)));
    while i < tokens.len()
        invariant
            i <= tokens@.len() == ts.len(),
            ts == tokens@.map_values(|t: (String, bool)| (t.0@, t.1)),
            content@ + reply_text(ts.skip(i as int)) == c0 + reply_text(ts),
            c0 == old(content)@,
            forall|k: int| 0 <= k < i ==> !ts[k].1,
        decreases tokens.len() - i,
    {
        let ghost rest = ts.skip(i as int);
        assert(rest[0] == ts[i as int]);
        if tokens[i].1 {
            assert(reply_text(rest) == Seq::<char>::empty());
            assert(content@ + Seq::<char>::empty() =~= content@);
            assert(content@ == c0 + reply_text(ts));
            return true;
        }
        assert(rest.drop_first() =~= ts.skip(i + 1));
        let ghost before = content@;
        content.append(tokens[i].0.as_str());
        assert(before + (ts[i as int].0 + reply_text(ts.skip(i + 1))) =~= (before + ts[i as int].0)
            + reply_text(ts.skip(i + 1)));
        i = i + 1;
    }
    assert(ts.skip(i as int) =~= Seq::<(Seq<char>, bool)>::empty());
    assert(content@ + Seq::<char>::empty() =~= content@);
    false
}

/// The notice shown when the backend cannot be reached.
pub fn backend_unreachable_text() -> (s: &'static str)
    ensures
        s@ == "Could not reach the WordLens backend. Is `cargo run` running on port 3001?"@,
{
    "Could not reach the WordLens backend. Is `cargo run` running on port 3001?"
}

/// The notice shown when the backend answers with the error status `status`.
pub fn server_error_text(status: u16) -> (s: String)
    ensures
        s@ == "Server error "@ + decimal(status as nat),
{
    let mut s = String::from_str("Server error ");
    push_decimal(&mut s, status as u64);
    s
}

// ── Conversations ────────────────────────────────────────────────────────────

/// One chat message: its id, author, text, the lens badge of a reply, and
/// whether the reply is still streaming.
pub struct ChatMessage {
    pub id: String,
    pub role: Role,
    pub content: String,
    pub lens: Option<Lens>,
    pub streaming: bool,
}

/// What a message holds, as plain values.
pub type MessageView = (Seq<char>, Role, Seq<char>, Option<Lens>, bool);

/// The plain values of a message.
pub open spec fn message_view(m: ChatMessage) -> MessageView {
    (m.id@, m.role, m.content@, m.lens, m.streaming)
}

/// The plain values of a list of messages.
pub open spec fn list_view(v: Seq<ChatMessage>) -> Seq<MessageView> {
    v.map_values(|m: ChatMessage| message_view(m))
}

/// The position of the last message in `s` with id `id`, if any.
pub open spec fn last_with_id(s: Seq<MessageView>, id: Seq<char>) -> Option<int>
    decreases s.len(),
{
    if s.len() == 0 {
        None
    } else if s.last().0 == id {
        Some(s.len() - 1)
    } else {
        last_with_id(s.drop_last(), id)
    }
}

/// The position of the last message in `s` written by the user, if any.
pub open spec fn last_user(s: Seq<MessageView>) -> Option<int>
    decreases s.len(),
{
    if s.len() == 0 {
        None
    } else if s.last().1 == Role::User {
        Some(s.len() - 1)
    } else {
        last_user(s.drop_last())
    }
}

proof fn lemma_last_with_id(s: Seq<MessageView>, id: Seq<char>)
    ensures
        match last_with_id(s, id) {
            Some(i) => 0 <= i < s.len() && s[i].0 == id && forall|k: int|
                i < k < s.len() ==> s[k].0 != id,
            None => forall|k: int| 0 <= k < s.len() ==> s[k].0 != id,
        },
    decreases s.len(),
{
    if s.len() > 0 && s.last().0 != id {
        lemma_last_with_id(s.drop_last(), id);
        assert forall|k: int| 0 <= k < s.len() - 1 implies s.drop_last()[k] == s[k] by {}
    }
}

proof fn lemma_last_user(s: Seq<MessageView>)
    ensures
        match last_user(s) {
            Some(i) => 0 <= i < s.len() && s[i].1 == Role::User && forall|k: int|
                i < k < s.len() ==> s[k].1 != Role::User,
            None => forall|k: int| 0 <= k < s.len() ==> s[k].1 != Role::User,
        },
    decreases s.len(),
{
    if s.len() > 0 && s.last().1 != Role::User {
        lemma_last_user(s.drop_last());
        assert forall|k: int| 0 <= k < s.len() - 1 implies s.drop_last()[k] == s[k] by {}
    }
}

/// `s` with the message at `i` given text `c` and marked as no longer
/// streaming.
pub open spec fn settle(s: Seq<MessageView>, i: int, c: Seq<char>) -> Seq<MessageView> {
    s.update(i, (s[i].0, s[i].1, c, s[i].3, false))
}

/// The five conversations of the chat screen, one per lens. A message sent
/// under a lens, and the reply to it, stay in that lens's conversation
/// whatever lens is shown meanwhile.
pub struct Conversations {
    simple: Vec<ChatMessage>,
    learning: Vec<ChatMessage>,
    game: Vec<ChatMessage>,
    cyberpunk: Vec<ChatMessage>,
    poetic: Vec<ChatMessage>,
}

/// `s` after sending `input` while `loading`, with message ids from `base`.
pub open spec fn sent(s: Seq<MessageView>, input: Seq<char>, loading: bool, base: Seq<char>) -> Seq<MessageView> {
    if !loading && trim(input).len() > 0 {
        s.push((base + "-user"@, Role::User, trim(input), None, false))
    } else {
        s
    }
}

fn id_with(base: &str, suffix: &str) -> (s: String)
    ensures
        s@ == base@ + suffix@,
{
    let mut s = String::from_str(base);
    s.append(suffix);
    s
}

fn find_id(v: &Vec<ChatMessage>, id: &String) -> (r: Option<usize>)
    ensures
        r matches Some(i) ==> last_with_id(list_view(v@), id@) == Some(i as int) && i < v@.len(),
        r is None ==> last_with_id(list_view(v@), id@) is None,
{
    proof {
        lemma_last_with_id(list_view(v@), id@);
    }
    let mut i = v.len();
    assert(v@.take(v@.len() as int) =~= v@);
    while i > 0
        invariant
            i <= v@.len(),
            last_with_id(list_view(v@), id@) == last_with_id(list_view(v@.take(i as int)), id@),
        decreases i,
    {
        let ghost t = list_view(v@.take(i as int));
        assert(t.last() == message_view(v@[i - 1]));
        if v[i - 1].id == *id {
            return Some(i - 1);
        }
        assert(t.drop_last() =~= list_view(v@.take(i - 1)));
        i = i - 1;
    }
    assert(list_view(v@.take(0)) =~= Seq::<MessageView>::empty());
    None
}

fn find_user(v: &Vec<ChatMessage>) -> (r: Option<usize>)
    ensures
        r matches Some(i) ==> last_user(list_view(v@)) == Some(i as int) && i < v@.len(),
        r is None ==> last_user(list_view(v@)) is None,
{
    proof {
        lemma_last_user(list_view(v@));
    }
    let mut i = v.len();
    assert(v@.take(v@.len() as int) =~= v@);
    while i > 0
        invariant
            i <= v@.len(),
            last_user(list_view(v@)) == last_user(list_view(v@.take(i as int))),
        decreases i,
    {
        let ghost t = list_view(v@.take(i as int));
        assert(t.last() == message_view(v@[i - 1]));
        if v[i - 1].role == Role::User {
            return Some(i - 1);
        }
        assert(t.drop_last() =~= list_view(v@.take(i - 1)));
        i = i - 1;
    }
    assert(list_view(v@.take(0)) =~= Seq::<MessageView>::empty());
    None
}

fn send_into(v: &mut Vec<ChatMessage>, input: &str, loading: bool, base: &str) -> (w: Option<String>)
    ensures
        list_view(final(v)@) == sent(list_view(old(v)@), input@, loading, base@),
        w is Some <==> (!loading && trim(input@).len() > 0),
        w matches Some(x) ==> x@ == trim(input@),
{
    let w = prepare_send(input, loading);
    match w {
        Some(word) => {
            let m = ChatMessage {
                id: id_with(base, "-user"),
                role: Role::User,
                content: word.clone(),
                lens: None,
                streaming: false,
            };
            let ghost before = v@;
            v.push(m);
            assert(list_view(v@) =~= list_view(before).push(message_view(m)));
            Some(word)
        },
        None => None,
    }
}

fn start_into(v: &mut Vec<ChatMessage>, lens: Lens, base: &str)
    ensures
        list_view(final(v)@) == list_view(old(v)@).push(
            (base@ + "-reply"@, Role::Assistant, Seq::<char>::empty(), Some(lens), true),
        ),
{
    let m = ChatMessage {
        id: id_with(base, "-reply"),
        role: Role::Assistant,
        content: String::new(),
        lens: Some(lens),
        streaming: true,
    };
    let ghost before = v@;
    v.push(m);
    assert(list_view(v@) =~= list_view(before).push(message_view(m)));
}

fn extend_into(v: &mut Vec<ChatMessage>, id: &str, tokens: &Vec<(String, bool)>) -> (done: bool)
    ensures
        done == has_done(tokens@.map_values(|t: (String, bool)| (t.0@, t.1))),
        match last_with_id(list_view(old(v)@), id@) {
            Some(i) => list_view(final(v)@) == list_view(old(v)@).update(
                i,
                (
                    list_view(old(v)@)[i].0,
                    list_view(old(v)@)[i].1,
                    list_view(old(v)@)[i].2 + reply_text(
                        tokens@.map_values(|t: (String, bool)| (t.0@, t.1)),
                    ),
                    list_view(old(v)@)[i].3,
                    list_view(old(v)@)[i].4,
                ),
            ),
            None => final(v)@ == old(v)@,
        },
{
    let ids = String::from_str(id);
    match find_id(v, &ids) {
        Some(i) => {
            let ghost before = v@;
            let mut m = v.remove(i);
            let done = apply_tokens(&mut m.content, tokens);
            v.insert(i, m);
            assert(list_view(v@) =~= list_view(before).update(i as int, message_view(m)));
            done
        },
        None => {
            let mut scratch = String::new();
            apply_tokens(&mut scratch, tokens)
        },
    }
}

fn settle_into(v: &mut Vec<ChatMessage>, id: &str, text: Option<&str>)
    ensures
        match last_with_id(list_view(old(v)@), id@) {
            Some(i) => list_view(final(v)@) == settle(
                list_view(old(v)@),
                i,
                match text {
                    Some(t) => t@,
                    None => list_view(old(v)@)[i].2,
                },
            ),
            None => final(v)@ == old(v)@,
        },
{
    let ids = String::from_str(id);
    match find_id(v, &ids) {
        Some(i) => {
            let ghost before = v@;
            let mut m = v.remove(i);
            match text {
                Some(t) => {
                    m.content = String::from_str(t);
                },
                None => {},
            }
            m.streaming = false;
            v.insert(i, m);
            assert(list_view(v@) =~= list_view(before).update(i as int, message_view(m)));
        },
        None => {},
    }
}

fn regenerate_into(v: &mut Vec<ChatMessage>, base: &str) -> (w: Option<String>)
    ensures
        match last_user(list_view(old(v)@)) {
            Some(i) => {
                &&& w matches Some(x) && x@ == list_view(old(v)@)[i].2
                &&& list_view(final(v)@) == list_view(old(v)@).take(i + 1).update(
                    i,
                    (
                        base@ + "-user"@,
                        list_view(old(v)@)[i].1,
                        list_view(old(v)@)[i].2,
                        list_view(old(v)@)[i].3,
                        list_view(old(v)@)[i].4,
                    ),
                )
            },
            None => w is None && final(v)@ == old(v)@,
        },
{
    match find_user(v) {
        Some(i) => {
            let ghost before = v@;
            assert(i < v.len());
            v.truncate(i + 1);
            let mut m = v.remove(i);
            let word = m.content.clone();
            m.id = id_with(base, "-user");
            v.push(m);
            assert(list_view(v@) =~= list_view(before).take(i + 1).update(
                i as int,
                message_view(m),
            ));
            Some(word)
        },
        None => None,
    }
}

impl Conversations {
    /// The conversation of a lens.
    pub closed spec fn list(&self, l: Lens) -> Seq<MessageView> {
        match l {
            Lens::Simple => list_view(self.simple@),
            Lens::Learning => list_view(self.learning@),
            Lens::Game => list_view(self.game@),
            Lens::Cyberpunk => list_view(self.cyberpunk@),
            Lens::Poetic => list_view(self.poetic@),
        }
    }

    /// Five empty conversations.
    pub fn new() -> (c: Conversations)
        ensures
            forall|l: Lens| #[trigger] c.list(l) == Seq::<MessageView>::empty(),
    {
        let c = Conversations {
            simple: Vec::new(),
            learning: Vec::new(),
            game: Vec::new(),
            cyberpunk: Vec::new(),
            poetic: Vec::new(),
        };
        assert forall|l: Lens| #[trigger] c.list(l) == Seq::<MessageView>::empty() by {
            assert(c.list(l) =~= Seq::<MessageView>::empty());
        }
        c
    }

    /// The messages of a lens's conversation, oldest first.
    pub fn messages(&self, lens: Lens) -> (r: &Vec<ChatMessage>)
        ensures
            list_view(r@) == self.list(lens),
    {
        match lens {
            Lens::Simple => &self.simple,
            Lens::Learning => &self.learning,
            Lens::Game => &self.game,
            Lens::Cyberpunk => &self.cyberpunk,
            Lens::Poetic => &self.poetic,
        }
    }

    /// Sends the text of the input box under `lens`: unless it is empty
    /// (once trimmed) or an answer is loading, the trimmed text joins that
    /// lens's conversation as a user message with id `{base}-user`, and is
    /// returned to be explained. No other conversation changes.
    pub fn send(&mut self, lens: Lens, input: &str, loading: bool, base: &str) -> (w: Option<String>)
        ensures
            final(self).list(lens) == sent(old(self).list(lens), input@, loading, base@),
            forall|k: Lens| k != lens ==> #[trigger] final(self).list(k) == old(self).list(k),
            w is Some <==> (!loading && trim(input@).len() > 0),
            w matches Some(x) ==> x@ == trim(input@),
    {
        match lens {
            Lens::Simple => send_into(&mut self.simple, input, loading, base),
            Lens::Learning => send_into(&mut self.learning, input, loading, base),
            Lens::Game => send_into(&mut self.game, input, loading, base),
            Lens::Cyberpunk => send_into(&mut self.cyberpunk, input, loading, base),
            Lens::Poetic => send_into(&mut self.poetic, input, loading, base),
        }
    }

    /// Starts the reply to a message sent under `lens`: an empty, streaming
    /// assistant message with id `{base}-reply` and badge `lens` joins that
    /// lens's conversation. No other conversation changes.
    pub fn start_reply(&mut self, lens: Lens, base: &str)
        ensures
            final(self).list(lens) == old(self).list(lens).push(
                (base@ + "-reply"@, Role::Assistant, Seq::<char>::empty(), Some(lens), true),
            ),
            forall|k: Lens| k != lens ==> #[trigger] final(self).list(k) == old(self).list(k),
    {
        match lens {
            Lens::Simple => start_into(&mut self.simple, lens, base),
            Lens::Learning => start_into(&mut self.learning, lens, base),
            Lens::Game => start_into(&mut self.game, lens, base),
            Lens::Cyberpunk => start_into(&mut self.cyberpunk, lens, base),
            Lens::Poetic => start_into(&mut self.poetic, lens, base),
        }
    }

    /// Adds decoded tokens to the reply `id` in the conversation of `lens`,
    /// up to the first `done` mark; says whether one was seen. Only that
    /// message's text changes; a reply no longer present is left alone.
    pub fn extend_reply(&mut self, lens: Lens, id: &str, tokens: &Vec<(String, bool)>) -> (done: bool)
        ensures
            done == has_done(tokens@.map_values(|t: (String, bool)| (t.0@, t.1))),
            match last_with_id(old(self).list(lens), id@) {
                Some(i) => final(self).list(lens) == old(self).list(lens).update(
                    i,
                    (
                        old(self).list(lens)[i].0,
                        old(self).list(lens)[i].1,
                        old(self).list(lens)[i].2 + reply_text(
                            tokens@.map_values(|t: (String, bool)| (t.0@, t.1)),
                        ),
                        old(self).list(lens)[i].3,
                        old(self).list(lens)[i].4,
                    ),
                ),
                None => final(self).list(lens) == old(self).list(lens),
            },
            forall|k: Lens| k != lens ==> #[trigger] final(self).list(k) == old(self).list(k),
    {
        match lens {
            Lens::Simple => extend_into(&mut self.simple, id, tokens),
            Lens::Learning => extend_into(&mut self.learning, id, tokens),
            Lens::Game => extend_into(&mut self.game, id, tokens),
            Lens::Cyberpunk => extend_into(&mut self.cyberpunk, id, tokens),
            Lens::Poetic => extend_into(&mut self.poetic, id, tokens),
        }
    }

    /// Ends the reply `id` in the conversation of `lens`: it stops streaming,
    /// and with `error` its text becomes that notice. No other message
    /// changes.
    pub fn finish_reply(&mut self, lens: Lens, id: &str, error: Option<&str>)
        ensures
            match last_with_id(old(self).list(lens), id@) {
                Some(i) => final(self).list(lens) == settle(
                    old(self).list(lens),
                    i,
                    match error {
                        Some(t) => t@,
                        None => old(self).list(lens)[i].2,
                    },
                ),
                None => final(self).list(lens) == old(self).list(lens),
            },
            forall|k: Lens| k != lens ==> #[trigger] final(self).list(k) == old(self).list(k),
    {
        match lens {
            Lens::Simple => settle_into(&mut self.simple, id, error),
            Lens::Learning => settle_into(&mut self.learning, id, error),
            Lens::Game => settle_into(&mut self.game, id, error),
            Lens::Cyberpunk => settle_into(&mut self.cyberpunk, id, error),
            Lens::Poetic => settle_into(&mut self.poetic, id, error),
        }
    }

    /// Prepares a regeneration in the conversation of `lens`: everything
    /// after its last user message goes, that message takes the id
    /// `{base}-user`, and its text is returned to be explained again. With
    /// no user message nothing changes.
    pub fn regenerate(&mut self, lens: Lens, base: &str) -> (w: Option<String>)
        ensures
            match last_user(old(self).list(lens)) {
                Some(i) => {
                    &&& w matches Some(x) && x@ == old(self).list(lens)[i].2
                    &&& final(self).list(lens) == old(self).list(lens).take(i + 1).update(
                        i,
                        (
                            base@ + "-user"@,
                            old(self).list(lens)[i].1,
                            old(self).list(lens)[i].2,
                            old(self).list(lens)[i].3,
                            old(self).list(lens)[i].4,
                        ),
                    )
                },
                None => w is None && final(self).list(lens) == old(self).list(lens),
            },
            forall|k: Lens| k != lens ==> #[trigger] final(self).list(k) == old(self).list(k),
    {
        match lens {
            Lens::Simple => regenerate_into(&mut self.simple, base),
            Lens::Learning => regenerate_into(&mut self.learning, base),
            Lens::Game => regenerate_into(&mut self.game, base),
            Lens::Cyberpunk => regenerate_into(&mut self.cyberpunk, base),
            Lens::Poetic => regenerate_into(&mut self.poetic, base),
        }
    }

    /// Empties the conversation of `lens`; no other conversation changes.
    pub fn clear(&mut self, lens: Lens)
        ensures
            final(self).list(lens) == Seq::<MessageView>::empty(),
            forall|k: Lens| k != lens ==> #[trigger] final(self).list(k) == old(self).list(k),
    {
        match lens {
            Lens::Simple => self.simple.clear(),
            Lens::Learning => self.learning.clear(),
            Lens::Game => self.game.clear(),
            Lens::Cyberpunk => self.cyberpunk.clear(),
            Lens::Poetic => self.poetic.clear(),
        }
        assert(final(self).list(lens) =~= Seq::<MessageView>::empty());
    }
}

/// A reply started under a lens lands in that lens's conversation with that
/// lens's badge, whatever lens is shown afterwards: starting it changes no
/// other conversation, and neither do later changes to other conversations.
pub proof fn law_reply_keeps_its_lens(
    before: Seq<MessageView>,
    after: Seq<MessageView>,
    lens: Lens,
    base: Seq<char>,
)
    requires
        after == before.push((base + "-reply"@, Role::Assistant, Seq::<char>::empty(), Some(lens), true)),
    ensures
        after.last().3 == Some(lens),
        after.last().1 == Role::Assistant,
        last_with_id(after, base + "-reply"@) == Some(after.len() - 1),
{
}

} // verus!
