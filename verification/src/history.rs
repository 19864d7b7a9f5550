//! The history of recent explanations: a bounded queue that drops its oldest
//! entry when full, read back newest first.
use std::collections::VecDeque;
use vstd::prelude::*;
use crate::types::Lens;
use crate::MAX_HISTORY_ENTRIES;

verus! {

/// How many characters of an explanation an entry keeps.
pub const SNIPPET_CHARS: usize = 120;

/// One explanation given: the word, the lens, the start of the text, and
/// when it was given (seconds since the Unix epoch).
#[derive(Clone, Debug)]
pub struct HistoryEntry {
    pub word: String,
    pub lens: Lens,
    pub snippet: String,
    pub timestamp: i64,
}

/// What an entry holds, as plain values: word, lens, snippet, timestamp.
pub type EntryView = (Seq<char>, Lens, Seq<char>, i64);

/// The plain values of an entry.
pub open spec fn entry_view(e: HistoryEntry) -> EntryView {
    (e.word@, e.lens, e.snippet@, e.timestamp)
}

/// The first `SNIPPET_CHARS` characters of `s` (all of `s` if shorter).
pub open spec fn snippet_of(s: Seq<char>) -> Seq<char> {
    if s.len() <= SNIPPET_CHARS {
        s
    } else {
        s.take(SNIPPET_CHARS as int)
    }
}

/// `s` after recording `e`: `e` goes last, and when `s` already holds
/// `MAX_HISTORY_ENTRIES` entries its oldest (first) entry is dropped.
pub open spec fn bounded_push(s: Seq<EntryView>, e: EntryView) -> Seq<EntryView> {
    if s.len() >= MAX_HISTORY_ENTRIES {
        s.drop_first().push(e)
    } else {
        s.push(e)
    }
}

/// The newest `n` entries of `s` (all of them if fewer), newest first.
pub open spec fn recent_view(s: Seq<EntryView>, n: nat) -> Seq<EntryView> {
    Seq::new(
        if n < s.len() {
            n
        } else {
            s.len()
        },
        |i: int| s[s.len() - 1 - i],
    )
}

/// The recent explanations, oldest first.
pub struct History {
    entries: VecDeque<HistoryEntry>,
}

impl View for History {
    type V = Seq<EntryView>;

    closed spec fn view(&self) -> Seq<EntryView> {
        self.entries@.map_values(|e: HistoryEntry| entry_view(e))
    }
}

impl History {
    #[verifier::type_invariant]
    spec fn bounded(self) -> bool {
        self.entries@.len() <= MAX_HISTORY_ENTRIES
    }

    /// An empty history.
    pub fn new() -> (h: History)
        ensures
            h@ == Seq::<EntryView>::empty(),
    {
        let h = History { entries: VecDeque::with_capacity(MAX_HISTORY_ENTRIES) };
        assert(h@ =~= Seq::<EntryView>::empty());
        h
    }

    /// The number of entries held; never more than `MAX_HISTORY_ENTRIES`.
    pub fn len(&self) -> (n: usize)
        ensures
            n == self@.len(),
            n <= MAX_HISTORY_ENTRIES,
    {
        proof {
            use_type_invariant(self);
        }
        self.entries.len()
    }

    /// Records an explanation of `word` through `lens` at the current time.
    pub fn push(&mut self, word: String, lens: Lens, explanation: &str)
        ensures
            exists|t: i64|
                final(self)@ == bounded_push(
                    old(self)@,
                    (word@, lens, snippet_of(explanation@), t),
                ),
            final(self)@.len() <= MAX_HISTORY_ENTRIES,
    {
        let t = unix_timestamp_now();
        self.push_at(word, lens, explanation, t);
    }

    /// Records an explanation of `word` through `lens` given at `timestamp`:
    /// the entry keeps the first `SNIPPET_CHARS` characters of the text, and
    /// the oldest entry goes when the history is full.
    pub fn push_at(&mut self, word: String, lens: Lens, explanation: &str, timestamp: i64)
        ensures
            final(self)@ == bounded_push(
                old(self)@,
                (word@, lens, snippet_of(explanation@), timestamp),
            ),
            final(self)@.len() <= MAX_HISTORY_ENTRIES,
    {
        proof {
            use_type_invariant(&*self);
        }
        let snippet = snippet(explanation);
        let entry = HistoryEntry { word, lens, snippet, timestamp };
        let ghost ev = entry_view(entry);
        let mut q: VecDeque<HistoryEntry> = VecDeque::new();
        std::mem::swap(&mut q, &mut self.entries);
        let ghost before = q@;
        if q.len() == MAX_HISTORY_ENTRIES {
            q.pop_front();
            assert(q@ == before.subrange(1, before.len() as int));
            assert(q@.map_values(|e: HistoryEntry| entry_view(e)) =~= before.map_values(
                |e: HistoryEntry| entry_view(e),
            ).drop_first());
        }
        let ghost mid = q@;
        q.push_back(entry);
        assert(q@.map_values(|e: HistoryEntry| entry_view(e)) =~= mid.map_values(
            |e: HistoryEntry| entry_view(e),
        ).push(ev));
        self.entries = q;
    }

    /// The newest `limit` entries (all of them if fewer), newest first.
    pub fn recent(&self, limit: usize) -> (r: Vec<HistoryEntry>)
        ensures
            r@.map_values(|e: HistoryEntry| entry_view(e)) == recent_view(self@, limit as nat),
    {
        let n = self.entries.len();
        let mut out: Vec<HistoryEntry> = Vec::new();
        let mut i: usize = 0;
        while i < limit && i < n
            invariant
                i <= n == self.entries@.len(),
                i <= limit,
                out@.len() == i,
                forall|k: int|
                    0 <= k < i ==> #[trigger] entry_view(out@[k]) == entry_view(
                        self.entries@[n - 1 - k],
                    ),
            decreases n - i,
        {
            let e = &self.entries[n - 1 - i];
            out.push(
                HistoryEntry {
                    word: e.word.clone(),
                    lens: e.lens,
                    snippet: e.snippet.clone(),
                    timestamp: e.timestamp,
                },
            );
            i = i + 1;
        }
        let ghost v = out@.map_values(|e: HistoryEntry| entry_view(e));
        let ghost w = recent_view(self@, limit as nat);
        assert(self@.len() == n);
        assert(v.len() == w.len());
        assert forall|k: int| 0 <= k < v.len() implies v[k] == w[k] by {
            assert(v[k] == entry_view(out@[k]));
            assert(self@[n - 1 - k] == entry_view(self.entries@[n - 1 - k]));
        }
        assert(v =~= w);
        out
    }
}

impl Default for History {
    /// An empty history.
    fn default() -> (h: History)
        ensures
            h@ == Seq::<EntryView>::empty(),
    {
        History::new()
    }
}

/// The first `SNIPPET_CHARS` characters of `explanation`.
pub fn snippet(explanation: &str) -> (s: String)
    ensures
        s@ == snippet_of(explanation@),
{
    let n = explanation.unicode_len();
    let k = if n < SNIPPET_CHARS {
        n
    } else {
        SNIPPET_CHARS
    };
    let s = String::from_str(explanation.substring_char(0, k));
    assert(explanation@.subrange(0, n as int) =~= explanation@);
    s
}

/// The current time in whole seconds since the Unix epoch, rounded down
/// (`chrono::DateTime::<Utc>::from(SystemTime::now()).timestamp()`; the
/// conversion takes a clock set before 1970 as a negative time rather than
/// failing). Nothing is stated of the result: it depends on the clock.
#[verifier::external_body]
fn unix_timestamp_now() -> i64 {
    chrono::DateTime::<chrono::Utc>::from(std::time::SystemTime::now()).timestamp()
}

// ── Laws ─────────────────────────────────────────────────────────────────────

/// Recording never lets the history grow past `MAX_HISTORY_ENTRIES`, and
/// below that it grows by one entry.
pub proof fn law_push_stays_bounded(s: Seq<EntryView>, e: EntryView)
    requires
        s.len() <= MAX_HISTORY_ENTRIES,
    ensures
        bounded_push(s, e).len() <= MAX_HISTORY_ENTRIES,
        s.len() < MAX_HISTORY_ENTRIES ==> bounded_push(s, e).len() == s.len() + 1,
        s.len() == MAX_HISTORY_ENTRIES ==> bounded_push(s, e).len() == s.len(),
{
}

/// What was recorded last is read back first, followed by the entries that
/// were there before, newest first.
pub proof fn law_push_then_recent(s: Seq<EntryView>, e: EntryView, n: nat)
    requires
        s.len() <= MAX_HISTORY_ENTRIES,
        n >= 1,
    ensures
        ({
            let p = bounded_push(s, e);
            let m = if n < p.len() {
                n
            } else {
                p.len()
            };
            recent_view(p, n) == seq![e] + recent_view(s, (m - 1) as nat)
        }),
{
    let p = bounded_push(s, e);
    let m = if n < p.len() {
        n
    } else {
        p.len()
    };
    let lhs = recent_view(p, n);
    let rhs = seq![e] + recent_view(s, (m - 1) as nat);
    assert(lhs.len() == rhs.len());
    assert forall|i: int| 0 <= i < lhs.len() implies lhs[i] == rhs[i] by {
        if i > 0 {
            assert(rhs[i] == s[s.len() - 1 - (i - 1)]);
            if s.len() >= MAX_HISTORY_ENTRIES {
                assert(p[p.len() - 1 - i] == s.drop_first()[p.len() - 1 - i]);
            }
        }
    }
    assert(lhs =~= rhs);
}

/// An empty history reads back nothing.
pub proof fn law_empty_recent(n: nat)
    ensures
        recent_view(Seq::<EntryView>::empty(), n) == Seq::<EntryView>::empty(),
{
    assert(recent_view(Seq::<EntryView>::empty(), n) =~= Seq::<EntryView>::empty());
}

} // verus!
