//! Decoding of a Server-Sent Events stream that arrives in arbitrary chunks.
//!
//! Events are separated by a blank line (`"\n\n"`). Within an event block,
//! an `event: ` line names the event type and `data: ` lines carry the
//! payload, joined by `'\n'`. A `done` event ends the stream; any other event
//! with a non-empty payload yields a token.
use vstd::prelude::*;
use crate::text::{
    char_range, chars_of, matches_at, same_chars, string_from_chars, string_from_range, trim, trim_bounds,
};

verus! {

// ── Specification ────────────────────────────────────────────────────────────

/// Splits `s` at blank lines, scanning from index `i`: the complete event
/// blocks in order, and the unterminated text that remains.
pub open spec fn split_blocks(s: Seq<char>, i: int) -> (Seq<Seq<char>>, Seq<char>)
    decreases s.len() - i,
{
    if i < 0 || i + 1 >= s.len() {
        (seq![], s)
    } else if s[i] == '\n' && s[i + 1] == '\n' {
        let rest = split_blocks(s.skip(i + 2), 0);
        (seq![s.take(i)] + rest.0, rest.1)
    } else {
        split_blocks(s, i + 1)
    }
}

/// `x` without one trailing carriage return.
pub open spec fn strip_cr(x: Seq<char>) -> Seq<char> {
    if x.len() > 0 && x.last() == '\r' {
        x.drop_last()
    } else {
        x
    }
}

/// The lines of `s` (what `str::lines` gives), scanning for the first line
/// ending from index `i`: lines end at `'\n'` or `"\r\n"`, and a final line
/// needs no ending.
pub open spec fn lines_from(s: Seq<char>, i: int) -> Seq<Seq<char>>
    decreases s.len() - i,
{
    if i < 0 || i >= s.len() {
        if s.len() == 0 {
            seq![]
        } else {
            seq![s]
        }
    } else if s[i] == '\n' {
        seq![strip_cr(s.take(i))] + lines_from(s.skip(i + 1), 0)
    } else {
        lines_from(s, i + 1)
    }
}

/// The lines of `s`.
pub open spec fn lines(s: Seq<char>) -> Seq<Seq<char>> {
    lines_from(s, 0)
}

/// Whether `p` is a prefix of `s`.
pub open spec fn has_prefix(s: Seq<char>, p: Seq<char>) -> bool {
    p.len() <= s.len() && s.take(p.len() as int) == p
}

/// One line's effect on the event being read: `(event type, data)`.
pub open spec fn line_step(st: (Seq<char>, Seq<char>), line: Seq<char>) -> (Seq<char>, Seq<char>) {
    if has_prefix(line, "event: "@) {
        (trim(line.skip("event: "@.len() as int)), st.1)
    } else if has_prefix(line, "data: "@) {
        let d = line.skip("data: "@.len() as int);
        (st.0, if st.1.len() == 0 { d } else { st.1 + seq!['\n'] + d })
    } else {
        st
    }
}

/// The event read from `ls`, starting from `st`.
pub open spec fn fold_lines(ls: Seq<Seq<char>>, st: (Seq<char>, Seq<char>)) -> (Seq<char>, Seq<char>)
    decreases ls.len(),
{
    if ls.len() == 0 {
        st
    } else {
        fold_lines(ls.drop_first(), line_step(st, ls[0]))
    }
}

/// What one event block yields: `("", true)` for a `done` event, `(data,
/// false)` for another event with non-empty data, nothing otherwise.
pub open spec fn block_event(b: Seq<char>) -> Seq<(Seq<char>, bool)> {
    let st = fold_lines(lines(b), ("message"@, seq![]));
    if st.0 == "done"@ {
        seq![(seq![], true)]
    } else if st.1.len() > 0 {
        seq![(st.1, false)]
    } else {
        seq![]
    }
}

/// What a sequence of event blocks yields, in order.
pub open spec fn block_events(bs: Seq<Seq<char>>) -> Seq<(Seq<char>, bool)>
    decreases bs.len(),
{
    if bs.len() == 0 {
        seq![]
    } else {
        block_event(bs[0]) + block_events(bs.drop_first())
    }
}

/// Feeding `data` to a decoder holding `buffer`: the tokens it yields and the
/// text it keeps for later.
pub open spec fn sse_feed(buffer: Seq<char>, data: Seq<char>) -> (Seq<(Seq<char>, bool)>, Seq<char>) {
    let sp = split_blocks(buffer + data, 0);
    (block_events(sp.0), sp.1)
}

/// The view of a decoded token.
pub open spec fn token_view(t: (String, bool)) -> (Seq<char>, bool) {
    (t.0@, t.1)
}

// ── Lemmas ───────────────────────────────────────────────────────────────────

proof fn lemma_block_events_push(a: Seq<Seq<char>>, b: Seq<char>)
    ensures
        block_events(a.push(b)) == block_events(a) + block_event(b),
    decreases a.len(),
{
    if a.len() == 0 {
        assert(a.push(b).drop_first() =~= Seq::<Seq<char>>::empty());
        assert(block_events(a.push(b)) == block_event(b) + block_events(Seq::<Seq<char>>::empty()));
        assert(block_event(b) + Seq::<(Seq<char>, bool)>::empty() =~= block_event(b));
        assert(Seq::<(Seq<char>, bool)>::empty() + block_event(b) =~= block_event(b));
    } else {
        assert(a.push(b).drop_first() =~= a.drop_first().push(b));
        lemma_block_events_push(a.drop_first(), b);
        assert(block_event(a[0]) + (block_events(a.drop_first()) + block_event(b)) =~= (
        block_event(a[0]) + block_events(a.drop_first())) + block_event(b));
    }
}

/// The tokens of two block sequences, one after the other.
pub proof fn lemma_block_events_concat(a: Seq<Seq<char>>, b: Seq<Seq<char>>)
    ensures
        block_events(a + b) == block_events(a) + block_events(b),
    decreases a.len(),
{
    if a.len() == 0 {
        assert(a + b =~= b);
        assert(block_events(a) + block_events(b) =~= block_events(b));
    } else {
        assert((a + b).drop_first() =~= a.drop_first() + b);
        assert((a + b)[0] == a[0]);
        lemma_block_events_concat(a.drop_first(), b);
        assert(block_event(a[0]) + (block_events(a.drop_first()) + block_events(b)) =~= (
        block_event(a[0]) + block_events(a.drop_first())) + block_events(b));
    }
}

proof fn lemma_fold_cons(x: Seq<char>, ls: Seq<Seq<char>>, st: (Seq<char>, Seq<char>))
    ensures
        fold_lines(seq![x] + ls, st) == fold_lines(ls, line_step(st, x)),
{
    assert((seq![x] + ls).drop_first() =~= ls);
    assert((seq![x] + ls)[0] == x);
}

/// Whether a blank line (`"\n\n"`) starts at index `k` of `s`.
pub open spec fn blank_at(s: Seq<char>, k: int) -> bool {
    0 <= k && k + 1 < s.len() && s[k] == '\n' && s[k + 1] == '\n'
}

/// Index `k` and the one after it lie in `s` and hold no blank line.
pub open spec fn clear_at(s: Seq<char>, k: int) -> bool {
    k + 1 < s.len() && !blank_at(s, k)
}

proof fn lemma_split_skip(s: Seq<char>, i: int, j: int)
    requires
        0 <= i <= j,
        forall|k: int| i <= k < j ==> #[trigger] clear_at(s, k),
    ensures
        split_blocks(s, i) == split_blocks(s, j),
    decreases j - i,
{
    if i < j {
        assert(clear_at(s, i));
        lemma_split_skip(s, i + 1, j);
    }
}

proof fn lemma_split_extend(s: Seq<char>, t: Seq<char>, i: int)
    requires
        0 <= i,
        forall|k: int| 0 <= k < i ==> #[trigger] clear_at(s, k),
    ensures
        split_blocks(s + t, i) == (
            split_blocks(s, i).0 + split_blocks(split_blocks(s, i).1 + t, 0).0,
            split_blocks(split_blocks(s, i).1 + t, 0).1,
        ),
    decreases s.len() - i,
{
    let u = s + t;
    if i + 1 >= s.len() {
        assert forall|k: int| 0 <= k < i implies #[trigger] clear_at(u, k) by {
            assert(clear_at(s, k));
            assert(u[k] == s[k] && u[k + 1] == s[k + 1]);
        }
        lemma_split_skip(u, 0, i);
        assert(Seq::<Seq<char>>::empty() + split_blocks(s + t, 0).0 =~= split_blocks(s + t, 0).0);
    } else if s[i] == '\n' && s[i + 1] == '\n' {
        assert(u[i] == s[i] && u[i + 1] == s[i + 1]);
        assert(u.skip(i + 2) =~= s.skip(i + 2) + t);
        assert(u.take(i) =~= s.take(i));
        lemma_split_extend(s.skip(i + 2), t, 0);
        let r = split_blocks(s.skip(i + 2), 0);
        let r2 = split_blocks(r.1 + t, 0);
        assert(seq![s.take(i)] + (r.0 + r2.0) =~= (seq![s.take(i)] + r.0) + r2.0);
    } else {
        assert(u[i] == s[i] && u[i + 1] == s[i + 1]);
        assert forall|k: int| 0 <= k < i + 1 implies #[trigger] clear_at(s, k) by {
            if k < i {
                assert(clear_at(s, k));
            }
        }
        lemma_split_extend(s, t, i + 1);
    }
}

proof fn lemma_split_rest_has_no_blank(s: Seq<char>, i: int)
    requires
        0 <= i,
        forall|k: int| 0 <= k < i ==> !blank_at(s, k),
    ensures
        forall|k: int| !blank_at(#[trigger] split_blocks(s, i).1, k),
    decreases s.len() - i,
{
    let r = split_blocks(s, i);
    if i + 1 >= s.len() {
        assert(r.1 == s);
        assert forall|k: int| !blank_at(#[trigger] split_blocks(s, i).1, k) by {
            if blank_at(s, k) {
                assert(k < i);
            }
        }
    } else if s[i] == '\n' && s[i + 1] == '\n' {
        lemma_split_rest_has_no_blank(s.skip(i + 2), 0);
        assert(r.1 == split_blocks(s.skip(i + 2), 0).1);
    } else {
        assert forall|k: int| 0 <= k < i + 1 implies !blank_at(s, k) by {}
        lemma_split_rest_has_no_blank(s, i + 1);
        assert(r == split_blocks(s, i + 1));
    }
}

/// However a stream is cut into chunks, the decoder yields the same tokens
/// and keeps the same text: feeding `a` and then `b` is feeding `a + b`.
pub proof fn law_feed_chunking_invariant(buffer: Seq<char>, a: Seq<char>, b: Seq<char>)
    ensures
        sse_feed(buffer, a + b).0 == sse_feed(buffer, a).0 + sse_feed(sse_feed(buffer, a).1, b).0,
        sse_feed(buffer, a + b).1 == sse_feed(sse_feed(buffer, a).1, b).1,
{
    let s = buffer + a;
    assert(buffer + (a + b) =~= s + b);
    lemma_split_extend(s, b, 0);
    let r = split_blocks(s, 0);
    let r2 = split_blocks(r.1 + b, 0);
    lemma_block_events_concat(r.0, r2.0);
}

/// The text that the decoder keeps never holds a complete event: every
/// blank line has been consumed.
pub proof fn law_kept_text_has_no_blank_line(buffer: Seq<char>, data: Seq<char>)
    ensures
        forall|k: int| !blank_at(#[trigger] sse_feed(buffer, data).1, k),
{
    lemma_split_rest_has_no_blank(buffer + data, 0);
}

// ── Data lines ───────────────────────────────────────────────────────────────

/// Whether `x` holds no line break (`'\n'` or `'\r'`).
pub open spec fn one_line(x: Seq<char>) -> bool {
    forall|j: int| 0 <= j < x.len() ==> x[j] != '\n' && x[j] != '\r'
}

/// The lines of `ds` joined by `'\n'`.
pub open spec fn join_lines(ds: Seq<Seq<char>>) -> Seq<char>
    decreases ds.len(),
{
    if ds.len() == 0 {
        seq![]
    } else if ds.len() == 1 {
        ds[0]
    } else {
        ds[0] + seq!['\n'] + join_lines(ds.drop_first())
    }
}

/// An event block carrying the lines `ds` as data lines: `data: ` and the
/// line, one per line, separated by `'\n'` (how a server sends a payload
/// whose lines are `ds`).
pub open spec fn data_block(ds: Seq<Seq<char>>) -> Seq<char>
    decreases ds.len(),
{
    if ds.len() == 0 {
        seq![]
    } else if ds.len() == 1 {
        "data: "@ + ds[0]
    } else {
        "data: "@ + ds[0] + seq!['\n'] + data_block(ds.drop_first())
    }
}

proof fn lemma_lines_skip(s: Seq<char>, i: int, j: int)
    requires
        0 <= i <= j <= s.len(),
        forall|k: int| i <= k < j ==> s[k] != '\n',
    ensures
        lines_from(s, i) == lines_from(s, j),
    decreases j - i,
{
    if i < j {
        lemma_lines_skip(s, i + 1, j);
    }
}

proof fn lemma_lines_of_line_then(x: Seq<char>, y: Seq<char>)
    requires
        one_line(x),
    ensures
        lines_from(x + seq!['\n'] + y, 0) == seq![x] + lines_from(y, 0),
{
    let s = x + seq!['\n'] + y;
    lemma_lines_skip(s, 0, x.len() as int);
    assert(s[x.len() as int] == '\n');
    assert(s.take(x.len() as int) =~= x);
    assert(s.skip(x.len() as int + 1) =~= y);
    if x.len() > 0 {
        assert(x.last() != '\r');
    }
}

proof fn lemma_lines_of_line(x: Seq<char>)
    requires
        one_line(x),
        x.len() > 0,
    ensures
        lines_from(x, 0) == seq![x],
{
    lemma_lines_skip(x, 0, x.len() as int);
}

proof fn lemma_data_line(d: Seq<char>)
    requires
        one_line(d),
    ensures
        one_line("data: "@ + d),
        ("data: "@ + d)[0] == 'd',
        ("data: "@ + d).len() > 0,
        ("data: "@ + d).last() != '\n',
        !has_prefix("data: "@ + d, "event: "@),
        has_prefix("data: "@ + d, "data: "@),
        ("data: "@ + d).skip("data: "@.len() as int) == d,
{
    reveal_strlit("data: ");
    reveal_strlit("event: ");
    let x = "data: "@ + d;
    assert(x.take(6) =~= "data: "@);
    assert(x.skip(6) =~= d);
    assert(x[0] == 'd');
    if 7 <= x.len() {
        assert(x.take(7)[0] == 'd');
        assert("event: "@[0] == 'e');
    }
}

proof fn lemma_data_block_lines(ds: Seq<Seq<char>>)
    requires
        ds.len() >= 1,
        forall|i: int| 0 <= i < ds.len() ==> one_line(#[trigger] ds[i]),
    ensures
        lines(data_block(ds)) == ds.map_values(|d: Seq<char>| "data: "@ + d),
        data_block(ds)[0] == 'd',
        data_block(ds).len() > 0,
        data_block(ds).last() != '\n',
        forall|k: int| !blank_at(data_block(ds), k),
    decreases ds.len(),
{
    let x = "data: "@ + ds[0];
    lemma_data_line(ds[0]);
    if ds.len() == 1 {
        lemma_lines_of_line(x);
        assert(ds.map_values(|d: Seq<char>| "data: "@ + d) =~= seq![x]);
        assert forall|k: int| !blank_at(data_block(ds), k) by {
            if blank_at(data_block(ds), k) {
                assert(x[k] == '\n');
            }
        }
    } else {
        let rest = ds.drop_first();
        assert forall|i: int| 0 <= i < rest.len() implies one_line(#[trigger] rest[i]) by {
            assert(rest[i] == ds[i + 1]);
        }
        lemma_data_block_lines(rest);
        let b = data_block(rest);
        let all = data_block(ds);
        assert(all == x + seq!['\n'] + b);
        lemma_lines_of_line_then(x, b);
        assert(ds.map_values(|d: Seq<char>| "data: "@ + d) =~= seq![x] + rest.map_values(
            |d: Seq<char>| "data: "@ + d,
        ));
        assert(all.last() == b.last());
        assert forall|k: int| !blank_at(all, k) by {
            if blank_at(all, k) {
                if k < x.len() {
                    assert(all[k] == x[k]);
                } else if k == x.len() {
                    assert(all[k + 1] == b[0]);
                } else {
                    assert(all[k] == b[k - x.len() - 1]);
                    assert(all[k + 1] == b[k - x.len()]);
                    assert(blank_at(b, k - x.len() - 1));
                }
            }
        }
    }
}

proof fn lemma_fold_data_lines(rest: Seq<Seq<char>>, ev: Seq<char>, acc: Seq<char>)
    requires
        acc.len() > 0,
        forall|i: int| 0 <= i < rest.len() ==> one_line(#[trigger] rest[i]),
    ensures
        fold_lines(rest.map_values(|d: Seq<char>| "data: "@ + d), (ev, acc)) == (
            ev,
            if rest.len() == 0 {
                acc
            } else {
                acc + seq!['\n'] + join_lines(rest)
            },
        ),
    decreases rest.len(),
{
    let ls = rest.map_values(|d: Seq<char>| "data: "@ + d);
    if rest.len() > 0 {
        lemma_data_line(rest[0]);
        let acc2 = acc + seq!['\n'] + rest[0];
        assert(line_step((ev, acc), ls[0]) == (ev, acc2));
        let tail = rest.drop_first();
        assert forall|i: int| 0 <= i < tail.len() implies one_line(#[trigger] tail[i]) by {
            assert(tail[i] == rest[i + 1]);
        }
        assert(ls.drop_first() =~= tail.map_values(|d: Seq<char>| "data: "@ + d));
        lemma_fold_data_lines(tail, ev, acc2);
        if tail.len() > 0 {
            assert(acc2 + seq!['\n'] + join_lines(tail) =~= acc + seq!['\n'] + (rest[0] + seq![
                '\n',
            ] + join_lines(tail)));
        } else {
            assert(join_lines(rest) == rest[0]);
        }
    }
}

/// Decoding gives back exactly what a server encodes as data lines: a
/// payload whose lines are `ds` (the first one not empty), sent as one
/// `data: ` line per line, decodes to the payload, every line and every
/// line break kept, empty lines included; and the same payload sent as a
/// complete event to a fresh decoder yields exactly that one token and
/// leaves nothing behind.
pub proof fn law_data_lines_round_trip(ds: Seq<Seq<char>>)
    requires
        ds.len() >= 1,
        ds[0].len() > 0,
        forall|i: int| 0 <= i < ds.len() ==> one_line(#[trigger] ds[i]),
    ensures
        block_event(data_block(ds)) == seq![(join_lines(ds), false)],
        sse_feed(seq![], data_block(ds) + "\n\n"@) == (
            seq![(join_lines(ds), false)],
            Seq::<char>::empty(),
        ),
{
    reveal_strlit("message");
    reveal_strlit("done");
    reveal_strlit("\n\n");
    let b = data_block(ds);
    lemma_data_block_lines(ds);
    let ls = ds.map_values(|d: Seq<char>| "data: "@ + d);
    lemma_data_line(ds[0]);
    let init = ("message"@, Seq::<char>::empty());
    assert(line_step(init, ls[0]) == ("message"@, ds[0]));
    let rest = ds.drop_first();
    assert forall|i: int| 0 <= i < rest.len() implies one_line(#[trigger] rest[i]) by {
        assert(rest[i] == ds[i + 1]);
    }
    assert(ls.drop_first() =~= rest.map_values(|d: Seq<char>| "data: "@ + d));
    lemma_fold_data_lines(rest, "message"@, ds[0]);
    if rest.len() == 0 {
        assert(join_lines(ds) == ds[0]);
    } else {
        assert(join_lines(ds) == ds[0] + seq!['\n'] + join_lines(rest));
    }
    assert(fold_lines(lines(b), init) == ("message"@, join_lines(ds)));
    assert("message"@.len() != "done"@.len());
    assert("message"@ != "done"@);
    let one = seq![b];
    assert(one.drop_first() =~= Seq::<Seq<char>>::empty());
    assert(block_events(one) == block_event(b) + block_events(Seq::<Seq<char>>::empty()));
    assert(block_event(b) + Seq::<(Seq<char>, bool)>::empty() =~= block_event(b));
    // The stream: the blank line after the block is its first blank line.
    let u = b + "\n\n"@;
    assert(Seq::<char>::empty() + u =~= u);
    assert forall|k: int| 0 <= k < b.len() implies #[trigger] clear_at(u, k) by {
        if k + 1 < b.len() {
            assert(u[k] == b[k] && u[k + 1] == b[k + 1]);
            assert(!blank_at(b, k));
        } else {
            assert(u[k] == b.last());
        }
    }
    lemma_split_skip(u, 0, b.len() as int);
    assert(u[b.len() as int] == '\n' && u[b.len() as int + 1] == '\n');
    assert(u.take(b.len() as int) =~= b);
    assert(u.skip(b.len() as int + 2) =~= Seq::<char>::empty());
    assert(split_blocks(Seq::<char>::empty(), 0) == (Seq::<Seq<char>>::empty(), Seq::<char>::empty()));
    assert(seq![b] + Seq::<Seq<char>>::empty() =~= one);
}

// ── Executable decoding ──────────────────────────────────────────────────────

/// Applies one line to the event being read.
fn apply_line(ev: &mut Vec<char>, data: &mut Vec<char>, line: &Vec<char>)
    ensures
        (final(ev)@, final(data)@) == line_step((old(ev)@, old(data)@), line@),
{
    let pe = chars_of("event: ");
    let pd = chars_of("data: ");
    let n = line.len();
    assert(line@.subrange(0, n as int) == line@);
    if matches_at(line, n, 0, &pe) {
        assert(line@.take(pe@.len() as int) == line@.subrange(0, pe@.len() as int));
        let rest = char_range(line, pe.len(), n);
        assert(rest@ == line@.skip(pe@.len() as int));
        let (a, b) = trim_bounds(&rest);
        *ev = char_range(&rest, a, b);
    } else if matches_at(line, n, 0, &pd) {
        assert(line@.take(pe@.len() as int) == line@.subrange(0, pe@.len() as int)) by {
            if pe@.len() <= n {
            }
        }
        assert(!has_prefix(line@, "event: "@)) by {
            if pe@.len() <= n {
                assert(line@.take(pe@.len() as int) == line@.subrange(0, pe@.len() as int));
            }
        }
        assert(line@.take(pd@.len() as int) == line@.subrange(0, pd@.len() as int));
        let rest = char_range(line, pd.len(), n);
        assert(rest@ == line@.skip(pd@.len() as int));
        if data.len() > 0 {
            data.push('\n');
        }
        let mut k: usize = 0;
        let ghost d0 = data@;
        while k < rest.len()
            invariant
                k <= rest.len(),
                data@ == d0 + rest@.take(k as int),
            decreases rest.len() - k,
        {
            data.push(rest[k]);
            assert(rest@.take(k + 1) == rest@.take(k as int).push(rest@[k as int]));
            k = k + 1;
        }
        assert(rest@.take(rest.len() as int) == rest@);
    } else {
        assert(!has_prefix(line@, "event: "@)) by {
            if pe@.len() <= n {
                assert(line@.take(pe@.len() as int) == line@.subrange(0, pe@.len() as int));
            }
        }
        assert(!has_prefix(line@, "data: "@)) by {
            if pd@.len() <= n {
                assert(line@.take(pd@.len() as int) == line@.subrange(0, pd@.len() as int));
            }
        }
    }
}

/// The event that the block `s[lo..hi]` yields.
fn decode_block(s: &Vec<char>, lo: usize, hi: usize) -> (r: Option<(String, bool)>)
    requires
        lo <= hi <= s.len(),
    ensures
        match r {
            Some(t) => block_event(s@.subrange(lo as int, hi as int)) == seq![token_view(t)],
            None => block_event(s@.subrange(lo as int, hi as int)) == Seq::<(Seq<char>, bool)>::empty(),
        },
{
    let ghost b = s@.subrange(lo as int, hi as int);
    let mut ev = chars_of("message");
    let mut data: Vec<char> = Vec::new();
    let ghost init = ("message"@, Seq::<char>::empty());
    let mut ls = lo;
    let mut j = lo;
    assert(b.skip(0) == b);
    while j < hi
        invariant
            lo <= ls <= j <= hi <= s.len(),
            b == s@.subrange(lo as int, hi as int),
            fold_lines(lines(b), init) == fold_lines(
                lines_from(b.skip(ls - lo), j - ls),
                (ev@, data@),
            ),
        decreases hi - j,
    {
        let ghost t = b.skip(ls - lo);
        assert(t[j - ls] == s@[j as int]);
        if s[j] == '\n' {
            let mut e = j;
            if e > ls && s[e - 1] == '\r' {
                e = e - 1;
            }
            let line = char_range(s, ls, e);
            assert(line@ == strip_cr(t.take(j - ls))) by {
                assert(t.take(j - ls) =~= s@.subrange(ls as int, j as int));
                if j > ls && s@[j - 1] == '\r' {
                    assert(s@.subrange(ls as int, j as int).drop_last() =~= s@.subrange(
                        ls as int,
                        j - 1,
                    ));
                }
            }
            proof {
                assert(t.skip(j - ls + 1) =~= b.skip(j + 1 - lo));
                lemma_fold_cons(line@, lines_from(t.skip(j - ls + 1), 0), (ev@, data@));
            }
            apply_line(&mut ev, &mut data, &line);
            ls = j + 1;
        }
        j = j + 1;
    }
    let ghost t = b.skip(ls - lo);
    if ls < hi {
        let line = char_range(s, ls, hi);
        assert(line@ =~= t);
        proof {
            assert(lines_from(t, j - ls) == seq![t]);
            lemma_fold_cons(t, Seq::<Seq<char>>::empty(), (ev@, data@));
            assert(seq![t] + Seq::<Seq<char>>::empty() =~= seq![t]);
        }
        apply_line(&mut ev, &mut data, &line);
    } else {
        assert(t.len() == 0);
    }
    assert(fold_lines(lines(b), init) == (ev@, data@));
    let done = chars_of("done");
    if same_chars(&ev, &done) {
        Some((String::new(), true))
    } else if data.len() > 0 {
        Some((string_from_chars(&data), false))
    } else {
        None
    }
}

/// Appends `new_data` to `buffer`, takes every complete event block off its
/// front, and returns what those blocks yield, in order: `(data, false)` for
/// a data event and `("", true)` for a `done` event.
pub fn parse_sse_chunk(buffer: &mut String, new_data: &str) -> (results: Vec<(String, bool)>)
    ensures
        results@.map_values(|t: (String, bool)| token_view(t)) == sse_feed(old(buffer)@, new_data@).0,
        final(buffer)@ == sse_feed(old(buffer)@, new_data@).1,
{
    let mut s = chars_of(buffer.as_str());
    let d = chars_of(new_data);
    let ghost s0 = s@;
    let mut k: usize = 0;
    while k < d.len()
        invariant
            k <= d.len(),
            s@ == s0 + d@.take(k as int),
        decreases d.len() - k,
    {
        s.push(d[k]);
        assert(d@.take(k + 1) == d@.take(k as int).push(d@[k as int]));
        k = k + 1;
    }
    assert(d@.take(d.len() as int) == d@);
    let n = s.len();
    let mut results: Vec<(String, bool)> = Vec::new();
    let mut start: usize = 0;
    let mut i: usize = 0;
    let ghost mut blocks: Seq<Seq<char>> = seq![];
    assert(s@.skip(0) == s@);
    assert(blocks + split_blocks(s@, 0).0 =~= split_blocks(s@, 0).0);
    while n > 0 && i < n - 1
        invariant
            start <= i <= n == s.len(),
            split_blocks(s@, 0) == (
                blocks + split_blocks(s@.skip(start as int), i - start).0,
                split_blocks(s@.skip(start as int), i - start).1,
            ),
            results@.map_values(|t: (String, bool)| token_view(t)) == block_events(blocks),
        decreases n - i,
    {
        let ghost t = s@.skip(start as int);
        let ghost old_blocks = blocks;
        if s[i] == '\n' && s[i + 1] == '\n' {
            let ev = decode_block(&s, start, i);
            proof {
                assert(t.take(i - start) =~= s@.subrange(start as int, i as int));
                assert(t.skip(i - start + 2) =~= s@.skip(i + 2));
                lemma_block_events_push(blocks, s@.subrange(start as int, i as int));
                assert(seq![s@.subrange(start as int, i as int)] + split_blocks(
                    s@.skip(i + 2),
                    0,
                ).0 == split_blocks(t, i - start).0);
                assert(blocks + (seq![s@.subrange(start as int, i as int)] + split_blocks(
                    s@.skip(i + 2),
                    0,
                ).0) =~= blocks.push(s@.subrange(start as int, i as int)) + split_blocks(
                    s@.skip(i + 2),
                    0,
                ).0);
                blocks = blocks.push(s@.subrange(start as int, i as int));
            }
            match ev {
                Some(tok) => {
                    let ghost before = results@;
                    results.push(tok);
                    assert(results@.map_values(|t: (String, bool)| token_view(t)) =~= before.map_values(
                        |t: (String, bool)| token_view(t),
                    ).push(token_view(tok)));
                },
                None => {
                    assert(block_events(old_blocks) + Seq::<(Seq<char>, bool)>::empty()
                        =~= block_events(old_blocks));
                },
            }
            start = i + 2;
            i = i + 2;
            assert(s@.skip(start as int) == s@.skip(i as int));
            assert(i - start == 0);
        } else {
            i = i + 1;
        }
    }
    let ghost t = s@.skip(start as int);
    assert(split_blocks(t, i - start) == (Seq::<Seq<char>>::empty(), t));
    assert(blocks + Seq::<Seq<char>>::empty() =~= blocks);
    *buffer = string_from_range(&s, start, n);
    assert(s@.subrange(start as int, n as int) =~= t);
    results
}

} // verus!
