//! The server's settings that are computed from its configuration text:
//! the model server's generation endpoint and the allowed browser origins.
use vstd::prelude::*;
use crate::text::{char_range, chars_of, string_from_range, trim, trim_bounds};

verus! {

/// The generation endpoint of the model server at `base`.
pub fn generate_url(base: &str) -> (u: String)
    ensures
        u@ == base@ + "/api/generate"@,
{
    let mut u = String::from_str(base);
    u.append("/api/generate");
    u
}

/// The browser origins the server accepts.
pub enum AllowedOrigins {
    /// Any origin.
    Any,
    /// The listed origins (each still to be checked as a header value).
    List(Vec<String>),
}

/// The pieces of `s` between commas, scanning for the next comma from `i`
/// (what `str::split(',')` gives: empty pieces included, at least one piece).
pub open spec fn split_commas_from(s: Seq<char>, i: int) -> Seq<Seq<char>>
    decreases s.len() - i,
{
    if i < 0 || i >= s.len() {
        seq![s]
    } else if s[i] == ',' {
        seq![s.take(i)] + split_commas_from(s.skip(i + 1), 0)
    } else {
        split_commas_from(s, i + 1)
    }
}

/// The trimmed pieces of `s` between commas.
pub open spec fn origin_pieces(s: Seq<char>) -> Seq<Seq<char>> {
    split_commas_from(s, 0).map_values(|p: Seq<char>| trim(p))
}

/// The origins named by the configuration text `spec`: any origin for `*`
/// (surrounding whitespace aside), else the trimmed comma-separated pieces.
pub fn allowed_origins(spec: &str) -> (o: AllowedOrigins)
    ensures
        trim(spec@) == "*"@ ==> o is Any,
        trim(spec@) != "*"@ ==> (o matches AllowedOrigins::List(v) && v@.map_values(
            |x: String| x@,
        ) == origin_pieces(spec@)),
{
    let s = chars_of(spec);
    let (lo, hi) = trim_bounds(&s);
    proof {
        reveal_strlit("*");
    }
    if hi - lo == 1 && s[lo] == '*' {
        assert(s@.subrange(lo as int, hi as int) =~= "*"@);
        return AllowedOrigins::Any;
    }
    assert(trim(spec@) != "*"@) by {
        if trim(spec@) == "*"@ {
            assert(s@.subrange(lo as int, hi as int).len() == 1);
            assert(s@.subrange(lo as int, hi as int)[0] == s@[lo as int]);
        }
    }
    let n = s.len();
    let mut out: Vec<String> = Vec::new();
    let mut start: usize = 0;
    let mut j: usize = 0;
    assert(s@.skip(0) =~= s@);
    assert(out@.map_values(|x: String| x@) + split_commas_from(s@, 0).map_values(
        |p: Seq<char>| trim(p),
    ) =~= origin_pieces(spec@));
    while j < n
        invariant
            start <= j <= n == s.len(),
            s@ == spec@,
            out@.map_values(|x: String| x@) + split_commas_from(
                s@.skip(start as int),
                j - start,
            ).map_values(|p: Seq<char>| trim(p)) == origin_pieces(spec@),
        decreases n - j,
    {
        let ghost t = s@.skip(start as int);
        let ghost acc = out@.map_values(|x: String| x@);
        if s[j] == ',' {
            let piece = piece_trimmed(&s, start, j);
            proof {
                assert(t.take(j - start) =~= s@.subrange(start as int, j as int));
                assert(t.skip(j - start + 1) =~= s@.skip(j + 1));
                let rest = split_commas_from(s@.skip(j + 1), 0);
                assert((seq![t.take(j - start)] + rest).map_values(|p: Seq<char>| trim(p)) =~= seq![
                    trim(t.take(j - start)),
                ] + rest.map_values(|p: Seq<char>| trim(p)));
            }
            out.push(piece);
            proof {
                let rest = split_commas_from(s@.skip(j + 1), 0).map_values(|p: Seq<char>| trim(p));
                assert(out@.map_values(|x: String| x@) =~= acc.push(
                    trim(s@.subrange(start as int, j as int)),
                ));
                assert(acc + (seq![trim(s@.subrange(start as int, j as int))] + rest) =~= acc.push(
                    trim(s@.subrange(start as int, j as int)),
                ) + rest);
            }
            start = j + 1;
        }
        j = j + 1;
    }
    let ghost t = s@.skip(start as int);
    let ghost acc = out@.map_values(|x: String| x@);
    let piece = piece_trimmed(&s, start, n);
    proof {
        assert(split_commas_from(t, j - start) == seq![t]);
        assert(t =~= s@.subrange(start as int, n as int));
        assert(seq![t].map_values(|p: Seq<char>| trim(p)) =~= seq![trim(t)]);
    }
    out.push(piece);
    assert(out@.map_values(|x: String| x@) =~= acc.push(trim(t)));
    AllowedOrigins::List(out)
}

/// The trimmed text of `s[lo..hi]`.
fn piece_trimmed(s: &Vec<char>, lo: usize, hi: usize) -> (r: String)
    requires
        lo <= hi <= s.len(),
    ensures
        r@ == trim(s@.subrange(lo as int, hi as int)),
{
    let v = char_range(s, lo, hi);
    let (a, b) = trim_bounds(&v);
    string_from_range(&v, a, b)
}

} // verus!
