//! What the service sends to the model server and how it reads the answer:
//! request validation, prompt construction, generation settings, cache
//! keys, and the handling of answer text and streamed answer lines.
use vstd::prelude::*;
use crate::error::{AppError, message_of};
use crate::prompts::{PROMPT_CYBERPUNK, PROMPT_GAME, PROMPT_LEARNING, PROMPT_POETIC, PROMPT_SIMPLE};
use crate::streaming::{lines, lines_from, strip_cr};
use crate::text::{
    char_range, chars_of, contains, law_trim_idempotent, occurs_at, replace, replace_all, trim, trim_bounds,
    trimmed,
};
use crate::types::{ExplainRequest, Lens};

verus! {

/// The longest word, in characters, that the service explains.
pub const MAX_WORD_LEN: usize = 200;

/// How long the service waits for the model server, in seconds.
pub const OLLAMA_TIMEOUT_SECS: u64 = 60;

/// The context window the model is run with, in tokens.
pub const NUM_CTX: u32 = 2048;

// ── Validation ───────────────────────────────────────────────────────────────

/// Checks the word of a request: once trimmed it must be non-empty and at
/// most `MAX_WORD_LEN` characters long.
pub fn validate_request(payload: &ExplainRequest) -> (r: Result<(), AppError>)
    ensures
        r is Ok <==> 0 < trim(payload.word@).len() <= MAX_WORD_LEN,
        trim(payload.word@).len() == 0 ==> (r matches Err(e) && e is InvalidRequest && message_of(e)
            == "Word cannot be empty."@),
        trim(payload.word@).len() > MAX_WORD_LEN ==> (r matches Err(e) && e is InvalidRequest
            && message_of(e) == "Word is too long (max 200 characters)."@),
{
    let v = chars_of(payload.word.as_str());
    let (lo, hi) = trim_bounds(&v);
    if hi - lo == 0 {
        return Err(AppError::InvalidRequest(String::from_str("Word cannot be empty.")));
    }
    if hi - lo > MAX_WORD_LEN {
        return Err(
            AppError::InvalidRequest(String::from_str("Word is too long (max 200 characters).")),
        );
    }
    Ok(())
}

// ── Prompts ──────────────────────────────────────────────────────────────────

/// The template of a lens.
pub open spec fn template_of(lens: Lens) -> Seq<char> {
    match lens {
        Lens::Simple => PROMPT_SIMPLE@,
        Lens::Learning => PROMPT_LEARNING@,
        Lens::Game => PROMPT_GAME@,
        Lens::Cyberpunk => PROMPT_CYBERPUNK@,
        Lens::Poetic => PROMPT_POETIC@,
    }
}

/// The template of a lens.
pub fn prompt_template(lens: Lens) -> (t: &'static str)
    ensures
        t@ == template_of(lens),
{
    match lens {
        Lens::Simple => PROMPT_SIMPLE,
        Lens::Learning => PROMPT_LEARNING,
        Lens::Game => PROMPT_GAME,
        Lens::Cyberpunk => PROMPT_CYBERPUNK,
        Lens::Poetic => PROMPT_POETIC,
    }
}

/// The prompt for explaining `word` through `lens`: the lens's template with
/// every `{word}` replaced by the trimmed word.
pub fn build_prompt(word: &str, lens: Lens) -> (p: String)
    ensures
        p@ == replace_all(template_of(lens), "{word}"@, trim(word@)),
{
    let w = trimmed(word);
    proof {
        reveal_strlit("{word}");
    }
    replace(prompt_template(lens), "{word}", w.as_str())
}

/// A replacement puts the new text in wherever the pattern occurred: if the
/// pattern occurs at all, the result holds the replacement.
pub proof fn law_replace_inserts(s: Seq<char>, p: Seq<char>, r: Seq<char>)
    requires
        p.len() > 0,
        contains(s, p),
    ensures
        contains(replace_all(s, p, r), r),
    decreases s.len(),
{
    let out = replace_all(s, p, r);
    if p.len() <= s.len() && s.take(p.len() as int) == p {
        assert(out.subrange(0, r.len() as int) =~= r);
        assert(occurs_at(out, r, 0));
    } else {
        let i = choose|i: int| occurs_at(s, p, i);
        if i == 0 {
            assert(s.take(p.len() as int) =~= s.subrange(0, p.len() as int));
        }
        assert(occurs_at(s.drop_first(), p, i - 1)) by {
            assert(s.drop_first().subrange(i - 1, i - 1 + p.len()) =~= s.subrange(i, i + p.len()));
        }
        law_replace_inserts(s.drop_first(), p, r);
        let rest = replace_all(s.drop_first(), p, r);
        let j = choose|j: int| occurs_at(rest, r, j);
        assert(out == seq![s[0]] + rest);
        assert(out.subrange(j + 1, j + 1 + r.len()) =~= rest.subrange(j, j + r.len()));
        assert(occurs_at(out, r, j + 1));
    }
}

/// A replacement leaves no trace of the pattern when every occurrence of
/// the pattern's first character in `s` starts an occurrence of the whole
/// pattern and the replacement never holds that character: the result then
/// holds that character nowhere, so the pattern nowhere.
pub proof fn law_replace_removes(s: Seq<char>, p: Seq<char>, r: Seq<char>)
    requires
        p.len() > 0,
        forall|i: int| 0 <= i < s.len() && s[i] == p[0] ==> occurs_at(s, p, i),
        forall|j: int| 0 <= j < r.len() ==> r[j] != p[0],
    ensures
        forall|k: int| 0 <= k < replace_all(s, p, r).len() ==> replace_all(s, p, r)[k] != p[0],
        !contains(replace_all(s, p, r), p),
    decreases s.len(),
{
    let out = replace_all(s, p, r);
    if s.len() == 0 {
    } else if p.len() <= s.len() && s.take(p.len() as int) == p {
        let t = s.skip(p.len() as int);
        assert forall|i: int| 0 <= i < t.len() && t[i] == p[0] implies occurs_at(t, p, i) by {
            assert(t[i] == s[i + p.len()]);
            assert(occurs_at(s, p, i + p.len()));
            assert(t.subrange(i, i + p.len()) =~= s.subrange(i + p.len(), i + 2 * p.len()));
        }
        law_replace_removes(t, p, r);
    } else {
        let t = s.drop_first();
        if s[0] == p[0] {
            assert(occurs_at(s, p, 0));
            assert(s.take(p.len() as int) =~= s.subrange(0, p.len() as int));
        }
        assert forall|i: int| 0 <= i < t.len() && t[i] == p[0] implies occurs_at(t, p, i) by {
            assert(occurs_at(s, p, i + 1));
            assert(t.subrange(i, i + p.len()) =~= s.subrange(i + 1, i + 1 + p.len()));
        }
        law_replace_removes(t, p, r);
    }
    if contains(out, p) {
        let k = choose|k: int| occurs_at(out, p, k);
        assert(out.subrange(k, k + p.len())[0] == out[k]);
    }
}

// ── Generation settings ──────────────────────────────────────────────────────

/// The most tokens the model may generate for a lens.
pub open spec fn token_limit_of(lens: Lens) -> u32 {
    match lens {
        Lens::Simple => 180,
        Lens::Learning => 520,
        Lens::Game => 420,
        Lens::Cyberpunk => 320,
        Lens::Poetic => 360,
    }
}

/// The most tokens the model may generate for a lens; never zero.
pub fn lens_token_limit(lens: Lens) -> (n: u32)
    ensures
        n == token_limit_of(lens),
        n > 0,
{
    match lens {
        Lens::Simple => 180,
        Lens::Learning => 520,
        Lens::Game => 420,
        Lens::Cyberpunk => 320,
        Lens::Poetic => 360,
    }
}

/// A generation request for the model server. The sampling settings
/// (temperature 0.7, top-p 0.9, repeat penalty 1.1) are fixed and added
/// where the request is encoded.
pub struct OllamaRequest {
    pub model: String,
    pub prompt: String,
    pub stream: bool,
    pub num_predict: u32,
    pub num_ctx: u32,
}

/// The generation request for `prompt` on `model`.
pub fn ollama_body(model: &str, prompt: &str, stream: bool, num_predict: u32) -> (r: OllamaRequest)
    ensures
        r.model@ == model@,
        r.prompt@ == prompt@,
        r.stream == stream,
        r.num_predict == num_predict,
        r.num_ctx == NUM_CTX,
{
    OllamaRequest {
        model: String::from_str(model),
        prompt: String::from_str(prompt),
        stream,
        num_predict,
        num_ctx: NUM_CTX,
    }
}

// ── Answers ──────────────────────────────────────────────────────────────────

/// One answer object of the model server: a piece of text, and whether the
/// answer is complete.
pub struct OllamaChunk {
    pub response: String,
    pub done: bool,
}

/// The lower-case form of `s`, as `str::to_lowercase` computes it.
pub uninterp spec fn lowercase(s: Seq<char>) -> Seq<char>;

/// Whether every character of `s` is ASCII.
pub open spec fn is_ascii_text(s: Seq<char>) -> bool {
    forall|i: int| 0 <= i < s.len() ==> (s[i] as u32) < 128
}

/// Whether `c` is an ASCII capital letter.
pub open spec fn is_ascii_upper(c: char) -> bool {
    'A' <= c && c <= 'Z'
}

/// The lower-case form of an ASCII character: capitals become small letters,
/// every other character stays.
pub open spec fn ascii_lower_char(c: char) -> char {
    if is_ascii_upper(c) {
        ((c as u32) + 32) as char
    } else {
        c
    }
}

/// The lower-case form of an ASCII text, character by character.
pub open spec fn ascii_lower(s: Seq<char>) -> Seq<char> {
    s.map_values(|c: char| ascii_lower_char(c))
}

/// `str::to_lowercase`. Its contract names the result `lowercase(s@)`. Of
/// that result it states only the ASCII case: the Unicode lower-case
/// mapping of an ASCII text turns each capital `A`..`Z` into `a`..`z` and
/// keeps every other character (no ASCII character has another mapping, and
/// the final-sigma rule concerns `Σ` only). The rest of the Unicode mapping
/// is left unstated.
#[verifier::external_body]
fn to_lowercase(s: &str) -> (r: String)
    ensures
        r@ == lowercase(s@),
        is_ascii_text(s@) ==> r@ == ascii_lower(s@),
{
    s.to_lowercase()
}

/// The key under which the answer for `word` through `lens` is cached: the
/// trimmed word in lower case, and the lens.
pub fn cache_key(word: &str, lens: Lens) -> (k: (String, Lens))
    ensures
        k.0@ == lowercase(trim(word@)),
        is_ascii_text(trim(word@)) ==> k.0@ == ascii_lower(trim(word@)),
        k.1 == lens,
{
    let w = trimmed(word);
    (to_lowercase(w.as_str()), lens)
}

/// The explanation shown for a complete model answer: the trimmed answer,
/// or a notice when nothing but whitespace came back.
pub fn explanation_text(response: &str) -> (e: String)
    ensures
        e@ == if trim(response@).len() == 0 {
            "No response generated."@
        } else {
            trim(response@)
        },
{
    let t = trimmed(response);
    if t.as_str().unicode_len() == 0 {
        String::from_str("No response generated.")
    } else {
        t
    }
}

/// A word and its trimmed form share one cache key, so surrounding
/// whitespace never splits the cache.
pub proof fn law_cache_key_ignores_surrounding_whitespace(word: Seq<char>)
    ensures
        lowercase(trim(trim(word))) == lowercase(trim(word)),
{
    law_trim_idempotent(word);
}

/// The key of an ASCII word keeps the whole word: it is as long as the
/// trimmed word, every character stays except that capitals become small
/// letters, and lowering the parts of a text and joining them is lowering
/// the whole (so no word, space or piece of the text is dropped). Lowering
/// twice is lowering once.
pub proof fn law_ascii_key_keeps_whole_word(a: Seq<char>, b: Seq<char>)
    requires
        is_ascii_text(a),
        is_ascii_text(b),
    ensures
        ascii_lower(a).len() == a.len(),
        forall|i: int|
            0 <= i < a.len() ==> (if is_ascii_upper(a[i]) {
                ascii_lower(a)[i] as u32 == (a[i] as u32) + 32
            } else {
                ascii_lower(a)[i] == a[i]
            }),
        forall|i: int| 0 <= i < a.len() ==> !is_ascii_upper(#[trigger] ascii_lower(a)[i]),
        ascii_lower(a + b) == ascii_lower(a) + ascii_lower(b),
        ascii_lower(ascii_lower(a)) == ascii_lower(a),
{
    assert forall|i: int| 0 <= i < a.len() implies !is_ascii_upper(#[trigger] ascii_lower(a)[i]) by {
        if is_ascii_upper(a[i]) {
            assert(((a[i] as u32) + 32) as char == ascii_lower(a)[i]);
        }
    }
    assert(ascii_lower(a + b) =~= ascii_lower(a) + ascii_lower(b));
    assert(ascii_lower(ascii_lower(a)) =~= ascii_lower(a));
}

/// Two ASCII words share a key only if they are the same word up to the
/// case of their letters: same length, and each character either equal or
/// the same letter in the other case.
pub proof fn law_ascii_keys_differ_for_different_words(a: Seq<char>, b: Seq<char>)
    requires
        is_ascii_text(a),
        is_ascii_text(b),
        ascii_lower(a) == ascii_lower(b),
    ensures
        a.len() == b.len(),
        forall|i: int|
            0 <= i < a.len() ==> a[i] == b[i] || (is_ascii_upper(a[i]) && b[i] as u32 == (a[i] as u32)
                + 32) || (is_ascii_upper(b[i]) && a[i] as u32 == (b[i] as u32) + 32),
{
    law_ascii_key_keeps_whole_word(a, b);
    law_ascii_key_keeps_whole_word(b, a);
    assert forall|i: int|
        0 <= i < a.len() implies a[i] == b[i] || (is_ascii_upper(a[i]) && b[i] as u32 == (
        a[i] as u32) + 32) || (is_ascii_upper(b[i]) && a[i] as u32 == (b[i] as u32) + 32) by {
        assert(ascii_lower(a)[i] == ascii_lower(b)[i]);
        assert(ascii_lower(a)[i] as u32 == ascii_lower(b)[i] as u32);
    }
}

/// The explanation shown for an answer is never empty.
pub proof fn law_explanation_never_empty(response: Seq<char>)
    ensures
        (if trim(response).len() == 0 {
            "No response generated."@
        } else {
            trim(response)
        }).len() > 0,
{
    reveal_strlit("No response generated.");
}

/// The lines of `ls` that hold more than whitespace.
pub open spec fn nonblank(ls: Seq<Seq<char>>) -> Seq<Seq<char>>
    decreases ls.len(),
{
    if ls.len() == 0 {
        seq![]
    } else {
        (if trim(ls[0]).len() > 0 {
            seq![ls[0]]
        } else {
            seq![]
        }) + nonblank(ls.drop_first())
    }
}

proof fn lemma_nonblank_cons(x: Seq<char>, ls: Seq<Seq<char>>)
    ensures
        nonblank(seq![x] + ls) == (if trim(x).len() > 0 {
            seq![x]
        } else {
            seq![]
        }) + nonblank(ls),
{
    assert((seq![x] + ls).drop_first() =~= ls);
    assert((seq![x] + ls)[0] == x);
}

/// Pushes `line` onto `out` if it holds more than whitespace.
fn keep_if_nonblank(out: &mut Vec<String>, line: Vec<char>)
    ensures
        final(out)@.map_values(|l: String| l@) == old(out)@.map_values(|l: String| l@) + (if trim(
            line@,
        ).len() > 0 {
            seq![line@]
        } else {
            seq![]
        }),
{
    let (a, b) = trim_bounds(&line);
    let ghost before = out@;
    if b - a > 0 {
        out.push(crate::text::string_from_chars(&line));
        assert(out@.map_values(|l: String| l@) =~= before.map_values(|l: String| l@).push(line@));
    } else {
        assert(before.map_values(|l: String| l@) + Seq::<Seq<char>>::empty() =~= before.map_values(
            |l: String| l@,
        ));
    }
}

/// The lines of `text` that hold more than whitespace, in order; the model
/// server streams one answer object per line.
pub fn nonempty_lines(text: &str) -> (out: Vec<String>)
    ensures
        out@.map_values(|l: String| l@) == nonblank(lines(text@)),
{
    let s = chars_of(text);
    let n = s.len();
    let mut out: Vec<String> = Vec::new();
    let mut ls: usize = 0;
    let mut j: usize = 0;
    assert(s@.skip(0) == s@);
    assert(out@.map_values(|l: String| l@) + nonblank(lines(s@)) =~= nonblank(lines(s@)));
    while j < n
        invariant
            ls <= j <= n == s.len(),
            out@.map_values(|l: String| l@) + nonblank(lines_from(s@.skip(ls as int), j - ls))
                == nonblank(lines(s@)),
        decreases n - j,
    {
        let ghost t = s@.skip(ls as int);
        let ghost acc = out@.map_values(|l: String| l@);
        if s[j] == '\n' {
            let mut e = j;
            if e > ls && s[e - 1] == '\r' {
                e = e - 1;
            }
            let line = char_range(&s, ls, e);
            assert(line@ == strip_cr(t.take(j - ls))) by {
                assert(t.take(j - ls) =~= s@.subrange(ls as int, j as int));
                if j > ls && s@[j - 1] == '\r' {
                    assert(s@.subrange(ls as int, j as int).drop_last() =~= s@.subrange(
                        ls as int,
                        j - 1,
                    ));
                }
            }
            let ghost lv = line@;
            proof {
                assert(t.skip(j - ls + 1) =~= s@.skip(j + 1));
                lemma_nonblank_cons(lv, lines_from(s@.skip(j + 1), 0));
            }
            keep_if_nonblank(&mut out, line);
            proof {
                let keep = if trim(lv).len() > 0 {
                    seq![lv]
                } else {
                    seq![]
                };
                assert(acc + (keep + nonblank(lines_from(s@.skip(j + 1), 0))) =~= (acc + keep)
                    + nonblank(lines_from(s@.skip(j + 1), 0)));
            }
            ls = j + 1;
        }
        j = j + 1;
    }
    let ghost t = s@.skip(ls as int);
    let ghost acc = out@.map_values(|l: String| l@);
    if ls < n {
        let line = char_range(&s, ls, n);
        assert(line@ =~= t);
        proof {
            assert(lines_from(t, j - ls) == seq![t]);
            lemma_nonblank_cons(t, Seq::<Seq<char>>::empty());
            assert(seq![t] + Seq::<Seq<char>>::empty() =~= seq![t]);
        }
        keep_if_nonblank(&mut out, line);
        proof {
            let keep = if trim(t).len() > 0 {
                seq![t]
            } else {
                seq![]
            };
            assert(nonblank(Seq::<Seq<char>>::empty()) =~= Seq::<Seq<char>>::empty());
            assert(keep + Seq::<Seq<char>>::empty() =~= keep);
        }
    } else {
        assert(t.len() == 0);
        assert(acc + Seq::<Seq<char>>::empty() =~= acc);
    }
    out
}

/// Takes one streamed answer object into the answer so far: its text, if
/// any, is appended to `full_text` and handed on as a token; the flag says
/// whether the answer is complete.
pub fn absorb_chunk(full_text: &mut String, chunk: &OllamaChunk) -> (r: (Option<String>, bool))
    ensures
        final(full_text)@ == old(full_text)@ + chunk.response@,
        r.0 is Some <==> chunk.response@.len() > 0,
        r.0 matches Some(t) ==> t@ == chunk.response@,
        r.1 == chunk.done,
{
    let n = chunk.response.as_str().unicode_len();
    let token = if n > 0 {
        full_text.append(chunk.response.as_str());
        Some(chunk.response.clone())
    } else {
        assert(old(full_text)@ + chunk.response@ =~= old(full_text)@);
        None
    };
    (token, chunk.done)
}

} // verus!
