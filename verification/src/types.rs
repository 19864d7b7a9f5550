//! The lenses, chat roles and the request/response records of the API.
use vstd::prelude::*;

verus! {

/// A style in which a word is explained.
#[derive(Debug, Clone, Copy, PartialEq, Eq, Hash, Structural)]
pub enum Lens {
    Simple,
    Learning,
    Game,
    Cyberpunk,
    Poetic,
}

/// The lens's identifier on the wire: its name in lower case.
pub open spec fn lens_id(l: Lens) -> Seq<char> {
    match l {
        Lens::Simple => "simple"@,
        Lens::Learning => "learning"@,
        Lens::Game => "game"@,
        Lens::Cyberpunk => "cyberpunk"@,
        Lens::Poetic => "poetic"@,
    }
}

/// The name shown on the lens's button.
pub open spec fn lens_label(l: Lens) -> Seq<char> {
    match l {
        Lens::Simple => "Simple"@,
        Lens::Learning => "Learning"@,
        Lens::Game => "Game"@,
        Lens::Cyberpunk => "Cyberpunk"@,
        Lens::Poetic => "Poetic"@,
    }
}

/// A short description of the lens's style.
pub open spec fn lens_tagline(l: Lens) -> Seq<char> {
    match l {
        Lens::Simple => "Clear & easy"@,
        Lens::Learning => "Deep & structured"@,
        Lens::Game => "Interactive & fun"@,
        Lens::Cyberpunk => "Futuristic & dark"@,
        Lens::Poetic => "Metaphorical & beautiful"@,
    }
}

/// The lens's position in `Lens::all()`.
pub open spec fn lens_index(l: Lens) -> nat {
    match l {
        Lens::Simple => 0,
        Lens::Learning => 1,
        Lens::Game => 2,
        Lens::Cyberpunk => 3,
        Lens::Poetic => 4,
    }
}

/// Every lens, in display order.
pub open spec fn all_lenses() -> Seq<Lens> {
    seq![Lens::Simple, Lens::Learning, Lens::Game, Lens::Cyberpunk, Lens::Poetic]
}

impl Lens {
    /// The wire identifier.
    pub fn as_str(self) -> (s: &'static str)
        ensures
            s@ == lens_id(self),
    {
        match self {
            Lens::Simple => "simple",
            Lens::Learning => "learning",
            Lens::Game => "game",
            Lens::Cyberpunk => "cyberpunk",
            Lens::Poetic => "poetic",
        }
    }

    /// The wire identifier as an owned string (the lens's textual form).
    pub fn to_string(self) -> (s: String)
        ensures
            s@ == lens_id(self),
    {
        String::from_str(self.as_str())
    }

    /// The wire identifier, as the user interface names it.
    pub fn id(self) -> (s: &'static str)
        ensures
            s@ == lens_id(self),
    {
        self.as_str()
    }

    /// The name shown on the lens's button.
    pub fn label(self) -> (s: &'static str)
        ensures
            s@ == lens_label(self),
    {
        match self {
            Lens::Simple => "Simple",
            Lens::Learning => "Learning",
            Lens::Game => "Game",
            Lens::Cyberpunk => "Cyberpunk",
            Lens::Poetic => "Poetic",
        }
    }

    /// A short description of the lens's style.
    pub fn tagline(self) -> (s: &'static str)
        ensures
            s@ == lens_tagline(self),
    {
        match self {
            Lens::Simple => "Clear & easy",
            Lens::Learning => "Deep & structured",
            Lens::Game => "Interactive & fun",
            Lens::Cyberpunk => "Futuristic & dark",
            Lens::Poetic => "Metaphorical & beautiful",
        }
    }

    /// The style-sheet class that themes the page for the lens.
    pub fn css_class(self) -> (s: &'static str)
        ensures
            s@ == match self {
                Lens::Simple => "lens-simple"@,
                Lens::Learning => "lens-learning"@,
                Lens::Game => "lens-game"@,
                Lens::Cyberpunk => "lens-cyberpunk"@,
                Lens::Poetic => "lens-poetic"@,
            },
    {
        match self {
            Lens::Simple => "lens-simple",
            Lens::Learning => "lens-learning",
            Lens::Game => "lens-game",
            Lens::Cyberpunk => "lens-cyberpunk",
            Lens::Poetic => "lens-poetic",
        }
    }

    /// What the lens is like, as the about dialog describes it.
    pub fn description(self) -> (s: &'static str)
        ensures
            s@ == match self {
                Lens::Simple => "Short, plain-language explanations. Great when you just want a quick, clear answer without jargon."@,
                Lens::Learning => "Structured, educational breakdowns with context and examples. Perfect for studying or going deep on a topic."@,
                Lens::Game => "Explains concepts as if they were game mechanics — fun, energetic, and full of analogies from gaming culture."@,
                Lens::Cyberpunk => "Dark, futuristic, and tech-noir. Concepts reframed through a dystopian sci-fi lens for a moody, immersive vibe."@,
                Lens::Poetic => "Lyrical, metaphor-rich descriptions that paint a picture. Ideal when you want to feel the meaning, not just know it."@,
            },
    {
        match self {
            Lens::Simple => "Short, plain-language explanations. Great when you just want a quick, clear answer without jargon.",
            Lens::Learning => "Structured, educational breakdowns with context and examples. Perfect for studying or going deep on a topic.",
            Lens::Game => "Explains concepts as if they were game mechanics — fun, energetic, and full of analogies from gaming culture.",
            Lens::Cyberpunk => "Dark, futuristic, and tech-noir. Concepts reframed through a dystopian sci-fi lens for a moody, immersive vibe.",
            Lens::Poetic => "Lyrical, metaphor-rich descriptions that paint a picture. Ideal when you want to feel the meaning, not just know it.",
        }
    }

    /// The header's subtitle for the lens: `"{label} lens · {tagline}"`.
    pub fn subtitle(self) -> (s: String)
        ensures
            s@ == lens_label(self) + " lens · "@ + lens_tagline(self),
    {
        let mut s = String::from_str(self.label());
        s.append(" lens · ");
        s.append(self.tagline());
        s
    }

    /// Every lens, in display order.
    pub fn all() -> (v: &'static [Lens])
        ensures
            v@ == all_lenses(),
    {
        let v: &'static [Lens] = &[Lens::Simple, Lens::Learning, Lens::Game, Lens::Cyberpunk, Lens::Poetic];
        assert(v@ =~= all_lenses());
        v
    }

    /// The lens's position in `Lens::all()`.
    pub fn index(self) -> (i: usize)
        ensures
            i == lens_index(self),
            i < 5,
    {
        match self {
            Lens::Simple => 0,
            Lens::Learning => 1,
            Lens::Game => 2,
            Lens::Cyberpunk => 3,
            Lens::Poetic => 4,
        }
    }
}

/// `Lens::index` and `Lens::all` agree: each lens stands at its own index,
/// and each lens occurs there once.
pub proof fn law_index_locates_lens(l: Lens)
    ensures
        all_lenses()[lens_index(l) as int] == l,
        lens_index(l) < all_lenses().len(),
        forall|i: int| 0 <= i < all_lenses().len() && all_lenses()[i] == l ==> i == lens_index(l),
{
}

/// Distinct lenses have distinct wire identifiers.
pub proof fn law_lens_ids_distinct(a: Lens, b: Lens)
    requires
        a != b,
    ensures
        lens_id(a) != lens_id(b),
{
    reveal_strlit("simple");
    reveal_strlit("learning");
    reveal_strlit("game");
    reveal_strlit("cyberpunk");
    reveal_strlit("poetic");
    assert(lens_id(a) != lens_id(b)) by {
        if lens_id(a).len() == lens_id(b).len() {
            assert(lens_id(a)[0] != lens_id(b)[0] || lens_id(a)[1] != lens_id(b)[1]);
        }
    }
}

/// Who wrote a chat message.
#[derive(Debug, Clone, Copy, PartialEq, Eq, Structural)]
pub enum Role {
    User,
    Assistant,
}

/// How many entries a history request returns when it names no limit.
pub fn default_limit() -> (n: usize)
    ensures
        n == crate::DEFAULT_HISTORY_LIMIT,
{
    crate::DEFAULT_HISTORY_LIMIT
}

/// The query of a history request.
#[derive(Debug)]
pub struct HistoryQuery {
    pub limit: usize,
}

impl HistoryQuery {
    /// The number of entries the request may receive: its limit, capped at
    /// the number of entries the history keeps.
    pub fn effective_limit(&self) -> (n: usize)
        ensures
            n == if self.limit < crate::MAX_HISTORY_ENTRIES {
                self.limit
            } else {
                crate::MAX_HISTORY_ENTRIES
            },
    {
        if self.limit < crate::MAX_HISTORY_ENTRIES {
            self.limit
        } else {
            crate::MAX_HISTORY_ENTRIES
        }
    }
}

/// A request to explain a word through a lens.
#[derive(Debug)]
pub struct ExplainRequest {
    pub word: String,
    pub lens: Lens,
    pub stream: bool,
}

/// The answer to a non-streaming explain request.
#[derive(Debug)]
pub struct ExplainResponse {
    pub explanation: String,
    pub lens: Lens,
    pub word: String,
    pub cached: bool,
}

/// The body of an error answer.
#[derive(Debug)]
pub struct ErrorResponse {
    pub error: String,
}

} // verus!
