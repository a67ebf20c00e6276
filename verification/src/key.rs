//! Game modes and the canonical cache key of a request.

use crate::name::{is_name_char, is_valid_name};
use crate::text::{
    all_whitespace, ascii_lower, is_whitespace, lemma_ascii_lower_facts, lemma_lowercased_ascii,
    lemma_lowercased_ignores_case, lemma_trimmed_fixes_core, lemma_trimmed_idempotent,
    lemma_trimmed_ignores_padding, lemma_trimmed_is_core, lowercase, lowercased,
    same_ignoring_case, same_text, trim, trimmed,
};
use vstd::prelude::*;
use vstd::utf8::is_ascii_chars;

verus! {

/// The ranking pool that a request asks for.
#[derive(Debug, Clone, Copy, PartialEq, Eq, Structural)]
pub enum GameMode {
    /// The pool of twelve-player races.
    TwelvePlayers,
    /// The pool of twenty-four-player races.
    TwentyFourPlayers,
}

impl GameMode {
    /// The mode that a raw variant selects: `"12p"` the twelve-player pool,
    /// anything else the twenty-four-player pool.
    pub open spec fn of(variant: Seq<char>) -> GameMode {
        if variant == "12p"@ {
            GameMode::TwelvePlayers
        } else {
            GameMode::TwentyFourPlayers
        }
    }

    /// The mode that a raw variant selects.
    pub fn from_variant(variant: &str) -> (mode: GameMode)
        ensures
            mode == GameMode::of(variant@),
    {
        if same_text(variant, "12p") {
            GameMode::TwelvePlayers
        } else {
            GameMode::TwentyFourPlayers
        }
    }

    /// The tag by which the ranking service knows this mode.
    pub open spec fn tag_text(self) -> Seq<char> {
        match self {
            GameMode::TwelvePlayers => "mkworld12p"@,
            GameMode::TwentyFourPlayers => "mkworld24p"@,
        }
    }

    /// The tag by which the ranking service knows this mode.
    pub fn tag(&self) -> (r: &'static str)
        ensures
            r@ == self.tag_text(),
    {
        match self {
            GameMode::TwelvePlayers => "mkworld12p",
            GameMode::TwentyFourPlayers => "mkworld24p",
        }
    }
}

/// The cache key of a name and a mode: the trimmed name in lowercase, a
/// colon, and the mode's tag.
pub open spec fn key_of(name: Seq<char>, mode: GameMode) -> Seq<char> {
    lowercased(trimmed(name)) + ":"@ + mode.tag_text()
}

/// The cache key of a raw name and a raw variant.
pub open spec fn cache_key_of(name: Seq<char>, variant: Seq<char>) -> Seq<char> {
    key_of(name, GameMode::of(variant))
}

/// The cache key made of a name that is trimmed and in lowercase already.
pub fn join_key(normal_name: String, mode: GameMode) -> (key: String)
    ensures
        key@ == normal_name@ + ":"@ + mode.tag_text(),
{
    let mut key = normal_name;
    key.append(":");
    key.append(mode.tag());
    key
}

/// The cache key of `name` under `mode`.
pub fn mode_key(name: &str, mode: GameMode) -> (key: String)
    ensures
        key@ == key_of(name@, mode),
{
    join_key(lowercase(trim(name)), mode)
}

/// The cache key of a raw name and a raw variant.
pub fn cache_key(name: &str, variant: &str) -> (key: String)
    ensures
        key@ == cache_key_of(name@, variant@),
{
    mode_key(name, GameMode::from_variant(variant))
}

/// A legal name holds ASCII characters only.
pub proof fn lemma_valid_name_is_ascii(name: Seq<char>)
    requires
        is_valid_name(name),
    ensures
        is_ascii_chars(name),
{
    assert forall|i: int| 0 <= i < name.len() implies '\0' <= #[trigger] name[i] <= '\u{7f}' by {
        assert(is_name_char(name[i]));
    }
}

/// Two raw names whose trimmed forms are legal and agree up to the case of
/// letters have the same cache key, whatever the variant.
pub proof fn lemma_key_ignores_case(a: Seq<char>, b: Seq<char>, variant: Seq<char>)
    requires
        is_valid_name(trimmed(a)),
        is_valid_name(trimmed(b)),
        same_ignoring_case(trimmed(a), trimmed(b)),
    ensures
        cache_key_of(a, variant) == cache_key_of(b, variant),
{
    lemma_valid_name_is_ascii(trimmed(a));
    lemma_valid_name_is_ascii(trimmed(b));
    lemma_lowercased_ignores_case(trimmed(a), trimmed(b));
}

/// Whitespace around a raw name does not change its cache key.
pub proof fn lemma_key_ignores_padding(
    left: Seq<char>,
    name: Seq<char>,
    right: Seq<char>,
    variant: Seq<char>,
)
    requires
        all_whitespace(left),
        all_whitespace(right),
    ensures
        cache_key_of(left + name + right, variant) == cache_key_of(name, variant),
{
    lemma_trimmed_ignores_padding(left, name, right);
}

/// A name that was trimmed before has the key of the untrimmed name.
pub proof fn lemma_key_of_trimmed(name: Seq<char>, mode: GameMode)
    ensures
        key_of(trimmed(name), mode) == key_of(name, mode),
{
    lemma_trimmed_idempotent(name);
}

/// Normalising a name twice gives what normalising it once gives: the
/// lowercase trimmed form of a legal name has the key of the name itself.
pub proof fn lemma_key_idempotent(name: Seq<char>, variant: Seq<char>)
    requires
        is_valid_name(trimmed(name)),
    ensures
        cache_key_of(lowercased(trimmed(name)), variant) == cache_key_of(name, variant),
{
    let t = trimmed(name);
    let l = lowercased(t);
    lemma_valid_name_is_ascii(t);
    lemma_lowercased_ascii(t);
    lemma_trimmed_is_core(name);
    lemma_ascii_lower_facts(t.first());
    lemma_ascii_lower_facts(t.last());
    assert(l.first() == ascii_lower(t.first()));
    assert(l.last() == ascii_lower(t.last()));
    assert(!is_whitespace(l.first()));
    assert(!is_whitespace(l.last()));
    lemma_trimmed_fixes_core(l);
}

/// A cache key stands for one normalised name and one mode: two requests
/// share a key only if their names have the same lowercase trimmed form and
/// their modes are the same.
pub proof fn lemma_key_is_injective(a: Seq<char>, m: GameMode, b: Seq<char>, n: GameMode)
    requires
        key_of(a, m) == key_of(b, n),
    ensures
        lowercased(trimmed(a)) == lowercased(trimmed(b)),
        m == n,
{
    reveal_strlit("mkworld12p");
    reveal_strlit("mkworld24p");
    reveal_strlit(":");
    let x = lowercased(trimmed(a));
    let y = lowercased(trimmed(b));
    let ka = key_of(a, m);
    let kb = key_of(b, n);
    assert(ka.len() == x.len() + 11);
    assert(kb.len() == y.len() + 11);
    assert(x =~= ka.take(x.len() as int));
    assert(y =~= kb.take(y.len() as int));
    assert(ka[x.len() as int + 8] == m.tag_text()[7]);
    assert(kb[y.len() as int + 8] == n.tag_text()[7]);
}

} // verus!
