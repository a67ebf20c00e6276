//! Legality of player names, and the admission of a raw request parameter.

use crate::text::{trim, trimmed};
use vstd::prelude::*;

verus! {

/// Whether `c` may occur in a player name: an ASCII letter or digit, a space,
/// a dot, an underscore or a hyphen.
pub open spec fn is_name_char(c: char) -> bool {
    ||| 'a' <= c <= 'z'
    ||| 'A' <= c <= 'Z'
    ||| '0' <= c <= '9'
    ||| c == ' '
    ||| c == '.'
    ||| c == '_'
    ||| c == '-'
}

/// Executable form of [`is_name_char`].
pub fn name_char(c: char) -> (r: bool)
    ensures
        r == is_name_char(c),
{
    ('a' <= c && c <= 'z') || ('A' <= c && c <= 'Z') || ('0' <= c && c <= '9') || c == ' '
        || c == '.' || c == '_' || c == '-'
}

/// A legal player name: at least one character, each of them a name character.
pub open spec fn is_valid_name(s: Seq<char>) -> bool {
    s.len() > 0 && forall|i: int| 0 <= i < s.len() ==> is_name_char(#[trigger] s[i])
}

/// Whether `name` is a legal player name.
pub fn is_valid_player_name(name: &str) -> (r: bool)
    ensures
        r == is_valid_name(name@),
{
    let mut any = false;
    for c in it: name.chars()
        invariant
            it.seq() == name@,
            any == (it.index() > 0),
            forall|i: int| 0 <= i < it.index() ==> is_name_char(#[trigger] name@[i]),
    {
        if !name_char(c) {
            return false;
        }
        any = true;
    }
    any
}

/// Why a raw name was not admitted.
#[derive(Debug, Clone, Copy, PartialEq, Eq, Structural)]
pub enum NameError {
    /// No name was given, or nothing is left of it after trimming.
    Required,
    /// The trimmed name holds a character that no name may hold.
    Illegal,
}

impl NameError {
    /// The text shown to the client for this error.
    pub open spec fn text(self) -> Seq<char> {
        match self {
            NameError::Required => "Player name is required"@,
            NameError::Illegal =>
                "Player name can only contain letters, numbers, spaces, and hyphens"@,
        }
    }

    /// The text shown to the client for this error.
    pub fn message(&self) -> (r: &'static str)
        ensures
            r@ == self.text(),
    {
        match self {
            NameError::Required => "Player name is required",
            NameError::Illegal =>
                "Player name can only contain letters, numbers, spaces, and hyphens",
        }
    }
}

/// What admission makes of a raw name that is present: the trimmed name if it
/// is legal, an error otherwise.
pub open spec fn admitted(raw: Seq<char>) -> Result<Seq<char>, NameError> {
    let name = trimmed(raw);
    if name.len() == 0 {
        Err(NameError::Required)
    } else if !is_valid_name(name) {
        Err(NameError::Illegal)
    } else {
        Ok(name)
    }
}

/// What admission makes of a raw name that may be absent.
pub open spec fn admitted_param(raw: Option<&str>) -> Result<Seq<char>, NameError> {
    match raw {
        None => Err(NameError::Required),
        Some(s) => admitted(s@),
    }
}

/// Trims the raw `name` parameter of a request and checks that it is legal.
pub fn admit_name(raw: Option<&str>) -> (r: Result<String, NameError>)
    ensures
        match r {
            Ok(name) => admitted_param(raw) == Ok::<Seq<char>, NameError>(name@),
            Err(e) => admitted_param(raw) == Err::<Seq<char>, NameError>(e),
        },
{
    match raw {
        None => Err(NameError::Required),
        Some(s) => {
            let name = trim(s);
            if name.is_empty() {
                Err(NameError::Required)
            } else if !is_valid_player_name(name) {
                Err(NameError::Illegal)
            } else {
                Ok(name.to_owned())
            }
        },
    }
}

} // verus!
