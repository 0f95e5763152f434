//! Flat token model of the transformer's inputs.
//!
//! The front end lexes source text and hands the library a flat sequence of
//! tokens; delimited groups appear as balanced `Open`/`Close` pairs.  All
//! grammar rules of the library are stated over `TokV`, the spec-level image
//! of a token.

use vstd::prelude::*;

verus! {

/// A delimiter kind for grouped tokens.
#[derive(Clone, Copy, PartialEq, Eq, Structural, Debug)]
pub enum Delim {
    Paren,
    Bracket,
    Brace,
}

/// One input token.
#[derive(Clone, Debug)]
pub enum Tok {
    /// An identifier-like word.
    Word(String),
    /// A string literal; the payload is the literal's value.
    Str(String),
    /// Any other literal, kept verbatim.
    Lit(String),
    /// A single punctuation character.
    Punct(char),
    /// The opening of a delimited group.
    Open(Delim),
    /// The closing of a delimited group.
    Close(Delim),
}

/// The spec-level image of a token.
pub enum TokV {
    Word(Seq<char>),
    Str(Seq<char>),
    Lit(Seq<char>),
    Punct(char),
    Open(Delim),
    Close(Delim),
}

impl DeepView for Tok {
    type V = TokV;

    open spec fn deep_view(&self) -> TokV {
        match self {
            Tok::Word(s) => TokV::Word(s@),
            Tok::Str(s) => TokV::Str(s@),
            Tok::Lit(s) => TokV::Lit(s@),
            Tok::Punct(c) => TokV::Punct(*c),
            Tok::Open(d) => TokV::Open(*d),
            Tok::Close(d) => TokV::Close(*d),
        }
    }
}

/// True if `t` is the word `w`.
pub fn word_is(t: &Tok, w: &str) -> (r: bool)
    ensures
        r == (t.deep_view() == TokV::Word(w@)),
{
    match t {
        Tok::Word(s) => *s == w.to_owned(),
        _ => false,
    }
}

/// True if `t` is the punctuation character `c`.
pub fn punct_is(t: &Tok, c: char) -> (r: bool)
    ensures
        r == (t.deep_view() == TokV::Punct(c)),
{
    match t {
        Tok::Punct(p) => *p == c,
        _ => false,
    }
}

/// True if `t` opens a group with delimiter `d`.
pub fn open_is(t: &Tok, d: Delim) -> (r: bool)
    ensures
        r == (t.deep_view() == TokV::Open(d)),
{
    match t {
        Tok::Open(e) => *e == d,
        _ => false,
    }
}

/// True if `t` closes a group with delimiter `d`.
pub fn close_is(t: &Tok, d: Delim) -> (r: bool)
    ensures
        r == (t.deep_view() == TokV::Close(d)),
{
    match t {
        Tok::Close(e) => *e == d,
        _ => false,
    }
}

} // verus!
