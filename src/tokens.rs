use vstd::prelude::*;

verus! {

/// The bracket that encloses a group of tokens.
#[derive(Clone, Copy, Debug, PartialEq, Eq, Structural)]
pub enum Delimiter {
    /// `( ... )`
    Parenthesis,
    /// `{ ... }`
    Brace,
    /// `[ ... ]`
    Bracket,
    /// A group without visible delimiters.
    Invisible,
}

/// A token tree as it appears inside an attribute.
#[derive(Debug)]
pub enum TokenTree {
    /// A delimited group and the token trees inside it.
    Group(Delimiter, Vec<TokenTree>),
    /// An identifier, as written (a raw identifier keeps its `r#`).
    Ident(String),
    /// A single punctuation character.
    Punct(char),
    /// A literal, as written in the source (quotes, escapes and suffix included).
    Literal(String),
}

} // verus!
