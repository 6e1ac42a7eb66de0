use vstd::prelude::*;
use vstd::string::StrSliceExecFns;
use vstd::string::StringExecFns;

use crate::outside::{parse_ident, parsed_ident, read_string_literal, string_literal_value};
use crate::tokens::{Delimiter, TokenTree};

verus! {

/// What a `getter` attribute asks for, over plain values.
pub enum Directive {
    /// Generate no accessor for the field.
    Skip,
    /// Generate the accessor under this name.
    Rename(Seq<char>),
}

/// A parsed `getter` attribute: `#[getter(skip)]` or `#[getter(rename = "name")]`.
#[derive(Debug)]
pub enum FieldAttribute {
    Skip,
    Rename(String),
}

impl View for FieldAttribute {
    type V = Directive;

    open spec fn view(&self) -> Directive {
        match self {
            FieldAttribute::Skip => Directive::Skip,
            FieldAttribute::Rename(name) => Directive::Rename(name@),
        }
    }
}

/// Why the tokens of a `getter` attribute were refused.
#[derive(Clone, Copy, Debug, PartialEq, Eq, Structural)]
pub enum AttrError {
    /// The attribute carries no tokens.
    NoTokens,
    /// The attribute's group is not delimited by parentheses.
    NotParenthesized,
    /// The attribute's first token is not a group.
    NoGrouping,
    /// The parentheses are empty.
    NoOption,
    /// Something follows `skip`.
    TokensAfterSkip,
    /// The option is an identifier other than `skip` or `rename`.
    UnknownOption,
    /// The option is not an identifier.
    OptionNotIdent,
    /// `rename` is followed by punctuation other than `=`.
    PunctNotEquals,
    /// `rename` is not followed by punctuation.
    MissingEquals,
    /// The new name is a literal but not a string literal.
    NameNotString,
    /// The new name is not a literal.
    NameNotLiteral,
    /// Something follows the new name.
    TokensAfterName,
    /// The new name does not spell an identifier.
    NameNotIdent,
    /// The attribute is an inner attribute (`#![getter(..)]`).
    InnerAttribute,
}

/// The value of the literal written as `text`, where it is a string literal.
/// Only a literal that starts with a quote or with `r` can be one.
pub open spec fn string_value_of(text: Seq<char>) -> Option<Seq<char>> {
    if text.len() > 0 && (text[0] == '"' || text[0] == 'r') {
        string_literal_value(text)
    } else {
        None
    }
}

/// The meaning of `rename = "name"`, given the tokens inside the parentheses,
/// the first of which is `rename`.
pub open spec fn rename_spec(inner: Seq<TokenTree>) -> Result<Directive, AttrError> {
    if inner.len() < 2 || !(inner[1] is Punct) {
        Err(AttrError::MissingEquals)
    } else if inner[1]->Punct_0 != '=' {
        Err(AttrError::PunctNotEquals)
    } else if inner.len() < 3 || !(inner[2] is Literal) {
        Err(AttrError::NameNotLiteral)
    } else {
        match string_value_of(inner[2]->Literal_0@) {
            None => Err(AttrError::NameNotString),
            Some(name) => if inner.len() > 3 {
                Err(AttrError::TokensAfterName)
            } else {
                match parsed_ident(name) {
                    None => Err(AttrError::NameNotIdent),
                    Some(ident) => Ok(Directive::Rename(ident)),
                }
            },
        }
    }
}

/// The meaning of the tokens inside the attribute's parentheses.
pub open spec fn option_spec(inner: Seq<TokenTree>) -> Result<Directive, AttrError> {
    if inner.len() == 0 {
        Err(AttrError::NoOption)
    } else {
        match inner[0] {
            TokenTree::Ident(word) => if word@ == "skip"@ {
                if inner.len() > 1 {
                    Err(AttrError::TokensAfterSkip)
                } else {
                    Ok(Directive::Skip)
                }
            } else if word@ != "rename"@ {
                Err(AttrError::UnknownOption)
            } else {
                rename_spec(inner)
            },
            _ => Err(AttrError::OptionNotIdent),
        }
    }
}

/// The meaning of the token trees that follow `getter` in a field attribute.
/// Only the first tree is read; it must be a parenthesised group.
pub open spec fn attribute_spec(tokens: Seq<TokenTree>) -> Result<Directive, AttrError> {
    if tokens.len() == 0 {
        Err(AttrError::NoTokens)
    } else {
        match tokens[0] {
            TokenTree::Group(delimiter, inner) => if delimiter == Delimiter::Parenthesis {
                option_spec(inner@)
            } else {
                Err(AttrError::NotParenthesized)
            },
            _ => Err(AttrError::NoGrouping),
        }
    }
}

/// A parse result over plain values.
pub open spec fn attribute_result_view(r: Result<FieldAttribute, AttrError>) -> Result<
    Directive,
    AttrError,
> {
    match r {
        Ok(a) => Ok(a@),
        Err(e) => Err(e),
    }
}

fn text_is(text: &String, word: &str) -> (r: bool)
    ensures
        r == (text@ == word@),
{
    let expected = String::from_str(word);
    *text == expected
}

/// The value of the literal written as `text`, where it is a string literal.
pub fn string_value(text: &String) -> (r: Option<String>)
    ensures
        match r {
            Some(v) => string_value_of(text@) == Some(v@),
            None => string_value_of(text@) is None,
        },
{
    let s = text.as_str();
    if s.unicode_len() == 0 {
        return None;
    }
    let first = s.get_char(0);
    if first == '"' || first == 'r' {
        read_string_literal(s)
    } else {
        None
    }
}

fn parse_rename(inner: &Vec<TokenTree>) -> (r: Result<FieldAttribute, AttrError>)
    requires
        inner@.len() > 0,
    ensures
        attribute_result_view(r) == rename_spec(inner@),
{
    if inner.len() < 2 {
        return Err(AttrError::MissingEquals);
    }
    match &inner[1] {
        TokenTree::Punct(p) => if *p != '=' {
            return Err(AttrError::PunctNotEquals);
        },
        _ => {
            return Err(AttrError::MissingEquals);
        },
    }
    if inner.len() < 3 {
        return Err(AttrError::NameNotLiteral);
    }
    let name = match &inner[2] {
        TokenTree::Literal(text) => match string_value(text) {
            Some(v) => v,
            None => {
                return Err(AttrError::NameNotString);
            },
        },
        _ => {
            return Err(AttrError::NameNotLiteral);
        },
    };
    if inner.len() > 3 {
        return Err(AttrError::TokensAfterName);
    }
    match parse_ident(name.as_str()) {
        Some(ident) => Ok(FieldAttribute::Rename(ident)),
        None => Err(AttrError::NameNotIdent),
    }
}

/// Parses the token trees that follow `getter` in a field attribute:
/// `(skip)` or `(rename = "name")`, where the name must spell an identifier.
pub fn parse_attribute_tokens(tokens: &Vec<TokenTree>) -> (r: Result<FieldAttribute, AttrError>)
    ensures
        attribute_result_view(r) == attribute_spec(tokens@),
{
    if tokens.len() == 0 {
        return Err(AttrError::NoTokens);
    }
    let inner = match &tokens[0] {
        TokenTree::Group(delimiter, inner) => match delimiter {
            Delimiter::Parenthesis => inner,
            _ => {
                return Err(AttrError::NotParenthesized);
            },
        },
        _ => {
            return Err(AttrError::NoGrouping);
        },
    };
    if inner.len() == 0 {
        return Err(AttrError::NoOption);
    }
    match &inner[0] {
        TokenTree::Ident(word) => {
            if text_is(word, "skip") {
                if inner.len() > 1 {
                    return Err(AttrError::TokensAfterSkip);
                }
                return Ok(FieldAttribute::Skip);
            } else if !text_is(word, "rename") {
                return Err(AttrError::UnknownOption);
            }
        },
        _ => {
            return Err(AttrError::OptionNotIdent);
        },
    }
    parse_rename(inner)
}

} // verus!
