use vstd::prelude::*;

verus! {

/// The value of a string literal written as `text`, or `None` where `text`
/// is not one string literal.
pub uninterp spec fn string_literal_value(text: Seq<char>) -> Option<Seq<char>>;

/// The identifier that `text` spells, or `None` where it spells none (a
/// keyword, a number, more than one token).
pub uninterp spec fn parsed_ident(text: Seq<char>) -> Option<Seq<char>>;

/// Relies on `proc_macro2::Literal::from_str`, `syn::Lit::new` and
/// `syn::LitStr::value`: reads the token `text` and, where it is a string
/// literal, gives its value with escapes resolved. `syn::Lit::new` panics on
/// literals it does not recognise; a text that starts with `"` or `r` always
/// takes its string branch, hence the precondition.
#[verifier::external_body]
pub(crate) fn read_string_literal(text: &str) -> (r: Option<String>)
    requires
        text@.len() > 0,
        text@[0] == '"' || text@[0] == 'r',
    ensures
        match r {
            Some(v) => string_literal_value(text@) == Some(v@),
            None => string_literal_value(text@) is None,
        },
{
    match text.parse::<proc_macro2::Literal>() {
        Ok(token) => match syn::Lit::new(token) {
            syn::Lit::Str(s) => Some(s.value()),
            _ => None,
        },
        Err(_) => None,
    }
}

/// Relies on `syn::parse_str::<syn::Ident>`: parses `text` as one identifier
/// and gives the identifier's text.
#[verifier::external_body]
pub(crate) fn parse_ident(text: &str) -> (r: Option<String>)
    ensures
        match r {
            Some(v) => parsed_ident(text@) == Some(v@),
            None => parsed_ident(text@) is None,
        },
{
    syn::parse_str::<syn::Ident>(text).ok().map(|i| i.to_string())
}

} // verus!
