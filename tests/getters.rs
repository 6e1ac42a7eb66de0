use derive_getters::attribute::{parse_attribute_tokens, string_value, AttrError, FieldAttribute};
use derive_getters::fields::{
    field_attribute, getters, getters_from_fields, isolate_named_fields, AttrStyle, Attribute,
    Data, DeriveError, Field, Fields, Getter, ShapeError,
};
use derive_getters::tokens::{Delimiter, TokenTree};

fn ident(s: &str) -> TokenTree {
    TokenTree::Ident(s.to_string())
}

fn lit(s: &str) -> TokenTree {
    TokenTree::Literal(s.to_string())
}

fn parens(inner: Vec<TokenTree>) -> Vec<TokenTree> {
    vec![TokenTree::Group(Delimiter::Parenthesis, inner)]
}

fn getter_attr(inner: Vec<TokenTree>) -> Attribute {
    Attribute {
        path_ident: Some("getter".to_string()),
        style: AttrStyle::Outer,
        tokens: parens(inner),
    }
}

fn skip_attr() -> Attribute {
    getter_attr(vec![ident("skip")])
}

fn rename_attr(literal: &str) -> Attribute {
    getter_attr(vec![ident("rename"), TokenTree::Punct('='), lit(literal)])
}

fn field(name: &str, attrs: Vec<Attribute>) -> Field {
    Field { name: name.to_string(), ref_lifetime: None, attrs }
}

fn named(fields: Vec<Field>) -> Data {
    Data::Struct(Fields::Named(fields))
}

fn summary(gs: &[Getter]) -> Vec<(String, usize, Option<String>)> {
    gs.iter().map(|g| (g.method.clone(), g.field, g.lifetime.clone())).collect()
}

fn plain(method: &str, field: usize) -> (String, usize, Option<String>) {
    (method.to_string(), field, None)
}

fn parse(inner: Vec<TokenTree>) -> Result<FieldAttribute, AttrError> {
    parse_attribute_tokens(&parens(inner))
}

fn parse_err(inner: Vec<TokenTree>) -> AttrError {
    parse(inner).unwrap_err()
}

#[test]
fn dead_code_struct() {
    let data = named(vec![field("x", vec![]), field("y", vec![]), field("z", vec![])]);
    let gs = getters(&data).unwrap();
    assert_eq!(summary(&gs), vec![plain("x", 0), plain("y", 1), plain("z", 2)]);
    let x = &gs[0];
    assert!(x.method == "x" && x.field == 0 && x.lifetime.is_none());
}

#[test]
fn number_struct_gets_one_accessor() {
    let data = named(vec![field("num", vec![])]);
    let gs = getters(&data).unwrap();
    assert_eq!(summary(&gs), vec![plain("num", 0)]);
}

#[test]
fn no_fields_no_accessors() {
    assert!(getters(&named(vec![])).unwrap().is_empty());
}

#[test]
fn skipped_fields_get_no_accessor() {
    let data = named(vec![
        field("keep1", vec![]),
        field("skip1", vec![skip_attr()]),
        field("skip2", vec![skip_attr()]),
        field("keep2", vec![]),
    ]);
    let gs = getters(&data).unwrap();
    assert_eq!(summary(&gs), vec![plain("keep1", 0), plain("keep2", 3)]);
}

#[test]
fn renamed_field_uses_new_name() {
    let data = named(vec![field("number", vec![rename_attr("\"get_number\"")]), field("other", vec![])]);
    let gs = getters(&data).unwrap();
    assert_eq!(summary(&gs), vec![plain("get_number", 0), plain("other", 1)]);
}

#[test]
fn rename_resolves_escapes() {
    let data = named(vec![field("number", vec![rename_attr("\"get\\x5fnumber\"")])]);
    let gs = getters(&data).unwrap();
    assert_eq!(summary(&gs), vec![plain("get_number", 0)]);
}

#[test]
fn rename_accepts_raw_string() {
    let data = named(vec![field("number", vec![rename_attr("r\"total\"")])]);
    let gs = getters(&data).unwrap();
    assert_eq!(summary(&gs), vec![plain("total", 0)]);
}

#[test]
fn last_getter_attribute_decides() {
    let data = named(vec![
        field("a", vec![skip_attr(), rename_attr("\"first\"")]),
        field("b", vec![rename_attr("\"second\""), skip_attr()]),
        field("c", vec![rename_attr("\"one\""), rename_attr("\"two\"")]),
    ]);
    let gs = getters(&data).unwrap();
    assert_eq!(summary(&gs), vec![plain("first", 0), plain("two", 2)]);
}

#[test]
fn other_attributes_are_ignored() {
    let doc = Attribute {
        path_ident: Some("doc".to_string()),
        style: AttrStyle::Outer,
        tokens: vec![TokenTree::Punct('='), lit("\"text\"")],
    };
    let qualified = Attribute { path_ident: None, style: AttrStyle::Inner, tokens: vec![] };
    let data = named(vec![field("a", vec![doc]), field("b", vec![skip_attr(), qualified])]);
    let gs = getters(&data).unwrap();
    assert_eq!(summary(&gs), vec![plain("a", 0)]);
}

#[test]
fn reference_field_keeps_its_lifetime() {
    let data = named(vec![
        field("val1", vec![]),
        Field { name: "buffer".to_string(), ref_lifetime: Some("'a".to_string()), attrs: vec![] },
    ]);
    let gs = getters(&data).unwrap();
    assert_eq!(
        summary(&gs),
        vec![plain("val1", 0), ("buffer".to_string(), 1, Some("'a".to_string()))]
    );
}

#[test]
fn inner_getter_attribute_is_refused() {
    let inner = Attribute { path_ident: Some("getter".to_string()), style: AttrStyle::Inner, tokens: parens(vec![ident("skip")]) };
    let data = named(vec![field("a", vec![inner])]);
    assert_eq!(getters(&data).unwrap_err(), DeriveError::Attribute(AttrError::InnerAttribute));
}

#[test]
fn first_bad_attribute_is_reported() {
    let fields = vec![
        field("a", vec![]),
        field("b", vec![getter_attr(vec![ident("bogus")]), getter_attr(vec![])]),
        field("c", vec![getter_attr(vec![lit("1")])]),
    ];
    assert_eq!(getters_from_fields(&fields).unwrap_err(), AttrError::UnknownOption);
    assert_eq!(field_attribute(&fields[2].attrs).unwrap_err(), AttrError::OptionNotIdent);
}

#[test]
fn field_attribute_without_getter_attributes_is_none() {
    assert!(field_attribute(&vec![]).unwrap().is_none());
}

#[test]
fn shapes_without_named_fields_are_refused() {
    assert_eq!(
        getters(&Data::Struct(Fields::Unnamed)).unwrap_err(),
        DeriveError::Shape(ShapeError::InvalidStruct)
    );
    assert_eq!(
        getters(&Data::Struct(Fields::Unit)).unwrap_err(),
        DeriveError::Shape(ShapeError::InvalidStruct)
    );
    assert_eq!(getters(&Data::Enum).unwrap_err(), DeriveError::Shape(ShapeError::InvalidVariant));
    assert_eq!(isolate_named_fields(&Data::Union).unwrap_err(), ShapeError::InvalidVariant);
    let data = named(vec![field("a", vec![])]);
    assert_eq!(isolate_named_fields(&data).unwrap().len(), 1);
}

#[test]
fn parse_skip() {
    assert!(matches!(parse(vec![ident("skip")]), Ok(FieldAttribute::Skip)));
}

#[test]
fn parse_rename() {
    match parse(vec![ident("rename"), TokenTree::Punct('='), lit("\"name\"")]) {
        Ok(FieldAttribute::Rename(n)) => assert_eq!(n, "name"),
        other => panic!("unexpected {:?}", other),
    }
}

#[test]
fn parse_errors() {
    assert_eq!(parse_attribute_tokens(&vec![]).unwrap_err(), AttrError::NoTokens);
    assert_eq!(
        parse_attribute_tokens(&vec![TokenTree::Group(Delimiter::Bracket, vec![ident("skip")])])
            .unwrap_err(),
        AttrError::NotParenthesized
    );
    assert_eq!(parse_attribute_tokens(&vec![ident("skip")]).unwrap_err(), AttrError::NoGrouping);
    assert_eq!(parse_err(vec![]), AttrError::NoOption);
    assert_eq!(parse_err(vec![ident("skip"), TokenTree::Punct(',')]), AttrError::TokensAfterSkip);
    assert_eq!(parse_err(vec![ident("rename_to")]), AttrError::UnknownOption);
    assert_eq!(parse_err(vec![lit("\"skip\"")]), AttrError::OptionNotIdent);
    assert_eq!(parse_err(vec![ident("rename")]), AttrError::MissingEquals);
    assert_eq!(parse_err(vec![ident("rename"), ident("name")]), AttrError::MissingEquals);
    assert_eq!(parse_err(vec![ident("rename"), TokenTree::Punct(':'), lit("\"a\"")]), AttrError::PunctNotEquals);
    assert_eq!(parse_err(vec![ident("rename"), TokenTree::Punct('=')]), AttrError::NameNotLiteral);
    assert_eq!(parse_err(vec![ident("rename"), TokenTree::Punct('='), ident("name")]), AttrError::NameNotLiteral);
    assert_eq!(parse_err(vec![ident("rename"), TokenTree::Punct('='), lit("5")]), AttrError::NameNotString);
    assert_eq!(parse_err(vec![ident("rename"), TokenTree::Punct('='), lit("b\"name\"")]), AttrError::NameNotString);
    assert_eq!(
        parse_err(vec![ident("rename"), TokenTree::Punct('='), lit("\"a\""), TokenTree::Punct(',')]),
        AttrError::TokensAfterName
    );
    assert_eq!(parse_err(vec![ident("rename"), TokenTree::Punct('='), lit("\"fn\"")]), AttrError::NameNotIdent);
    assert_eq!(parse_err(vec![ident("rename"), TokenTree::Punct('='), lit("\"two words\"")]), AttrError::NameNotIdent);
    assert_eq!(parse_err(vec![ident("rename"), TokenTree::Punct('='), lit("\"\"")]), AttrError::NameNotIdent);
}

#[test]
fn string_values() {
    assert_eq!(string_value(&"\"abc\"".to_string()), Some("abc".to_string()));
    assert_eq!(string_value(&"\"a\\tb\"".to_string()), Some("a\tb".to_string()));
    assert_eq!(string_value(&"r#\"q\"\"#".to_string()), Some("q\"".to_string()));
    assert_eq!(string_value(&"'c'".to_string()), None);
    assert_eq!(string_value(&"12".to_string()), None);
    assert_eq!(string_value(&"".to_string()), None);
    assert_eq!(string_value(&"rust".to_string()), None);
}
