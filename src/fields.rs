use vstd::prelude::*;
use vstd::string::StringExecFns;

use crate::attribute::{
    attribute_spec, parse_attribute_tokens, AttrError, Directive, FieldAttribute,
};
use crate::tokens::TokenTree;

verus! {

/// Whether an attribute is written `#[..]` or `#![..]`.
#[derive(Clone, Copy, Debug, PartialEq, Eq, Structural)]
pub enum AttrStyle {
    Outer,
    Inner,
}

/// An attribute on a field.
#[derive(Debug)]
pub struct Attribute {
    /// The attribute's path, where that path is one identifier without
    /// leading `::` or arguments; `None` for any other path.
    pub path_ident: Option<String>,
    pub style: AttrStyle,
    /// The token trees that follow the path.
    pub tokens: Vec<TokenTree>,
}

/// A named field of a structure.
#[derive(Debug)]
pub struct Field {
    pub name: String,
    /// Where the field's type is a reference with an explicit lifetime
    /// (`&'a T`), that lifetime as written (`'a`).
    pub ref_lifetime: Option<String>,
    pub attrs: Vec<Attribute>,
}

/// The fields of a structure.
#[derive(Debug)]
pub enum Fields {
    Named(Vec<Field>),
    Unnamed,
    Unit,
}

/// The body of a type definition that a derive is applied to.
#[derive(Debug)]
pub enum Data {
    Struct(Fields),
    Enum,
    Union,
}

/// Why a type definition has no accessors.
#[derive(Clone, Copy, Debug, PartialEq, Eq, Structural)]
pub enum ShapeError {
    /// A tuple structure or a unit structure.
    InvalidStruct,
    /// An enum or a union.
    InvalidVariant,
}

/// Why no accessors could be planned for a type definition.
#[derive(Clone, Copy, Debug, PartialEq, Eq, Structural)]
pub enum DeriveError {
    Shape(ShapeError),
    Attribute(AttrError),
}

/// An accessor to generate, over plain values.
pub struct GetterPlan {
    /// The method's name.
    pub method: Seq<char>,
    /// The position of the field it reads, among the structure's fields.
    pub field: nat,
    /// For a field that holds a reference with an explicit lifetime, that
    /// lifetime: the accessor then takes `self` for that lifetime and copies
    /// the reference out. Otherwise the accessor borrows the field.
    pub lifetime: Option<Seq<char>>,
}

/// An accessor to generate: `pub fn <method>(&self) -> &<type> { &self.<field> }`,
/// or, with a lifetime `'a`, `pub fn <method>(&'a self) -> <type> { self.<field> }`.
#[derive(Debug)]
pub struct Getter {
    pub method: String,
    pub field: usize,
    pub lifetime: Option<String>,
}

pub open spec fn text_view(t: Option<String>) -> Option<Seq<char>> {
    match t {
        Some(s) => Some(s@),
        None => None,
    }
}

impl View for Getter {
    type V = GetterPlan;

    open spec fn view(&self) -> GetterPlan {
        GetterPlan { method: self.method@, field: self.field as nat, lifetime: text_view(self.lifetime) }
    }
}

/// Whether an attribute is a `getter` attribute.
pub open spec fn names_getter(a: Attribute) -> bool {
    a.path_ident matches Some(id) && id@ == "getter"@
}

/// The effect of one more attribute on what the attributes before it asked for:
/// any other attribute leaves it as it was, a `getter` attribute replaces it.
pub open spec fn attribute_step(prev: Option<Directive>, a: Attribute) -> Result<
    Option<Directive>,
    AttrError,
> {
    if !names_getter(a) {
        Ok(prev)
    } else if a.style != AttrStyle::Outer {
        Err(AttrError::InnerAttribute)
    } else {
        match attribute_spec(a.tokens@) {
            Ok(d) => Ok(Some(d)),
            Err(e) => Err(e),
        }
    }
}

/// What a field's attributes ask for: every `getter` attribute must parse, and
/// the last one decides.
pub open spec fn field_directive(attrs: Seq<Attribute>) -> Result<Option<Directive>, AttrError>
    decreases attrs.len(),
{
    if attrs.len() == 0 {
        Ok(None)
    } else {
        match field_directive(attrs.drop_last()) {
            Ok(prev) => attribute_step(prev, attrs.last()),
            Err(e) => Err(e),
        }
    }
}

/// The accessor planned for the field at position `index`, if any.
pub open spec fn getter_of(field: Field, index: nat) -> Result<Option<GetterPlan>, AttrError> {
    let lifetime = text_view(field.ref_lifetime);
    match field_directive(field.attrs@) {
        Ok(Some(Directive::Skip)) => Ok(None),
        Ok(Some(Directive::Rename(name))) => Ok(
            Some(GetterPlan { method: name, field: index, lifetime }),
        ),
        Ok(None) => Ok(Some(GetterPlan { method: field.name@, field: index, lifetime })),
        Err(e) => Err(e),
    }
}

/// The accessors planned for a list of named fields, in field order.
pub open spec fn getters_spec(fields: Seq<Field>) -> Result<Seq<GetterPlan>, AttrError>
    decreases fields.len(),
{
    if fields.len() == 0 {
        Ok(Seq::empty())
    } else {
        match getters_spec(fields.drop_last()) {
            Ok(prev) => match getter_of(fields.last(), (fields.len() - 1) as nat) {
                Ok(Some(g)) => Ok(prev.push(g)),
                Ok(None) => Ok(prev),
                Err(e) => Err(e),
            },
            Err(e) => Err(e),
        }
    }
}

/// The accessors planned for a type definition.
pub open spec fn derive_spec(data: Data) -> Result<Seq<GetterPlan>, DeriveError> {
    match data {
        Data::Struct(Fields::Named(fields)) => match getters_spec(fields@) {
            Ok(gs) => Ok(gs),
            Err(e) => Err(DeriveError::Attribute(e)),
        },
        Data::Struct(_) => Err(DeriveError::Shape(ShapeError::InvalidStruct)),
        _ => Err(DeriveError::Shape(ShapeError::InvalidVariant)),
    }
}

pub open spec fn directive_view(r: Result<Option<FieldAttribute>, AttrError>) -> Result<
    Option<Directive>,
    AttrError,
> {
    match r {
        Ok(Some(a)) => Ok(Some(a@)),
        Ok(None) => Ok(None),
        Err(e) => Err(e),
    }
}

pub open spec fn plans_view<E>(r: Result<Vec<Getter>, E>) -> Result<Seq<GetterPlan>, E> {
    match r {
        Ok(gs) => Ok(gs@.map_values(|g: Getter| g@)),
        Err(e) => Err(e),
    }
}

/// Once the attributes up to `k` are refused, so are all of them, for the same reason.
proof fn lemma_directive_error_stays(attrs: Seq<Attribute>, k: int)
    requires
        0 <= k <= attrs.len(),
        field_directive(attrs.subrange(0, k)) is Err,
    ensures
        field_directive(attrs) == field_directive(attrs.subrange(0, k)),
    decreases attrs.len(),
{
    if k < attrs.len() {
        assert(attrs.drop_last().subrange(0, k) =~= attrs.subrange(0, k));
        lemma_directive_error_stays(attrs.drop_last(), k);
    } else {
        assert(attrs.subrange(0, k) =~= attrs);
    }
}

/// Once the fields up to `k` are refused, so are all of them, for the same reason.
proof fn lemma_getters_error_stays(fields: Seq<Field>, k: int)
    requires
        0 <= k <= fields.len(),
        getters_spec(fields.subrange(0, k)) is Err,
    ensures
        getters_spec(fields) == getters_spec(fields.subrange(0, k)),
    decreases fields.len(),
{
    if k < fields.len() {
        assert(fields.drop_last().subrange(0, k) =~= fields.subrange(0, k));
        lemma_getters_error_stays(fields.drop_last(), k);
    } else {
        assert(fields.subrange(0, k) =~= fields);
    }
}

/// A field none of whose attributes is a `getter` attribute asks for nothing.
proof fn lemma_no_getter_attribute(attrs: Seq<Attribute>)
    requires
        forall|j: int| 0 <= j < attrs.len() ==> !names_getter(#[trigger] attrs[j]),
    ensures
        field_directive(attrs) == Ok::<Option<Directive>, AttrError>(None),
    decreases attrs.len(),
{
    if attrs.len() > 0 {
        lemma_no_getter_attribute(attrs.drop_last());
    }
}

/// Where no field carries a `getter` attribute, every field gets one
/// accessor, named as the field, in field order.
pub proof fn lemma_plain_fields_all_get_accessors(fields: Seq<Field>)
    requires
        forall|i: int, j: int|
            0 <= i < fields.len() && 0 <= j < fields[i].attrs@.len() ==> !names_getter(
                #[trigger] fields[i].attrs@[j],
            ),
    ensures
        getters_spec(fields) matches Ok(gs) && gs.len() == fields.len() && forall|i: int|
            0 <= i < fields.len() ==> #[trigger] gs[i] == (GetterPlan {
                method: fields[i].name@,
                field: i as nat,
                lifetime: text_view(fields[i].ref_lifetime),
            }),
    decreases fields.len(),
{
    if fields.len() > 0 {
        let rest = fields.drop_last();
        assert forall|i: int, j: int|
            0 <= i < rest.len() && 0 <= j < rest[i].attrs@.len() implies !names_getter(
                #[trigger] rest[i].attrs@[j],
            ) by {
            assert(rest[i] == fields[i]);
        }
        lemma_plain_fields_all_get_accessors(rest);
        let last = fields.last();
        assert forall|j: int| 0 <= j < last.attrs@.len() implies !names_getter(
            #[trigger] last.attrs@[j],
        ) by {
            assert(fields[fields.len() - 1].attrs@[j] == last.attrs@[j]);
        }
        lemma_no_getter_attribute(last.attrs@);
    }
}

/// Every planned accessor reads a field of the structure, with that field's
/// lifetime; accessors come in field order, at most one per field.
pub proof fn lemma_plans_follow_fields(fields: Seq<Field>)
    ensures
        getters_spec(fields) matches Ok(gs) ==> forall|i: int|
            0 <= i < gs.len() ==> {
                &&& #[trigger] gs[i].field < fields.len()
                &&& gs[i].lifetime == text_view(fields[gs[i].field as int].ref_lifetime)
                &&& i + 1 < gs.len() ==> gs[i].field < gs[i + 1].field
            },
    decreases fields.len(),
{
    if fields.len() > 0 {
        let rest = fields.drop_last();
        lemma_plans_follow_fields(rest);
        if let Ok(gs) = getters_spec(fields) {
            let prev = getters_spec(rest)->Ok_0;
            assert forall|i: int| 0 <= i < prev.len() implies prev[i].field < rest.len()
                && rest[prev[i].field as int] == fields[prev[i].field as int] by {
                assert(prev[i].field < rest.len());
            }
        }
    }
}

fn is_getter_attribute(a: &Attribute) -> (r: bool)
    ensures
        r == names_getter(*a),
{
    match &a.path_ident {
        Some(id) => {
            let expected = String::from_str("getter");
            *id == expected
        },
        None => false,
    }
}

fn copy_text(t: &Option<String>) -> (r: Option<String>)
    ensures
        text_view(r) == text_view(*t),
{
    match t {
        Some(s) => Some(s.clone()),
        None => None,
    }
}

/// What a field's attributes ask for: the last `getter` attribute decides,
/// and every `getter` attribute must be an outer one that parses.
pub fn field_attribute(attrs: &Vec<Attribute>) -> (r: Result<Option<FieldAttribute>, AttrError>)
    ensures
        directive_view(r) == field_directive(attrs@),
{
    let mut last: Option<FieldAttribute> = None;
    let mut i: usize = 0;
    while i < attrs.len()
        invariant
            i <= attrs@.len(),
            directive_view(Ok(last)) == field_directive(attrs@.subrange(0, i as int)),
        decreases attrs@.len() - i,
    {
        let a = &attrs[i];
        assert(attrs@.subrange(0, i + 1).drop_last() =~= attrs@.subrange(0, i as int));
        assert(attrs@.subrange(0, i + 1).last() == *a);
        if is_getter_attribute(a) {
            match a.style {
                AttrStyle::Inner => {
                    proof {
                        lemma_directive_error_stays(attrs@, i + 1);
                    }
                    return Err(AttrError::InnerAttribute);
                },
                AttrStyle::Outer => {},
            }
            match parse_attribute_tokens(&a.tokens) {
                Ok(parsed) => {
                    last = Some(parsed);
                },
                Err(e) => {
                    proof {
                        lemma_directive_error_stays(attrs@, i + 1);
                    }
                    return Err(e);
                },
            }
        }
        i += 1;
    }
    assert(attrs@.subrange(0, i as int) =~= attrs@);
    Ok(last)
}

/// Plans one accessor per named field, in field order: under the field's
/// name, under the name a `rename` gives, or none where `skip` is asked for.
pub fn getters_from_fields(fields: &Vec<Field>) -> (r: Result<Vec<Getter>, AttrError>)
    ensures
        plans_view(r) == getters_spec(fields@),
{
    let mut out: Vec<Getter> = Vec::new();
    let mut i: usize = 0;
    assert(out@.map_values(|g: Getter| g@) =~= Seq::<GetterPlan>::empty());
    while i < fields.len()
        invariant
            i <= fields@.len(),
            getters_spec(fields@.subrange(0, i as int)) == Ok::<Seq<GetterPlan>, AttrError>(
                out@.map_values(|g: Getter| g@),
            ),
        decreases fields@.len() - i,
    {
        let field = &fields[i];
        assert(fields@.subrange(0, i + 1).drop_last() =~= fields@.subrange(0, i as int));
        assert(fields@.subrange(0, i + 1).last() == *field);
        let lifetime = copy_text(&field.ref_lifetime);
        let ghost before = out@;
        match field_attribute(&field.attrs) {
            Ok(Some(FieldAttribute::Skip)) => {},
            Ok(Some(FieldAttribute::Rename(name))) => {
                let g = Getter { method: name, field: i, lifetime };
                out.push(g);
                assert(out@.map_values(|g: Getter| g@) =~= before.map_values(|g: Getter| g@).push(
                    g@,
                ));
            },
            Ok(None) => {
                let g = Getter { method: field.name.clone(), field: i, lifetime };
                out.push(g);
                assert(out@.map_values(|g: Getter| g@) =~= before.map_values(|g: Getter| g@).push(
                    g@,
                ));
            },
            Err(e) => {
                proof {
                    lemma_getters_error_stays(fields@, i + 1);
                }
                return Err(e);
            },
        }
        assert(getters_spec(fields@.subrange(0, i + 1)) == Ok::<Seq<GetterPlan>, AttrError>(
            out@.map_values(|g: Getter| g@),
        ));
        i += 1;
    }
    assert(fields@.subrange(0, i as int) =~= fields@);
    Ok(out)
}

/// The named fields of a structure; tuple and unit structures, enums and
/// unions have none.
pub fn isolate_named_fields(data: &Data) -> (r: Result<&Vec<Field>, ShapeError>)
    ensures
        match r {
            Ok(fields) => *data == Data::Struct(Fields::Named(*fields)),
            Err(ShapeError::InvalidStruct) => data is Struct && !(data->Struct_0 is Named),
            Err(ShapeError::InvalidVariant) => !(data is Struct),
        },
{
    match data {
        Data::Struct(fields) => match fields {
            Fields::Named(named) => Ok(named),
            Fields::Unnamed | Fields::Unit => Err(ShapeError::InvalidStruct),
        },
        Data::Enum | Data::Union => Err(ShapeError::InvalidVariant),
    }
}

/// Plans the accessors of a type definition: one per named field of a
/// structure, in field order, shaped by the fields' `getter` attributes.
pub fn getters(data: &Data) -> (r: Result<Vec<Getter>, DeriveError>)
    ensures
        plans_view(r) == derive_spec(*data),
{
    match isolate_named_fields(data) {
        Ok(fields) => match getters_from_fields(fields) {
            Ok(gs) => Ok(gs),
            Err(e) => Err(DeriveError::Attribute(e)),
        },
        Err(e) => Err(DeriveError::Shape(e)),
    }
}

} // verus!
