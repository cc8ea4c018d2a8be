//! The field model: one schema field with its classified shape, and what the
//! builder generates for it.
use vstd::prelude::*;

use crate::builder::{
    BuilderField, Conversion, BuilderFieldView, FinalizeBranch, FinalizeBranchView, Param, ParamView, Setter,
    SetterKind, SetterView, params_view,
};
use crate::schema::{
    Attribute, AttributeView, TypeRef, TypeRefView, attributes_view, copy_attributes, generic, named,
    type_refs_view,
};
use crate::shape::{FieldTypeSegment, Shape, builder_name, decompose, setter_shape, shape_view};

verus! {

broadcast use vstd::std_specs::vec::group_vec_axioms, vstd::seq::group_seq_axioms;

/// One field of a schema item, as prepared for builder generation.
pub struct Field {
    /// The identifier used in the builder (after any rename).
    pub ident: String,
    /// The classified shape of the field's type.
    pub ty: FieldTypeSegment,
    /// Whether the finalizer fails when the field was never set.
    pub is_required: bool,
    /// Attribute annotations carried over to the builder's field.
    pub attributes: Vec<Attribute>,
}

/// Mathematical value of a [`Field`].
pub struct FieldView {
    pub ident: Seq<char>,
    pub shape: Shape,
    pub is_required: bool,
    pub attributes: Seq<AttributeView>,
}

pub open spec fn field_view(f: Field) -> FieldView
    decreases f,
{
    FieldView {
        ident: f.ident@,
        shape: shape_view(f.ty),
        is_required: f.is_required,
        attributes: attributes_view(f.attributes@),
    }
}

pub open spec fn fields_view(s: Seq<Field>) -> Seq<FieldView>
    decreases s,
{
    if s.len() == 0 {
        Seq::empty()
    } else {
        fields_view(s.drop_last()).push(field_view(s.last()))
    }
}

impl View for Field {
    type V = FieldView;

    open spec fn view(&self) -> FieldView {
        field_view(*self)
    }
}

pub proof fn lemma_fields_view_len(s: Seq<Field>)
    ensures
        fields_view(s).len() == s.len(),
    decreases s.len(),
{
    if s.len() > 0 {
        lemma_fields_view_len(s.drop_last());
    }
}

pub proof fn lemma_fields_view_index(s: Seq<Field>, i: int)
    requires
        0 <= i < s.len(),
    ensures
        fields_view(s).len() == s.len(),
        fields_view(s)[i] == s[i]@,
    decreases s.len(),
{
    lemma_fields_view_len(s);
    if i < s.len() - 1 {
        lemma_fields_view_index(s.drop_last(), i);
    }
}

pub proof fn lemma_fields_view_push(s: Seq<Field>, f: Field)
    ensures
        fields_view(s.push(f)) == fields_view(s).push(f@),
{
    assert(s.push(f).drop_last() =~= s);
}

/// The identifier with a raw-identifier prefix `r#` removed.
pub open spec fn sanitized(ident: Seq<char>) -> Seq<char> {
    if ident.len() >= 2 && ident[0] == 'r' && ident[1] == '#' {
        ident.subrange(2, ident.len() as int)
    } else {
        ident
    }
}

/// The name of the setter of field `ident`.
pub open spec fn setter_name(ident: Seq<char>) -> Seq<char> {
    "with_"@ + sanitized(ident)
}

pub open spec fn setter_kind(s: Shape) -> SetterKind {
    match setter_shape(s) {
        Shape::Sequence(_) => SetterKind::Append,
        Shape::Mapping(_, _) => SetterKind::Insert,
        Shape::Complex(_, _) => SetterKind::Nested,
        _ => SetterKind::Assign,
    }
}

pub open spec fn param(name: Seq<char>, ty: TypeRefView) -> ParamView {
    ParamView { name, ty }
}

/// The setter's parameters: an element for a sequence, a key and a value for
/// a mapping, none for a nested item, and otherwise the builder's value type.
pub open spec fn setter_params(s: Shape) -> Seq<ParamView> {
    match setter_shape(s) {
        Shape::Sequence(e) => seq![param("value"@, decompose(*e))],
        Shape::Mapping(k, v) => seq![param("key"@, decompose(*k)), param("value"@, decompose(*v))],
        Shape::Complex(_, _) => Seq::empty(),
        _ => seq![param("value"@, decompose(s))],
    }
}

/// The setter of a nested item gives back that item's builder; any other
/// setter gives back the builder itself, for chaining.
pub open spec fn setter_returns(s: Shape) -> Option<TypeRefView> {
    match setter_shape(s) {
        Shape::Complex(n, _) => Some(named(builder_name(n))),
        _ => None,
    }
}

/// The setter generated for field `f`.
pub open spec fn setter_of(f: FieldView) -> SetterView {
    SetterView {
        name: setter_name(f.ident),
        field: f.ident,
        kind: setter_kind(f.shape),
        params: setter_params(f.shape),
        result_type: setter_returns(f.shape),
    }
}

/// The builder's field for field `f`: an optional value of the builder type.
pub open spec fn builder_field_of(f: FieldView) -> BuilderFieldView {
    BuilderFieldView {
        ident: f.ident,
        ty: generic("Option"@, seq![decompose(f.shape)]),
        attributes: f.attributes,
    }
}

/// The failure message of the finalizer when required field `ident` is unset.
pub open spec fn required_message(ident: Seq<char>) -> Seq<char> {
    "field '"@ + ident + "' is required"@
}

/// The conversion at finalize time: none unless the field was remapped;
/// element by element when a sequence was remapped to a sequence.
pub open spec fn conversion_of(s: Shape) -> Conversion {
    match s {
        Shape::Remapped(src, t) => if setter_shape(*src) is Sequence && setter_shape(*t) is Sequence {
            Conversion::Elements
        } else {
            Conversion::Whole
        },
        _ => Conversion::Keep,
    }
}

/// The finalizer's branch for field `f`.
pub open spec fn branch_of(f: FieldView) -> FinalizeBranchView {
    FinalizeBranchView {
        field: f.ident,
        nested: setter_kind(f.shape) == SetterKind::Nested,
        convert: conversion_of(f.shape),
        required: f.is_required,
        message: required_message(f.ident),
    }
}

fn make_param(name: &str, ty: TypeRef) -> (r: Param)
    ensures
        r@ == param(name@, ty@),
{
    Param { name: String::from_str(name), ty }
}

impl FieldTypeSegment {
    /// The shape that decides how the builder accumulates this one.
    pub fn setter_shape(&self) -> (r: &FieldTypeSegment)
        ensures
            r@ == setter_shape(self@),
        decreases self,
    {
        match self {
            FieldTypeSegment::Nullable(i) => {
                let inner = i.setter_shape();
                match inner {
                    FieldTypeSegment::Complex(_, _) => inner,
                    _ => self,
                }
            },
            FieldTypeSegment::Remapped(_, t) => t.setter_shape(),
            _ => self,
        }
    }
}

impl Field {
    /// The constructor `new`: the builder's fields, in order, each starting
    /// absent.
    pub fn generate_new_method(fields: &Vec<Field>) -> (r: Vec<String>)
        ensures
            crate::schema::strings_view(r@) == fields_view(fields@).map_values(|f: FieldView| f.ident),
    {
        let ghost fv = fields_view(fields@);
        proof {
            lemma_fields_view_len(fields@);
        }
        let mut r: Vec<String> = Vec::new();
        let mut i: usize = 0;
        while i < fields.len()
            invariant
                i <= fields@.len(),
                fv == fields_view(fields@),
                fv.len() == fields@.len(),
                r@.len() == i,
                forall|j: int| 0 <= j < i ==> #[trigger] r@[j]@ == fv[j].ident,
            decreases fields@.len() - i,
        {
            proof {
                lemma_fields_view_index(fields@, i as int);
            }
            r.push(fields[i].ident.clone());
            i = i + 1;
        }
        assert(crate::schema::strings_view(r@) =~= fv.map_values(|f: FieldView| f.ident));
        r
    }

    /// The identifier with a raw-identifier prefix removed.
    pub fn sanitized_ident(&self) -> (r: String)
        ensures
            r@ == sanitized(self.ident@),
    {
        let s = self.ident.as_str();
        let n = s.unicode_len();
        if n >= 2 && s.get_char(0) == 'r' && s.get_char(1) == '#' {
            String::from_str(s.substring_char(2, n))
        } else {
            self.ident.clone()
        }
    }

    /// The builder's field: optional, of the builder's value type.
    pub fn unwrap(&self) -> (r: BuilderField)
        ensures
            r@ == builder_field_of(self@),
    {
        let mut args: Vec<TypeRef> = Vec::new();
        args.push(self.ty.unwrap());
        proof {
            crate::schema::lemma_type_refs_view_index(args@, 0);
            assert(type_refs_view(args@) =~= seq![decompose(self.ty@)]);
        }
        BuilderField {
            ident: self.ident.clone(),
            ty: TypeRef::generic(String::from_str("Option"), args),
            attributes: copy_attributes(&self.attributes),
        }
    }

    /// The setter's parameters: an element for a sequence, a key and a value
    /// for a mapping, none for a nested item, and otherwise the builder's
    /// value type.
    pub fn generate_set_method_arguments(&self) -> (r: Vec<Param>)
        ensures
            params_view(r@) == setter_params(self@.shape),
    {
        let mut params: Vec<Param> = Vec::new();
        match self.ty.setter_shape() {
            FieldTypeSegment::Sequence(e) => {
                params.push(make_param("value", e.unwrap()));
            },
            FieldTypeSegment::Mapping(k, v) => {
                params.push(make_param("key", k.unwrap()));
                params.push(make_param("value", v.unwrap()));
            },
            FieldTypeSegment::Complex(_, _) => {},
            _ => {
                params.push(make_param("value", self.ty.unwrap()));
            },
        }
        assert(params_view(params@) =~= setter_params(self.ty@));
        params
    }

    /// How the setter accumulates its arguments (the statements of its body).
    pub fn generate_set_method_statements(&self) -> (r: SetterKind)
        ensures
            r == setter_kind(self@.shape),
    {
        match self.ty.setter_shape() {
            FieldTypeSegment::Sequence(_) => SetterKind::Append,
            FieldTypeSegment::Mapping(_, _) => SetterKind::Insert,
            FieldTypeSegment::Complex(_, _) => SetterKind::Nested,
            _ => SetterKind::Assign,
        }
    }

    /// The setter: its name, kind, parameters and result.
    pub fn generate_set_method(&self) -> (r: Setter)
        ensures
            r@ == setter_of(self@),
    {
        let name = String::from_str("with_").concat(self.sanitized_ident().as_str());
        let result_type = match self.ty.setter_shape() {
            FieldTypeSegment::Complex(n, _) => Some(TypeRef::named(crate::shape::builder_ident(n))),
            _ => None,
        };
        Setter {
            name,
            field: self.ident.clone(),
            kind: self.generate_set_method_statements(),
            params: self.generate_set_method_arguments(),
            result_type,
        }
    }

    /// The finalizer's branch for this field.
    pub fn generate_build_method_statement(&self) -> (r: FinalizeBranch)
        ensures
            r@ == branch_of(self@),
    {
        let nested = self.ty.is_complex();
        let convert = match &self.ty {
            FieldTypeSegment::Remapped(src, t) => match (src.setter_shape(), t.setter_shape()) {
                (FieldTypeSegment::Sequence(_), FieldTypeSegment::Sequence(_)) => Conversion::Elements,
                _ => Conversion::Whole,
            },
            _ => Conversion::Keep,
        };
        let message = String::from_str("field '").concat(self.ident.as_str()).concat(
            "' is required",
        );
        FinalizeBranch {
            field: self.ident.clone(),
            nested,
            convert,
            required: self.is_required,
            message,
        }
    }
}

} // verus!
