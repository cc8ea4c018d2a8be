//! The generated builder entities, as a structured description that a code
//! emitter turns into source text.
use vstd::prelude::*;

use crate::schema::{Attribute, AttributeView, TypeRef, TypeRefView, attributes_view};

verus! {

/// How a setter accumulates its arguments into the builder's field.
#[derive(Clone, Copy, Debug, PartialEq, Eq, Structural)]
pub enum SetterKind {
    /// `self.f = Some(value); self`
    Assign,
    /// Start an empty `Vec` when absent, then push `value`; `self`.
    Append,
    /// Start an empty `HashMap` when absent, then insert `key -> value`; `self`.
    Insert,
    /// Start a fresh nested builder when absent; return it.
    Nested,
}

/// How the finalizer converts a stored value to the item's declared type.
#[derive(Clone, Copy, Debug, PartialEq, Eq, Structural)]
pub enum Conversion {
    /// The value is used as stored.
    Keep,
    /// `value.into()`
    Whole,
    /// `value.iter().map(|value| value.into()).collect()`
    Elements,
}

/// A parameter of a setter.
pub struct Param {
    pub name: String,
    pub ty: TypeRef,
}

pub struct ParamView {
    pub name: Seq<char>,
    pub ty: TypeRefView,
}

impl View for Param {
    type V = ParamView;

    open spec fn view(&self) -> ParamView {
        ParamView { name: self.name@, ty: self.ty@ }
    }
}

/// A generated setter (`with_<name>`).
pub struct Setter {
    /// The method name.
    pub name: String,
    /// The builder field it writes.
    pub field: String,
    pub kind: SetterKind,
    pub params: Vec<Param>,
    /// The nested builder type returned; `None` when the setter returns the
    /// builder itself for chaining.
    pub result_type: Option<TypeRef>,
}

pub struct SetterView {
    pub name: Seq<char>,
    pub field: Seq<char>,
    pub kind: SetterKind,
    pub params: Seq<ParamView>,
    pub result_type: Option<TypeRefView>,
}

pub open spec fn params_view(s: Seq<Param>) -> Seq<ParamView> {
    s.map_values(|p: Param| p@)
}

pub open spec fn opt_type_view(o: Option<TypeRef>) -> Option<TypeRefView> {
    match o {
        Some(t) => Some(t@),
        None => None,
    }
}

impl View for Setter {
    type V = SetterView;

    open spec fn view(&self) -> SetterView {
        SetterView {
            name: self.name@,
            field: self.field@,
            kind: self.kind,
            params: params_view(self.params@),
            result_type: opt_type_view(self.result_type),
        }
    }
}

pub open spec fn setters_view(s: Seq<Setter>) -> Seq<SetterView> {
    s.map_values(|x: Setter| x@)
}

/// A field of the builder: always optional, absent until set.
pub struct BuilderField {
    pub ident: String,
    pub ty: TypeRef,
    pub attributes: Vec<Attribute>,
}

pub struct BuilderFieldView {
    pub ident: Seq<char>,
    pub ty: TypeRefView,
    pub attributes: Seq<AttributeView>,
}

impl View for BuilderField {
    type V = BuilderFieldView;

    open spec fn view(&self) -> BuilderFieldView {
        BuilderFieldView { ident: self.ident@, ty: self.ty@, attributes: attributes_view(self.attributes@) }
    }
}

pub open spec fn builder_fields_view(s: Seq<BuilderField>) -> Seq<BuilderFieldView> {
    s.map_values(|x: BuilderField| x@)
}

/// What the finalizer does for one field:
/// `if let Some(value) = self.f.clone() { .. } else { .. }`.
#[derive(Clone, Debug, PartialEq, Eq)]
pub struct FinalizeBranch {
    /// The field, both in the builder and in the constructed item.
    pub field: String,
    /// The stored value is a nested builder whose own finalizer is called.
    pub nested: bool,
    /// How the value is converted to the item's declared type.
    pub convert: Conversion,
    /// Absence is a failure carrying `message`; otherwise it gives `None` and
    /// a present value is wrapped in `Some`.
    pub required: bool,
    pub message: String,
}

pub struct FinalizeBranchView {
    pub field: Seq<char>,
    pub nested: bool,
    pub convert: Conversion,
    pub required: bool,
    pub message: Seq<char>,
}

impl View for FinalizeBranch {
    type V = FinalizeBranchView;

    open spec fn view(&self) -> FinalizeBranchView {
        FinalizeBranchView {
            field: self.field@,
            nested: self.nested,
            convert: self.convert,
            required: self.required,
            message: self.message@,
        }
    }
}

pub open spec fn branches_view(s: Seq<FinalizeBranch>) -> Seq<FinalizeBranchView> {
    s.map_values(|x: FinalizeBranch| x@)
}

/// A generated builder: its own type (fields all starting absent, as the
/// constructor `new` sets them), its setters and its finalizer `build`.
pub struct BuilderEntity {
    /// The builder type's name.
    pub name: String,
    /// The item type that `build` constructs.
    pub target: String,
    pub attributes: Vec<Attribute>,
    pub generics: String,
    pub fields: Vec<BuilderField>,
    /// The fields that the constructor `new` sets to absent, in order.
    pub new_fields: Vec<String>,
    /// Setters, ordered by name.
    pub setters: Vec<Setter>,
    /// One branch per field, in field order.
    pub build: Vec<FinalizeBranch>,
}

pub struct BuilderEntityView {
    pub name: Seq<char>,
    pub target: Seq<char>,
    pub attributes: Seq<AttributeView>,
    pub generics: Seq<char>,
    pub fields: Seq<BuilderFieldView>,
    pub new_fields: Seq<Seq<char>>,
    pub setters: Seq<SetterView>,
    pub build: Seq<FinalizeBranchView>,
}

impl View for BuilderEntity {
    type V = BuilderEntityView;

    open spec fn view(&self) -> BuilderEntityView {
        BuilderEntityView {
            name: self.name@,
            target: self.target@,
            attributes: attributes_view(self.attributes@),
            generics: self.generics@,
            fields: builder_fields_view(self.fields@),
            new_fields: crate::schema::strings_view(self.new_fields@),
            setters: setters_view(self.setters@),
            build: branches_view(self.build@),
        }
    }
}

pub open spec fn entities_view(s: Seq<BuilderEntity>) -> Seq<BuilderEntityView> {
    s.map_values(|x: BuilderEntity| x@)
}

} // verus!
