//! The structural shapes that a field's declared type is classified into.
use vstd::prelude::*;

use crate::field::{Field, FieldView, fields_view};
use crate::schema::{TypeRef, TypeRefView, generic, named};

verus! {

broadcast use vstd::std_specs::vec::group_vec_axioms, vstd::seq::group_seq_axioms;

/// The classified shape of a field's type.
pub enum FieldTypeSegment {
    /// A built-in scalar, a reserved type, or an unknown type without arguments.
    Primitive(String),
    /// An ordered, growable list of one element type.
    Sequence(Box<FieldTypeSegment>),
    /// A key-unique associative container.
    Mapping(Box<FieldTypeSegment>, Box<FieldTypeSegment>),
    /// A value that may be absent.
    Nullable(Box<FieldTypeSegment>),
    /// A registered schema item, with the classified fields of that item.
    Complex(String, Vec<Field>),
    /// Any other wrapper of one type argument.
    Generic(String, Box<FieldTypeSegment>),
    /// A field whose builder works on the target shape and converts back to
    /// the source at finalize time.
    Remapped(Box<FieldTypeSegment>, Box<FieldTypeSegment>),
}

/// Mathematical value of a [`FieldTypeSegment`].
pub enum Shape {
    Primitive(Seq<char>),
    Sequence(Box<Shape>),
    Mapping(Box<Shape>, Box<Shape>),
    Nullable(Box<Shape>),
    Complex(Seq<char>, Seq<FieldView>),
    Generic(Seq<char>, Box<Shape>),
    Remapped(Box<Shape>, Box<Shape>),
}

pub open spec fn shape_view(s: FieldTypeSegment) -> Shape
    decreases s,
{
    match s {
        FieldTypeSegment::Primitive(n) => Shape::Primitive(n@),
        FieldTypeSegment::Sequence(e) => Shape::Sequence(Box::new(shape_view(*e))),
        FieldTypeSegment::Mapping(k, v) => Shape::Mapping(
            Box::new(shape_view(*k)),
            Box::new(shape_view(*v)),
        ),
        FieldTypeSegment::Nullable(i) => Shape::Nullable(Box::new(shape_view(*i))),
        FieldTypeSegment::Complex(n, fs) => Shape::Complex(n@, fields_view(fs@)),
        FieldTypeSegment::Generic(n, u) => Shape::Generic(n@, Box::new(shape_view(*u))),
        FieldTypeSegment::Remapped(s, t) => Shape::Remapped(
            Box::new(shape_view(*s)),
            Box::new(shape_view(*t)),
        ),
    }
}

impl View for FieldTypeSegment {
    type V = Shape;

    open spec fn view(&self) -> Shape {
        shape_view(*self)
    }
}

/// The name under which the builder of item `name` is generated.
pub open spec fn builder_name(name: Seq<char>) -> Seq<char> {
    name + "Builder"@
}

/// The type that the builder works with for a value of shape `s`: wrappers
/// that only mark absence are dropped, a remapped shape gives its target, and
/// a nested item gives its builder.
pub open spec fn decompose(s: Shape) -> TypeRefView
    decreases s,
{
    match s {
        Shape::Primitive(n) => named(n),
        Shape::Sequence(e) => generic("Vec"@, seq![decompose(*e)]),
        Shape::Mapping(k, v) => generic("HashMap"@, seq![decompose(*k), decompose(*v)]),
        Shape::Nullable(i) => decompose(*i),
        Shape::Complex(n, _) => named(builder_name(n)),
        Shape::Generic(n, u) => generic(n, seq![decompose(*u)]),
        Shape::Remapped(_, t) => decompose(*t),
    }
}

/// The shape that decides how a field's value is accumulated: remappings
/// are looked through, and so is an absence marker around a nested item (an
/// optional nested item still gets a nested builder). Any other optional
/// value is assigned whole.
pub open spec fn setter_shape(s: Shape) -> Shape
    decreases s,
{
    match s {
        Shape::Nullable(i) => if setter_shape(*i) is Complex {
            setter_shape(*i)
        } else {
            s
        },
        Shape::Remapped(_, t) => setter_shape(*t),
        _ => s,
    }
}

/// The builder name of item `name`.
pub fn builder_ident(name: &String) -> (r: String)
    ensures
        r@ == builder_name(name@),
{
    name.clone().concat("Builder")
}

impl FieldTypeSegment {
    /// The type that the builder works with for a value of this shape.
    pub fn unwrap(&self) -> (r: TypeRef)
        ensures
            r@ == decompose(self@),
        decreases self,
    {
        match self {
            FieldTypeSegment::Primitive(n) => TypeRef::named(n.clone()),
            FieldTypeSegment::Sequence(e) => {
                let mut args: Vec<TypeRef> = Vec::new();
                args.push(e.unwrap());
                proof {
                    crate::schema::lemma_type_refs_view_index(args@, 0);
                    assert(crate::schema::type_refs_view(args@) =~= seq![decompose(e@)]);
                }
                TypeRef::generic(String::from_str("Vec"), args)
            },
            FieldTypeSegment::Mapping(k, v) => {
                let mut args: Vec<TypeRef> = Vec::new();
                args.push(k.unwrap());
                args.push(v.unwrap());
                proof {
                    crate::schema::lemma_type_refs_view_index(args@, 0);
                    crate::schema::lemma_type_refs_view_index(args@, 1);
                    assert(crate::schema::type_refs_view(args@) =~= seq![
                        decompose(k@),
                        decompose(v@),
                    ]);
                }
                TypeRef::generic(String::from_str("HashMap"), args)
            },
            FieldTypeSegment::Nullable(i) => i.unwrap(),
            FieldTypeSegment::Complex(n, _) => TypeRef::named(builder_ident(n)),
            FieldTypeSegment::Generic(n, u) => {
                let mut args: Vec<TypeRef> = Vec::new();
                args.push(u.unwrap());
                proof {
                    crate::schema::lemma_type_refs_view_index(args@, 0);
                    assert(crate::schema::type_refs_view(args@) =~= seq![decompose(u@)]);
                }
                TypeRef::generic(n.clone(), args)
            },
            FieldTypeSegment::Remapped(_, t) => t.unwrap(),
        }
    }

    /// Whether the builder accumulates this shape through a nested builder.
    pub fn is_complex(&self) -> (r: bool)
        ensures
            r == (setter_shape(self@) is Complex),
        decreases self,
    {
        match self {
            FieldTypeSegment::Complex(_, _) => true,
            FieldTypeSegment::Nullable(i) => i.is_complex(),
            FieldTypeSegment::Remapped(_, t) => t.is_complex(),
            _ => false,
        }
    }
}

} // verus!
