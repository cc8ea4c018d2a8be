//! Schema items as the generator reads them: named items, their declared
//! fields, declared types and attribute annotations.
use vstd::prelude::*;

verus! {

broadcast use vstd::std_specs::vec::group_vec_axioms, vstd::seq::group_seq_axioms;

/// A declared type: a possibly qualified path together with the generic
/// arguments of its last segment. An empty path stands for a type that is not
/// a nameable path (a reference, a tuple, an array, ...).
pub struct TypeRef {
    pub path: Vec<String>,
    pub args: Vec<TypeRef>,
}

/// Mathematical value of a [`TypeRef`].
pub struct TypeRefView {
    pub path: Seq<Seq<char>>,
    pub args: Seq<TypeRefView>,
}

pub open spec fn strings_view(s: Seq<String>) -> Seq<Seq<char>> {
    s.map_values(|x: String| x@)
}

pub open spec fn type_ref_view(t: TypeRef) -> TypeRefView
    decreases t,
{
    TypeRefView { path: strings_view(t.path@), args: type_refs_view(t.args@) }
}

pub open spec fn type_refs_view(s: Seq<TypeRef>) -> Seq<TypeRefView>
    decreases s,
{
    if s.len() == 0 {
        Seq::empty()
    } else {
        type_refs_view(s.drop_last()).push(type_ref_view(s.last()))
    }
}

impl View for TypeRef {
    type V = TypeRefView;

    open spec fn view(&self) -> TypeRefView {
        type_ref_view(*self)
    }
}

/// A bare type name with no generic arguments.
pub open spec fn named(name: Seq<char>) -> TypeRefView {
    TypeRefView { path: seq![name], args: Seq::empty() }
}

/// A type name with generic arguments.
pub open spec fn generic(name: Seq<char>, args: Seq<TypeRefView>) -> TypeRefView {
    TypeRefView { path: seq![name], args }
}

pub proof fn lemma_type_refs_view_len(s: Seq<TypeRef>)
    ensures
        type_refs_view(s).len() == s.len(),
    decreases s.len(),
{
    if s.len() > 0 {
        lemma_type_refs_view_len(s.drop_last());
    }
}

pub proof fn lemma_type_refs_view_index(s: Seq<TypeRef>, i: int)
    requires
        0 <= i < s.len(),
    ensures
        type_refs_view(s).len() == s.len(),
        type_refs_view(s)[i] == s[i]@,
    decreases s.len(),
{
    lemma_type_refs_view_len(s);
    if i < s.len() - 1 {
        lemma_type_refs_view_index(s.drop_last(), i);
    }
}

impl TypeRef {
    /// A bare type name with no generic arguments.
    pub fn named(name: String) -> (r: TypeRef)
        ensures
            r@ == named(name@),
    {
        let mut path: Vec<String> = Vec::new();
        path.push(name);
        let r = TypeRef { path, args: Vec::new() };
        proof {
            assert(strings_view(r.path@) =~= seq![name@]);
            assert(type_refs_view(r.args@) =~= Seq::<TypeRefView>::empty());
        }
        r
    }

    /// A type name with generic arguments.
    pub fn generic(name: String, args: Vec<TypeRef>) -> (r: TypeRef)
        ensures
            r@ == generic(name@, type_refs_view(args@)),
    {
        let mut path: Vec<String> = Vec::new();
        path.push(name);
        let r = TypeRef { path, args };
        proof {
            assert(strings_view(r.path@) =~= seq![name@]);
        }
        r
    }

    /// A deep copy.
    pub fn copy(&self) -> (r: TypeRef)
        ensures
            r@ == self@,
        decreases self,
    {
        let path = copy_strings(&self.path);
        let mut args: Vec<TypeRef> = Vec::new();
        let mut i: usize = 0;
        while i < self.args.len()
            invariant
                i <= self.args@.len(),
                type_refs_view(args@) == type_refs_view(self.args@.subrange(0, i as int)),
            decreases self.args@.len() - i,
        {
            let a = self.args[i].copy();
            let ghost prev = args@;
            args.push(a);
            proof {
                assert(args@.drop_last() =~= prev);
                let s = self.args@.subrange(0, i as int + 1);
                assert(s.drop_last() =~= self.args@.subrange(0, i as int));
            }
            i = i + 1;
        }
        proof {
            assert(self.args@.subrange(0, self.args@.len() as int) =~= self.args@);
        }
        TypeRef { path, args }
    }
}

/// A copy of a list of strings.
pub fn copy_strings(s: &Vec<String>) -> (r: Vec<String>)
    ensures
        strings_view(r@) == strings_view(s@),
{
    let mut r: Vec<String> = Vec::new();
    let mut i: usize = 0;
    while i < s.len()
        invariant
            i <= s@.len(),
            r@.len() == i,
            forall|j: int| 0 <= j < i ==> #[trigger] r@[j]@ == s@[j]@,
        decreases s@.len() - i,
    {
        r.push(s[i].clone());
        i = i + 1;
    }
    assert(strings_view(r@) =~= strings_view(s@));
    r
}

/// The syntactic form of an attribute annotation.
#[derive(Clone, Copy, Debug, PartialEq, Eq, Structural)]
pub enum MetaKind {
    /// A bare name: `#[name]`.
    Path,
    /// A name with a value: `#[name = value]`.
    NameValue,
    /// A name with an argument list: `#[name(args)]`.
    List,
}

/// An attribute annotation: its form and its tokens in normal printed form.
#[derive(Clone, Debug, PartialEq, Eq)]
pub struct Attribute {
    pub kind: MetaKind,
    pub tokens: String,
}

/// Mathematical value of an [`Attribute`].
pub struct AttributeView {
    pub kind: MetaKind,
    pub tokens: Seq<char>,
}

impl View for Attribute {
    type V = AttributeView;

    open spec fn view(&self) -> AttributeView {
        AttributeView { kind: self.kind, tokens: self.tokens@ }
    }
}

pub open spec fn attributes_view(s: Seq<Attribute>) -> Seq<AttributeView> {
    s.map_values(|a: Attribute| a@)
}

impl Attribute {
    /// A copy.
    pub fn copy(&self) -> (r: Attribute)
        ensures
            r@ == self@,
    {
        Attribute { kind: self.kind, tokens: self.tokens.clone() }
    }
}

/// A copy of a list of attributes.
pub fn copy_attributes(s: &Vec<Attribute>) -> (r: Vec<Attribute>)
    ensures
        attributes_view(r@) == attributes_view(s@),
{
    let mut r: Vec<Attribute> = Vec::new();
    let mut i: usize = 0;
    while i < s.len()
        invariant
            i <= s@.len(),
            r@.len() == i,
            forall|j: int| 0 <= j < i ==> #[trigger] r@[j]@ == s@[j]@,
        decreases s@.len() - i,
    {
        r.push(s[i].copy());
        i = i + 1;
    }
    assert(attributes_view(r@) =~= attributes_view(s@));
    r
}

/// A declared field of a schema item.
pub struct FieldDecl {
    pub name: String,
    pub ty: TypeRef,
    pub attributes: Vec<Attribute>,
}

/// Mathematical value of a [`FieldDecl`].
pub struct FieldDeclView {
    pub name: Seq<char>,
    pub ty: TypeRefView,
    pub attributes: Seq<AttributeView>,
}

impl View for FieldDecl {
    type V = FieldDeclView;

    open spec fn view(&self) -> FieldDeclView {
        FieldDeclView { name: self.name@, ty: self.ty@, attributes: attributes_view(self.attributes@) }
    }
}

pub open spec fn field_decls_view(s: Seq<FieldDecl>) -> Seq<FieldDeclView> {
    s.map_values(|f: FieldDecl| f@)
}

/// The body of a schema item: the fields of a record, or the fields of each
/// variant of a tagged union.
pub enum ItemBody {
    Record(Vec<FieldDecl>),
    Union(Vec<Vec<FieldDecl>>),
}

/// A named schema item.
pub struct SchemaItem {
    pub name: String,
    pub body: ItemBody,
    /// Attribute annotations of the item, carried over to its builders.
    pub attributes: Vec<Attribute>,
    /// The item's generic parameters in printed form, carried over to its builders.
    pub generics: String,
}

/// The fields of all variants, one variant after the other.
pub open spec fn variant_fields(vs: Seq<Vec<FieldDecl>>) -> Seq<FieldDeclView>
    decreases vs.len(),
{
    if vs.len() == 0 {
        Seq::empty()
    } else {
        variant_fields(vs.drop_last()) + field_decls_view(vs.last()@)
    }
}

/// Mathematical value of a [`SchemaItem`]: the name and the declared fields in
/// order (for a union, the fields of every variant, variant by variant).
pub struct SchemaItemView {
    pub name: Seq<char>,
    pub fields: Seq<FieldDeclView>,
}

impl View for SchemaItem {
    type V = SchemaItemView;

    open spec fn view(&self) -> SchemaItemView {
        SchemaItemView {
            name: self.name@,
            fields: match self.body {
                ItemBody::Record(fs) => field_decls_view(fs@),
                ItemBody::Union(vs) => variant_fields(vs@),
            },
        }
    }
}

pub open spec fn items_view(s: Seq<SchemaItem>) -> Seq<SchemaItemView> {
    s.map_values(|i: SchemaItem| i@)
}

impl SchemaItem {
    /// The declared fields in order: for a union, the fields of every variant,
    /// variant by variant.
    pub fn declared_fields(&self) -> (r: Vec<&FieldDecl>)
        ensures
            r@.map_values(|f: &FieldDecl| f@) == self@.fields,
    {
        let mut r: Vec<&FieldDecl> = Vec::new();
        match &self.body {
            ItemBody::Record(fs) => {
                push_fields(&mut r, fs);
                assert(r@.map_values(|f: &FieldDecl| f@) =~= field_decls_view(fs@));
            },
            ItemBody::Union(vs) => {
                let mut i: usize = 0;
                while i < vs.len()
                    invariant
                        i <= vs@.len(),
                        r@.map_values(|f: &FieldDecl| f@) =~= variant_fields(vs@.subrange(0, i as int)),
                    decreases vs@.len() - i,
                {
                    push_fields(&mut r, &vs[i]);
                    proof {
                        let s = vs@.subrange(0, i as int + 1);
                        assert(s.drop_last() =~= vs@.subrange(0, i as int));
                    }
                    i = i + 1;
                }
                assert(vs@.subrange(0, vs@.len() as int) =~= vs@);
            },
        }
        r
    }
}

fn push_fields<'a>(r: &mut Vec<&'a FieldDecl>, fs: &'a Vec<FieldDecl>)
    ensures
        final(r)@.map_values(|f: &FieldDecl| f@) =~= old(r)@.map_values(|f: &FieldDecl| f@)
            + field_decls_view(fs@),
{
    let mut i: usize = 0;
    let ghost start = r@;
    while i < fs.len()
        invariant
            i <= fs@.len(),
            r@.len() == start.len() + i,
            forall|j: int| 0 <= j < start.len() ==> #[trigger] r@[j] == start[j],
            forall|j: int|
                start.len() <= j < start.len() + i ==> #[trigger] r@[j]@ == fs@[j - start.len()]@,
        decreases fs@.len() - i,
    {
        r.push(&fs[i]);
        i = i + 1;
    }
    assert(r@.map_values(|f: &FieldDecl| f@) =~= start.map_values(|f: &FieldDecl| f@)
        + field_decls_view(fs@));
}

} // verus!
