//! Builder synthesis: one builder entity per schema item, and one for every
//! nested item reached through its fields, depth first.
use vstd::prelude::*;

use core::cmp::Ordering;
use itertools::Itertools;

use crate::builder::{
    BuilderEntity, BuilderEntityView, BuilderField, FinalizeBranch, Setter, SetterView,
    branches_view, builder_fields_view, entities_view, setters_view,
};
use crate::field::{
    Field, FieldView, branch_of, builder_field_of, fields_view, lemma_fields_view_index,
    lemma_fields_view_len, setter_of,
};
use crate::generator::{GenerateError, Generator, fields_of};
use crate::schema::{Attribute, AttributeView, SchemaItem, attributes_view, copy_attributes, strings_view};
use crate::shape::{FieldTypeSegment, Shape, builder_ident, builder_name};

verus! {

broadcast use vstd::std_specs::vec::group_vec_axioms, vstd::seq::group_seq_axioms;

/// Lexicographic order of names, character by character (by code point).
pub open spec fn name_cmp(a: Seq<char>, b: Seq<char>) -> Ordering
    decreases a.len(),
{
    if a.len() == 0 {
        if b.len() == 0 {
            Ordering::Equal
        } else {
            Ordering::Less
        }
    } else if b.len() == 0 {
        Ordering::Greater
    } else if (a[0] as u32) < (b[0] as u32) {
        Ordering::Less
    } else if (a[0] as u32) > (b[0] as u32) {
        Ordering::Greater
    } else {
        name_cmp(a.drop_first(), b.drop_first())
    }
}

/// Setters ordered by name.
pub open spec fn names_sorted(s: Seq<SetterView>) -> bool {
    forall|i: int, j: int|
        0 <= i < j < s.len() ==> name_cmp(s[i].name, s[j].name) != Ordering::Greater
}

/// Compares two names in the order of [`name_cmp`].
pub fn compare_names(a: &String, b: &String) -> (r: Ordering)
    ensures
        r == name_cmp(a@, b@),
{
    let sa = a.as_str();
    let sb = b.as_str();
    let la = sa.unicode_len();
    let lb = sb.unicode_len();
    let mut i: usize = 0;
    assert(a@.skip(0) =~= a@);
    assert(b@.skip(0) =~= b@);
    while i < la && i < lb
        invariant
            i <= la,
            i <= lb,
            la == a@.len(),
            lb == b@.len(),
            sa@ == a@,
            sb@ == b@,
            name_cmp(a@, b@) == name_cmp(a@.skip(i as int), b@.skip(i as int)),
        decreases la - i,
    {
        let ca = sa.get_char(i);
        let cb = sb.get_char(i);
        if (ca as u32) < (cb as u32) {
            return Ordering::Less;
        }
        if (ca as u32) > (cb as u32) {
            return Ordering::Greater;
        }
        assert(a@.skip(i as int).drop_first() =~= a@.skip(i as int + 1));
        assert(b@.skip(i as int).drop_first() =~= b@.skip(i as int + 1));
        i = i + 1;
    }
    if la == lb {
        Ordering::Equal
    } else if i == la {
        Ordering::Less
    } else {
        Ordering::Greater
    }
}

/// Relies on `itertools::Itertools::sorted_by`, a stable `sort_by` of the
/// items: the same setters come out, ordered by [`compare_names`] (a total
/// order) on their names.
#[verifier::external_body]
fn sort_setters(v: Vec<Setter>) -> (r: Vec<Setter>)
    ensures
        setters_view(r@).to_multiset() == setters_view(v@).to_multiset(),
        names_sorted(setters_view(r@)),
{
    v.into_iter().sorted_by(|a, b| compare_names(&a.name, &b.name)).collect()
}

/// `e` is the builder of item `name` with prepared fields `fields`.
pub open spec fn is_entity_of(
    e: BuilderEntityView,
    name: Seq<char>,
    fields: Seq<FieldView>,
    attributes: Seq<AttributeView>,
    generics: Seq<char>,
) -> bool {
    &&& e.name == builder_name(name)
    &&& e.target == name
    &&& e.attributes == attributes
    &&& e.generics == generics
    &&& e.fields == fields.map_values(|f: FieldView| builder_field_of(f))
    &&& e.new_fields == fields.map_values(|f: FieldView| f.ident)
    &&& e.build == fields.map_values(|f: FieldView| branch_of(f))
    &&& e.setters.to_multiset() == fields.map_values(|f: FieldView| setter_of(f)).to_multiset()
    &&& names_sorted(e.setters)
}

/// Each entity of `es` is the builder of the corresponding item of `ns`.
pub open spec fn entities_match(
    es: Seq<BuilderEntityView>,
    ns: Seq<(Seq<char>, Seq<FieldView>)>,
    attributes: Seq<AttributeView>,
    generics: Seq<char>,
) -> bool {
    &&& es.len() == ns.len()
    &&& forall|k: int|
        0 <= k < es.len() ==> is_entity_of(#[trigger] es[k], ns[k].0, ns[k].1, attributes, generics)
}

/// The nested items reached through a value of shape `s`, depth first.
pub open spec fn shape_nested(s: Shape) -> Seq<(Seq<char>, Seq<FieldView>)>
    decreases s,
{
    match s {
        Shape::Nullable(i) => shape_nested(*i),
        Shape::Remapped(_, t) => shape_nested(*t),
        Shape::Complex(n, fs) => seq![(n, fs)] + nested_of(fs),
        _ => Seq::empty(),
    }
}

/// The nested items reached through fields `fs`, depth first, in field order.
pub open spec fn nested_of(fs: Seq<FieldView>) -> Seq<(Seq<char>, Seq<FieldView>)>
    decreases fs,
{
    if fs.len() == 0 {
        Seq::empty()
    } else {
        nested_of(fs.drop_last()) + shape_nested(fs.last().shape)
    }
}

proof fn lemma_entities_match_append(
    a: Seq<BuilderEntityView>,
    na: Seq<(Seq<char>, Seq<FieldView>)>,
    b: Seq<BuilderEntityView>,
    nb: Seq<(Seq<char>, Seq<FieldView>)>,
    attributes: Seq<AttributeView>,
    generics: Seq<char>,
)
    requires
        entities_match(a, na, attributes, generics),
        entities_match(b, nb, attributes, generics),
    ensures
        entities_match(a + b, na + nb, attributes, generics),
{
    assert forall|k: int| 0 <= k < (a + b).len() implies is_entity_of(
        #[trigger] (a + b)[k],
        (na + nb)[k].0,
        (na + nb)[k].1,
        attributes,
        generics,
    ) by {
        if k < a.len() {
            assert((a + b)[k] == a[k]);
        } else {
            assert((a + b)[k] == b[k - a.len()]);
        }
    }
}

/// The builder's own fields: one optional field per prepared field, in order.
pub fn generate_struct_item(fields: &Vec<Field>) -> (r: Vec<BuilderField>)
    ensures
        builder_fields_view(r@) == fields_view(fields@).map_values(|f: FieldView| builder_field_of(f)),
{
    let ghost fv = fields_view(fields@);
    proof {
        lemma_fields_view_len(fields@);
    }
    let mut r: Vec<BuilderField> = Vec::new();
    let mut i: usize = 0;
    while i < fields.len()
        invariant
            i <= fields@.len(),
            fv == fields_view(fields@),
            fv.len() == fields@.len(),
            r@.len() == i,
            forall|j: int| 0 <= j < i ==> #[trigger] r@[j]@ == builder_field_of(fv[j]),
        decreases fields@.len() - i,
    {
        proof {
            lemma_fields_view_index(fields@, i as int);
        }
        r.push(fields[i].unwrap());
        i = i + 1;
    }
    assert(builder_fields_view(r@) =~= fv.map_values(|f: FieldView| builder_field_of(f)));
    r
}

/// The setters of the prepared fields, ordered by name.
pub fn generate_set_methods(fields: &Vec<Field>) -> (r: Vec<Setter>)
    ensures
        setters_view(r@).to_multiset() == fields_view(fields@).map_values(
            |f: FieldView| setter_of(f),
        ).to_multiset(),
        names_sorted(setters_view(r@)),
{
    let ghost fv = fields_view(fields@);
    proof {
        lemma_fields_view_len(fields@);
    }
    let mut r: Vec<Setter> = Vec::new();
    let mut i: usize = 0;
    while i < fields.len()
        invariant
            i <= fields@.len(),
            fv == fields_view(fields@),
            fv.len() == fields@.len(),
            r@.len() == i,
            forall|j: int| 0 <= j < i ==> #[trigger] r@[j]@ == setter_of(fv[j]),
        decreases fields@.len() - i,
    {
        proof {
            lemma_fields_view_index(fields@, i as int);
        }
        r.push(fields[i].generate_set_method());
        i = i + 1;
    }
    assert(setters_view(r@) =~= fv.map_values(|f: FieldView| setter_of(f)));
    sort_setters(r)
}

/// The finalizer `build`: one branch per prepared field, in order.
pub fn generate_build_method(fields: &Vec<Field>) -> (r: Vec<FinalizeBranch>)
    ensures
        branches_view(r@) == fields_view(fields@).map_values(|f: FieldView| branch_of(f)),
{
    let ghost fv = fields_view(fields@);
    proof {
        lemma_fields_view_len(fields@);
    }
    let mut r: Vec<FinalizeBranch> = Vec::new();
    let mut i: usize = 0;
    while i < fields.len()
        invariant
            i <= fields@.len(),
            fv == fields_view(fields@),
            fv.len() == fields@.len(),
            r@.len() == i,
            forall|j: int| 0 <= j < i ==> #[trigger] r@[j]@ == branch_of(fv[j]),
        decreases fields@.len() - i,
    {
        proof {
            lemma_fields_view_index(fields@, i as int);
        }
        r.push(fields[i].generate_build_method_statement());
        i = i + 1;
    }
    assert(branches_view(r@) =~= fv.map_values(|f: FieldView| branch_of(f)));
    r
}

/// The builder of item `name` with prepared fields `fields`.
pub fn generate_entity(
    name: &String,
    fields: &Vec<Field>,
    attributes: &Vec<Attribute>,
    generics: &String,
) -> (r: BuilderEntity)
    ensures
        is_entity_of(r@, name@, fields_view(fields@), attributes_view(attributes@), generics@),
{
    BuilderEntity {
        name: builder_ident(name),
        target: name.clone(),
        attributes: copy_attributes(attributes),
        generics: generics.clone(),
        fields: generate_struct_item(fields),
        new_fields: Field::generate_new_method(fields),
        setters: generate_set_methods(fields),
        build: generate_build_method(fields),
    }
}

fn generate_shape_builders(
    s: &FieldTypeSegment,
    attributes: &Vec<Attribute>,
    generics: &String,
    out: &mut Vec<BuilderEntity>,
)
    ensures
        final(out)@.len() >= old(out)@.len(),
        final(out)@.subrange(0, old(out)@.len() as int) == old(out)@,
        entities_match(
            entities_view(final(out)@.subrange(old(out)@.len() as int, final(out)@.len() as int)),
            shape_nested(s@),
            attributes_view(attributes@),
            generics@,
        ),
    decreases s,
{
    let ghost start = out@;
    match s {
        FieldTypeSegment::Nullable(i) => generate_shape_builders(i, attributes, generics, out),
        FieldTypeSegment::Remapped(_, t) => generate_shape_builders(t, attributes, generics, out),
        FieldTypeSegment::Complex(n, fs) => {
            out.push(generate_entity(n, fs, attributes, generics));
            let ghost mid = out@;
            generate_inner_builders(fs, attributes, generics, out);
            proof {
                let av = attributes_view(attributes@);
                let one = entities_view(mid.subrange(start.len() as int, mid.len() as int));
                let rest = entities_view(out@.subrange(mid.len() as int, out@.len() as int));
                assert(out@.subrange(0, start.len() as int) =~= start) by {
                    assert(out@.subrange(0, mid.len() as int) == mid);
                    assert forall|k: int| 0 <= k < start.len() implies out@[k] == start[k] by {
                        assert(out@.subrange(0, mid.len() as int)[k] == mid[k]);
                    }
                }
                assert(entities_match(one, seq![(n@, fields_view(fs@))], av, generics@));
                lemma_entities_match_append(
                    one,
                    seq![(n@, fields_view(fs@))],
                    rest,
                    nested_of(fields_view(fs@)),
                    av,
                    generics@,
                );
                assert(one + rest =~= entities_view(
                    out@.subrange(start.len() as int, out@.len() as int),
                )) by {
                    assert(out@.subrange(0, mid.len() as int) == mid);
                    assert forall|k: int| start.len() <= k < mid.len() implies out@[k] == mid[k] by {
                        assert(out@.subrange(0, mid.len() as int)[k] == mid[k]);
                    }
                }
            }
        },
        _ => {
            assert(entities_view(out@.subrange(start.len() as int, out@.len() as int)) =~= Seq::<
                BuilderEntityView,
            >::empty());
            assert(out@.subrange(0, start.len() as int) =~= start);
        },
    }
}

fn generate_inner_builders(
    fs: &Vec<Field>,
    attributes: &Vec<Attribute>,
    generics: &String,
    out: &mut Vec<BuilderEntity>,
)
    ensures
        final(out)@.len() >= old(out)@.len(),
        final(out)@.subrange(0, old(out)@.len() as int) == old(out)@,
        entities_match(
            entities_view(final(out)@.subrange(old(out)@.len() as int, final(out)@.len() as int)),
            nested_of(fields_view(fs@)),
            attributes_view(attributes@),
            generics@,
        ),
    decreases fs,
{
    let ghost start = out@;
    let ghost av = attributes_view(attributes@);
    let ghost fv = fields_view(fs@);
    proof {
        lemma_fields_view_len(fs@);
    }
    let mut i: usize = 0;
    while i < fs.len()
        invariant
            i <= fs@.len(),
            fv == fields_view(fs@),
            fv.len() == fs@.len(),
            av == attributes_view(attributes@),
            start.len() <= out@.len(),
            out@.subrange(0, start.len() as int) == start,
            entities_match(
                entities_view(out@.subrange(start.len() as int, out@.len() as int)),
                nested_of(fv.subrange(0, i as int)),
                av,
                generics@,
            ),
        decreases fs@.len() - i,
    {
        let ghost before = out@;
        proof {
            lemma_fields_view_index(fs@, i as int);
        }
        generate_shape_builders(&fs[i].ty, attributes, generics, out);
        proof {
            let done = entities_view(before.subrange(start.len() as int, before.len() as int));
            let added = entities_view(out@.subrange(before.len() as int, out@.len() as int));
            lemma_entities_match_append(
                done,
                nested_of(fv.subrange(0, i as int)),
                added,
                shape_nested(fv[i as int].shape),
                av,
                generics@,
            );
            let p = fv.subrange(0, i as int + 1);
            assert(p.drop_last() =~= fv.subrange(0, i as int));
            assert(p.last() == fv[i as int]);
            assert forall|k: int| 0 <= k < before.len() implies out@[k] == before[k] by {
                assert(out@.subrange(0, before.len() as int)[k] == before[k]);
            }
            assert(out@.subrange(0, start.len() as int) =~= start);
            assert(done + added =~= entities_view(
                out@.subrange(start.len() as int, out@.len() as int),
            ));
        }
        i = i + 1;
    }
    assert(fv.subrange(0, fv.len() as int) =~= fv);
}

impl Generator {
    /// The prepared fields of `item`: each declared field classified, with the
    /// registered rules applied in order.
    pub fn generate_fields(&self, item: &SchemaItem) -> (r: Result<Vec<Field>, GenerateError>)
        ensures
            match fields_of(self@.registry, self@.rules, item@.name, item@.fields, seq![item@.name]) {
                Ok(fs) => r matches Ok(v) && fields_view(v@) == fs,
                Err(e) => r matches Err(x) && x@ == e,
            },
    {
        let mut visited: Vec<String> = Vec::new();
        visited.push(item.name.clone());
        assert(strings_view(visited@) =~= seq![item@.name]);
        let decls = item.declared_fields();
        self.generate_fields_in(&item.name, &decls, &visited)
    }

    /// The builders for `item`: its own first, then one for every nested item
    /// reached through its fields, depth first.
    pub fn generate(&self, item: &SchemaItem) -> (r: Result<Vec<BuilderEntity>, GenerateError>)
        ensures
            match fields_of(self@.registry, self@.rules, item@.name, item@.fields, seq![item@.name]) {
                Ok(fs) => r matches Ok(es) && entities_match(
                    entities_view(es@),
                    seq![(item@.name, fs)] + nested_of(fs),
                    attributes_view(item.attributes@),
                    item.generics@,
                ),
                Err(e) => r matches Err(x) && x@ == e,
            },
    {
        let fields = match self.generate_fields(item) {
            Ok(fs) => fs,
            Err(e) => {
                return Err(e);
            },
        };
        let mut out: Vec<BuilderEntity> = Vec::new();
        out.push(generate_entity(&item.name, &fields, &item.attributes, &item.generics));
        let ghost first = out@;
        generate_inner_builders(&fields, &item.attributes, &item.generics, &mut out);
        proof {
            let av = attributes_view(item.attributes@);
            let fv = fields_view(fields@);
            let one = entities_view(first);
            let rest = entities_view(out@.subrange(1, out@.len() as int));
            assert(entities_match(one, seq![(item@.name, fv)], av, item.generics@));
            lemma_entities_match_append(one, seq![(item@.name, fv)], rest, nested_of(fv), av, item.generics@);
            assert(out@.subrange(0, 1)[0] == first[0]);
            assert(one + rest =~= entities_view(out@));
        }
        Ok(out)
    }
}

} // verus!
