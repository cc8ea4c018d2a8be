//! What the generated builders do when run, and the laws they obey.
//!
//! A builder's state maps each field to its slot; arguments and stored values
//! are modelled as integers standing for arbitrary values of the field's type.
use vstd::prelude::*;

use crate::builder::{Conversion, FinalizeBranchView, SetterKind, SetterView};
use crate::field::{FieldView, branch_of, param, required_message, setter_of};
use crate::field_rule::{RuleView, rule_selects};
use crate::generator::{ErrorView, apply_action, apply_rules, fields_of, new_field, prepare_field, classify};
use crate::schema::{FieldDeclView, SchemaItemView, named};
use crate::shape::{Shape, decompose, setter_shape};

verus! {

/// The content of one builder field.
pub enum Slot {
    Absent,
    Held(int),
    Items(Seq<int>),
    Entries(Map<int, int>),
    /// A nested builder, with its own state.
    Nested(Map<Seq<char>, Slot>),
}

/// What a finalizer yields for one field.
pub enum Built {
    Absent,
    Present(Box<Built>),
    Raw(int),
    List(Seq<int>),
    Dict(Map<int, int>),
    /// The value converted to the item's declared type (as a whole, or
    /// element by element).
    Converted(Box<Built>),
    /// What a nested builder's finalizer constructed.
    Item(Seq<(Seq<char>, Built)>),
}

/// The slot of field `f` in builder state `st`; a fresh builder (`new`) has
/// every slot absent.
pub open spec fn slot(st: Map<Seq<char>, Slot>, f: Seq<char>) -> Slot {
    if st.dom().contains(f) {
        st[f]
    } else {
        Slot::Absent
    }
}

/// The state after calling setter `s` with arguments `args`.
pub open spec fn run_setter(s: SetterView, st: Map<Seq<char>, Slot>, args: Seq<int>) -> Map<
    Seq<char>,
    Slot,
> {
    match s.kind {
        SetterKind::Assign => st.insert(s.field, Slot::Held(args[0])),
        SetterKind::Append => {
            let items = match slot(st, s.field) {
                Slot::Items(xs) => xs,
                _ => Seq::empty(),
            };
            st.insert(s.field, Slot::Items(items.push(args[0])))
        },
        SetterKind::Insert => {
            let entries = match slot(st, s.field) {
                Slot::Entries(m) => m,
                _ => Map::empty(),
            };
            st.insert(s.field, Slot::Entries(entries.insert(args[0], args[1])))
        },
        SetterKind::Nested => match slot(st, s.field) {
            Slot::Nested(_) => st,
            _ => st.insert(s.field, Slot::Nested(Map::empty())),
        },
    }
}

/// The state after calling one-argument setter `s` once with each of `vs`,
/// in order.
pub open spec fn run_setter_each(s: SetterView, st: Map<Seq<char>, Slot>, vs: Seq<int>) -> Map<
    Seq<char>,
    Slot,
>
    decreases vs.len(),
{
    if vs.len() == 0 {
        st
    } else {
        run_setter(s, run_setter_each(s, st, vs.drop_last()), seq![vs.last()])
    }
}

/// The value stored in a present, non-nested slot.
pub open spec fn stored(sl: Slot) -> Built {
    match sl {
        Slot::Held(v) => Built::Raw(v),
        Slot::Items(xs) => Built::List(xs),
        Slot::Entries(m) => Built::Dict(m),
        _ => Built::Absent,
    }
}

/// The outcome of finalizer branch `b` on slot `sl`, where `nested` is the
/// outcome of the nested builder's own finalizer (used only by a nested
/// branch). A failure carries its message.
pub open spec fn run_branch(b: FinalizeBranchView, sl: Slot, nested: Result<Built, Seq<char>>) -> Result<
    Built,
    Seq<char>,
> {
    match sl {
        Slot::Absent => if b.required {
            Err(b.message)
        } else {
            Ok(Built::Absent)
        },
        _ => {
            let value = if b.nested {
                nested
            } else {
                Ok(stored(sl))
            };
            match value {
                Ok(x) => {
                    let x = if b.convert == Conversion::Keep {
                        x
                    } else {
                        Built::Converted(Box::new(x))
                    };
                    Ok(
                        if b.required {
                            x
                        } else {
                            Built::Present(Box::new(x))
                        },
                    )
                },
                Err(e) => Err(e),
            }
        },
    }
}

/// The shape a field was declared with, before any remapping.
pub open spec fn declared_shape(s: Shape) -> Shape
    decreases s,
{
    match s {
        Shape::Remapped(src, _) => declared_shape(*src),
        _ => s,
    }
}

/// A prepared field is optional exactly when it was declared with an absence
/// marker.
pub open spec fn field_wf(f: FieldView) -> bool {
    f.is_required == !(declared_shape(f.shape) is Nullable)
}

proof fn lemma_apply_rules_wf(
    reg: Seq<SchemaItemView>,
    rules: Seq<RuleView>,
    rs: Seq<RuleView>,
    item: Seq<char>,
    f: FieldView,
    visited: Seq<Seq<char>>,
)
    requires
        field_wf(f),
    ensures
        apply_rules(reg, rules, rs, item, f, visited) matches Ok(g) ==> field_wf(g),
    decreases rs.len(),
{
    if rs.len() > 0 {
        let step = if rule_selects(rs[0], item, f) {
            apply_action(reg, rules, rs[0].action, f, visited)
        } else {
            Ok(f)
        };
        if let Ok(g) = step {
            lemma_apply_rules_wf(reg, rules, rs.drop_first(), item, g, visited);
        }
    }
}

/// Every prepared field is well formed: rules rename, remap and drop
/// attributes, but never change whether a field is optional.
pub proof fn lemma_prepared_fields_wf(
    reg: Seq<SchemaItemView>,
    rules: Seq<RuleView>,
    item: Seq<char>,
    ds: Seq<FieldDeclView>,
    visited: Seq<Seq<char>>,
)
    ensures
        fields_of(reg, rules, item, ds, visited) matches Ok(fs) ==> forall|i: int|
            0 <= i < fs.len() ==> field_wf(#[trigger] fs[i]),
    decreases ds.len(),
{
    if ds.len() > 0 {
        lemma_prepared_fields_wf(reg, rules, item, ds.drop_first(), visited);
        if let Ok(s) = classify(reg, rules, ds[0].ty, visited) {
            lemma_apply_rules_wf(reg, rules, rules, item, new_field(ds[0], s), visited);
        }
        if let Ok(fs) = fields_of(reg, rules, item, ds, visited) {
            let f = prepare_field(reg, rules, item, ds[0], visited)->Ok_0;
            let rest = fields_of(reg, rules, item, ds.drop_first(), visited)->Ok_0;
            assert(fs == seq![f] + rest);
            assert forall|i: int| 0 <= i < fs.len() implies field_wf(#[trigger] fs[i]) by {
                if i > 0 {
                    assert(fs[i] == rest[i - 1]);
                }
            }
        }
    }
}

/// A required field whose builder stores plain values (a primitive or a
/// generic wrapper): its setter replaces whatever was stored, and the
/// finalizer yields the stored value, or fails with the required-field
/// message when nothing was set.
pub proof fn lemma_plain_required_field(
    f: FieldView,
    st: Map<Seq<char>, Slot>,
    v: int,
    nested: Result<Built, Seq<char>>,
)
    requires
        f.shape is Primitive || f.shape is Generic,
        f.is_required,
    ensures
        slot(run_setter(setter_of(f), st, seq![v]), f.ident) == Slot::Held(v),
        run_branch(branch_of(f), Slot::Held(v), nested) == Ok::<Built, Seq<char>>(Built::Raw(v)),
        run_branch(branch_of(f), Slot::Absent, nested) == Err::<Built, Seq<char>>(
            required_message(f.ident),
        ),
{
}

/// An optional field (declared with an absence marker): unless it holds a
/// nested item, its setter assigns one value of the unwrapped type; the
/// finalizer never fails on its own account; it yields absence when nothing
/// was set, and the stored value (or the nested builder's result) wrapped as
/// present otherwise.
pub proof fn lemma_optional_field(f: FieldView, sl: Slot, nested: Result<Built, Seq<char>>)
    requires
        f.shape is Nullable,
        field_wf(f),
    ensures
        run_branch(branch_of(f), Slot::Absent, nested) == Ok::<Built, Seq<char>>(Built::Absent),
        !(setter_shape(f.shape) is Complex) ==> setter_of(f).kind == SetterKind::Assign
            && setter_of(f).params == seq![param("value"@, decompose(f.shape))],
        !(sl is Absent) && !(setter_shape(f.shape) is Complex) ==> run_branch(
            branch_of(f),
            sl,
            nested,
        ) == Ok::<Built, Seq<char>>(Built::Present(Box::new(stored(sl)))),
        !(sl is Absent) && setter_shape(f.shape) is Complex ==> run_branch(branch_of(f), sl, nested)
            == match nested {
            Ok(x) => Ok::<Built, Seq<char>>(Built::Present(Box::new(x))),
            Err(e) => Err(e),
        },
{
}

/// A sequence field: calling its setter with `v1 .. vN` appends them in call
/// order, starting from an empty sequence when the field was absent; the
/// finalizer yields the accumulated sequence, and fails when the field is
/// required and was never set.
pub proof fn lemma_sequence_field(
    f: FieldView,
    st: Map<Seq<char>, Slot>,
    vs: Seq<int>,
    nested: Result<Built, Seq<char>>,
)
    requires
        f.shape is Sequence,
        slot(st, f.ident) is Absent,
    ensures
        vs.len() > 0 ==> slot(run_setter_each(setter_of(f), st, vs), f.ident) == Slot::Items(vs),
        vs.len() == 0 ==> slot(run_setter_each(setter_of(f), st, vs), f.ident) == Slot::Absent,
        f.is_required ==> run_branch(branch_of(f), Slot::Items(vs), nested) == Ok::<
            Built,
            Seq<char>,
        >(Built::List(vs)),
        f.is_required ==> run_branch(branch_of(f), Slot::Absent, nested) == Err::<
            Built,
            Seq<char>,
        >(required_message(f.ident)),
    decreases vs.len(),
{
    if vs.len() > 0 {
        lemma_sequence_field(f, st, vs.drop_last(), nested);
        if vs.len() == 1 {
            assert(seq![vs.last()] =~= vs);
        } else {
            assert(vs.drop_last().push(vs.last()) =~= vs);
        }
    }
}

/// A mapping field: its setter starts an empty mapping when the field was
/// absent and inserts `key -> value`; a second call with the same key
/// replaces the value for that key and keeps one entry per key; the finalizer
/// yields the accumulated mapping.
pub proof fn lemma_mapping_field(
    f: FieldView,
    st: Map<Seq<char>, Slot>,
    k: int,
    v1: int,
    v2: int,
    m: Map<int, int>,
    nested: Result<Built, Seq<char>>,
)
    requires
        f.shape is Mapping,
    ensures
        slot(st, f.ident) is Absent ==> slot(run_setter(setter_of(f), st, seq![k, v1]), f.ident)
            == Slot::Entries(map![k => v1]),
        ({
            let once = run_setter(setter_of(f), st, seq![k, v1]);
            let twice = run_setter(setter_of(f), once, seq![k, v2]);
            match (slot(once, f.ident), slot(twice, f.ident)) {
                (Slot::Entries(m1), Slot::Entries(m2)) => m2 == m1.insert(k, v2) && m2[k] == v2
                    && m2.dom() == m1.dom(),
                _ => false,
            }
        }),
        f.is_required ==> run_branch(branch_of(f), Slot::Entries(m), nested) == Ok::<
            Built,
            Seq<char>,
        >(Built::Dict(m)),
{
    let once = run_setter(setter_of(f), st, seq![k, v1]);
    let twice = run_setter(setter_of(f), once, seq![k, v2]);
    if let Slot::Entries(m1) = slot(once, f.ident) {
        assert(m1.insert(k, v2).dom() =~= m1.dom());
        assert(m1.insert(k, v1) =~= m1);
    }
    assert(Map::<int, int>::empty().insert(k, v1) =~= map![k => v1]);
}

/// The state after calling key-value setter `s` once with each pair of `ps`,
/// in order.
pub open spec fn run_setter_pairs(s: SetterView, st: Map<Seq<char>, Slot>, ps: Seq<(int, int)>) -> Map<
    Seq<char>,
    Slot,
>
    decreases ps.len(),
{
    if ps.len() == 0 {
        st
    } else {
        run_setter(s, run_setter_pairs(s, st, ps.drop_last()), seq![ps.last().0, ps.last().1])
    }
}

/// The distinct keys among pairs `ps`.
pub open spec fn keys_of(ps: Seq<(int, int)>) -> Set<int> {
    Set::new(|k: int| exists|i: int| 0 <= i < ps.len() && ps[i].0 == k)
}

/// A mapping field, from absent, after its setter was called with the pairs
/// `ps`: one entry per distinct key, holding the value of the last call with
/// that key.
pub proof fn lemma_mapping_field_pairs(f: FieldView, st: Map<Seq<char>, Slot>, ps: Seq<(int, int)>)
    requires
        f.shape is Mapping,
        slot(st, f.ident) is Absent,
        ps.len() > 0,
    ensures
        slot(run_setter_pairs(setter_of(f), st, ps), f.ident) matches Slot::Entries(m) && m.dom()
            == keys_of(ps) && forall|i: int|
            0 <= i < ps.len() && (forall|j: int| i < j < ps.len() ==> ps[j].0 != ps[i].0)
                ==> m[#[trigger] ps[i].0] == ps[i].1,
    decreases ps.len(),
{
    let prev = ps.drop_last();
    let last = ps.last();
    if ps.len() == 1 {
        let m = Map::<int, int>::empty().insert(last.0, last.1);
        assert(m.dom() =~= keys_of(ps)) by {
            assert forall|k: int| keys_of(ps).contains(k) implies m.dom().contains(k) by {
                let i = choose|i: int| 0 <= i < ps.len() && ps[i].0 == k;
                assert(i == 0);
            }
            assert(ps[0].0 == last.0);
        }
    } else {
        lemma_mapping_field_pairs(f, st, prev);
        let m0 = match slot(run_setter_pairs(setter_of(f), st, prev), f.ident) {
            Slot::Entries(m) => m,
            _ => Map::empty(),
        };
        let m = m0.insert(last.0, last.1);
        assert(m.dom() =~= keys_of(ps)) by {
            assert forall|k: int| keys_of(ps).contains(k) implies m.dom().contains(k) by {
                let i = choose|i: int| 0 <= i < ps.len() && ps[i].0 == k;
                if i < ps.len() - 1 {
                    assert(prev[i].0 == k);
                    assert(keys_of(prev).contains(k));
                }
            }
            assert forall|k: int| m.dom().contains(k) implies keys_of(ps).contains(k) by {
                if k != last.0 {
                    assert(keys_of(prev).contains(k));
                    let i = choose|i: int| 0 <= i < prev.len() && prev[i].0 == k;
                    assert(ps[i].0 == k);
                } else {
                    assert(ps[ps.len() - 1].0 == k);
                }
            }
        }
        assert forall|i: int|
            0 <= i < ps.len() && (forall|j: int| i < j < ps.len() ==> ps[j].0 != ps[i].0) implies m[
            #[trigger] ps[i].0] == ps[i].1 by {
            if i < ps.len() - 1 {
                assert(ps[ps.len() - 1].0 != ps[i].0);
                assert(prev[i] == ps[i]);
                assert forall|j: int| i < j < prev.len() implies prev[j].0 != prev[i].0 by {
                    assert(prev[j] == ps[j]);
                }
            }
        }
    }
}

/// A nested-item field: its setter starts a fresh nested builder only when
/// none exists, and otherwise leaves the existing one (and all it holds)
/// untouched, so repeated calls reach the same nested builder; the finalizer
/// yields exactly what the nested builder's own finalizer yields, failing
/// only when that one fails, or when nothing was set.
pub proof fn lemma_nested_field(
    f: FieldView,
    st: Map<Seq<char>, Slot>,
    inner: Map<Seq<char>, Slot>,
    nested: Result<Built, Seq<char>>,
)
    requires
        f.shape is Complex,
        field_wf(f),
    ensures
        run_setter(setter_of(f), run_setter(setter_of(f), st, seq![]), seq![]) == run_setter(
            setter_of(f),
            st,
            seq![],
        ),
        slot(st, f.ident) == Slot::Nested(inner) ==> run_setter(setter_of(f), st, seq![]) == st,
        slot(st, f.ident) is Absent ==> slot(run_setter(setter_of(f), st, seq![]), f.ident)
            == Slot::Nested(Map::empty()),
        run_branch(branch_of(f), Slot::Nested(inner), nested) == nested,
        run_branch(branch_of(f), Slot::Absent, nested) == Err::<Built, Seq<char>>(
            required_message(f.ident),
        ),
{
}

/// A rule scoped to item `a` leaves the fields of any other item untouched,
/// whatever their names.
pub proof fn lemma_rule_scoped_to_item(
    reg: Seq<SchemaItemView>,
    rules: Seq<RuleView>,
    r: RuleView,
    a: Seq<char>,
    b: Seq<char>,
    f: FieldView,
    visited: Seq<Seq<char>>,
)
    requires
        r.item == Some(a),
        a != b,
    ensures
        !rule_selects(r, b, f),
        apply_rules(reg, rules, seq![r], b, f, visited) == Ok::<FieldView, ErrorView>(f),
{
    assert(seq![r].drop_first() =~= Seq::<RuleView>::empty());
    assert(apply_rules(reg, rules, Seq::<RuleView>::empty(), b, f, visited) == Ok::<
        FieldView,
        ErrorView,
    >(f));
}

/// A rule with a field-type selector `t` applies its action to every field
/// of its item whose builder type is `t`, whatever the field's name.
pub proof fn lemma_rule_by_field_type(
    reg: Seq<SchemaItemView>,
    rules: Seq<RuleView>,
    r: RuleView,
    a: Seq<char>,
    t: Seq<char>,
    f: FieldView,
    visited: Seq<Seq<char>>,
)
    requires
        r.item == Some(a) || r.item is None,
        r.field is None,
        r.field_type == Some(t),
        decompose(f.shape) == named(t),
    ensures
        rule_selects(r, a, f),
        apply_rules(reg, rules, seq![r], a, f, visited) == apply_action(
            reg,
            rules,
            r.action,
            f,
            visited,
        ),
{
    assert(seq![r].drop_first() =~= Seq::<RuleView>::empty());
    match apply_action(reg, rules, r.action, f, visited) {
        Ok(g) => {
            assert(apply_rules(reg, rules, Seq::<RuleView>::empty(), a, g, visited) == Ok::<
                FieldView,
                ErrorView,
            >(g));
        },
        Err(e) => {},
    }
}

} // verus!
