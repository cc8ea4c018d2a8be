//! The generator: registry lookup, type classification, and field
//! preparation under the registered rules.
use vstd::prelude::*;

use crate::field::{Field, FieldView, fields_view, lemma_fields_view_push};
use crate::field_rule::{
    ActionView, FieldRule, FieldRuleItemSelectorBuilder, FieldRuleThenSelectorBuilder, RuleAction,
    RuleView, retain_unmatched, rule_selects, rules_view,
};
use crate::schema::{
    FieldDecl, FieldDeclView, SchemaItem, SchemaItemView, TypeRef, TypeRefView, copy_attributes,
    items_view, lemma_type_refs_view_index, strings_view,
};
use crate::shape::{FieldTypeSegment, Shape};

verus! {

broadcast use vstd::std_specs::vec::group_vec_axioms, vstd::seq::group_seq_axioms;

/// Why a schema item cannot be given a builder.
#[derive(Clone, Debug, PartialEq, Eq)]
pub enum GenerateError {
    /// A declared type is not a nameable type path.
    NotNameable,
    /// A container or wrapper has the wrong number of type arguments.
    Arity(String),
    /// The named item is reached again while its own fields are classified.
    Cycle(String),
}

pub enum ErrorView {
    NotNameable,
    Arity(Seq<char>),
    Cycle(Seq<char>),
}

impl View for GenerateError {
    type V = ErrorView;

    open spec fn view(&self) -> ErrorView {
        match self {
            GenerateError::NotNameable => ErrorView::NotNameable,
            GenerateError::Arity(n) => ErrorView::Arity(n@),
            GenerateError::Cycle(n) => ErrorView::Cycle(n@),
        }
    }
}

/// The type names that classify as primitive.
pub open spec fn reserved(n: Seq<char>) -> bool {
    ||| n == "i8"@
    ||| n == "i16"@
    ||| n == "i32"@
    ||| n == "i64"@
    ||| n == "u8"@
    ||| n == "u16"@
    ||| n == "u32"@
    ||| n == "u64"@
    ||| n == "f32"@
    ||| n == "f64"@
    ||| n == "bool"@
    ||| n == "str"@
    ||| n == "String"@
    ||| n == "Vec"@
    ||| n == "HashMap"@
}

/// The position of the first registered item named `n`.
pub open spec fn find_index(reg: Seq<SchemaItemView>, n: Seq<char>) -> Option<int>
    decreases reg.len(),
{
    if reg.len() == 0 {
        None
    } else {
        match find_index(reg.drop_last(), n) {
            Some(i) => Some(i),
            None => if reg.last().name == n {
                Some(reg.len() - 1)
            } else {
                None
            },
        }
    }
}

pub proof fn lemma_find_index(reg: Seq<SchemaItemView>, n: Seq<char>)
    ensures
        find_index(reg, n) matches Some(i) ==> 0 <= i < reg.len() && reg[i].name == n
            && forall|j: int| 0 <= j < i ==> reg[j].name != n,
        find_index(reg, n) is None ==> forall|j: int| 0 <= j < reg.len() ==> reg[j].name != n,
    decreases reg.len(),
{
    if reg.len() > 0 {
        let prefix = reg.drop_last();
        lemma_find_index(prefix, n);
        assert forall|j: int| 0 <= j < prefix.len() implies prefix[j] == reg[j] by {}
    }
}

/// How many registered items are not yet in `visited`.
pub open spec fn unvisited(reg: Seq<SchemaItemView>, visited: Seq<Seq<char>>) -> nat
    decreases reg.len(),
{
    if reg.len() == 0 {
        0
    } else {
        unvisited(reg.drop_last(), visited) + if visited.contains(reg.last().name) {
            0nat
        } else {
            1nat
        }
    }
}

pub proof fn lemma_unvisited_push(reg: Seq<SchemaItemView>, visited: Seq<Seq<char>>, n: Seq<char>)
    ensures
        unvisited(reg, visited.push(n)) <= unvisited(reg, visited),
        (exists|i: int| 0 <= i < reg.len() && reg[i].name == n) && !visited.contains(n)
            ==> unvisited(reg, visited.push(n)) < unvisited(reg, visited),
    decreases reg.len(),
{
    if reg.len() > 0 {
        lemma_unvisited_push(reg.drop_last(), visited, n);
        assert(visited.push(n).contains(reg.last().name) <== visited.contains(reg.last().name)) by {
            if visited.contains(reg.last().name) {
                let k = choose|k: int| 0 <= k < visited.len() && visited[k] == reg.last().name;
                assert(visited.push(n)[k] == reg.last().name);
            }
        }
        if (exists|i: int| 0 <= i < reg.len() && reg[i].name == n) && !visited.contains(n) {
            let i = choose|i: int| 0 <= i < reg.len() && reg[i].name == n;
            assert(visited.push(n)[visited.len() as int] == n);
            if i < reg.len() - 1 {
                assert(reg.drop_last()[i].name == n);
            }
        }
    }
}

/// Nesting measure of a declared type.
pub open spec fn depth(t: TypeRefView) -> nat
    decreases t,
{
    1 + depths(t.args)
}

pub open spec fn depths(s: Seq<TypeRefView>) -> nat
    decreases s,
{
    if s.len() == 0 {
        0
    } else {
        depths(s.drop_last()) + depth(s.last())
    }
}

pub proof fn lemma_depth_arg(s: Seq<TypeRefView>, i: int)
    requires
        0 <= i < s.len(),
    ensures
        depth(s[i]) <= depths(s),
    decreases s.len(),
{
    if i < s.len() - 1 {
        lemma_depth_arg(s.drop_last(), i);
    }
}

/// The field model of declaration `d` with shape `s`: required unless the
/// declared type marks absence.
pub open spec fn new_field(d: FieldDeclView, s: Shape) -> FieldView {
    FieldView { ident: d.name, shape: s, is_required: !(s is Nullable), attributes: d.attributes }
}

/// Classification of declared type `t` against registry `reg` under `rules`,
/// with `visited` the items whose fields are being classified.
pub open spec fn classify(
    reg: Seq<SchemaItemView>,
    rules: Seq<RuleView>,
    t: TypeRefView,
    visited: Seq<Seq<char>>,
) -> Result<Shape, ErrorView>
    decreases unvisited(reg, visited), 0int, depth(t),
{
    if t.path.len() == 0 {
        Err(ErrorView::NotNameable)
    } else {
        let n = t.path.last();
        if n == "Vec"@ {
            if t.args.len() == 1 {
                proof {
                    lemma_depth_arg(t.args, 0);
                }
                match classify(reg, rules, t.args[0], visited) {
                    Ok(e) => Ok(Shape::Sequence(Box::new(e))),
                    Err(e) => Err(e),
                }
            } else {
                Err(ErrorView::Arity(n))
            }
        } else if n == "HashMap"@ {
            if t.args.len() == 2 {
                proof {
                    lemma_depth_arg(t.args, 0);
                    lemma_depth_arg(t.args, 1);
                }
                match classify(reg, rules, t.args[0], visited) {
                    Ok(k) => match classify(reg, rules, t.args[1], visited) {
                        Ok(v) => Ok(Shape::Mapping(Box::new(k), Box::new(v))),
                        Err(e) => Err(e),
                    },
                    Err(e) => Err(e),
                }
            } else {
                Err(ErrorView::Arity(n))
            }
        } else if n == "Option"@ {
            if t.args.len() == 1 {
                proof {
                    lemma_depth_arg(t.args, 0);
                }
                match classify(reg, rules, t.args[0], visited) {
                    Ok(i) => Ok(Shape::Nullable(Box::new(i))),
                    Err(e) => Err(e),
                }
            } else {
                Err(ErrorView::Arity(n))
            }
        } else if reserved(n) {
            Ok(Shape::Primitive(n))
        } else {
            match find_index(reg, n) {
                Some(i) => if visited.contains(n) {
                    Err(ErrorView::Cycle(n))
                } else {
                    proof {
                        lemma_find_index(reg, n);
                        lemma_unvisited_push(reg, visited, n);
                    }
                    match fields_of(reg, rules, n, reg[i].fields, visited.push(n)) {
                        Ok(fs) => Ok(Shape::Complex(n, fs)),
                        Err(e) => Err(e),
                    }
                },
                None => if t.args.len() == 0 {
                    Ok(Shape::Primitive(n))
                } else if t.args.len() == 1 {
                    proof {
                        lemma_depth_arg(t.args, 0);
                    }
                    match classify(reg, rules, t.args[0], visited) {
                        Ok(u) => Ok(Shape::Generic(n, Box::new(u))),
                        Err(e) => Err(e),
                    }
                } else {
                    Err(ErrorView::Arity(n))
                },
            }
        }
    }
}

/// The effect of action `a` on field `f`.
pub open spec fn apply_action(
    reg: Seq<SchemaItemView>,
    rules: Seq<RuleView>,
    a: ActionView,
    f: FieldView,
    visited: Seq<Seq<char>>,
) -> Result<FieldView, ErrorView>
    decreases unvisited(reg, visited), 1int, 0nat,
{
    match a {
        ActionView::Rename(n) => Ok(FieldView { ident: n, ..f }),
        ActionView::Remap(t) => match classify(reg, rules, t, visited) {
            Ok(target) => Ok(
                FieldView { shape: Shape::Remapped(Box::new(f.shape), Box::new(target)), ..f },
            ),
            Err(e) => Err(e),
        },
        ActionView::DiscardAttribute(m) => Ok(
            match m {
                Some(m) => FieldView { attributes: retain_unmatched(f.attributes, m), ..f },
                None => f,
            },
        ),
    }
}

/// Rules `rs`, in order, applied to field `f` of item `item`.
pub open spec fn apply_rules(
    reg: Seq<SchemaItemView>,
    rules: Seq<RuleView>,
    rs: Seq<RuleView>,
    item: Seq<char>,
    f: FieldView,
    visited: Seq<Seq<char>>,
) -> Result<FieldView, ErrorView>
    decreases unvisited(reg, visited), 2int, rs.len(),
{
    if rs.len() == 0 {
        Ok(f)
    } else {
        let step = if rule_selects(rs[0], item, f) {
            apply_action(reg, rules, rs[0].action, f, visited)
        } else {
            Ok(f)
        };
        match step {
            Ok(g) => apply_rules(reg, rules, rs.drop_first(), item, g, visited),
            Err(e) => Err(e),
        }
    }
}

/// The field model of declaration `d` of item `item`, all rules applied.
pub open spec fn prepare_field(
    reg: Seq<SchemaItemView>,
    rules: Seq<RuleView>,
    item: Seq<char>,
    d: FieldDeclView,
    visited: Seq<Seq<char>>,
) -> Result<FieldView, ErrorView>
    decreases unvisited(reg, visited), 3int, 0nat,
{
    match classify(reg, rules, d.ty, visited) {
        Ok(s) => apply_rules(reg, rules, rules, item, new_field(d, s), visited),
        Err(e) => Err(e),
    }
}

/// The field models of declarations `ds` of item `item`, in order; the first
/// failure, if any.
pub open spec fn fields_of(
    reg: Seq<SchemaItemView>,
    rules: Seq<RuleView>,
    item: Seq<char>,
    ds: Seq<FieldDeclView>,
    visited: Seq<Seq<char>>,
) -> Result<Seq<FieldView>, ErrorView>
    decreases unvisited(reg, visited), 4int, ds.len(),
{
    if ds.len() == 0 {
        Ok(Seq::empty())
    } else {
        match prepare_field(reg, rules, item, ds[0], visited) {
            Ok(f) => match fields_of(reg, rules, item, ds.drop_first(), visited) {
                Ok(fs) => Ok(seq![f] + fs),
                Err(e) => Err(e),
            },
            Err(e) => Err(e),
        }
    }
}

/// The generator: a registry of schema items and the registered field rules.
pub struct Generator {
    pub modules: Vec<SchemaItem>,
    pub field_rules: Vec<FieldRule>,
}

pub struct GeneratorView {
    pub registry: Seq<SchemaItemView>,
    pub rules: Seq<RuleView>,
}

impl View for Generator {
    type V = GeneratorView;

    open spec fn view(&self) -> GeneratorView {
        GeneratorView { registry: items_view(self.modules@), rules: rules_view(self.field_rules@) }
    }
}

pub open spec fn opt_shape(r: Result<FieldTypeSegment, GenerateError>) -> Result<Shape, ErrorView> {
    match r {
        Ok(s) => Ok(s@),
        Err(e) => Err(e@),
    }
}

pub open spec fn opt_field(r: Result<Field, GenerateError>) -> Result<FieldView, ErrorView> {
    match r {
        Ok(f) => Ok(f@),
        Err(e) => Err(e@),
    }
}

pub open spec fn opt_fields(r: Result<Vec<Field>, GenerateError>) -> Result<Seq<FieldView>, ErrorView> {
    match r {
        Ok(fs) => Ok(fields_view(fs@)),
        Err(e) => Err(e@),
    }
}

fn is_reserved(n: &String) -> (r: bool)
    ensures
        r == reserved(n@),
{
    *n == String::from_str("i8") || *n == String::from_str("i16") || *n == String::from_str("i32")
        || *n == String::from_str("i64") || *n == String::from_str("u8") || *n == String::from_str(
        "u16",
    ) || *n == String::from_str("u32") || *n == String::from_str("u64") || *n == String::from_str(
        "f32",
    ) || *n == String::from_str("f64") || *n == String::from_str("bool") || *n == String::from_str(
        "str",
    ) || *n == String::from_str("String") || *n == String::from_str("Vec") || *n
        == String::from_str("HashMap")
}

fn contains_name(visited: &Vec<String>, n: &String) -> (r: bool)
    ensures
        r == strings_view(visited@).contains(n@),
{
    let mut i: usize = 0;
    while i < visited.len()
        invariant
            i <= visited@.len(),
            forall|j: int| 0 <= j < i ==> visited@[j]@ != n@,
        decreases visited@.len() - i,
    {
        if visited[i] == *n {
            assert(strings_view(visited@)[i as int] == n@);
            return true;
        }
        i = i + 1;
    }
    assert(!strings_view(visited@).contains(n@)) by {
        if strings_view(visited@).contains(n@) {
            let k = choose|k: int| 0 <= k < visited@.len() && strings_view(visited@)[k] == n@;
            assert(visited@[k]@ == n@);
        }
    }
    false
}

fn with_name(visited: &Vec<String>, n: &String) -> (r: Vec<String>)
    ensures
        strings_view(r@) == strings_view(visited@).push(n@),
{
    let mut r = crate::schema::copy_strings(visited);
    r.push(n.clone());
    assert(strings_view(r@) =~= strings_view(visited@).push(n@));
    r
}

impl Generator {
    /// A generator over the given registry of schema items, with no rules.
    pub fn new(modules: Vec<SchemaItem>) -> (r: Generator)
        ensures
            r@.registry == items_view(modules@),
            r@.rules.len() == 0,
    {
        Generator { modules, field_rules: Vec::new() }
    }

    /// Starts the registration of a rule.
    pub fn with_rule(&self) -> (r: FieldRuleItemSelectorBuilder) {
        FieldRuleItemSelectorBuilder::new()
    }

    /// Adds the rules recorded by a registration chain, in order, after those
    /// already registered.
    pub fn register(&mut self, chain: FieldRuleThenSelectorBuilder)
        ensures
            final(self)@.registry == old(self)@.registry,
            final(self)@.rules == old(self)@.rules + rules_view(chain.rules@),
    {
        let mut rules = chain.rules;
        let ghost start = self.field_rules@;
        let ghost added = rules@;
        self.field_rules.append(&mut rules);
        assert(rules_view(self.field_rules@) =~= rules_view(start) + rules_view(added));
    }

    fn find_index(&self, name: &String) -> (r: Option<usize>)
        ensures
            r matches Some(i) ==> find_index(self@.registry, name@) == Some(i as int),
            r is None ==> find_index(self@.registry, name@) is None,
    {
        let ghost reg = self@.registry;
        let mut i: usize = 0;
        while i < self.modules.len()
            invariant
                i <= self.modules@.len(),
                reg == self@.registry,
                forall|j: int| 0 <= j < i ==> reg[j].name != name@,
            decreases self.modules@.len() - i,
        {
            assert(reg[i as int].name == self.modules@[i as int].name@);
            if self.modules[i].name == *name {
                proof {
                    lemma_find_index(reg, name@);
                    if let Some(k) = find_index(reg, name@) {
                        assert(k == i);
                    }
                }
                return Some(i);
            }
            i = i + 1;
        }
        proof {
            lemma_find_index(reg, name@);
        }
        None
    }

    /// The first registered item named `name`.
    pub fn find_item(&self, name: &String) -> (r: Option<&SchemaItem>)
        ensures
            find_index(self@.registry, name@) matches Some(i) ==> r == Some(&self.modules@[i]),
            find_index(self@.registry, name@) is None ==> r is None,
    {
        proof {
            lemma_find_index(self@.registry, name@);
        }
        match self.find_index(name) {
            Some(i) => Some(&self.modules[i]),
            None => None,
        }
    }

    fn classify(&self, t: &TypeRef, visited: &Vec<String>) -> (r: Result<
        FieldTypeSegment,
        GenerateError,
    >)
        ensures
            opt_shape(r) == classify(self@.registry, self@.rules, t@, strings_view(visited@)),
        decreases unvisited(self@.registry, strings_view(visited@)), 0int, depth(t@),
    {
        let ghost reg = self@.registry;
        let ghost rules = self@.rules;
        let ghost vis = strings_view(visited@);
        proof {
            crate::schema::lemma_type_refs_view_len(t.args@);
        }
        if t.path.len() == 0 {
            return Err(GenerateError::NotNameable);
        }
        let n = &t.path[t.path.len() - 1];
        assert(n@ == t@.path.last());
        if *n == String::from_str("Vec") {
            if t.args.len() == 1 {
                proof {
                    lemma_type_refs_view_index(t.args@, 0);
                    lemma_depth_arg(t@.args, 0);
                }
                return match self.classify(&t.args[0], visited) {
                    Ok(e) => Ok(FieldTypeSegment::Sequence(Box::new(e))),
                    Err(e) => Err(e),
                };
            }
            return Err(GenerateError::Arity(n.clone()));
        }
        if *n == String::from_str("HashMap") {
            if t.args.len() == 2 {
                proof {
                    lemma_type_refs_view_index(t.args@, 0);
                    lemma_type_refs_view_index(t.args@, 1);
                    lemma_depth_arg(t@.args, 0);
                    lemma_depth_arg(t@.args, 1);
                }
                let k = match self.classify(&t.args[0], visited) {
                    Ok(k) => k,
                    Err(e) => {
                        return Err(e);
                    },
                };
                return match self.classify(&t.args[1], visited) {
                    Ok(v) => Ok(FieldTypeSegment::Mapping(Box::new(k), Box::new(v))),
                    Err(e) => Err(e),
                };
            }
            return Err(GenerateError::Arity(n.clone()));
        }
        if *n == String::from_str("Option") {
            if t.args.len() == 1 {
                proof {
                    lemma_type_refs_view_index(t.args@, 0);
                    lemma_depth_arg(t@.args, 0);
                }
                return match self.classify(&t.args[0], visited) {
                    Ok(i) => Ok(FieldTypeSegment::Nullable(Box::new(i))),
                    Err(e) => Err(e),
                };
            }
            return Err(GenerateError::Arity(n.clone()));
        }
        if is_reserved(n) {
            return Ok(FieldTypeSegment::Primitive(n.clone()));
        }
        match self.find_index(n) {
            Some(i) => {
                if contains_name(visited, n) {
                    return Err(GenerateError::Cycle(n.clone()));
                }
                proof {
                    lemma_find_index(reg, n@);
                    lemma_unvisited_push(reg, vis, n@);
                }
                let next = with_name(visited, n);
                let item = &self.modules[i];
                let decls = item.declared_fields();
                assert(decls@.map_values(|f: &FieldDecl| f@) == reg[i as int].fields);
                match self.generate_fields_in(&item.name, &decls, &next) {
                    Ok(fs) => Ok(FieldTypeSegment::Complex(n.clone(), fs)),
                    Err(e) => Err(e),
                }
            },
            None => {
                if t.args.len() == 0 {
                    Ok(FieldTypeSegment::Primitive(n.clone()))
                } else if t.args.len() == 1 {
                    proof {
                        lemma_type_refs_view_index(t.args@, 0);
                        lemma_depth_arg(t@.args, 0);
                    }
                    match self.classify(&t.args[0], visited) {
                        Ok(u) => Ok(FieldTypeSegment::Generic(n.clone(), Box::new(u))),
                        Err(e) => Err(e),
                    }
                } else {
                    Err(GenerateError::Arity(n.clone()))
                }
            },
        }
    }

    fn apply_action(&self, a: &RuleAction, f: Field, visited: &Vec<String>) -> (r: Result<
        Field,
        GenerateError,
    >)
        ensures
            opt_field(r) == apply_action(
                self@.registry,
                self@.rules,
                a@,
                f@,
                strings_view(visited@),
            ),
        decreases unvisited(self@.registry, strings_view(visited@)), 1int, 0nat,
    {
        let mut f = f;
        match a {
            RuleAction::Rename(n) => {
                f.rename(n.clone());
                Ok(f)
            },
            RuleAction::Remap(t) => {
                match self.classify(t, visited) {
                    Ok(target) => {
                        let mut source = FieldTypeSegment::Primitive(String::new());
                        std::mem::swap(&mut source, &mut f.ty);
                        f.ty = FieldTypeSegment::Remapped(Box::new(source), Box::new(target));
                        Ok(f)
                    },
                    Err(e) => Err(e),
                }
            },
            RuleAction::DiscardAttribute(m) => {
                match m {
                    Some(m) => f.discard_attribute(m),
                    None => {},
                }
                Ok(f)
            },
        }
    }

    fn apply_rules(&self, item: &String, f: Field, visited: &Vec<String>) -> (r: Result<
        Field,
        GenerateError,
    >)
        ensures
            opt_field(r) == apply_rules(
                self@.registry,
                self@.rules,
                self@.rules,
                item@,
                f@,
                strings_view(visited@),
            ),
        decreases unvisited(self@.registry, strings_view(visited@)), 2int, 0nat,
    {
        let ghost reg = self@.registry;
        let ghost rules = self@.rules;
        let ghost vis = strings_view(visited@);
        let ghost f0 = f@;
        let mut cur = f;
        let mut i: usize = 0;
        assert(rules.subrange(0, rules.len() as int) =~= rules);
        while i < self.field_rules.len()
            invariant
                i <= self.field_rules@.len(),
                reg == self@.registry,
                rules == self@.rules,
                rules.len() == self.field_rules@.len(),
                vis == strings_view(visited@),
                f0 == f@,
                apply_rules(reg, rules, rules, item@, f0, vis) == apply_rules(
                    reg,
                    rules,
                    rules.subrange(i as int, rules.len() as int),
                    item@,
                    cur@,
                    vis,
                ),
            decreases self.field_rules@.len() - i,
        {
            let rule = &self.field_rules[i];
            let ghost rest = rules.subrange(i as int, rules.len() as int);
            assert(rest[0] == rule@);
            assert(rest.drop_first() =~= rules.subrange(i as int + 1, rules.len() as int));
            let ghost cv = cur@;
            assert(apply_rules(reg, rules, rules, item@, f0, vis) == apply_rules(reg, rules, rest, item@, cv, vis));
            match rule.apply(self, item, cur, visited) {
                Ok(g) => {
                    cur = g;
                },
                Err(e) => {
                    assert(apply_rules(reg, rules, rest, item@, cv, vis) == Err::<FieldView, ErrorView>(e@));
                    return Err(e);
                },
            }
            i = i + 1;
        }
        assert(rules.subrange(rules.len() as int, rules.len() as int).len() == 0);
        Ok(cur)
    }

    fn new_field(&self, d: &FieldDecl, visited: &Vec<String>) -> (r: Result<Field, GenerateError>)
        ensures
            opt_field(r) == (match classify(
                self@.registry,
                self@.rules,
                d@.ty,
                strings_view(visited@),
            ) {
                Ok(s) => Ok(new_field(d@, s)),
                Err(e) => Err(e),
            }),
        decreases unvisited(self@.registry, strings_view(visited@)), 3int, 0nat,
    {
        match self.classify(&d.ty, visited) {
            Ok(s) => {
                let is_required = match &s {
                    FieldTypeSegment::Nullable(_) => false,
                    _ => true,
                };
                Ok(
                    Field {
                        ident: d.name.clone(),
                        ty: s,
                        is_required,
                        attributes: copy_attributes(&d.attributes),
                    },
                )
            },
            Err(e) => Err(e),
        }
    }

    pub(crate) fn generate_fields_in(
        &self,
        item: &String,
        decls: &Vec<&FieldDecl>,
        visited: &Vec<String>,
    ) -> (r: Result<Vec<Field>, GenerateError>)
        ensures
            opt_fields(r) == fields_of(
                self@.registry,
                self@.rules,
                item@,
                decls@.map_values(|f: &FieldDecl| f@),
                strings_view(visited@),
            ),
        decreases unvisited(self@.registry, strings_view(visited@)), 4int, 0nat,
    {
        let ghost reg = self@.registry;
        let ghost rules = self@.rules;
        let ghost vis = strings_view(visited@);
        let ghost ds = decls@.map_values(|f: &FieldDecl| f@);
        let mut out: Vec<Field> = Vec::new();
        let mut i: usize = 0;
        assert(ds.subrange(0, ds.len() as int) =~= ds);
        assert(fields_view(out@) =~= Seq::<FieldView>::empty());
        while i < decls.len()
            invariant
                i <= decls@.len(),
                ds.len() == decls@.len(),
                ds == decls@.map_values(|f: &FieldDecl| f@),
                reg == self@.registry,
                rules == self@.rules,
                vis == strings_view(visited@),
                fields_of(reg, rules, item@, ds, vis) == match fields_of(
                    reg,
                    rules,
                    item@,
                    ds.subrange(i as int, ds.len() as int),
                    vis,
                ) {
                    Ok(fs) => Ok(fields_view(out@) + fs),
                    Err(e) => Err(e),
                },
            decreases decls@.len() - i,
        {
            let ghost rest = ds.subrange(i as int, ds.len() as int);
            assert(rest[0] == decls@[i as int]@);
            assert(rest.drop_first() =~= ds.subrange(i as int + 1, ds.len() as int));
            let f = match self.new_field(decls[i], visited) {
                Ok(f) => f,
                Err(e) => {
                    assert(prepare_field(reg, rules, item@, rest[0], vis) == Err::<FieldView, ErrorView>(e@));
                    assert(fields_of(reg, rules, item@, rest, vis) == Err::<Seq<FieldView>, ErrorView>(e@));
                    return Err(e);
                },
            };
            let ghost f0 = f@;
            let f = match self.apply_rules(item, f, visited) {
                Ok(f) => f,
                Err(e) => {
                    assert(prepare_field(reg, rules, item@, rest[0], vis) == Err::<FieldView, ErrorView>(e@));
                    assert(fields_of(reg, rules, item@, rest, vis) == Err::<Seq<FieldView>, ErrorView>(e@));
                    return Err(e);
                },
            };
            assert(prepare_field(reg, rules, item@, rest[0], vis) == Ok::<FieldView, ErrorView>(f@));
            let ghost prev = out@;
            out.push(f);
            proof {
                lemma_fields_view_push(prev, f);
                match fields_of(reg, rules, item@, ds.subrange(i as int + 1, ds.len() as int), vis) {
                    Ok(fs) => {
                        assert(fields_view(prev) + (seq![f@] + fs) =~= fields_view(out@) + fs);
                    },
                    Err(e) => {},
                }
            }
            i = i + 1;
        }
        assert(ds.subrange(ds.len() as int, ds.len() as int) =~= Seq::<FieldDeclView>::empty());
        assert(fields_view(out@) + Seq::<FieldView>::empty() =~= fields_view(out@));
        Ok(out)
    }
}

impl FieldTypeSegment {
    /// Classifies declared type `ty` against the generator's registry and rules.
    pub fn new(generator: &Generator, ty: &TypeRef) -> (r: Result<FieldTypeSegment, GenerateError>)
        ensures
            opt_shape(r) == classify(generator@.registry, generator@.rules, ty@, Seq::empty()),
    {
        let visited: Vec<String> = Vec::new();
        assert(strings_view(visited@) =~= Seq::<Seq<char>>::empty());
        generator.classify(ty, &visited)
    }

    /// The shape that remaps `source` to declared type `target_ty`.
    pub fn map(generator: &Generator, source: FieldTypeSegment, target_ty: &TypeRef) -> (r: Result<
        FieldTypeSegment,
        GenerateError,
    >)
        ensures
            match classify(generator@.registry, generator@.rules, target_ty@, Seq::empty()) {
                Ok(t) => r matches Ok(s) && s@ == Shape::Remapped(Box::new(source@), Box::new(t)),
                Err(e) => r matches Err(x) && x@ == e,
            },
    {
        match FieldTypeSegment::new(generator, target_ty) {
            Ok(target) => Ok(FieldTypeSegment::Remapped(Box::new(source), Box::new(target))),
            Err(e) => Err(e),
        }
    }
}

impl Field {
    /// The field model of declaration `decl`, before any rule: its type
    /// classified, required unless the type marks absence.
    pub fn new(generator: &Generator, decl: &FieldDecl) -> (r: Result<Field, GenerateError>)
        ensures
            opt_field(r) == (match classify(generator@.registry, generator@.rules, decl@.ty, Seq::empty()) {
                Ok(s) => Ok(new_field(decl@, s)),
                Err(e) => Err(e),
            }),
    {
        let visited: Vec<String> = Vec::new();
        assert(strings_view(visited@) =~= Seq::<Seq<char>>::empty());
        generator.new_field(decl, &visited)
    }

    /// Lets the builder work on declared type `ty` for this field, converting
    /// back to the field's own type when finalizing.
    pub fn map(&mut self, generator: &Generator, ty: &TypeRef) -> (r: Result<(), GenerateError>)
        ensures
            match classify(generator@.registry, generator@.rules, ty@, Seq::empty()) {
                Ok(t) => r is Ok && final(self)@ == (FieldView {
                    shape: Shape::Remapped(Box::new(old(self)@.shape), Box::new(t)),
                    ..old(self)@
                }),
                Err(e) => (r matches Err(x) && x@ == e) && final(self)@ == old(self)@,
            },
    {
        match FieldTypeSegment::new(generator, ty) {
            Ok(target) => {
                let mut source = FieldTypeSegment::Primitive(String::new());
                std::mem::swap(&mut source, &mut self.ty);
                self.ty = FieldTypeSegment::Remapped(Box::new(source), Box::new(target));
                Ok(())
            },
            Err(e) => Err(e),
        }
    }
}

impl FieldRule {
    /// This rule applied to field `field` of item `item_ident`: its action
    /// when the rule selects the field, and the field unchanged otherwise.
    pub(crate) fn apply(
        &self,
        generator: &Generator,
        item_ident: &String,
        field: Field,
        visited: &Vec<String>,
    ) -> (r: Result<Field, GenerateError>)
        ensures
            opt_field(r) == if rule_selects(self@, item_ident@, field@) {
                apply_action(
                    generator@.registry,
                    generator@.rules,
                    self@.action,
                    field@,
                    strings_view(visited@),
                )
            } else {
                Ok(field@)
            },
        decreases unvisited(generator@.registry, strings_view(visited@)), 1int, 1nat,
    {
        if self.selects(item_ident, &field) {
            generator.apply_action(&self.action, field, visited)
        } else {
            Ok(field)
        }
    }

    /// Whether this rule selects field `field` of item `item_ident`.
    pub fn selects(&self, item_ident: &String, field: &Field) -> (r: bool)
        ensures
            r == rule_selects(self@, item_ident@, field@),
    {
        match &self.item_ident {
            Some(n) => {
                if *n != *item_ident {
                    return false;
                }
            },
            None => {},
        }
        match &self.field_ident {
            Some(n) => {
                if *n != field.ident {
                    return false;
                }
            },
            None => {},
        }
        match &self.field_type {
            Some(n) => {
                let d = field.ty.unwrap();
                proof {
                    crate::schema::lemma_type_refs_view_len(d.args@);
                }
                assert(d@.path.len() == d.path@.len());
                assert(d@.args.len() == d.args@.len());
                if d.path.len() != 1 || d.args.len() != 0 {
                    assert(d@ != crate::schema::named(n@));
                    return false;
                }
                assert(d@.args =~= Seq::<TypeRefView>::empty());
                assert(d@.path[0] == d.path@[0]@);
                if d.path[0] != *n {
                    assert(d@ != crate::schema::named(n@));
                    return false;
                }
                assert(d@.path =~= seq![n@]);
            },
            None => {},
        }
        true
    }
}

} // verus!
