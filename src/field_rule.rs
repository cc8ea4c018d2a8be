//! The rule engine: a fluent registration chain that selects items and fields
//! and records an action (rename, remap, discard an attribute).
use vstd::prelude::*;

use quote::ToTokens;

use crate::field::{Field, FieldView};
use crate::schema::{Attribute, AttributeView, MetaKind, TypeRef, TypeRefView, generic, named};
use crate::shape::decompose;

verus! {

broadcast use vstd::std_specs::vec::group_vec_axioms, vstd::seq::group_seq_axioms;

/// What a rule does to a selected field.
pub enum RuleAction {
    /// Use another identifier for the field in the builder.
    Rename(String),
    /// Let the builder work on another type, converted back when finalizing.
    Remap(TypeRef),
    /// Drop the field's attributes equal to the given one; `None` (a matcher
    /// that is not a valid attribute) drops nothing.
    DiscardAttribute(Option<Attribute>),
}

pub enum ActionView {
    Rename(Seq<char>),
    Remap(TypeRefView),
    DiscardAttribute(Option<AttributeView>),
}

pub open spec fn opt_attribute_view(o: Option<Attribute>) -> Option<AttributeView> {
    match o {
        Some(a) => Some(a@),
        None => None,
    }
}

impl View for RuleAction {
    type V = ActionView;

    open spec fn view(&self) -> ActionView {
        match self {
            RuleAction::Rename(n) => ActionView::Rename(n@),
            RuleAction::Remap(t) => ActionView::Remap(t@),
            RuleAction::DiscardAttribute(m) => ActionView::DiscardAttribute(opt_attribute_view(*m)),
        }
    }
}

pub open spec fn opt_string_view(o: Option<String>) -> Option<Seq<char>> {
    match o {
        Some(s) => Some(s@),
        None => None,
    }
}

/// A registered rule: item filter, field filters and action.
pub struct FieldRule {
    pub item_ident: Option<String>,
    pub field_ident: Option<String>,
    pub field_type: Option<String>,
    pub action: RuleAction,
}

pub struct RuleView {
    pub item: Option<Seq<char>>,
    pub field: Option<Seq<char>>,
    pub field_type: Option<Seq<char>>,
    pub action: ActionView,
}

impl View for FieldRule {
    type V = RuleView;

    open spec fn view(&self) -> RuleView {
        RuleView {
            item: opt_string_view(self.item_ident),
            field: opt_string_view(self.field_ident),
            field_type: opt_string_view(self.field_type),
            action: self.action@,
        }
    }
}

pub open spec fn rules_view(s: Seq<FieldRule>) -> Seq<RuleView> {
    s.map_values(|r: FieldRule| r@)
}

/// Whether rule `r` selects field `f` of item `item`: its item filter names
/// the item, its field-name filter names the field, and its field-type filter
/// names the type the builder works with for the field.
pub open spec fn rule_selects(r: RuleView, item: Seq<char>, f: FieldView) -> bool {
    &&& (r.item matches Some(n) ==> n == item)
    &&& (r.field matches Some(n) ==> n == f.ident)
    &&& (r.field_type matches Some(n) ==> decompose(f.shape) == named(n))
}

/// The attributes that remain once those equal to `m` are dropped.
pub open spec fn retain_unmatched(attrs: Seq<AttributeView>, m: AttributeView) -> Seq<AttributeView>
    decreases attrs.len(),
{
    if attrs.len() == 0 {
        Seq::empty()
    } else {
        let rest = retain_unmatched(attrs.drop_last(), m);
        if attrs.last() == m {
            rest
        } else {
            rest.push(attrs.last())
        }
    }
}

/// Why a rule cannot be registered.
#[derive(Clone, Copy, Debug, PartialEq, Eq, Structural)]
pub enum RuleError {
    /// A rename or remap under a selector of all fields: the target is not a
    /// single field.
    UnboundedSelector,
}

/// Relies on `syn::parse_str::<syn::Meta>` to parse the text of an attribute
/// (bare name, `name = value` or `name(args)`); `None` when it does not parse.
/// The parsed tokens are printed through proc-macro2, whose printed form
/// depends on the backend the process uses, so nothing is promised of the
/// result: callers compare it only with attributes printed the same way.
#[verifier::external_body]
fn parse_meta(text: &String) -> (r: Option<Attribute>)
{
    match syn::parse_str::<syn::Meta>(text) {
        Ok(meta) => {
            let kind = match &meta {
                syn::Meta::Path(_) => MetaKind::Path,
                syn::Meta::NameValue(_) => MetaKind::NameValue,
                syn::Meta::List(_) => MetaKind::List,
            };
            Some(Attribute { kind, tokens: meta.to_token_stream().to_string() })
        },
        Err(_) => None,
    }
}

/// Starts a rule: selects the items it applies to.
#[derive(Clone, Debug, PartialEq, Eq)]
pub struct FieldRuleItemSelectorBuilder {}

impl FieldRuleItemSelectorBuilder {
    pub fn new() -> (r: Self) {
        FieldRuleItemSelectorBuilder {}
    }

    /// Applies to every item.
    pub fn for_all(&self) -> (r: FieldRuleFieldSelectorBuilder)
        ensures
            r.item_ident is None,
    {
        FieldRuleFieldSelectorBuilder { item_ident: None }
    }

    /// Applies to the item named `ident` only.
    pub fn for_item(&self, ident: String) -> (r: FieldRuleFieldSelectorBuilder)
        ensures
            opt_string_view(r.item_ident) == Some(ident@),
    {
        FieldRuleFieldSelectorBuilder { item_ident: Some(ident) }
    }
}

/// Second stage of a rule: selects the fields within the selected items.
#[derive(Clone, Debug, PartialEq, Eq)]
pub struct FieldRuleFieldSelectorBuilder {
    pub item_ident: Option<String>,
}

fn copy_opt_string(o: &Option<String>) -> (r: Option<String>)
    ensures
        opt_string_view(r) == opt_string_view(*o),
{
    match o {
        Some(s) => Some(s.clone()),
        None => None,
    }
}

impl FieldRuleFieldSelectorBuilder {
    /// Applies to every field.
    pub fn and_all_fields(&self) -> (r: FieldRuleThenSelectorBuilder)
        ensures
            opt_string_view(r.item_ident) == opt_string_view(self.item_ident),
            r.field_ident is None,
            r.field_type is None,
            r.rules@.len() == 0,
    {
        FieldRuleThenSelectorBuilder {
            item_ident: copy_opt_string(&self.item_ident),
            field_ident: None,
            field_type: None,
            rules: Vec::new(),
        }
    }

    /// Applies to the field named `ident`.
    pub fn with_field_ident(&self, ident: String) -> (r: FieldRuleThenSelectorBuilder)
        ensures
            opt_string_view(r.item_ident) == opt_string_view(self.item_ident),
            opt_string_view(r.field_ident) == Some(ident@),
            r.field_type is None,
            r.rules@.len() == 0,
    {
        FieldRuleThenSelectorBuilder {
            item_ident: copy_opt_string(&self.item_ident),
            field_ident: Some(ident),
            field_type: None,
            rules: Vec::new(),
        }
    }

    /// Applies to the fields whose builder type is the bare type name `ty`.
    pub fn with_field_type(&self, ty: String) -> (r: FieldRuleThenSelectorBuilder)
        ensures
            opt_string_view(r.item_ident) == opt_string_view(self.item_ident),
            r.field_ident is None,
            opt_string_view(r.field_type) == Some(ty@),
            r.rules@.len() == 0,
    {
        FieldRuleThenSelectorBuilder {
            item_ident: copy_opt_string(&self.item_ident),
            field_ident: None,
            field_type: Some(ty),
            rules: Vec::new(),
        }
    }
}

/// Last stage of a rule: records actions under the selector. The recorded
/// rules take effect once handed to the generator.
pub struct FieldRuleThenSelectorBuilder {
    pub item_ident: Option<String>,
    pub field_ident: Option<String>,
    pub field_type: Option<String>,
    pub rules: Vec<FieldRule>,
}

/// The rule that selector `c` records for `action`.
pub open spec fn rule_under(c: FieldRuleThenSelectorBuilder, action: ActionView) -> RuleView {
    RuleView {
        item: opt_string_view(c.item_ident),
        field: opt_string_view(c.field_ident),
        field_type: opt_string_view(c.field_type),
        action,
    }
}

/// Whether the selector names no single field (no field name, no field type).
pub open spec fn selects_all_fields(c: FieldRuleThenSelectorBuilder) -> bool {
    c.field_ident is None && c.field_type is None
}

/// `r` is `c` with one more rule, for `action`.
pub open spec fn recorded(
    r: FieldRuleThenSelectorBuilder,
    c: FieldRuleThenSelectorBuilder,
    action: ActionView,
) -> bool {
    &&& opt_string_view(r.item_ident) == opt_string_view(c.item_ident)
    &&& opt_string_view(r.field_ident) == opt_string_view(c.field_ident)
    &&& opt_string_view(r.field_type) == opt_string_view(c.field_type)
    &&& rules_view(r.rules@) == rules_view(c.rules@).push(rule_under(c, action))
}

impl FieldRuleThenSelectorBuilder {
    fn record(self, action: RuleAction) -> (r: Self)
        ensures
            recorded(r, self, action@),
    {
        let rule = FieldRule {
            item_ident: copy_opt_string(&self.item_ident),
            field_ident: copy_opt_string(&self.field_ident),
            field_type: copy_opt_string(&self.field_type),
            action,
        };
        let ghost old_rules = self.rules@;
        let mut rules = self.rules;
        rules.push(rule);
        assert(rules_view(rules@) =~= rules_view(old_rules).push(rule@));
        FieldRuleThenSelectorBuilder {
            item_ident: self.item_ident,
            field_ident: self.field_ident,
            field_type: self.field_type,
            rules,
        }
    }

    /// Remaps the selected fields to type `ty`; refused under a selector of all
    /// fields.
    pub fn then_map(self, ty: TypeRef) -> (r: Result<Self, RuleError>)
        ensures
            selects_all_fields(self) ==> r == Err::<Self, RuleError>(RuleError::UnboundedSelector),
            !selects_all_fields(self) ==> (r matches Ok(c) && recorded(c, self, ActionView::Remap(ty@))),
    {
        if self.field_ident.is_none() && self.field_type.is_none() {
            return Err(RuleError::UnboundedSelector);
        }
        Ok(self.record(RuleAction::Remap(ty)))
    }

    /// Remaps the selected fields to a `Vec` of `ty`; refused under a selector
    /// of all fields.
    pub fn then_map_to_vec(self, ty: TypeRef) -> (r: Result<Self, RuleError>)
        ensures
            selects_all_fields(self) ==> r == Err::<Self, RuleError>(RuleError::UnboundedSelector),
            !selects_all_fields(self) ==> (r matches Ok(c) && recorded(
                c,
                self,
                ActionView::Remap(generic("Vec"@, seq![ty@])),
            )),
    {
        if self.field_ident.is_none() && self.field_type.is_none() {
            return Err(RuleError::UnboundedSelector);
        }
        let ghost t = ty@;
        let mut args: Vec<TypeRef> = Vec::new();
        args.push(ty);
        proof {
            crate::schema::lemma_type_refs_view_index(args@, 0);
            assert(crate::schema::type_refs_view(args@) =~= seq![t]);
        }
        Ok(self.record(RuleAction::Remap(TypeRef::generic(String::from_str("Vec"), args))))
    }

    /// Renames the selected fields; refused under a selector of all fields.
    pub fn then_rename(self, ident: String) -> (r: Result<Self, RuleError>)
        ensures
            selects_all_fields(self) ==> r == Err::<Self, RuleError>(RuleError::UnboundedSelector),
            !selects_all_fields(self) ==> (r matches Ok(c) && recorded(c, self, ActionView::Rename(ident@))),
    {
        if self.field_ident.is_none() && self.field_type.is_none() {
            return Err(RuleError::UnboundedSelector);
        }
        Ok(self.record(RuleAction::Rename(ident)))
    }

    /// Drops, from the selected fields, the attributes equal to `matcher`.
    pub fn then_discard_matching(self, matcher: Option<Attribute>) -> (r: Self)
        ensures
            recorded(r, self, ActionView::DiscardAttribute(opt_attribute_view(matcher))),
    {
        self.record(RuleAction::DiscardAttribute(matcher))
    }

    /// Drops, from the selected fields, the attributes equal to the one
    /// written in `attribute` (`name`, `name = value` or `name(args)`): one
    /// discard rule is recorded, whose matcher is what the attribute parser
    /// made of the text (see [`Self::then_discard_matching`]).
    pub fn then_discard_attribute(self, attribute: String) -> (r: Self)
        ensures
            exists|m: Option<AttributeView>|
                #[trigger] recorded(r, self, ActionView::DiscardAttribute(m)),
    {
        let matcher = parse_meta(&attribute);
        let r = self.then_discard_matching(matcher);
        assert(recorded(r, self, ActionView::DiscardAttribute(opt_attribute_view(matcher))));
        r
    }
}

fn same_attribute(a: &Attribute, b: &Attribute) -> (r: bool)
    ensures
        r == (a@ == b@),
{
    a.kind == b.kind && a.tokens == b.tokens
}

impl Field {
    /// The attributes carried over to the builder's field, for editing.
    pub fn attributes_mut(&mut self) -> (r: &mut Vec<Attribute>)
        ensures
            *r == old(self).attributes,
            final(self).attributes == *final(r),
            final(self).ident == old(self).ident,
            final(self).ty == old(self).ty,
            final(self).is_required == old(self).is_required,
    {
        &mut self.attributes
    }

    /// Uses `ident` for the field in the builder.
    pub fn rename(&mut self, ident: String)
        ensures
            final(self)@ == (FieldView { ident: ident@, ..old(self)@ }),
    {
        self.ident = ident;
    }

    /// Drops the attributes equal to `matcher`; the others stay, in order.
    pub fn discard_attribute(&mut self, matcher: &Attribute)
        ensures
            final(self)@ == (FieldView {
                attributes: retain_unmatched(old(self)@.attributes, matcher@),
                ..old(self)@
            }),
    {
        let ghost src = crate::schema::attributes_view(self.attributes@);
        let mut kept: Vec<Attribute> = Vec::new();
        let mut i: usize = 0;
        while i < self.attributes.len()
            invariant
                i <= self.attributes@.len(),
                src == crate::schema::attributes_view(self.attributes@),
                crate::schema::attributes_view(kept@) == retain_unmatched(
                    src.subrange(0, i as int),
                    matcher@,
                ),
            decreases self.attributes@.len() - i,
        {
            let ghost prev = kept@;
            let a = &self.attributes[i];
            assert(src.subrange(0, i as int + 1).drop_last() =~= src.subrange(0, i as int));
            if !same_attribute(a, matcher) {
                kept.push(a.copy());
                assert(crate::schema::attributes_view(kept@) =~= crate::schema::attributes_view(
                    prev,
                ).push(a@));
            }
            i = i + 1;
        }
        assert(src.subrange(0, src.len() as int) =~= src);
        self.attributes = kept;
    }
}

} // verus!
