use builder_generator::builder::{BuilderEntity, Conversion, SetterKind};
use builder_generator::field_rule::RuleError;
use builder_generator::schema::{Attribute, FieldDecl, ItemBody, MetaKind, SchemaItem, TypeRef};
use builder_generator::BuilderGenerator;
use quote::ToTokens;

fn ty(name: &str) -> TypeRef {
    TypeRef { path: vec![name.to_string()], args: vec![] }
}

fn gty(name: &str, args: Vec<TypeRef>) -> TypeRef {
    TypeRef { path: vec![name.to_string()], args }
}

fn render(t: &TypeRef) -> String {
    let mut s = t.path.join("::");
    if !t.args.is_empty() {
        let args: Vec<String> = t.args.iter().map(render).collect();
        s.push('<');
        s.push_str(&args.join(", "));
        s.push('>');
    }
    s
}

fn attr(text: &str) -> Attribute {
    let meta = syn::parse_str::<syn::Meta>(text).unwrap();
    let kind = match &meta {
        syn::Meta::Path(_) => MetaKind::Path,
        syn::Meta::NameValue(_) => MetaKind::NameValue,
        syn::Meta::List(_) => MetaKind::List,
    };
    Attribute { kind, tokens: meta.to_token_stream().to_string() }
}

fn decl(name: &str, t: TypeRef, attributes: Vec<Attribute>) -> FieldDecl {
    FieldDecl { name: name.to_string(), ty: t, attributes }
}

fn record(name: &str, fields: Vec<FieldDecl>) -> SchemaItem {
    SchemaItem {
        name: name.to_string(),
        body: ItemBody::Record(fields),
        attributes: vec![],
        generics: String::new(),
    }
}

fn required_field_item() -> SchemaItem {
    record("StructWithRequiredField", vec![decl("field", ty("u32"), vec![])])
}

fn field_attributes_item() -> SchemaItem {
    record(
        "StructWithFieldAttributes",
        vec![
            decl("field_with_attribute_as_path", ty("u32"), vec![attr("attribute_as_path")]),
            decl(
                "field_with_attribute_as_name_value",
                ty("String"),
                vec![attr("attribute_as_name_value = value")],
            ),
            decl(
                "field_with_attribute_as_list",
                ty("bool"),
                vec![attr("attribute_as_list(value1, value2)")],
            ),
        ],
    )
}

fn only(generator: &BuilderGenerator, item: &SchemaItem) -> BuilderEntity {
    let mut es = generator.generate(item).unwrap();
    es.remove(0)
}

#[test]
fn with_incomplete_rule() {
    let generator = BuilderGenerator::new(vec![]);
    let _ = generator.with_rule();
    let _ = generator.with_rule().for_all();
    let _ = generator.with_rule().for_all().and_all_fields();
    assert_eq!(0, generator.field_rules.len());
    let e = only(&generator, &required_field_item());
    assert_eq!("Option<u32>", render(&e.fields[0].ty));
}

#[test]
fn with_non_existing_item() {
    let mut generator = BuilderGenerator::new(vec![]);
    let chain = generator
        .with_rule()
        .for_item("ItemThatDoesNotExist".to_string())
        .and_all_fields()
        .then_discard_attribute("an_attribute".to_string());
    generator.register(chain);
    assert_eq!(1, generator.field_rules.len());
    let e = only(&generator, &required_field_item());
    assert_eq!("with_field", e.setters[0].name);
    assert_eq!(SetterKind::Assign, e.setters[0].kind);
    assert_eq!("u32", render(&e.setters[0].params[0].ty));
    assert_eq!("field 'field' is required", e.build[0].message);
}

#[test]
fn with_non_existing_field() {
    let mut generator = BuilderGenerator::new(vec![]);
    let chain = generator
        .with_rule()
        .for_all()
        .with_field_ident("field_that_does_not_exist".to_string())
        .then_rename("a_name".to_string())
        .unwrap();
    generator.register(chain);
    assert_eq!(1, generator.field_rules.len());
    let e = only(&generator, &required_field_item());
    assert_eq!("field", e.fields[0].ident);
    assert_eq!("with_field", e.setters[0].name);
    assert_eq!("field 'field' is required", e.build[0].message);
}

#[test]
fn rename_all() {
    let generator = BuilderGenerator::new(vec![]);
    let r = generator.with_rule().for_all().and_all_fields().then_rename("a_name".to_string());
    assert_eq!(Some(RuleError::UnboundedSelector), r.err());
}

#[test]
fn map_all() {
    let generator = BuilderGenerator::new(vec![]);
    let r = generator.with_rule().for_all().and_all_fields().then_map(ty("a_type"));
    assert_eq!(Some(RuleError::UnboundedSelector), r.err());
}

#[test]
fn map_all_to_vec() {
    let generator = BuilderGenerator::new(vec![]);
    let r = generator.with_rule().for_all().and_all_fields().then_map_to_vec(ty("a_type"));
    assert_eq!(Some(RuleError::UnboundedSelector), r.err());
}

#[test]
fn rename_all_fields_of_one_item_is_refused() {
    let generator = BuilderGenerator::new(vec![]);
    let r = generator
        .with_rule()
        .for_item("StructWithRequiredField".to_string())
        .and_all_fields()
        .then_rename("a_name".to_string());
    assert_eq!(Some(RuleError::UnboundedSelector), r.err());
    let r = generator
        .with_rule()
        .for_item("StructWithRequiredField".to_string())
        .with_field_ident("field".to_string())
        .then_rename("a_name".to_string());
    assert!(r.is_ok());
    assert_eq!(1, r.unwrap().rules.len());
}

#[test]
fn field_type_selector() {
    let mut generator = BuilderGenerator::new(vec![]);
    let chain = generator
        .with_rule()
        .for_item("StructWithFieldAttributes".to_string())
        .with_field_type("u32".to_string())
        .then_discard_attribute("attribute_as_path".to_string());
    generator.register(chain);
    assert_eq!(1, generator.field_rules.len());
    let e = only(&generator, &field_attributes_item());
    let counts: Vec<usize> = e.fields.iter().map(|f| f.attributes.len()).collect();
    assert_eq!(vec![0, 1, 1], counts);
}

#[test]
fn discard_attributes() {
    let mut generator = BuilderGenerator::new(vec![]);
    let rules = [
        ("field_with_attribute_as_path", "attribute_as_path"),
        ("field_with_attribute_as_name_value", "attribute_as_name_value = value"),
        ("field_with_attribute_as_list", "attribute_as_list(value1, value2)"),
    ];
    for (field, attribute) in rules {
        let chain = generator
            .with_rule()
            .for_all()
            .with_field_ident(field.to_string())
            .then_discard_attribute(attribute.to_string());
        generator.register(chain);
    }
    assert_eq!(3, generator.field_rules.len());
    let e = only(&generator, &field_attributes_item());
    let counts: Vec<usize> = e.fields.iter().map(|f| f.attributes.len()).collect();
    assert_eq!(vec![0, 0, 0], counts);
}

#[test]
fn discard_attribute_needs_same_form() {
    let mut generator = BuilderGenerator::new(vec![]);
    let chain = generator
        .with_rule()
        .for_all()
        .and_all_fields()
        .then_discard_attribute("attribute_as_list".to_string())
        .then_discard_attribute("attribute_as_name_value = other".to_string())
        .then_discard_attribute("not an attribute ==".to_string());
    generator.register(chain);
    assert_eq!(3, generator.field_rules.len());
    let e = only(&generator, &field_attributes_item());
    let counts: Vec<usize> = e.fields.iter().map(|f| f.attributes.len()).collect();
    assert_eq!(vec![1, 1, 1], counts);
}

#[test]
fn rename() {
    let mut generator = BuilderGenerator::new(vec![]);
    let chain = generator
        .with_rule()
        .for_all()
        .with_field_ident("field".to_string())
        .then_rename("renamed_field".to_string())
        .unwrap();
    generator.register(chain);
    assert_eq!(1, generator.field_rules.len());
    let e = only(&generator, &required_field_item());
    assert_eq!("renamed_field", e.fields[e.fields.len() - 1].ident);
}

#[test]
fn point_rename_rule() {
    let mut generator = BuilderGenerator::new(vec![]);
    let chain = generator
        .with_rule()
        .for_item("Point".to_string())
        .with_field_ident("x".to_string())
        .then_rename("column".to_string())
        .unwrap();
    generator.register(chain);
    let e = only(&generator, &record("Point", vec![decl("x", ty("u32"), vec![])]));
    assert_eq!("column", e.fields[0].ident);
    assert_eq!("Option<u32>", render(&e.fields[0].ty));
    assert_eq!("with_column", e.setters[0].name);
    assert_eq!("column", e.setters[0].field);
    assert_eq!("u32", render(&e.setters[0].params[0].ty));
    assert_eq!("column", e.build[0].field);
    assert!(e.build[0].required);
    assert_eq!("field 'column' is required", e.build[0].message);
}

#[test]
fn rule_for_other_item_is_silent() {
    let mut generator = BuilderGenerator::new(vec![]);
    let chain = generator
        .with_rule()
        .for_item("A".to_string())
        .with_field_ident("x".to_string())
        .then_rename("y".to_string())
        .unwrap();
    generator.register(chain);
    let b = only(&generator, &record("B", vec![decl("x", ty("u32"), vec![])]));
    assert_eq!("x", b.fields[0].ident);
    let a = only(&generator, &record("A", vec![decl("x", ty("u32"), vec![])]));
    assert_eq!("y", a.fields[0].ident);
}

#[test]
fn field_type_rule_hits_every_field_of_that_type() {
    let mut generator = BuilderGenerator::new(vec![]);
    let chain = generator
        .with_rule()
        .for_item("A".to_string())
        .with_field_type("u32".to_string())
        .then_map(ty("u64"))
        .unwrap();
    generator.register(chain);
    let a = only(
        &generator,
        &record(
            "A",
            vec![
                decl("first", ty("u32"), vec![]),
                decl("second", ty("u8"), vec![]),
                decl("third", ty("u32"), vec![]),
            ],
        ),
    );
    let types: Vec<String> = a.fields.iter().map(|f| render(&f.ty)).collect();
    assert_eq!(vec!["Option<u64>", "Option<u8>", "Option<u64>"], types);
    let conversions: Vec<Conversion> = a.build.iter().map(|b| b.convert).collect();
    assert_eq!(vec![Conversion::Whole, Conversion::Keep, Conversion::Whole], conversions);
}

#[test]
fn rules_apply_in_order() {
    let mut generator = BuilderGenerator::new(vec![]);
    let chain = generator
        .with_rule()
        .for_all()
        .with_field_ident("x".to_string())
        .then_rename("y".to_string())
        .unwrap();
    generator.register(chain);
    let chain = generator
        .with_rule()
        .for_all()
        .with_field_ident("y".to_string())
        .then_map(ty("i64"))
        .unwrap();
    generator.register(chain);
    let e = only(&generator, &record("P", vec![decl("x", ty("u32"), vec![])]));
    assert_eq!("y", e.fields[0].ident);
    assert_eq!("Option<i64>", render(&e.fields[0].ty));
    assert_eq!(Conversion::Whole, e.build[0].convert);
    assert!(e.build[0].required);
}

#[test]
fn map_from_primitive_to_primitive() {
    let mut generator = BuilderGenerator::new(vec![]);
    let chain = generator
        .with_rule()
        .for_all()
        .with_field_ident("field".to_string())
        .then_map(ty("u64"))
        .unwrap();
    generator.register(chain);
    assert_eq!(1, generator.field_rules.len());
    let e = only(&generator, &required_field_item());
    assert_eq!("Option<u64>", render(&e.fields[0].ty));
    assert_eq!(SetterKind::Assign, e.setters[0].kind);
    assert_eq!("u64", render(&e.setters[0].params[0].ty));
    assert_eq!(Conversion::Whole, e.build[0].convert);
    assert_eq!("field 'field' is required", e.build[0].message);
}

#[test]
fn map_from_primitive_to_vec() {
    let mut generator = BuilderGenerator::new(vec![]);
    let chain = generator
        .with_rule()
        .for_all()
        .with_field_ident("field".to_string())
        .then_map_to_vec(ty("u64"))
        .unwrap();
    generator.register(chain);
    assert_eq!(1, generator.field_rules.len());
    let e = only(&generator, &required_field_item());
    assert_eq!("Option<Vec<u64>>", render(&e.fields[0].ty));
    assert_eq!(SetterKind::Append, e.setters[0].kind);
    assert_eq!("u64", render(&e.setters[0].params[0].ty));
    assert_eq!(Conversion::Whole, e.build[0].convert);
}

#[test]
fn map_from_vec_to_vec() {
    let mut generator = BuilderGenerator::new(vec![]);
    let chain = generator
        .with_rule()
        .for_all()
        .with_field_ident("field".to_string())
        .then_map_to_vec(ty("u64"))
        .unwrap();
    generator.register(chain);
    let item = record(
        "StructWithVecOfPrimitiveField",
        vec![decl("field", gty("Vec", vec![ty("u32")]), vec![])],
    );
    let e = only(&generator, &item);
    assert_eq!("Option<Vec<u64>>", render(&e.fields[0].ty));
    assert_eq!(SetterKind::Append, e.setters[0].kind);
    assert_eq!("u64", render(&e.setters[0].params[0].ty));
    assert_eq!(Conversion::Elements, e.build[0].convert);
    assert_eq!("field 'field' is required", e.build[0].message);
}
