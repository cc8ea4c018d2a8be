use builder_generator::builder::{BuilderEntity, Conversion, SetterKind};
use builder_generator::generator::GenerateError;
use builder_generator::schema::{FieldDecl, ItemBody, SchemaItem, TypeRef};
use builder_generator::BuilderGenerator;

fn ty(name: &str) -> TypeRef {
    TypeRef { path: vec![name.to_string()], args: vec![] }
}

fn gty(name: &str, args: Vec<TypeRef>) -> TypeRef {
    TypeRef { path: vec![name.to_string()], args }
}

fn render(t: &TypeRef) -> String {
    let mut s = t.path.join("::");
    if !t.args.is_empty() {
        let args: Vec<String> = t.args.iter().map(render).collect();
        s.push('<');
        s.push_str(&args.join(", "));
        s.push('>');
    }
    s
}

fn decl(name: &str, t: TypeRef) -> FieldDecl {
    FieldDecl { name: name.to_string(), ty: t, attributes: vec![] }
}

fn record(name: &str, fields: Vec<FieldDecl>) -> SchemaItem {
    SchemaItem {
        name: name.to_string(),
        body: ItemBody::Record(fields),
        attributes: vec![],
        generics: String::new(),
    }
}

fn generate_one(item: SchemaItem) -> Vec<BuilderEntity> {
    let generator = BuilderGenerator::new(vec![]);
    generator.generate(&item).unwrap()
}

fn param_list(e: &BuilderEntity, setter: usize) -> Vec<(String, String)> {
    e.setters[setter].params.iter().map(|p| (p.name.clone(), render(&p.ty))).collect()
}

#[test]
fn point_with_required_field() {
    let es = generate_one(record("Point", vec![decl("x", ty("u32"))]));
    assert_eq!(1, es.len());
    let e = &es[0];
    assert_eq!("PointBuilder", e.name);
    assert_eq!("Point", e.target);
    assert_eq!(1, e.fields.len());
    assert_eq!("x", e.fields[0].ident);
    assert_eq!("Option<u32>", render(&e.fields[0].ty));
    assert_eq!(1, e.setters.len());
    assert_eq!("with_x", e.setters[0].name);
    assert_eq!("x", e.setters[0].field);
    assert_eq!(SetterKind::Assign, e.setters[0].kind);
    assert_eq!(vec![("value".to_string(), "u32".to_string())], param_list(e, 0));
    assert!(e.setters[0].result_type.is_none());
    assert_eq!(1, e.build.len());
    assert_eq!("x", e.build[0].field);
    assert!(e.build[0].required);
    assert!(!e.build[0].nested);
    assert_eq!(Conversion::Keep, e.build[0].convert);
    assert_eq!("field 'x' is required", e.build[0].message);
}

#[test]
fn point_with_sequence_field() {
    let es = generate_one(record("Point", vec![decl("tags", gty("Vec", vec![ty("u32")]))]));
    let e = &es[0];
    assert_eq!("Option<Vec<u32>>", render(&e.fields[0].ty));
    assert_eq!("with_tags", e.setters[0].name);
    assert_eq!(SetterKind::Append, e.setters[0].kind);
    assert_eq!(vec![("value".to_string(), "u32".to_string())], param_list(e, 0));
    assert!(e.setters[0].result_type.is_none());
    assert!(e.build[0].required);
    assert_eq!("field 'tags' is required", e.build[0].message);
}

#[test]
fn as_required() {
    let es = generate_one(record("StructWithRequiredField", vec![decl("field", ty("u32"))]));
    let e = &es[0];
    assert_eq!("StructWithRequiredFieldBuilder", e.name);
    assert_eq!("Option<u32>", render(&e.fields[0].ty));
    assert_eq!("with_field", e.setters[0].name);
    assert_eq!(SetterKind::Assign, e.setters[0].kind);
    assert_eq!(vec![("value".to_string(), "u32".to_string())], param_list(e, 0));
    assert!(e.build[0].required);
    assert_eq!("field 'field' is required", e.build[0].message);
}

#[test]
fn as_optional() {
    let es = generate_one(record(
        "StructWithOptionalField",
        vec![decl("field", gty("Option", vec![ty("u32")]))],
    ));
    let e = &es[0];
    assert_eq!("Option<u32>", render(&e.fields[0].ty));
    assert_eq!(SetterKind::Assign, e.setters[0].kind);
    assert_eq!(vec![("value".to_string(), "u32".to_string())], param_list(e, 0));
    assert!(!e.build[0].required);
    assert!(!e.build[0].nested);
}

#[test]
fn as_optional_and_optional() {
    let es = generate_one(record(
        "StructWithOptionalAndOptionalField",
        vec![decl("field", gty("Option", vec![gty("Option", vec![ty("u32")])]))],
    ));
    let e = &es[0];
    assert_eq!("Option<u32>", render(&e.fields[0].ty));
    assert_eq!(vec![("value".to_string(), "u32".to_string())], param_list(e, 0));
    assert!(!e.build[0].required);
}

#[test]
fn as_boxed() {
    let es = generate_one(record(
        "StructWithBoxedField",
        vec![decl("field", gty("Box", vec![ty("u32")]))],
    ));
    let e = &es[0];
    assert_eq!("Option<Box<u32>>", render(&e.fields[0].ty));
    assert_eq!(SetterKind::Assign, e.setters[0].kind);
    assert_eq!(vec![("value".to_string(), "Box<u32>".to_string())], param_list(e, 0));
    assert!(e.build[0].required);
}

#[test]
fn as_optional_and_boxed() {
    let es = generate_one(record(
        "StructWithOptionalAndBoxedField",
        vec![decl("field", gty("Option", vec![gty("Box", vec![ty("u32")])]))],
    ));
    let e = &es[0];
    assert_eq!("Option<Box<u32>>", render(&e.fields[0].ty));
    assert_eq!(vec![("value".to_string(), "Box<u32>".to_string())], param_list(e, 0));
    assert!(!e.build[0].required);
}

#[test]
fn as_ref_counter_and_ref_cell() {
    let es = generate_one(record(
        "StructWithRefCounterAndRefCellField",
        vec![decl("field", gty("Rc", vec![gty("RefCell", vec![ty("u32")])]))],
    ));
    let e = &es[0];
    assert_eq!("Option<Rc<RefCell<u32>>>", render(&e.fields[0].ty));
    assert_eq!(vec![("value".to_string(), "Rc<RefCell<u32>>".to_string())], param_list(e, 0));
    assert!(e.build[0].required);
}

#[test]
fn as_vec_of_primitive() {
    let es = generate_one(record(
        "StructWithVecOfPrimitiveField",
        vec![decl("field", gty("Vec", vec![ty("u32")]))],
    ));
    let e = &es[0];
    assert_eq!("Option<Vec<u32>>", render(&e.fields[0].ty));
    assert_eq!(SetterKind::Append, e.setters[0].kind);
    assert_eq!(vec![("value".to_string(), "u32".to_string())], param_list(e, 0));
    assert!(e.build[0].required);
}

#[test]
fn as_map_of_primitive() {
    let es = generate_one(record(
        "StructWithMapOfPrimitiveField",
        vec![decl("field", gty("HashMap", vec![ty("u32"), ty("u32")]))],
    ));
    let e = &es[0];
    assert_eq!("Option<HashMap<u32, u32>>", render(&e.fields[0].ty));
    assert_eq!(SetterKind::Insert, e.setters[0].kind);
    assert_eq!(
        vec![("key".to_string(), "u32".to_string()), ("value".to_string(), "u32".to_string())],
        param_list(e, 0)
    );
    assert!(e.build[0].required);
}

#[test]
fn as_complex() {
    let inner = record("ComplexType", vec![decl("inner", ty("u32"))]);
    let outer = record("StructWithComplexField", vec![decl("field", ty("ComplexType"))]);
    let generator = BuilderGenerator::new(vec![inner]);
    let es = generator.generate(&outer).unwrap();
    assert_eq!(2, es.len());
    let e = &es[0];
    assert_eq!("Option<ComplexTypeBuilder>", render(&e.fields[0].ty));
    assert_eq!(SetterKind::Nested, e.setters[0].kind);
    assert!(e.setters[0].params.is_empty());
    assert_eq!("ComplexTypeBuilder", render(e.setters[0].result_type.as_ref().unwrap()));
    assert!(e.build[0].nested);
    assert!(e.build[0].required);
    assert_eq!("ComplexTypeBuilder", es[1].name);
    assert_eq!("ComplexType", es[1].target);
    assert_eq!("with_inner", es[1].setters[0].name);
}

#[test]
fn nested_builders_depth_first() {
    let leaf = record("Leaf", vec![decl("value", ty("u8"))]);
    let middle = record("Middle", vec![decl("leaf", ty("Leaf"))]);
    let other = record("Other", vec![decl("flag", ty("bool"))]);
    let top = record(
        "Top",
        vec![decl("middle", ty("Middle")), decl("other", gty("Option", vec![ty("Other")]))],
    );
    let generator = BuilderGenerator::new(vec![leaf, middle, other]);
    let es = generator.generate(&top).unwrap();
    let names: Vec<&str> = es.iter().map(|e| e.name.as_str()).collect();
    assert_eq!(vec!["TopBuilder", "MiddleBuilder", "LeafBuilder", "OtherBuilder"], names);
    assert_eq!(SetterKind::Nested, es[0].setters[1].kind);
    assert!(!es[0].build[1].required);
    assert!(es[0].build[1].nested);
}

#[test]
fn setters_sorted_by_name() {
    let es = generate_one(record(
        "Item",
        vec![decl("charlie", ty("u8")), decl("alpha", ty("u8")), decl("bravo", ty("u8"))],
    ));
    let e = &es[0];
    let names: Vec<&str> = e.setters.iter().map(|s| s.name.as_str()).collect();
    assert_eq!(vec!["with_alpha", "with_bravo", "with_charlie"], names);
    let fields: Vec<&str> = e.fields.iter().map(|f| f.ident.as_str()).collect();
    assert_eq!(vec!["charlie", "alpha", "bravo"], fields);
    let build: Vec<&str> = e.build.iter().map(|b| b.field.as_str()).collect();
    assert_eq!(vec!["charlie", "alpha", "bravo"], build);
}

#[test]
fn union_fields_in_variant_order() {
    let item = SchemaItem {
        name: "Shape".to_string(),
        body: ItemBody::Union(vec![
            vec![decl("radius", ty("u32"))],
            vec![],
            vec![decl("width", ty("u32")), decl("height", ty("u32"))],
        ]),
        attributes: vec![],
        generics: String::new(),
    };
    let es = generate_one(item);
    let fields: Vec<&str> = es[0].fields.iter().map(|f| f.ident.as_str()).collect();
    assert_eq!(vec!["radius", "width", "height"], fields);
}

#[test]
fn raw_identifier_setter() {
    let es = generate_one(record("Token", vec![decl("r#type", ty("String"))]));
    let e = &es[0];
    assert_eq!("with_type", e.setters[0].name);
    assert_eq!("r#type", e.setters[0].field);
    assert_eq!("field 'r#type' is required", e.build[0].message);
}

#[test]
fn qualified_path_is_flattened() {
    let t = TypeRef {
        path: vec!["std".to_string(), "collections".to_string(), "HashMap".to_string()],
        args: vec![ty("String"), gty("Vec", vec![ty("u8")])],
    };
    let es = generate_one(record("Item", vec![decl("table", t)]));
    assert_eq!("Option<HashMap<String, Vec<u8>>>", render(&es[0].fields[0].ty));
    assert_eq!(SetterKind::Insert, es[0].setters[0].kind);
}

#[test]
fn unknown_name_without_arguments_is_opaque() {
    let es = generate_one(record("Item", vec![decl("when", ty("Instant"))]));
    assert_eq!("Option<Instant>", render(&es[0].fields[0].ty));
    assert_eq!(SetterKind::Assign, es[0].setters[0].kind);
}

#[test]
fn error_not_nameable() {
    let item = record("Item", vec![decl("r", TypeRef { path: vec![], args: vec![] })]);
    let generator = BuilderGenerator::new(vec![]);
    assert!(matches!(generator.generate(&item), Err(GenerateError::NotNameable)));
}

#[test]
fn error_arity() {
    let generator = BuilderGenerator::new(vec![]);
    let item = record("Item", vec![decl("v", ty("Vec"))]);
    assert_eq!(Some(GenerateError::Arity("Vec".to_string())), generator.generate(&item).err());
    let item = record("Item", vec![decl("m", gty("HashMap", vec![ty("u8")]))]);
    assert_eq!(Some(GenerateError::Arity("HashMap".to_string())), generator.generate(&item).err());
    let item = record("Item", vec![decl("r", gty("Result", vec![ty("u8"), ty("String")]))]);
    assert_eq!(Some(GenerateError::Arity("Result".to_string())), generator.generate(&item).err());
}

#[test]
fn error_cycle() {
    let node = record("Node", vec![decl("next", gty("Option", vec![ty("Node")]))]);
    let generator = BuilderGenerator::new(vec![node]);
    let item = record("Node", vec![decl("next", gty("Option", vec![ty("Node")]))]);
    assert_eq!(Some(GenerateError::Cycle("Node".to_string())), generator.generate(&item).err());
}

#[test]
fn optional_sequence_field_assigns() {
    let es = generate_one(record(
        "Item",
        vec![decl("tags", gty("Option", vec![gty("Vec", vec![ty("String")])]))],
    ));
    let e = &es[0];
    assert_eq!("Option<Vec<String>>", render(&e.fields[0].ty));
    assert_eq!(SetterKind::Assign, e.setters[0].kind);
    assert_eq!(vec![("value".to_string(), "Vec<String>".to_string())], param_list(e, 0));
    assert!(!e.build[0].required);
    assert!(!e.build[0].nested);
}

#[test]
fn optional_mapping_field_assigns() {
    let es = generate_one(record(
        "Item",
        vec![decl("table", gty("Option", vec![gty("HashMap", vec![ty("u8"), ty("bool")])]))],
    ));
    let e = &es[0];
    assert_eq!("Option<HashMap<u8, bool>>", render(&e.fields[0].ty));
    assert_eq!(SetterKind::Assign, e.setters[0].kind);
    assert_eq!(vec![("value".to_string(), "HashMap<u8, bool>".to_string())], param_list(e, 0));
    assert!(!e.build[0].required);
}
