use builder_generator::field::Field;
use builder_generator::generator::GenerateError;
use builder_generator::schema::{Attribute, FieldDecl, ItemBody, MetaKind, SchemaItem, TypeRef};
use builder_generator::shape::FieldTypeSegment;
use builder_generator::BuilderGenerator;

fn ty(name: &str) -> TypeRef {
    TypeRef { path: vec![name.to_string()], args: vec![] }
}

fn gty(name: &str, args: Vec<TypeRef>) -> TypeRef {
    TypeRef { path: vec![name.to_string()], args }
}

fn path_attr(name: &str) -> Attribute {
    Attribute { kind: MetaKind::Path, tokens: name.to_string() }
}

#[test]
fn field_new_classifies_and_marks_optional() {
    let generator = BuilderGenerator::new(vec![]);
    let required = FieldDecl { name: "a".to_string(), ty: ty("u32"), attributes: vec![] };
    let f = Field::new(&generator, &required).unwrap();
    assert_eq!("a", f.ident);
    assert!(f.is_required);
    assert!(matches!(&f.ty, FieldTypeSegment::Primitive(n) if n == "u32"));
    let optional = FieldDecl {
        name: "b".to_string(),
        ty: gty("Option", vec![gty("Vec", vec![ty("bool")])]),
        attributes: vec![path_attr("keep")],
    };
    let f = Field::new(&generator, &optional).unwrap();
    assert!(!f.is_required);
    assert_eq!(1, f.attributes.len());
    match &f.ty {
        FieldTypeSegment::Nullable(inner) => {
            assert!(matches!(inner.as_ref(), FieldTypeSegment::Sequence(_)));
        }
        _ => panic!("expected an optional field"),
    }
}

#[test]
fn field_map_and_rename_keep_requiredness() {
    let generator = BuilderGenerator::new(vec![]);
    let decl = FieldDecl { name: "x".to_string(), ty: ty("u32"), attributes: vec![] };
    let mut f = Field::new(&generator, &decl).unwrap();
    f.rename("column".to_string());
    assert!(f.map(&generator, &gty("Vec", vec![ty("u64")])).is_ok());
    assert_eq!("column", f.ident);
    assert!(f.is_required);
    match &f.ty {
        FieldTypeSegment::Remapped(source, target) => {
            assert!(matches!(source.as_ref(), FieldTypeSegment::Primitive(n) if n == "u32"));
            assert!(matches!(target.as_ref(), FieldTypeSegment::Sequence(_)));
        }
        _ => panic!("expected a remapped field"),
    }
    let setter = f.generate_set_method();
    assert_eq!("with_column", setter.name);
    assert_eq!(vec!["column".to_string()], Field::generate_new_method(&vec![f]));
}

#[test]
fn field_map_to_bad_type_leaves_field() {
    let generator = BuilderGenerator::new(vec![]);
    let decl = FieldDecl { name: "x".to_string(), ty: ty("u32"), attributes: vec![] };
    let mut f = Field::new(&generator, &decl).unwrap();
    assert_eq!(Err(GenerateError::Arity("HashMap".to_string())), f.map(&generator, &ty("HashMap")));
    assert!(matches!(&f.ty, FieldTypeSegment::Primitive(n) if n == "u32"));
}

#[test]
fn discard_attribute_keeps_others_in_order() {
    let generator = BuilderGenerator::new(vec![]);
    let decl = FieldDecl {
        name: "x".to_string(),
        ty: ty("u32"),
        attributes: vec![path_attr("a"), path_attr("b"), path_attr("a"), path_attr("c")],
    };
    let mut f = Field::new(&generator, &decl).unwrap();
    f.discard_attribute(&path_attr("a"));
    let left: Vec<&str> = f.attributes.iter().map(|a| a.tokens.as_str()).collect();
    assert_eq!(vec!["b", "c"], left);
    f.discard_attribute(&Attribute { kind: MetaKind::List, tokens: "b".to_string() });
    assert_eq!(2, f.attributes.len());
    f.attributes_mut().push(path_attr("d"));
    assert_eq!(3, f.attributes.len());
}

#[test]
fn segment_new_and_map() {
    let inner = SchemaItem {
        name: "Inner".to_string(),
        body: ItemBody::Record(vec![FieldDecl {
            name: "v".to_string(),
            ty: ty("i8"),
            attributes: vec![],
        }]),
        attributes: vec![],
        generics: String::new(),
    };
    let generator = BuilderGenerator::new(vec![inner]);
    let s = FieldTypeSegment::new(&generator, &ty("Inner")).unwrap();
    match &s {
        FieldTypeSegment::Complex(name, fields) => {
            assert_eq!("Inner", name);
            assert_eq!(1, fields.len());
            assert_eq!("v", fields[0].ident);
        }
        _ => panic!("expected a nested item"),
    }
    assert_eq!(vec!["InnerBuilder".to_string()], s.unwrap().path);
    assert!(s.is_complex());
    let m = FieldTypeSegment::map(&generator, s, &ty("String")).unwrap();
    assert!(matches!(&m, FieldTypeSegment::Remapped(_, t) if matches!(t.as_ref(), FieldTypeSegment::Primitive(n) if n == "String")));
    assert!(!m.is_complex());
}

#[test]
fn find_item_returns_first_match() {
    let a1 = SchemaItem {
        name: "A".to_string(),
        body: ItemBody::Record(vec![]),
        attributes: vec![],
        generics: "first".to_string(),
    };
    let a2 = SchemaItem {
        name: "A".to_string(),
        body: ItemBody::Record(vec![]),
        attributes: vec![],
        generics: "second".to_string(),
    };
    let generator = BuilderGenerator::new(vec![a1, a2]);
    assert_eq!("first", generator.find_item(&"A".to_string()).unwrap().generics);
    assert!(generator.find_item(&"B".to_string()).is_none());
}
