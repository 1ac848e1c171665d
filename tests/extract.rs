use header_tool::extract::{Accessibility, EntityKind};
use header_tool::{AccessModifier, HeaderParser, Namespace, SourceEntity};

fn entity(kind: EntityKind, name: &str) -> SourceEntity {
    SourceEntity {
        kind,
        display_name: Some(name.to_string()),
        in_main_file: true,
        has_attributes: false,
        accessibility: None,
        static_storage: false,
        is_static_method: false,
        is_const_method: false,
        is_virtual_method: false,
        is_pure_virtual_method: false,
        type_display: None,
        type_is_const: false,
        size: None,
        alignment: None,
        offset_bits: None,
        result_type: None,
        underlying_type: None,
        comment_brief: None,
        enum_value: None,
        arguments: None,
        children: Vec::new(),
    }
}

fn annotated(mut e: SourceEntity, marker: &str) -> SourceEntity {
    e.has_attributes = true;
    e.children.push(entity(EntityKind::AnnotateAttr, marker));
    e
}

fn sample_header() -> SourceEntity {
    let mut method = entity(EntityKind::Method, "meow");
    method.accessibility = Some(Accessibility::Public);
    method.result_type = Some("void".to_string());
    let mut arg = entity(EntityKind::Other, "times");
    arg.type_display = Some("const int".to_string());
    arg.type_is_const = true;
    method.arguments = Some(vec![arg]);
    let hidden = annotated(entity(EntityKind::Method, "secret"), "hide");
    let mut field = entity(EntityKind::FieldDecl, "lives");
    field.accessibility = Some(Accessibility::Private);
    field.type_display = Some("const uint8_t".to_string());
    field.type_is_const = true;
    field.offset_bits = Some(64);
    let mut count = entity(EntityKind::VarDecl, "count");
    count.static_storage = true;
    count.accessibility = Some(Accessibility::Public);
    count.type_display = Some("int".to_string());
    let mut class = annotated(entity(EntityKind::ClassDecl, "Cat"), "expose");
    class.size = Some(16);
    class.alignment = Some(8);
    class.comment_brief = Some("A cat.".to_string());
    class.children.extend(vec![method, hidden, field, count]);

    let plain = entity(EntityKind::ClassDecl, "NotExposed");
    let mut value = entity(EntityKind::EnumConstantDecl, "Minus");
    value.enum_value = Some((-1, u64::MAX));
    let mut en = annotated(entity(EntityKind::EnumDecl, "Sign"), "expose");
    en.underlying_type = Some("int".to_string());
    en.children.push(value);
    let mut func = annotated(entity(EntityKind::FunctionDecl, "tick"), "expose");
    func.result_type = Some("bool".to_string());
    let var = annotated(entity(EntityKind::VarDecl, "speed"), "expose");
    let st = annotated(entity(EntityKind::StructDecl, "Vec3"), "expose");
    let mut elsewhere = entity(EntityKind::Namespace, "std");
    elsewhere.in_main_file = false;

    let mut ns = entity(EntityKind::Namespace, "bomb_engine");
    ns.children.extend(vec![class, plain, en, func, var, st, elsewhere]);
    let mut root = entity(EntityKind::Other, "src/test_header.h");
    root.children.push(ns);
    root
}

#[test]
fn extraction_keeps_exposed_entities() {
    let parser = HeaderParser::new();
    let ir = parser.parse_header(&sample_header());
    assert_eq!(ir.name, "src/test_header.h");
    assert_eq!(ir.namespaces.len(), 1);
    let ns = &ir.namespaces[0];
    assert_eq!(ns.name, "bomb_engine");
    assert!(ns.namespaces.is_empty());

    assert_eq!(ns.classes.len(), 1);
    let cat = &ns.classes[0];
    assert_eq!(cat.name, "Cat");
    assert_eq!((cat.size, cat.alignment), (16, 8));
    assert_eq!(cat.brief, "A cat.");
    assert_eq!(cat.methods.len(), 1);
    assert_eq!(cat.methods[0].name, "meow");
    assert_eq!(cat.methods[0].return_type, "void");
    assert_eq!(cat.methods[0].access, AccessModifier::Public);
    assert_eq!(cat.methods[0].args[0].name, "times");
    assert_eq!(cat.methods[0].args[0].var_type, "const int");
    assert!(cat.methods[0].args[0].is_const);

    assert_eq!(cat.members.len(), 2);
    assert_eq!(cat.members[0].name, "lives");
    assert_eq!(cat.members[0].var_type, "uint8_t");
    assert!(cat.members[0].is_const);
    assert_eq!(cat.members[0].offset, 8);
    assert_eq!(cat.members[0].access, AccessModifier::Private);
    assert!(!cat.members[0].is_static);
    assert_eq!(cat.members[1].name, "count");
    assert!(cat.members[1].is_static);
    assert_eq!(cat.members[1].offset, 0);

    assert_eq!(ns.enums.len(), 1);
    assert_eq!(ns.enums[0].underlying_type, "int");
    assert_eq!(ns.enums[0].enumerators[0].s_value, -1);
    assert_eq!(ns.enums[0].enumerators[0].u_value, u64::MAX);
    assert_eq!(ns.functions.len(), 1);
    assert_eq!(ns.functions[0].return_type, "bool");
    assert_eq!(ns.variables.len(), 1);
    assert_eq!(ns.variables[0].name, "speed");
    assert_eq!(ns.structs.len(), 1);
    assert_eq!(ns.structs[0].name, "Vec3");
}

#[test]
fn header_outside_the_main_file_is_empty() {
    let mut root = sample_header();
    root.in_main_file = false;
    let parser = HeaderParser::new();
    assert_eq!(parser.parse_header(&root), Namespace::default());
    let all = parser.parse_header_collection(&vec![root, sample_header()]);
    assert_eq!(all.len(), 2);
    assert_eq!(all[0], Namespace::default());
    assert_eq!(all[1].name, "src/test_header.h");
}
