use clayout::driver::{build_registry, find_roots, is_declaration, is_dest, run, type_name_of};
use clayout::model::{
    ArrayType, BaseType, EnumerationType, Layout, LayoutItem, StructType, TypeDef, TypeGraph,
    TypeIndex, TypeKind, TypeModifier, TypeModifierKind, UnionType,
};
use clayout::names::TypeName;
use clayout::text::parse_typename;

fn scoped(scopes: &[&str], name: &str) -> TypeName {
    TypeName {
        namespace: scopes.iter().map(|s| Some(s.to_string())).collect(),
        name: Some(name.to_string()),
    }
}

fn at(input_id: usize, typoff: usize) -> TypeIndex {
    TypeIndex { input_id, typoff }
}

fn base(name: &str, size: u64) -> TypeKind {
    TypeKind::Base(BaseType { name: Some(name.to_string()), byte_size: Some(size) })
}

fn member(name: &str, ty: usize, bit_offset: u64, bit_size: u64) -> Layout {
    Layout {
        bit_offset,
        bit_size: Some(bit_size),
        item: LayoutItem::Member { name: Some(name.to_string()), ty },
    }
}

fn structure(name: TypeName, size: u64, layout: Vec<Layout>) -> TypeKind {
    TypeKind::Struct(StructType { name, byte_size: Some(size), declaration: false, layout })
}

fn declared(name: TypeName) -> TypeKind {
    TypeKind::Struct(StructType { name, byte_size: None, declaration: true, layout: vec![] })
}

fn dests(names: &[&str]) -> Vec<Vec<String>> {
    names.iter().map(|n| parse_typename(n).unwrap()).collect()
}

#[test]
fn declarations_are_told_from_definitions() {
    assert!(is_declaration(&declared(scoped(&[], "S"))));
    assert!(!is_declaration(&structure(scoped(&[], "S"), 4, vec![])));
    assert!(is_declaration(&TypeKind::Union(UnionType {
        name: scoped(&[], "U"),
        byte_size: None,
        declaration: true,
        members: vec![],
    })));
    assert!(is_declaration(&TypeKind::Enumeration(EnumerationType {
        name: scoped(&[], "E"),
        byte_size: None,
        declaration: true,
        enumerators: vec![],
    })));
    assert!(is_declaration(&TypeKind::Unspecified));
    assert!(!is_declaration(&TypeKind::Void));
    assert!(!is_declaration(&base("int", 4)));
    assert!(!is_declaration(&TypeKind::Def(TypeDef { name: scoped(&[], "t"), ty: 0 })));
    assert!(!is_declaration(&TypeKind::Function));
}

#[test]
fn definitions_of_composites_and_aliases_have_names() {
    let s = structure(scoped(&["ns"], "S"), 4, vec![]);
    assert!(type_name_of(&s).unwrap().same_as(&scoped(&["ns"], "S")));
    let d = TypeKind::Def(TypeDef { name: scoped(&[], "t"), ty: 0 });
    assert!(type_name_of(&d).unwrap().same_as(&scoped(&[], "t")));
    assert!(type_name_of(&declared(scoped(&[], "S"))).is_none());
    assert!(type_name_of(&base("int", 4)).is_none());
    assert!(type_name_of(&TypeKind::Unspecified).is_none());
    assert!(type_name_of(&TypeKind::Array(ArrayType { ty: 0, byte_size: None, count: None }))
        .is_none());
    assert!(type_name_of(&TypeKind::Modifier(TypeModifier {
        kind: TypeModifierKind::Const,
        ty: 0,
        byte_size: None,
    }))
    .is_none());
}

#[test]
fn a_destination_is_a_suffix_of_the_path() {
    let wanted = dests(&["ns2::T", "Other"]);
    assert!(is_dest(&wanted, &scoped(&["ns2", "ns1"], "T")));
    assert!(is_dest(&wanted, &scoped(&["ns2"], "T")));
    assert!(is_dest(&wanted, &scoped(&["deep"], "Other")));
    assert!(!is_dest(&wanted, &scoped(&["ns1"], "T")));
    assert!(!is_dest(&wanted, &scoped(&[], "T")));
    assert!(!is_dest(&Vec::new(), &scoped(&[], "T")));
    assert!(is_dest(&dests(&[""]), &scoped(&[], "T")));
}

#[test]
fn the_registry_holds_named_definitions_in_order() {
    let g = TypeGraph {
        inputs: vec![
            vec![
                base("int", 4),
                declared(scoped(&[], "S")),
                structure(scoped(&["ns"], "S"), 4, vec![]),
                structure(TypeName { namespace: vec![], name: None }, 4, vec![]),
                structure(TypeName { namespace: vec![None], name: Some("In".to_string()) }, 4, vec![]),
            ],
            vec![
                structure(scoped(&["ns"], "S"), 8, vec![]),
                TypeKind::Def(TypeDef { name: scoped(&[], "alias"), ty: 0 }),
                structure(scoped(&[], "S"), 8, vec![]),
            ],
        ],
    };
    let db = build_registry(&g);
    let got: Vec<(String, TypeIndex)> =
        db.entries.iter().map(|e| (e.name.display(), e.index)).collect();
    assert_eq!(
        got,
        vec![
            ("ns::S".to_string(), at(0, 2)),
            ("ns::S".to_string(), at(1, 0)),
            ("alias".to_string(), at(1, 1)),
            ("S".to_string(), at(1, 2)),
        ]
    );
    assert_eq!(db.get(&scoped(&["ns"], "S")), Some(at(0, 2)));
    assert_eq!(db.get(&scoped(&[], "S")), Some(at(1, 2)));
    assert_eq!(db.get(&scoped(&[], "alias")), Some(at(1, 1)));
    assert_eq!(db.get(&scoped(&[], "In")), None);
}

#[test]
fn roots_follow_the_order_of_the_destinations() {
    let g = TypeGraph {
        inputs: vec![
            vec![
                structure(scoped(&["a"], "T"), 4, vec![]),
                structure(scoped(&[], "U"), 4, vec![]),
                declared(scoped(&[], "U")),
            ],
            vec![structure(scoped(&["b"], "T"), 4, vec![]), structure(scoped(&[], "U"), 4, vec![])],
        ],
    };
    assert_eq!(find_roots(&g, &dests(&["U", "T"])), vec![at(0, 1), at(1, 1), at(0, 0), at(1, 0)]);
    assert_eq!(find_roots(&g, &dests(&["T", "U"])), vec![at(0, 0), at(1, 0), at(0, 1), at(1, 1)]);
    assert_eq!(find_roots(&g, &dests(&["b::T", "T"])), vec![at(1, 0), at(0, 0), at(1, 0)]);
    assert_eq!(find_roots(&g, &dests(&["V"])), Vec::new());
    assert_eq!(find_roots(&g, &Vec::new()), Vec::new());
}

#[test]
fn dotted_destinations_select_the_same_roots() {
    let g = TypeGraph {
        inputs: vec![vec![
            structure(scoped(&["ns2", "ns1"], "T"), 4, vec![]),
            structure(scoped(&["other"], "T"), 4, vec![]),
        ]],
    };
    assert_eq!(find_roots(&g, &dests(&["ns1.ns2.T"])), vec![at(0, 0)]);
    assert_eq!(find_roots(&g, &dests(&["ns2.T"])), vec![at(0, 0)]);
    assert_eq!(find_roots(&g, &dests(&["ns1.ns2.T"])), find_roots(&g, &dests(&["ns1::ns2::T"])));
    assert_eq!(find_roots(&g, &dests(&["other.T", "T"])), vec![at(0, 1), at(0, 0), at(0, 1)]);
}

#[test]
fn an_anonymous_definition_can_be_a_root_by_its_scope() {
    let anon_scope = TypeName { namespace: vec![None, Some("ns".to_string())], name: Some("T".to_string()) };
    let g = TypeGraph { inputs: vec![vec![structure(anon_scope, 4, vec![])]] };
    assert_eq!(find_roots(&g, &dests(&["T"])), vec![at(0, 0)]);
    assert!(build_registry(&g).entries.is_empty());
}

#[test]
fn a_run_emits_every_needed_type_once() {
    let g = TypeGraph {
        inputs: vec![vec![
            base("int", 4),
            structure(scoped(&[], "Inner"), 4, vec![member("x", 0, 0, 32)]),
            structure(scoped(&[], "First"), 4, vec![member("i", 1, 0, 32)]),
            structure(scoped(&[], "Second"), 8, vec![member("a", 1, 0, 32), member("b", 1, 32, 32)]),
            structure(scoped(&[], "Unused"), 4, vec![member("x", 0, 0, 32)]),
        ]],
    };
    let session = run(&g, &dests(&["Second", "First", "Inner", "Second"]), "out");
    let h = &session.printer.h_lines;
    let opened: Vec<&String> = h.iter().filter(|l| l.ends_with(" {")).collect();
    assert_eq!(opened, vec!["struct Inner {", "struct Second {", "struct First {"]);
    let p = &session.printer.c_lines;
    assert_eq!(p.iter().filter(|l| l.contains("sizeof(int)")).count(), 1);
    assert_eq!(p[p.len() - 2], "  return 0;");
    assert_eq!(p[p.len() - 1], "}");
    assert!(!session.processed.contains_key(at(0, 4)));
    assert_eq!(session.printer.used_idents.len(), 3);
}

#[test]
fn a_run_resolves_declarations_across_inputs() {
    let g = TypeGraph {
        inputs: vec![
            vec![
                declared(scoped(&["lib"], "Handle")),
                TypeKind::Modifier(TypeModifier {
                    kind: TypeModifierKind::Pointer,
                    ty: 0,
                    byte_size: Some(8),
                }),
                structure(scoped(&[], "User"), 8, vec![member("h", 1, 0, 64)]),
            ],
            vec![base("int", 4), structure(scoped(&["lib"], "Handle"), 4, vec![member("fd", 0, 0, 32)])],
        ],
    };
    let session = run(&g, &dests(&["User"]), "out");
    let h = &session.printer.h_lines;
    assert!(h.contains(&"// tyname=lib::Handle tyidx=TypeIndex { input_id: 1, typoff: 1 }".to_string()));
    assert!(h.contains(&"struct Handle {".to_string()));
    assert!(h.contains(&"  struct Handle* h;".to_string()));
    let first = h.iter().position(|l| l == "struct Handle {").unwrap();
    let second = h.iter().position(|l| l == "struct User {").unwrap();
    assert!(first < second);
}

#[test]
fn types_of_the_same_name_in_two_inputs_get_different_identifiers() {
    let g = TypeGraph {
        inputs: vec![
            vec![base("int", 4), structure(scoped(&["ns"], "T"), 4, vec![member("x", 0, 0, 32)])],
            vec![base("char", 1), structure(scoped(&["ns"], "T"), 1, vec![member("c", 0, 0, 8)])],
        ],
    };
    let session = run(&g, &dests(&["T"]), "out");
    let names: Vec<String> = session.printer.used_idents.iter().map(|u| u.name.clone()).collect();
    assert_eq!(names, vec!["T", "ns_T"]);
    let h = &session.printer.h_lines;
    assert!(h.contains(&"struct T {".to_string()));
    assert!(h.contains(&"struct ns_T {".to_string()));
}
