use clayout::driver::run;
use clayout::model::{
    ArrayType, BaseType, EnumerationType, Layout, LayoutItem, StructType, TypeGraph, TypeIndex,
    TypeKind, TypeModifier, TypeModifierKind, TypeRegistry, UnionMember, UnionType,
};
use clayout::names::TypeName;
use clayout::process::{get_type_info, process_type};
use clayout::state::{Session, Warning, WarningKind};

fn named(name: &str) -> TypeName {
    TypeName { namespace: Vec::new(), name: Some(name.to_string()) }
}

fn at(input_id: usize, typoff: usize) -> TypeIndex {
    TypeIndex { input_id, typoff }
}

fn base(name: &str, size: u64) -> TypeKind {
    TypeKind::Base(BaseType { name: Some(name.to_string()), byte_size: Some(size) })
}

fn member(name: &str, ty: usize, bit_offset: u64, bit_size: u64) -> Layout {
    Layout {
        bit_offset,
        bit_size: Some(bit_size),
        item: LayoutItem::Member { name: Some(name.to_string()), ty },
    }
}

fn structure(name: &str, size: Option<u64>, layout: Vec<Layout>) -> TypeKind {
    TypeKind::Struct(StructType { name: named(name), byte_size: size, declaration: false, layout })
}

fn union_of(size: Option<u64>, members: Vec<UnionMember>) -> TypeKind {
    TypeKind::Union(UnionType { name: named("U"), byte_size: size, declaration: false, members })
}

fn union_member(bit_offset: u64, bit_size: Option<u64>) -> UnionMember {
    UnionMember { name: Some("m".to_string()), ty: 0, bit_offset, bit_size }
}

fn enumeration(size: Option<u64>) -> TypeKind {
    TypeKind::Enumeration(EnumerationType {
        name: named("E"),
        byte_size: size,
        declaration: false,
        enumerators: vec![],
    })
}

fn pointer(size: Option<u64>) -> TypeKind {
    TypeKind::Modifier(TypeModifier { kind: TypeModifierKind::Pointer, ty: 0, byte_size: size })
}

fn array(ty: usize, byte_size: Option<u64>, count: Option<u64>) -> TypeKind {
    TypeKind::Array(ArrayType { ty, byte_size, count })
}

/// What processing the second type of a graph, whose first is `int`, records.
fn recorded(second: TypeKind, hint: Option<u64>) -> Vec<Warning> {
    let g = TypeGraph { inputs: vec![vec![base("int", 4), second]] };
    let mut session = Session::new(&g, "out");
    assert!(get_type_info(&mut session, at(0, 1), hint, &g, &TypeRegistry::new()).is_none());
    session.warnings
}

fn one(kind: WarningKind) -> Vec<Warning> {
    vec![Warning { kind, index: at(0, 1) }]
}

#[test]
fn a_run_without_faults_records_nothing() {
    let g = TypeGraph {
        inputs: vec![vec![
            base("int", 4),
            structure("S", Some(8), vec![member("a", 0, 0, 32), member("p", 2, 32, 32)]),
            array(0, Some(4), Some(1)),
            TypeKind::Void,
            TypeKind::Function,
        ]],
    };
    let mut session = run(&g, &vec![vec!["S".to_string()]], "out");
    assert!(session.warnings.is_empty());
    let db = TypeRegistry::new();
    process_type(&mut session, at(0, 3), None, &g, &db);
    process_type(&mut session, at(0, 4), None, &g, &db);
    process_type(&mut session, at(0, 9), None, &g, &db);
    assert!(session.warnings.is_empty());
}

#[test]
fn a_primitive_type_without_size_or_name_is_recorded() {
    let no_size = TypeKind::Base(BaseType { name: Some("int".to_string()), byte_size: None });
    let no_name = TypeKind::Base(BaseType { name: None, byte_size: Some(4) });
    let neither = TypeKind::Base(BaseType { name: None, byte_size: None });
    assert_eq!(recorded(no_size, None), one(WarningKind::UnknownSize));
    assert_eq!(recorded(no_name, None), one(WarningKind::UnknownName));
    assert_eq!(recorded(neither, None), one(WarningKind::UnknownSize));
}

#[test]
fn a_declaration_without_definition_is_recorded() {
    let s = TypeKind::Struct(StructType {
        name: named("S"),
        byte_size: None,
        declaration: true,
        layout: vec![],
    });
    let u = TypeKind::Union(UnionType {
        name: named("U"),
        byte_size: None,
        declaration: true,
        members: vec![],
    });
    let e = TypeKind::Enumeration(EnumerationType {
        name: named("E"),
        byte_size: None,
        declaration: true,
        enumerators: vec![],
    });
    for decl in [s, u, e] {
        assert_eq!(recorded(decl, None), one(WarningKind::UnknownDeclaration));
    }
}

#[test]
fn a_structure_without_usable_layout_is_recorded() {
    let fields = || vec![member("l", 0, 0, 32), member("c", 0, 32, 32)];
    assert_eq!(recorded(structure("S", None, fields()), None), one(WarningKind::UnknownSize));
    assert_eq!(
        recorded(structure("S", Some(u64::MAX / 4), fields()), None),
        one(WarningKind::UnknownSize)
    );
    let unsized_padding = vec![
        member("l", 0, 0, 32),
        Layout { bit_offset: 32, bit_size: None, item: LayoutItem::Padding },
    ];
    assert_eq!(
        recorded(structure("S", Some(8), unsized_padding), None),
        one(WarningKind::InvalidLayout)
    );
    let large_padding = vec![
        member("l", 0, 0, 32),
        Layout { bit_offset: 32, bit_size: Some(96), item: LayoutItem::Padding },
    ];
    assert_eq!(
        recorded(structure("S", Some(8), large_padding), None),
        one(WarningKind::InvalidLayout)
    );
    assert_eq!(recorded(structure("S", Some(8), fields()), Some(3)), one(WarningKind::InvalidLayout));
    let unsorted = vec![member("c", 0, 32, 32), member("l", 0, 0, 32)];
    assert_eq!(recorded(structure("S", Some(8), unsorted), None), one(WarningKind::InvalidLayout));
}

#[test]
fn a_union_without_usable_members_is_recorded() {
    assert_eq!(
        recorded(union_of(None, vec![union_member(0, Some(32))]), None),
        one(WarningKind::UnknownSize)
    );
    assert_eq!(
        recorded(union_of(Some(4), vec![union_member(0, Some(32))]), Some(3)),
        one(WarningKind::TooLarge)
    );
    assert_eq!(
        recorded(union_of(Some(4), vec![union_member(0, Some(32)), union_member(8, Some(8))]), None),
        one(WarningKind::MisplacedUnionMember)
    );
    assert_eq!(
        recorded(union_of(Some(4), vec![union_member(0, Some(32)), union_member(0, None)]), None),
        one(WarningKind::UnsizedUnionMember)
    );
    assert_eq!(
        recorded(union_of(Some(4), vec![union_member(8, None), union_member(8, Some(8))]), None),
        one(WarningKind::UnsizedUnionMember)
    );
    assert_eq!(
        recorded(union_of(Some(4), vec![union_member(8, Some(8)), union_member(0, None)]), None),
        one(WarningKind::MisplacedUnionMember)
    );
}

#[test]
fn an_enumeration_without_usable_size_is_recorded() {
    assert_eq!(recorded(enumeration(None), None), one(WarningKind::UnknownSize));
    assert_eq!(recorded(enumeration(Some(4)), Some(2)), one(WarningKind::TooLarge));
    assert_eq!(recorded(enumeration(Some(3)), None), one(WarningKind::UnsupportedEnumWidth));
    assert_eq!(recorded(enumeration(Some(16)), Some(8)), one(WarningKind::TooLarge));
    assert_eq!(recorded(enumeration(Some(0)), Some(8)), one(WarningKind::UnsupportedEnumWidth));
}

#[test]
fn a_pointer_without_usable_size_is_recorded() {
    assert_eq!(recorded(pointer(None), None), one(WarningKind::UnknownSize));
    assert_eq!(recorded(pointer(Some(8)), Some(4)), one(WarningKind::TooLarge));
}

#[test]
fn an_array_whose_count_cannot_be_told_is_recorded() {
    assert_eq!(recorded(array(0, None, Some(3)), None), one(WarningKind::UnknownSize));
    assert_eq!(recorded(array(0, Some(12), Some(3)), Some(11)), one(WarningKind::TooLarge));
    assert_eq!(recorded(array(0, Some(12), None), None), one(WarningKind::UnknownCount));
    assert_eq!(recorded(array(0, Some(10), Some(3)), None), one(WarningKind::InconsistentArray));
    assert_eq!(recorded(array(0, Some(12), Some(2)), None), one(WarningKind::InconsistentArray));
    assert_eq!(recorded(array(7, Some(12), Some(3)), None), one(WarningKind::UnknownElement));
}

#[test]
fn faults_are_recorded_in_the_order_in_which_they_are_met() {
    let g = TypeGraph {
        inputs: vec![vec![
            base("int", 4),
            enumeration(Some(3)),
            array(1, Some(9), Some(3)),
            pointer(None),
            structure(
                "S",
                Some(24),
                vec![member("a", 2, 0, 72), member("p", 3, 128, 64), member("e", 1, 192, 24)],
            ),
        ]],
    };
    let session = run(&g, &vec![vec!["S".to_string()]], "out");
    assert_eq!(
        session.warnings,
        vec![
            Warning { kind: WarningKind::UnsupportedEnumWidth, index: at(0, 1) },
            Warning { kind: WarningKind::UnknownElement, index: at(0, 2) },
            Warning { kind: WarningKind::UnknownSize, index: at(0, 3) },
        ]
    );
    let header = &session.printer.h_lines;
    assert!(header.contains(&"  __u8 __unknown_type0[16];".to_string()));
    assert!(header.contains(&"  __u8 __unknown_type1[8];".to_string()));
    assert!(header.contains(&"  __u8 __unknown_type2[0];".to_string()));
}

#[test]
fn a_fault_is_recorded_once() {
    let g = TypeGraph { inputs: vec![vec![base("int", 4), enumeration(Some(3))]] };
    let mut session = Session::new(&g, "out");
    let db = TypeRegistry::new();
    for _ in 0..3 {
        assert!(get_type_info(&mut session, at(0, 1), None, &g, &db).is_none());
    }
    assert_eq!(session.warnings, one(WarningKind::UnsupportedEnumWidth));
    session.warn(WarningKind::TooLarge, at(0, 0));
    assert_eq!(session.warnings.len(), 2);
    assert_eq!(session.warnings[1], Warning { kind: WarningKind::TooLarge, index: at(0, 0) });
}
