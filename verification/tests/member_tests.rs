use clayout::ids::IdGenerator;
use clayout::layout::{
    drop_trailing_padding, find_next_idx, is_bitfield, spans_of, trim_trailing_padding, Span,
};
use clayout::member::{member_name, Member};
use clayout::model::{
    element_count, BaseType, Layout, LayoutItem, TypeGraph, TypeIndex, TypeInfo, TypeKind, TypeRegistry,
};
use clayout::names::TypeName;
use clayout::printer::EqAssert;
use clayout::state::ProcessState;
use std::rc::Rc;

fn item(bit_offset: u64, bit_size: Option<u64>) -> Layout {
    Layout { bit_offset, bit_size, item: LayoutItem::Member { name: None, ty: 0 } }
}

fn pad(bit_offset: u64, bit_size: Option<u64>) -> Layout {
    Layout { bit_offset, bit_size, item: LayoutItem::Padding }
}

fn info(name: &str) -> TypeInfo {
    TypeInfo { name: name.to_string(), packed_size: 1, size: 1 }
}

fn checks(asserts: &[EqAssert]) -> Vec<(String, u64)> {
    asserts.iter().map(|a| (a.expr.clone(), a.val)).collect()
}

fn field(m: &Member) -> (u64, u64, String, String, bool) {
    (m.off, m.len, m.field_name.clone(), m.def.clone(), m.is_padding)
}

#[test]
fn print_adds_the_declaration_and_two_checks() {
    let m = Member {
        off: 8,
        len: 4,
        field_name: "count".to_string(),
        def: "int count".to_string(),
        is_padding: false,
    };
    let mut def = vec!["struct S {".to_string()];
    let mut asserts = vec![EqAssert { expr: "first".to_string(), val: 0 }];
    m.print("struct S", &mut def, &mut asserts);
    assert_eq!(def, vec!["struct S {", "  int count;"]);
    assert_eq!(
        checks(&asserts),
        vec![
            ("first".to_string(), 0),
            ("(long int)(&(((struct S*)0)->count))".to_string(), 8),
            ("sizeof(((struct S*)0)->count)".to_string(), 4),
        ]
    );
}

#[test]
fn new_padding_is_a_numbered_byte_array() {
    let mut ids = IdGenerator { next: 33 };
    let m = Member::new_padding(5, 3, &mut ids);
    assert_eq!(
        field(&m),
        (5, 3, "__padding33".to_string(), "__u8 __padding33[3]".to_string(), true)
    );
    assert_eq!(ids.next, 34);
}

#[test]
fn new_placeholder_is_a_numbered_byte_array() {
    let mut ids = IdGenerator::new();
    let m = Member::new_placeholder(0, 16, "__unknown_type", &mut ids);
    assert_eq!(
        field(&m),
        (0, 16, "__unknown_type0".to_string(), "__u8 __unknown_type0[16]".to_string(), false)
    );
    let z = Member::new_placeholder(16, 0, "_bitfield", &mut ids);
    assert_eq!(
        field(&z),
        (16, 0, "_bitfield1".to_string(), "__u8 _bitfield1[0]".to_string(), false)
    );
    assert_eq!(ids.next, 2);
}

#[test]
fn member_name_keeps_identifiers() {
    let mut ids = IdGenerator::new();
    assert_eq!(member_name(Some("next_ptr"), &mut ids), "next_ptr");
    assert_eq!(member_name(Some(""), &mut ids), "");
    assert_eq!(ids.next, 0);
}

#[test]
fn member_name_makes_up_names() {
    let mut ids = IdGenerator::new();
    assert_eq!(member_name(None, &mut ids), "__anon0");
    assert_eq!(member_name(Some("operator()"), &mut ids), "__mem1");
    assert_eq!(member_name(Some("a b"), &mut ids), "__mem2");
    assert_eq!(member_name(None, &mut ids), "__anon3");
    assert_eq!(ids.next, 4);
}

#[test]
fn ident_is_the_start_of_the_last_word() {
    assert_eq!(info("struct Foo").ident(), "Foo");
    assert_eq!(info("int").ident(), "int");
    assert_eq!(info("long long unsigned int").ident(), "int");
    assert_eq!(info("Foo*").ident(), "Foo");
    assert_eq!(info("struct Foo**").ident(), "Foo");
    assert_eq!(info("union U \t").ident(), "U");
    assert_eq!(info("void*").ident(), "void");
}

#[test]
fn ident_takes_every_white_space_character_for_a_separator() {
    let spaces = [
        '\u{9}', '\u{A}', '\u{B}', '\u{C}', '\u{D}', '\u{20}', '\u{85}', '\u{A0}', '\u{1680}',
        '\u{2000}', '\u{2001}', '\u{2002}', '\u{2003}', '\u{2004}', '\u{2005}', '\u{2006}',
        '\u{2007}', '\u{2008}', '\u{2009}', '\u{200A}', '\u{2028}', '\u{2029}', '\u{202F}',
        '\u{205F}', '\u{3000}',
    ];
    for c in spaces {
        assert_eq!(info(&format!("first{}second{}", c, c)).ident(), "second");
    }
    for c in ['\u{8}', '\u{E}', '\u{1F}', '\u{A1}', '\u{180E}', '\u{200B}', '\u{2060}', '\u{FEFF}'] {
        assert_eq!(info(&format!("first{}second", c)).ident(), "first");
    }
}

#[test]
fn ident_is_empty_without_a_word() {
    assert_eq!(info("").ident(), "");
    assert_eq!(info("   ").ident(), "");
    assert_eq!(info("struct <anon>").ident(), "");
}

#[test]
fn element_count_is_the_product_of_the_dimensions() {
    assert_eq!(element_count(&[Some(3)]), Some(3));
    assert_eq!(element_count(&[Some(2), Some(3), Some(4)]), Some(24));
    assert_eq!(element_count(&[Some(0)]), Some(0));
    assert_eq!(element_count(&[Some(1 << 32), Some(1 << 31)]), Some(1 << 63));
    assert_eq!(element_count(&[Some(u64::MAX), Some(1)]), Some(u64::MAX));
}

#[test]
fn element_count_needs_known_dimensions_and_a_product_that_fits() {
    assert_eq!(element_count(&[]), None);
    assert_eq!(element_count(&[None]), None);
    assert_eq!(element_count(&[Some(2), None, Some(4)]), None);
    assert_eq!(element_count(&[Some(0), None]), None);
    assert_eq!(element_count(&[Some(1 << 32), Some(1 << 32)]), None);
    assert_eq!(element_count(&[Some(u64::MAX), Some(2)]), None);
    assert_eq!(element_count(&[Some(u64::MAX), Some(u64::MAX), Some(0)]), Some(0));
    assert_eq!(element_count(&[Some(0), Some(u64::MAX), Some(u64::MAX)]), Some(0));
}

#[test]
fn node_looks_positions_up() {
    let graph = TypeGraph {
        inputs: vec![
            vec![TypeKind::Void, TypeKind::Function],
            vec![],
            vec![TypeKind::Base(BaseType { name: None, byte_size: None })],
        ],
    };
    assert!(matches!(graph.node(TypeIndex { input_id: 0, typoff: 1 }), Some(TypeKind::Function)));
    assert!(matches!(graph.node(TypeIndex { input_id: 2, typoff: 0 }), Some(TypeKind::Base(_))));
    assert!(graph.node(TypeIndex { input_id: 0, typoff: 2 }).is_none());
    assert!(graph.node(TypeIndex { input_id: 1, typoff: 0 }).is_none());
    assert!(graph.node(TypeIndex { input_id: 3, typoff: 0 }).is_none());
    assert!(graph.node(TypeIndex { input_id: 0, typoff: usize::MAX }).is_none());
}

#[test]
fn registry_answers_with_the_first_entry() {
    let name = |s: &str| TypeName { namespace: vec![Some("ns".to_string())], name: Some(s.to_string()) };
    let mut db = TypeRegistry::new();
    assert_eq!(db.get(&name("A")), None);
    db.insert(name("A"), TypeIndex { input_id: 0, typoff: 5 });
    db.insert(name("B"), TypeIndex { input_id: 0, typoff: 6 });
    db.insert(name("A"), TypeIndex { input_id: 1, typoff: 7 });
    assert_eq!(db.get(&name("A")), Some(TypeIndex { input_id: 0, typoff: 5 }));
    assert_eq!(db.get(&name("B")), Some(TypeIndex { input_id: 0, typoff: 6 }));
    assert_eq!(db.get(&name("C")), None);
    assert_eq!(db.get(&TypeName { namespace: vec![], name: Some("A".to_string()) }), None);
    assert_eq!(db.entries.len(), 3);
}

#[test]
fn find_next_idx_finds_byte_aligned_items() {
    let layout = vec![item(0, Some(3)), item(3, Some(5)), item(8, Some(4)), item(12, Some(4)), item(16, None)];
    assert_eq!(find_next_idx(&layout, 0), Some(0));
    assert_eq!(find_next_idx(&layout, 1), Some(2));
    assert_eq!(find_next_idx(&layout, 2), Some(2));
    assert_eq!(find_next_idx(&layout, 3), Some(4));
    assert_eq!(find_next_idx(&layout, 5), None);
    assert_eq!(find_next_idx(&layout, 9), None);
    assert_eq!(find_next_idx(&layout[..4], 3), None);
    assert_eq!(find_next_idx(&[], 0), None);
}

#[test]
fn bit_fields_have_a_size_that_is_no_whole_byte() {
    assert!(is_bitfield(&item(0, Some(1))));
    assert!(is_bitfield(&item(0, Some(12))));
    assert!(is_bitfield(&pad(8, Some(7))));
    assert!(!is_bitfield(&item(0, Some(8))));
    assert!(!is_bitfield(&item(4, Some(64))));
    assert!(!is_bitfield(&item(0, Some(0))));
    assert!(!is_bitfield(&item(0, None)));
}

#[test]
fn trailing_padding_is_taken_off_the_size() {
    let layout = vec![item(0, Some(64)), item(64, Some(8)), pad(72, Some(56))];
    assert_eq!(trim_trailing_padding(&layout, 128), Some((2, 72)));
    let two = vec![item(0, Some(8)), pad(8, Some(8)), pad(16, Some(16))];
    assert_eq!(trim_trailing_padding(&two, 32), Some((1, 8)));
    let inner = vec![item(0, Some(8)), pad(8, Some(24)), item(32, Some(32))];
    assert_eq!(trim_trailing_padding(&inner, 64), Some((3, 64)));
    assert_eq!(trim_trailing_padding(&[], 64), Some((0, 64)));
    assert_eq!(trim_trailing_padding(&[pad(0, Some(8))], 8), Some((0, 0)));
}

#[test]
fn trailing_padding_must_fit_and_have_a_size() {
    assert_eq!(trim_trailing_padding(&[item(0, Some(8)), pad(8, None)], 64), None);
    assert_eq!(trim_trailing_padding(&[item(0, Some(8)), pad(8, Some(65))], 64), None);
    assert_eq!(trim_trailing_padding(&[pad(0, Some(40)), pad(40, Some(40))], 64), None);
}

#[test]
fn spans_reach_to_the_next_byte_aligned_item() {
    let layout = vec![item(0, Some(64)), item(64, Some(8)), item(96, Some(32))];
    assert_eq!(
        spans_of(&layout, 16),
        Some(vec![
            Span { idx: 0, off: 0, len: 8 },
            Span { idx: 1, off: 8, len: 4 },
            Span { idx: 2, off: 12, len: 4 },
        ])
    );
    assert_eq!(spans_of(&[], 16), Some(Vec::new()));
}

#[test]
fn spans_join_items_inside_a_byte() {
    let layout = vec![item(0, Some(4)), item(4, Some(4)), item(8, Some(3)), item(11, Some(13)), item(24, Some(8))];
    assert_eq!(
        spans_of(&layout, 4),
        Some(vec![
            Span { idx: 0, off: 0, len: 1 },
            Span { idx: 2, off: 1, len: 2 },
            Span { idx: 4, off: 3, len: 1 },
        ])
    );
    let unaligned_start = vec![item(3, Some(5)), item(8, Some(8))];
    assert_eq!(spans_of(&unaligned_start, 2), Some(vec![Span { idx: 1, off: 1, len: 1 }]));
}

#[test]
fn empty_spans_stay_only_at_the_end() {
    let empty_base = vec![item(0, Some(8)), item(0, Some(32))];
    assert_eq!(spans_of(&empty_base, 4), Some(vec![Span { idx: 1, off: 0, len: 4 }]));
    let flexible = vec![item(0, Some(32)), item(32, None)];
    assert_eq!(
        spans_of(&flexible, 4),
        Some(vec![Span { idx: 0, off: 0, len: 4 }, Span { idx: 1, off: 4, len: 0 }])
    );
    assert_eq!(spans_of(&[item(0, Some(8))], 0), Some(vec![Span { idx: 0, off: 0, len: 0 }]));
}

#[test]
fn spans_that_end_before_they_begin_give_no_layout() {
    let layout = vec![item(0, Some(64)), item(64, Some(8))];
    assert_eq!(spans_of(&layout, 4), None);
    assert_eq!(spans_of(&layout, 7), None);
    assert_eq!(spans_of(&layout, 8), Some(vec![Span { idx: 0, off: 0, len: 8 }, Span { idx: 1, off: 8, len: 0 }]));
    let unsorted = vec![item(64, Some(8)), item(0, Some(64))];
    assert_eq!(spans_of(&unsorted, 16), None);
}

#[test]
fn padding_fields_at_the_end_are_dropped() {
    let mut ids = IdGenerator::new();
    let mut members = vec![
        Member::new_padding(0, 1, &mut ids),
        Member::new_placeholder(1, 1, "x", &mut ids),
        Member::new_padding(2, 1, &mut ids),
        Member::new_padding(3, 1, &mut ids),
    ];
    drop_trailing_padding(&mut members);
    let names: Vec<String> = members.iter().map(|m| m.field_name.clone()).collect();
    assert_eq!(names, vec!["__padding0", "x1"]);
    drop_trailing_padding(&mut members);
    assert_eq!(members.len(), 2);
    let mut only = vec![Member::new_padding(0, 1, &mut ids), Member::new_padding(1, 1, &mut ids)];
    drop_trailing_padding(&mut only);
    assert!(only.is_empty());
    drop_trailing_padding(&mut only);
    assert!(only.is_empty());
}

#[test]
fn process_state_keeps_what_is_put_in() {
    let graph = TypeGraph { inputs: vec![vec![TypeKind::Void, TypeKind::Void], vec![TypeKind::Void]] };
    let mut state = ProcessState::new(&graph);
    let at = |input_id, typoff| TypeIndex { input_id, typoff };
    assert!(!state.contains_key(at(0, 0)));
    assert!(state.get(at(1, 0)).is_none());
    state.insert(at(0, 1), None);
    state.insert(at(1, 0), Some(Rc::new(TypeInfo { name: "int".to_string(), packed_size: 4, size: 4 })));
    assert!(state.contains_key(at(0, 1)));
    assert!(matches!(state.get(at(0, 1)), Some(None)));
    assert!(!state.contains_key(at(0, 0)));
    match state.get(at(1, 0)) {
        Some(Some(i)) => assert_eq!((i.name.as_str(), i.packed_size, i.size), ("int", 4, 4)),
        _ => panic!("no summary"),
    }
    state.insert(at(0, 1), Some(Rc::new(TypeInfo { name: "char".to_string(), packed_size: 1, size: 1 })));
    assert!(matches!(state.get(at(0, 1)), Some(Some(_))));
}

#[test]
fn process_state_has_no_slot_outside_the_graph() {
    let graph = TypeGraph { inputs: vec![vec![TypeKind::Void]] };
    let mut state = ProcessState::new(&graph);
    let at = |input_id, typoff| TypeIndex { input_id, typoff };
    state.insert(at(0, 1), None);
    state.insert(at(1, 0), None);
    assert!(!state.contains_key(at(0, 1)));
    assert!(!state.contains_key(at(1, 0)));
    assert!(state.get(at(7, 7)).is_none());
    assert_eq!(state.slots.len(), 1);
    assert_eq!(state.slots[0].len(), 1);
    assert!(state.slots[0][0].is_none());
    state.mark_outside(at(1, 0));
    assert!(state.contains_key(at(1, 0)));
    assert!(matches!(state.get(at(1, 0)), Some(None)));
    assert!(!state.contains_key(at(0, 1)));
    assert!(!state.contains_key(at(0, 0)));
    assert_eq!(state.outside, vec![at(1, 0)]);
}
