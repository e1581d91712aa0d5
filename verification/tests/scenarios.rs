use clayout::driver::run;
use clayout::model::{
    ArrayType, BaseType, Layout, LayoutItem, StructType, TypeGraph, TypeIndex, TypeKind,
    TypeModifier, TypeModifierKind,
};
use clayout::names::TypeName;
use clayout::state::Session;

fn named(name: &str) -> TypeName {
    TypeName { namespace: Vec::new(), name: Some(name.to_string()) }
}

fn base(name: &str, size: u64) -> TypeKind {
    TypeKind::Base(BaseType { name: Some(name.to_string()), byte_size: Some(size) })
}

fn member(name: &str, ty: usize, bit_offset: u64, bit_size: u64) -> Layout {
    Layout {
        bit_offset,
        bit_size: Some(bit_size),
        item: LayoutItem::Member { name: Some(name.to_string()), ty },
    }
}

fn padding(bit_offset: u64, bit_size: u64) -> Layout {
    Layout { bit_offset, bit_size: Some(bit_size), item: LayoutItem::Padding }
}

fn structure(name: &str, size: u64, layout: Vec<Layout>) -> TypeKind {
    TypeKind::Struct(StructType {
        name: named(name),
        byte_size: Some(size),
        declaration: false,
        layout,
    })
}

fn long_and_char() -> Vec<TypeKind> {
    vec![
        base("long", 8),
        base("char", 1),
        structure(
            "S",
            16,
            vec![member("l", 0, 0, 64), member("c", 1, 64, 8), padding(72, 56)],
        ),
    ]
}

fn wanted(name: &str) -> Vec<Vec<String>> {
    vec![vec![name.to_string()]]
}

fn info(session: &Session, input_id: usize, typoff: usize) -> Option<(String, u64, u64)> {
    match session.processed.get(TypeIndex { input_id, typoff }) {
        Some(Some(i)) => Some((i.name.clone(), i.packed_size, i.size)),
        _ => None,
    }
}

fn check(expr: &str, val: u64) -> String {
    format!("  ZHANYI_HIDVA_ASSERT_EQ({}, {});", expr, val)
}

#[test]
fn primitive_members_keep_packed_and_nominal_size_apart() {
    let graph = TypeGraph { inputs: vec![long_and_char()] };
    let session = run(&graph, &wanted("S"), "out");
    assert_eq!(info(&session, 0, 2), Some(("struct S".to_string(), 9, 16)));
    let header = &session.printer.h_lines;
    let at = header.iter().position(|l| l == "struct S {").unwrap();
    assert_eq!(header[at - 1], "// tyname=S tyidx=TypeIndex { input_id: 0, typoff: 2 }");
    assert_eq!(header[at + 1], "  long l;");
    assert_eq!(header[at + 2], "  char c;");
    assert_eq!(header[at + 3], "} __attribute__((__packed__));");
    let program = &session.printer.c_lines;
    assert!(program.contains(&check("(long int)(&(((struct S*)0)->l))", 0)));
    assert!(program.contains(&check("sizeof(((struct S*)0)->l)", 8)));
    assert!(program.contains(&check("(long int)(&(((struct S*)0)->c))", 8)));
    assert!(program.contains(&check("sizeof(((struct S*)0)->c)", 1)));
    assert!(program.contains(&check("sizeof(struct S)", 9)));
    assert!(!program.contains(&check("sizeof(struct S)", 16)));
    assert!(!header.iter().any(|l| l.contains("__padding")));
}

#[test]
fn padding_after_the_last_member_is_made_and_dropped() {
    let types = vec![
        base("long", 8),
        base("char", 1),
        structure("S", 16, vec![member("l", 0, 0, 64), member("c", 1, 64, 8)]),
    ];
    let graph = TypeGraph { inputs: vec![types] };
    let session = run(&graph, &wanted("S"), "out");
    assert_eq!(info(&session, 0, 2), Some(("struct S".to_string(), 9, 16)));
    let header = &session.printer.h_lines;
    let at = header.iter().position(|l| l == "struct S {").unwrap();
    assert_eq!(header[at + 1], "  long l;");
    assert_eq!(header[at + 2], "  char c;");
    assert_eq!(header[at + 3], "} __attribute__((__packed__));");
    // The seven bytes after `c` got a padding field, which took a number,
    // and lost it again as the last field of the structure.
    assert_eq!(session.ids.next, 1);
    let program = &session.printer.c_lines;
    assert!(program.contains(&check("sizeof(struct S)", 9)));
    assert!(!program.iter().any(|l| l.contains("__padding")));
}

#[test]
fn array_of_padded_elements_gets_a_wrapper() {
    let mut types = long_and_char();
    types.push(TypeKind::Array(ArrayType { ty: 2, byte_size: Some(48), count: Some(3) }));
    types.push(structure("Holder", 48, vec![member("items", 3, 0, 384)]));
    let graph = TypeGraph { inputs: vec![types] };
    let session = run(&graph, &wanted("Holder"), "out");
    assert_eq!(info(&session, 0, 3), Some(("S_Array3".to_string(), 48, 48)));
    let header = &session.printer.h_lines;
    let at = header.iter().position(|l| l == "struct S_Padded {").unwrap();
    assert_eq!(header[at + 1], "  struct S data;");
    assert_eq!(header[at + 2], "  __u8 __padding0[7];");
    assert_eq!(header[at + 3], "} __attribute__((__packed__));");
    assert!(header.contains(&"typedef struct S_Padded S_Array3[3];".to_string()));
    assert!(header.contains(&"  S_Array3 items;".to_string()));
    let program = &session.printer.c_lines;
    assert!(program.contains(&check("sizeof(((struct S_Padded*)0)->data)", 9)));
    assert!(program.contains(&check("(long int)(&(((struct S_Padded*)0)->__padding0))", 9)));
    assert!(program.contains(&check("sizeof(((struct S_Padded*)0)->__padding0)", 7)));
    assert!(program.contains(&check("sizeof(struct S_Padded)", 16)));
    assert!(program.contains(&check("sizeof(S_Array3)", 48)));
}

#[test]
fn adjacent_bit_fields_share_one_placeholder() {
    let types = vec![
        base("int", 4),
        structure("Bits", 1, vec![member("a", 0, 0, 4), member("b", 0, 4, 4)]),
    ];
    let graph = TypeGraph { inputs: vec![types] };
    let session = run(&graph, &wanted("Bits"), "out");
    assert_eq!(info(&session, 0, 1), Some(("struct Bits".to_string(), 1, 1)));
    let header = &session.printer.h_lines;
    let at = header.iter().position(|l| l == "struct Bits {").unwrap();
    assert_eq!(header[at + 1], "  __u8 _bitfield0[1];");
    assert_eq!(header[at + 2], "} __attribute__((__packed__));");
    let fields = header.iter().filter(|l| l.starts_with("  __u8 ")).count();
    assert_eq!(fields, 1);
    let program = &session.printer.c_lines;
    assert!(program.contains(&check("sizeof(((struct Bits*)0)->_bitfield0)", 1)));
    assert!(program.contains(&check("sizeof(struct Bits)", 1)));
}

#[test]
fn pointer_to_the_enclosing_struct_ends() {
    let types = vec![
        structure("Node", 8, vec![member("next", 1, 0, 64)]),
        TypeKind::Modifier(TypeModifier {
            kind: TypeModifierKind::Pointer,
            ty: 0,
            byte_size: Some(8),
        }),
    ];
    let graph = TypeGraph { inputs: vec![types] };
    let session = run(&graph, &wanted("Node"), "out");
    assert_eq!(info(&session, 0, 0), Some(("struct Node".to_string(), 8, 8)));
    assert_eq!(info(&session, 0, 1), Some(("void*".to_string(), 8, 8)));
    let header = &session.printer.h_lines;
    assert!(header.contains(&"  void* next;".to_string()));
    let program = &session.printer.c_lines;
    assert!(program.contains(&check("sizeof(void*)", 8)));
    assert!(program.contains(&check("sizeof(struct Node)", 8)));
}

#[test]
fn unknown_destination_gives_the_opening_and_closing_lines_only() {
    let graph = TypeGraph { inputs: vec![long_and_char()] };
    let session = run(&graph, &wanted("Missing"), "out/dir/name");
    assert_eq!(
        session.printer.h_lines,
        vec![
            "// Generated by hidva/clayout!".to_string(),
            "#pragma once".to_string(),
            "#include <linux/types.h>".to_string(),
        ]
    );
    let program = &session.printer.c_lines;
    assert_eq!(program.len(), 25);
    assert_eq!(program[3], "#include \"out/dir/name.h\"");
    assert_eq!(program[22], "int main() {");
    assert_eq!(program[23], "  return 0;");
    assert_eq!(program[24], "}");
    assert_eq!(info(&session, 0, 0), None);
    assert_eq!(info(&session, 0, 2), None);
    assert!(session.printer.used_idents.is_empty());
}
