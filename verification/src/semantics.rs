//! What the processors do, told as functions on the state of a run.
//!
//! There is one function for each kind of type, and one for resolution
//! through the table of processed types, which ties them together. Each
//! takes the state before and gives the state after. Resolution visits a
//! type at most once: the first visit marks the type in the table, and each
//! mark takes one from the number of unvisited types, which is why the
//! functions are well-founded although the type graph may have cycles.

use crate::layout::Span;
use crate::layout::bitfield;
use crate::layout::struct_spans;
use crate::layout::trimmed_bits;
use crate::layout::trimmed_len;
use crate::layout::without_trailing_padding;
use crate::member::Member;
use crate::member::MemberView;
use crate::member::member_asserts;
use crate::member::member_line;
use crate::member::member_name_spec;
use crate::member::typed_member;
use crate::model::ArrayType;
use crate::model::BaseType;
use crate::model::EnumerationType;
use crate::model::Enumerator;
use crate::model::EnumeratorValue;
use crate::model::Layout;
use crate::model::LayoutItem;
use crate::model::RegistryView;
use crate::model::StructType;
use crate::model::TypeGraph;
use crate::model::TypeIndex;
use crate::model::TypeInfoView;
use crate::model::TypeKind;
use crate::model::TypeModifier;
use crate::model::TypeModifierKind;
use crate::model::UnionMember;
use crate::model::UnionType;
use crate::model::registry_find;
use crate::model::type_ident;
use crate::names::TypeNameView;
use crate::names::opt_text;
use crate::printer::EqAssertView;
use crate::state::SessionView;
use crate::state::WarningKind;
use crate::state::unvisited;
use crate::text::bytes_for_bits;
use crate::text::decimal;
use crate::text::signed_decimal;
use vstd::prelude::*;

verus! {


/// The value that is written for an enumerator whose value is not known.
pub const UNKNOWN_ENUM_VALUE: i64 = -20181218;

/// The C expression for the size of the type `ty`.
pub open spec fn sizeof_expr(ty: Seq<char>) -> Seq<char> {
    "sizeof("@ + ty + ")"@
}

/// The text that identifies the descriptor at `idx` in a comment.
pub open spec fn index_text(idx: TypeIndex) -> Seq<char> {
    "TypeIndex { input_id: "@ + decimal(idx.input_id as nat) + ", typoff: "@ + decimal(
        idx.typoff as nat,
    ) + " }"@
}

/// The comment that stands above the definition made for the type `tyname`
/// at `idx`.
pub open spec fn comment_line(tyname: TypeNameView, idx: TypeIndex) -> Seq<char> {
    "// tyname="@ + tyname.display() + " tyidx="@ + index_text(idx)
}

/// The summary that `found` holds, if it can stand where at most `hint`
/// bytes are free: a summary whose packed size is larger counts as none.
pub open spec fn fit(found: Option<TypeInfoView>, hint: Option<u64>) -> Option<TypeInfoView> {
    match (found, hint) {
        (Some(info), Some(max)) => {
            if info.packed_size <= max {
                found
            } else {
                None
            }
        },
        _ => found,
    }
}

/// The summary in a slot, if there is one.
pub open spec fn summary(slot: Option<Option<TypeInfoView>>) -> Option<TypeInfoView> {
    match slot {
        Some(v) => v,
        None => None,
    }
}

/// A size of `size` bytes does not fit where at most `hint` bytes are free.
pub open spec fn too_large(size: u64, hint: Option<u64>) -> bool {
    match hint {
        Some(max) => size > max,
        None => false,
    }
}

/// The lines that declare `members`.
pub open spec fn member_lines(members: Seq<MemberView>) -> Seq<Seq<char>> {
    members.map_values(|m: MemberView| member_line(m.def))
}

/// The checks on `members` as fields of the type `tydef`: for each field its
/// offset and its size, in the order of the fields.
pub open spec fn members_asserts(tydef: Seq<char>, members: Seq<MemberView>) -> Seq<EqAssertView>
    decreases members.len(),
{
    if members.len() == 0 {
        Seq::empty()
    } else {
        members_asserts(tydef, members.drop_last()) + member_asserts(tydef, members.last())
    }
}

/// The definition of the type `tydef` with the fields `members`, declared
/// packed, under a comment that names its origin.
pub open spec fn definition_lines(
    idx: TypeIndex,
    tyname: TypeNameView,
    members: Seq<MemberView>,
    tydef: Seq<char>,
) -> Seq<Seq<char>> {
    (seq![comment_line(tyname, idx), tydef + " {"@] + member_lines(members)).push(
        "} __attribute__((__packed__));"@,
    )
}

/// The packed size of a type with the fields `members`: where its last field
/// ends.
pub open spec fn packed_size_of(members: Seq<MemberView>) -> int {
    members.last().off + members.last().len
}

/// The state after the type `tydef` was emitted with the fields `members`. Its
/// definition goes to the header; the checks on each field and on the size
/// of the type, which is its packed size, go to the program; and where `tysize`
/// is given, the summary of the type goes into the slot of `idx`. Nothing
/// happens where there is no field.
pub open spec fn process_members_spec(
    s: SessionView,
    idx: TypeIndex,
    tyname: TypeNameView,
    members: Seq<MemberView>,
    tydef: Seq<char>,
    tysize: Option<u64>,
) -> SessionView {
    if members.len() == 0 {
        s
    } else {
        let packed = packed_size_of(members) as u64;
        let emitted = s.emit_type(definition_lines(idx, tyname, members, tydef)).emit_asserts(
            members_asserts(tydef, members).push(
                EqAssertView { expr: sizeof_expr(tydef), val: packed },
            ),
        );
        match tysize {
            Some(size) => emitted.put(
                idx,
                Some(TypeInfoView { name: tydef, packed_size: packed, size }),
            ),
            None => emitted,
        }
    }
}

/// The state after a primitive type was processed: with a name and a size
/// it gets a summary and a check of its size; without one of them it is
/// recorded as left without layout.
pub open spec fn base_type_spec(s: SessionView, idx: TypeIndex, ty: BaseType) -> SessionView {
    match (ty.name, ty.byte_size) {
        (Some(name), Some(size)) => s.put(
            idx,
            Some(TypeInfoView { name: name@, packed_size: size, size }),
        ).emit_assert(sizeof_expr(name@), size),
        (_, None) => s.warn(WarningKind::UnknownSize, idx),
        (None, Some(_)) => s.warn(WarningKind::UnknownName, idx),
    }
}

/// The fixed-width integer type that stands for an enumeration of `size`
/// bytes.
pub open spec fn enum_repr(size: u64) -> Option<Seq<char>> {
    if size == 8 {
        Some("__s64"@)
    } else if size == 4 {
        Some("__s32"@)
    } else if size == 2 {
        Some("__s16"@)
    } else if size == 1 {
        Some("__s8"@)
    } else {
        None
    }
}

/// The comment line that records one value of an enumeration.
pub open spec fn enumerator_line(e: Enumerator) -> Seq<char> {
    "// "@ + (match e.name {
        Some(n) => n@,
        None => "<unknown enum item>"@,
    }) + "="@ + (match e.value {
        EnumeratorValue::Signed(v) => signed_decimal(v as int),
        EnumeratorValue::Unsigned(v) => decimal(v as nat),
        EnumeratorValue::Other => signed_decimal(UNKNOWN_ENUM_VALUE as int),
    })
}

/// The definition of the enumeration `ident` as the integer type `repr`,
/// under comments that record its values.
pub open spec fn enum_lines(ident: Seq<char>, repr: Seq<char>, items: Seq<Enumerator>) -> Seq<
    Seq<char>,
> {
    (seq!["// --- enum "@ + ident + " begin ---"@] + items.map_values(
        |e: Enumerator| enumerator_line(e),
    )).push("// --- enum "@ + ident + " end ---"@).push("typedef "@ + repr + " "@ + ident + ";"@)
}

/// The line that defines `name` as an array of `count` elements of the type
/// `elem`.
pub open spec fn array_line(elem: Seq<char>, name: Seq<char>, count: u64) -> Seq<char> {
    "typedef "@ + elem + " "@ + name + "["@ + decimal(count as nat) + "];"@
}

/// The name without scopes that consists of `name`.
pub open spec fn plain_name(name: Seq<char>) -> TypeNameView {
    TypeNameView { namespace: Seq::empty(), name: Some(name) }
}

/// The number of elements of an array whose elements have the summary
/// `elem`, where at most `hint` bytes are free. Where no byte is free the
/// array has no element. Else the size and the count of the array must be
/// known, the size must fit, and it must be the count times the size of an
/// element.
pub open spec fn array_count(ty: ArrayType, elem: TypeInfoView, hint: Option<u64>) -> Option<u64> {
    if hint == Some(0u64) {
        Some(0)
    } else {
        match (ty.byte_size, ty.count) {
            (Some(bytes), Some(count)) => {
                if !too_large(bytes, hint) && elem.size * count == bytes {
                    Some(count)
                } else {
                    None
                }
            },
            _ => None,
        }
    }
}

/// Why an array whose number of elements cannot be told has no layout.
pub open spec fn array_fault(ty: ArrayType, hint: Option<u64>) -> WarningKind {
    match ty.byte_size {
        None => WarningKind::UnknownSize,
        Some(bytes) => {
            if too_large(bytes, hint) {
                WarningKind::TooLarge
            } else if ty.count is None {
                WarningKind::UnknownCount
            } else {
                WarningKind::InconsistentArray
            }
        },
    }
}

/// Why a structure whose spans cannot be told has no layout.
pub open spec fn struct_fault(ty: StructType) -> WarningKind {
    if ty.byte_size is None || ty.byte_size->0 * 8 > u64::MAX {
        WarningKind::UnknownSize
    } else {
        WarningKind::InvalidLayout
    }
}

/// Why the first member of a union, from the `k`-th on, that cannot become a
/// field cannot: it has no size, or it does not begin at the start of the
/// union. `None` where every member can.
pub open spec fn union_fault(members: Seq<UnionMember>, k: int) -> Option<WarningKind>
    decreases members.len() - k,
{
    if k < 0 || k >= members.len() {
        None
    } else if members[k].bit_size is None {
        Some(WarningKind::UnsizedUnionMember)
    } else if members[k].bit_offset != 0 {
        Some(WarningKind::MisplacedUnionMember)
    } else {
        union_fault(members, k + 1)
    }
}

/// The modifier makes a pointer or a reference.
pub open spec fn makes_pointer(kind: TypeModifierKind) -> bool {
    kind is Pointer || kind is Reference || kind is RvalueReference
}

/// The byte at which a structure described by `ty` ends for the layout of
/// its fields, where at most `hint` bytes are free: its size without the
/// padding at its end, or `hint` if that is less. `None` where the size is
/// not known or the padding at the end does not fit in it.
pub open spec fn struct_end(ty: StructType, hint: Option<u64>) -> Option<u64> {
    match ty.byte_size {
        None => None,
        Some(size) => {
            if size * 8 > u64::MAX {
                None
            } else {
                match trimmed_bits(ty.layout@, size * 8) {
                    None => None,
                    Some(bits) => {
                        let natural = bytes_for_bits(bits) as u64;
                        match hint {
                            Some(max) => Some(
                                if max > natural {
                                    natural
                                } else {
                                    max
                                },
                            ),
                            None => Some(natural),
                        }
                    },
                }
            }
        },
    }
}

/// The items of a structure without the padding at its end.
pub open spec fn struct_items(ty: StructType) -> Seq<Layout> {
    ty.layout@.take(trimmed_len(ty.layout@) as int)
}

/// The field spans of a structure, where at most `hint` bytes are free;
/// `None` where the structure has no layout.
pub open spec fn struct_plan(ty: StructType, hint: Option<u64>) -> Option<Seq<Span>> {
    match struct_end(ty, hint) {
        None => None,
        Some(end) => struct_spans(struct_items(ty), end),
    }
}

/// The state after the type at `idx` was resolved where at most `hint` bytes
/// are free, and the summary that resolution gives. A type that was visited
/// before is not processed again; any other is processed now. A summary whose
/// packed size does not fit counts as none.
pub open spec fn resolve_spec(
    g: &TypeGraph,
    db: RegistryView,
    s: SessionView,
    idx: TypeIndex,
    hint: Option<u64>,
) -> (SessionView, Option<TypeInfoView>)
    decreases unvisited(s.processed), 1int, 0int,
{
    match s.lookup(idx) {
        Some(found) => (s, fit(found, hint)),
        None => {
            let after = process_type_spec(g, db, s, idx, hint);
            (after, fit(summary(after.lookup(idx)), hint))
        },
    }
}

/// The state after the type at `idx` was processed. A type that was visited
/// before leaves the state as it is. A position that the graph does not hold
/// is recorded as visited, without layout. Any
/// other is first marked as being worked on and then handed to the processor
/// of its kind; the kinds that have no layout by their nature keep the mark
/// and are not recorded.
pub open spec fn process_type_spec(
    g: &TypeGraph,
    db: RegistryView,
    s: SessionView,
    idx: TypeIndex,
    hint: Option<u64>,
) -> SessionView
    decreases unvisited(s.processed), 0int, 0int,
{
    if s.lookup(idx) is Some {
        s
    } else if !g.has(idx) {
        s.mark_outside(idx)
    } else {
        let marked = s.put(idx, None);
        if unvisited(marked.processed) < unvisited(s.processed) {
            match g.at(idx) {
                TypeKind::Base(ty) => base_type_spec(marked, idx, ty),
                TypeKind::Def(ty) => sym_link_spec(
                    g,
                    db,
                    marked,
                    idx,
                    TypeIndex { input_id: idx.input_id, typoff: ty.ty },
                    hint,
                ),
                TypeKind::Struct(ty) => struct_type_spec(g, db, marked, idx, ty, hint),
                TypeKind::Union(ty) => union_type_spec(g, db, marked, idx, ty, hint),
                TypeKind::Enumeration(ty) => enum_type_spec(g, db, marked, idx, ty, hint),
                TypeKind::Array(ty) => array_type_spec(g, db, marked, idx, ty, hint),
                TypeKind::Modifier(ty) => modifier_type_spec(g, db, marked, idx, ty, hint),
                _ => marked,
            }
        } else {
            marked
        }
    }
}

/// The state after the type at `idx` was made to stand for the type at
/// `target`: that type is resolved, and what it gives goes into the slot of
/// `idx`.
pub open spec fn sym_link_spec(
    g: &TypeGraph,
    db: RegistryView,
    s: SessionView,
    idx: TypeIndex,
    target: TypeIndex,
    hint: Option<u64>,
) -> SessionView
    decreases unvisited(s.processed), 2int, 0int,
{
    let (after, info) = resolve_spec(g, db, s, target, hint);
    after.put(idx, info)
}

/// The state after a declaration named `name` was processed: it stands for
/// the definition that the registry holds under its name; where the
/// registry holds none it keeps its mark and is recorded as left without
/// layout.
pub open spec fn declaration_spec(
    g: &TypeGraph,
    db: RegistryView,
    s: SessionView,
    idx: TypeIndex,
    name: TypeNameView,
    hint: Option<u64>,
) -> SessionView
    decreases unvisited(s.processed), 3int, 0int,
{
    match registry_find(db, name) {
        Some(target) => sym_link_spec(g, db, s, idx, target, hint),
        None => s.warn(WarningKind::UnknownDeclaration, idx),
    }
}

/// The state after a field of the type at position `ty` was resolved for
/// the `len` bytes at `off`, and the fields that it gives. A type without
/// layout gives an opaque field of that length. Any other gives a field of
/// its packed size, followed, where `pad` asks for it, by padding for the
/// bytes that it leaves free.
pub open spec fn typed_field_spec(
    g: &TypeGraph,
    db: RegistryView,
    s: SessionView,
    input_id: usize,
    ty: usize,
    off: u64,
    len: u64,
    field: Seq<char>,
    pad: bool,
) -> (SessionView, Seq<MemberView>)
    decreases unvisited(s.processed), 2int, 0int,
{
    let (after, info) = resolve_spec(g, db, s, TypeIndex { input_id, typoff: ty }, Some(len));
    match info {
        None => {
            let (drawn, m) = after.opaque(off, len, "__unknown_type"@, false);
            (drawn, seq![m])
        },
        Some(i) => {
            let m = typed_member(off, i.packed_size, i.name, field);
            if pad && i.packed_size < len {
                let (drawn, filler) = after.opaque(
                    (off + i.packed_size) as u64,
                    (len - i.packed_size) as u64,
                    "__padding"@,
                    true,
                );
                (drawn, seq![m, filler])
            } else {
                (after, seq![m])
            }
        },
    }
}

/// The state after the span `span` of a structure was turned into fields,
/// and those fields. A bit-field and a variant part give an opaque field,
/// padding gives a padding field, a member and a base give a field of their
/// type.
pub open spec fn span_fields_spec(
    g: &TypeGraph,
    db: RegistryView,
    s: SessionView,
    input_id: usize,
    item: Layout,
    span: Span,
) -> (SessionView, Seq<MemberView>)
    decreases unvisited(s.processed), 3int, 0int,
{
    if bitfield(item) {
        let (drawn, m) = s.opaque(span.off, span.len, "_bitfield"@, false);
        (drawn, seq![m])
    } else {
        match item.item {
            LayoutItem::Padding => {
                let (drawn, m) = s.opaque(span.off, span.len, "__padding"@, true);
                (drawn, seq![m])
            },
            LayoutItem::VariantPart => {
                let (drawn, m) = s.opaque(span.off, span.len, "__variant_part"@, false);
                (drawn, seq![m])
            },
            LayoutItem::Member { name, ty } => {
                let (field, id) = member_name_spec(opt_text(name), s.next_id);
                typed_field_spec(
                    g,
                    db,
                    s.with_id(id),
                    input_id,
                    ty,
                    span.off,
                    span.len,
                    field,
                    true,
                )
            },
            LayoutItem::Inherit { ty } => {
                let (drawn, m) = s.opaque(span.off, span.len, "__parent"@, false);
                typed_field_spec(
                    g,
                    db,
                    drawn,
                    input_id,
                    ty,
                    span.off,
                    span.len,
                    m.field_name,
                    true,
                )
            },
        }
    }
}

/// The state after the spans from the `k`-th on were turned into fields, and
/// `acc` followed by those fields.
pub open spec fn struct_walk_spec(
    g: &TypeGraph,
    db: RegistryView,
    s: SessionView,
    input_id: usize,
    items: Seq<Layout>,
    spans: Seq<Span>,
    k: int,
    acc: Seq<MemberView>,
) -> (SessionView, Seq<MemberView>)
    decreases unvisited(s.processed), 4int, spans.len() - k,
{
    if k < 0 || k >= spans.len() {
        (s, acc)
    } else {
        let (after, fields) = span_fields_spec(
            g,
            db,
            s,
            input_id,
            items[spans[k].idx as int],
            spans[k],
        );
        if unvisited(after.processed) <= unvisited(s.processed) {
            struct_walk_spec(g, db, after, input_id, items, spans, k + 1, acc + fields)
        } else {
            (after, acc + fields)
        }
    }
}

/// The state after a structure was processed. A declaration stands for its
/// definition. A structure whose spans cannot be told keeps its mark and is
/// recorded as left without layout. Any other has its spans turned into
/// fields, loses the padding at its end, gets an identifier and is emitted
/// under it, with the size that the input reports.
pub open spec fn struct_type_spec(
    g: &TypeGraph,
    db: RegistryView,
    s: SessionView,
    idx: TypeIndex,
    ty: StructType,
    hint: Option<u64>,
) -> SessionView
    decreases unvisited(s.processed), 5int, 0int,
{
    if ty.declaration {
        declaration_spec(g, db, s, idx, ty.name@, hint)
    } else {
        match struct_plan(ty, hint) {
            None => s.warn(struct_fault(ty), idx),
            Some(spans) => {
                let (walked, fields) = struct_walk_spec(
                    g,
                    db,
                    s,
                    idx.input_id,
                    struct_items(ty),
                    spans,
                    0,
                    Seq::empty(),
                );
                let (named, ident) = walked.alloc_ident(ty.name@);
                process_members_spec(
                    named,
                    idx,
                    ty.name@,
                    without_trailing_padding(fields),
                    "struct "@ + ident,
                    ty.byte_size,
                )
            },
        }
    }
}

/// The state after the members of a union from the `k`-th on were turned
/// into fields, and `acc` followed by those fields; no fields where a member
/// does not begin at the start of the union or has no size.
pub open spec fn union_walk_spec(
    g: &TypeGraph,
    db: RegistryView,
    s: SessionView,
    input_id: usize,
    members: Seq<UnionMember>,
    k: int,
    acc: Seq<MemberView>,
) -> (SessionView, Option<Seq<MemberView>>)
    decreases unvisited(s.processed), 4int, members.len() - k,
{
    if k < 0 || k >= members.len() {
        (s, Some(acc))
    } else {
        let m = members[k];
        match m.bit_size {
            None => (s, None),
            Some(bits) => {
                if m.bit_offset != 0 {
                    (s, None)
                } else {
                    let len = bytes_for_bits(bits as int) as u64;
                    let (after, fields) = if bits % 8 != 0 {
                        let (drawn, f) = s.opaque(0, len, "__bitfield"@, false);
                        (drawn, seq![f])
                    } else {
                        let (field, id) = member_name_spec(opt_text(m.name), s.next_id);
                        typed_field_spec(g, db, s.with_id(id), input_id, m.ty, 0, len, field, false)
                    };
                    if unvisited(after.processed) <= unvisited(s.processed) {
                        union_walk_spec(g, db, after, input_id, members, k + 1, acc + fields)
                    } else {
                        (after, None)
                    }
                }
            },
        }
    }
}

/// The state after a union was processed. A declaration stands for its
/// definition. A union without a size, or with one that does not fit, keeps
/// its mark, and so does one with a member that cannot become a field; each
/// is recorded as left without layout, with the reason. Any other gets its
/// members as fields, then an opaque field of its whole size, gets an
/// identifier and is emitted under it.
pub open spec fn union_type_spec(
    g: &TypeGraph,
    db: RegistryView,
    s: SessionView,
    idx: TypeIndex,
    ty: UnionType,
    hint: Option<u64>,
) -> SessionView
    decreases unvisited(s.processed), 5int, 0int,
{
    if ty.declaration {
        declaration_spec(g, db, s, idx, ty.name@, hint)
    } else {
        match ty.byte_size {
            None => s.warn(WarningKind::UnknownSize, idx),
            Some(size) => {
                if too_large(size, hint) {
                    s.warn(WarningKind::TooLarge, idx)
                } else {
                    let (walked, fields) = union_walk_spec(
                        g,
                        db,
                        s,
                        idx.input_id,
                        ty.members@,
                        0,
                        Seq::empty(),
                    );
                    match fields {
                        None => match union_fault(ty.members@, 0) {
                            Some(kind) => walked.warn(kind, idx),
                            None => walked,
                        },
                        Some(fs) => {
                            let (drawn, whole) = walked.opaque(0, size, "__HIDVA_dont_use"@, false);
                            let (named, ident) = drawn.alloc_ident(ty.name@);
                            process_members_spec(
                                named,
                                idx,
                                ty.name@,
                                fs.push(whole),
                                "union "@ + ident,
                                Some(size),
                            )
                        },
                    }
                }
            },
        }
    }
}

/// The state after an enumeration was processed. A declaration stands for
/// its definition. An enumeration whose size is not 1, 2, 4 or 8 bytes, or
/// does not fit, keeps its mark and is recorded as left without layout. Any
/// other gets an identifier, a summary of that size, a definition as the
/// signed integer type of that size, and a check of that size.
pub open spec fn enum_type_spec(
    g: &TypeGraph,
    db: RegistryView,
    s: SessionView,
    idx: TypeIndex,
    ty: EnumerationType,
    hint: Option<u64>,
) -> SessionView
    decreases unvisited(s.processed), 5int, 0int,
{
    if ty.declaration {
        declaration_spec(g, db, s, idx, ty.name@, hint)
    } else {
        match ty.byte_size {
            None => s.warn(WarningKind::UnknownSize, idx),
            Some(size) => {
                if too_large(size, hint) {
                    s.warn(WarningKind::TooLarge, idx)
                } else {
                    match enum_repr(size) {
                        None => s.warn(WarningKind::UnsupportedEnumWidth, idx),
                        Some(repr) => {
                            let (named, ident) = s.alloc_ident(ty.name@);
                            named.put(
                                idx,
                                Some(TypeInfoView { name: ident, packed_size: size, size }),
                            ).emit_type(enum_lines(ident, repr, ty.enumerators@)).emit_asserts(
                                seq![EqAssertView { expr: sizeof_expr(repr), val: size }],
                            )
                        },
                    }
                }
            },
        }
    }
}

/// The state after a structure was emitted that holds one element with the
/// summary `elem`, followed by padding up to the size of the element; and
/// the type expression of that structure.
pub open spec fn padded_element_spec(
    s: SessionView,
    idx: TypeIndex,
    elem: TypeInfoView,
) -> (SessionView, Seq<char>) {
    let (named, ident) = s.alloc_ident(plain_name(type_ident(elem.name) + "_Padded"@));
    let tydef = "struct "@ + ident;
    let data = typed_member(0, elem.packed_size, elem.name, "data"@);
    let (drawn, filler) = named.opaque(
        elem.packed_size,
        (elem.size - elem.packed_size) as u64,
        "__padding"@,
        true,
    );
    (
        process_members_spec(
            drawn,
            idx,
            plain_name("padding struct"@),
            seq![data, filler],
            tydef,
            None,
        ),
        tydef,
    )
}

/// The state after an array was processed. Its element type is resolved
/// first; without it the array keeps its mark and is recorded as left
/// without layout. An element whose size is above its packed size is wrapped
/// in a structure of the full size. Then, where the count of elements can be
/// told, the array gets an identifier, a definition, a check of its size and
/// a summary; where it cannot, the array is recorded with the reason.
pub open spec fn array_type_spec(
    g: &TypeGraph,
    db: RegistryView,
    s: SessionView,
    idx: TypeIndex,
    ty: ArrayType,
    hint: Option<u64>,
) -> SessionView
    decreases unvisited(s.processed), 5int, 0int,
{
    let (after, found) = resolve_spec(
        g,
        db,
        s,
        TypeIndex { input_id: idx.input_id, typoff: ty.ty },
        None,
    );
    match found {
        None => after.warn(WarningKind::UnknownElement, idx),
        Some(elem) => {
            let (wrapped, elem_name) = if elem.size > elem.packed_size {
                padded_element_spec(after, idx, elem)
            } else {
                (after, elem.name)
            };
            match array_count(ty, elem, hint) {
                None => wrapped.warn(array_fault(ty, hint), idx),
                Some(count) => {
                    let (named, ident) = wrapped.alloc_ident(
                        plain_name(type_ident(elem.name) + "_Array"@ + decimal(count as nat)),
                    );
                    let size = (elem.size * count) as u64;
                    named.emit_type(seq![array_line(elem_name, ident, count)]).emit_assert(
                        sizeof_expr(ident),
                        size,
                    ).put(idx, Some(TypeInfoView { name: ident, packed_size: size, size }))
                },
            }
        },
    }
}

/// The state after a modifier was processed. A qualifier stands for the
/// type that it qualifies. A pointer or reference without a size, or with
/// one that does not fit, keeps its mark and is recorded as left without
/// layout. Any other resolves the type it
/// points to, for its name alone, and gets a check of its size and a
/// summary under that name with `*` appended; `void` stands for a type
/// without layout.
pub open spec fn modifier_type_spec(
    g: &TypeGraph,
    db: RegistryView,
    s: SessionView,
    idx: TypeIndex,
    ty: TypeModifier,
    hint: Option<u64>,
) -> SessionView
    decreases unvisited(s.processed), 5int, 0int,
{
    let target = TypeIndex { input_id: idx.input_id, typoff: ty.ty };
    if makes_pointer(ty.kind) {
        match ty.byte_size {
            None => s.warn(WarningKind::UnknownSize, idx),
            Some(size) => {
                if too_large(size, hint) {
                    s.warn(WarningKind::TooLarge, idx)
                } else {
                    let (after, info) = resolve_spec(g, db, s, target, None);
                    let name = (match info {
                        Some(i) => i.name,
                        None => "void"@,
                    }) + "*"@;
                    after.emit_assert(sizeof_expr(name), size).put(
                        idx,
                        Some(TypeInfoView { name, packed_size: size, size }),
                    )
                }
            },
        }
    } else {
        sym_link_spec(g, db, s, idx, target, hint)
    }
}

/// No field of `fields` begins before `from` or ends after `end`.
pub open spec fn fields_within(fields: Seq<MemberView>, from: int, end: int) -> bool {
    forall|i: int|
        0 <= i < fields.len() ==> from <= (#[trigger] fields[i]).off && fields[i].off
            + fields[i].len <= end
}

/// A summary, where there is one, has a packed size that is not above its
/// size.
pub open spec fn sound(info: Option<TypeInfoView>) -> bool {
    match info {
        Some(i) => i.packed_size <= i.size,
        None => true,
    }
}

} // verus!
