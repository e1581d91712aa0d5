//! What the table holds for a visited type is never taken back.
//!
//! Resolution works on types that were not visited before, and a processor
//! writes to the slot of its own type only. So a slot that is filled when a
//! type is resolved is the same afterwards: every type is processed once.

use crate::advance::lemma_mark;
use crate::advance::lemma_process_type_advances;
use crate::state::table_has;
use crate::advance::lemma_resolve_advances;
use crate::layout::bitfield;
use crate::layout::Span;
use crate::member::member_name_spec;
use crate::member::MemberView;
use crate::model::registry_find;
use crate::model::ArrayType;
use crate::model::EnumerationType;
use crate::model::Layout;
use crate::model::LayoutItem;
use crate::model::RegistryView;
use crate::model::StructType;
use crate::model::TypeGraph;
use crate::model::TypeIndex;
use crate::model::TypeInfoView;
use crate::model::TypeKind;
use crate::model::TypeModifier;
use crate::model::UnionMember;
use crate::model::UnionType;
use crate::names::opt_text;
use crate::names::TypeNameView;
use crate::semantics::array_count;
use crate::semantics::array_type_spec;
use crate::semantics::declaration_spec;
use crate::semantics::enum_repr;
use crate::semantics::enum_type_spec;
use crate::semantics::makes_pointer;
use crate::semantics::modifier_type_spec;
use crate::semantics::padded_element_spec;
use crate::semantics::process_type_spec;
use crate::semantics::resolve_spec;
use crate::semantics::span_fields_spec;
use crate::semantics::struct_plan;
use crate::semantics::struct_items;
use crate::semantics::struct_type_spec;
use crate::semantics::struct_walk_spec;
use crate::semantics::sym_link_spec;
use crate::semantics::too_large;
use crate::semantics::typed_field_spec;
use crate::semantics::union_type_spec;
use crate::semantics::union_walk_spec;
use crate::state::table_get;
use crate::state::unvisited;
use crate::state::SessionView;
use crate::state::Table;
use crate::text::bytes_for_bits;
use vstd::prelude::*;

verus! {

/// Every slot that is filled in `t`, but for that of `own`, holds the same
/// in `u`.
pub open spec fn table_keeps(t: Table, u: Table, own: Option<TypeIndex>) -> bool {
    forall|j: TypeIndex|
        table_get(t, j) is Some && Some(j) != own ==> #[trigger] table_get(u, j) == table_get(
            t,
            j,
        )
}

/// Putting a value into the slot of `idx` keeps every other slot.
pub proof fn lemma_put_keeps(s: SessionView, idx: TypeIndex, v: Option<TypeInfoView>)
    ensures
        table_keeps(s.processed, s.put(idx, v).processed, Some(idx)),
        forall|j: TypeIndex|
            j != idx ==> #[trigger] table_get(s.put(idx, v).processed, j) == table_get(
                s.processed,
                j,
            ),
{
}

/// A type that was visited is not processed again: processing it, and
/// resolving it, leave the state as it is.
pub proof fn lemma_visited_once(
    g: &TypeGraph,
    db: RegistryView,
    s: SessionView,
    idx: TypeIndex,
    hint: Option<u64>,
)
    requires
        s.lookup(idx) is Some,
    ensures
        process_type_spec(g, db, s, idx, hint) == s,
        resolve_spec(g, db, s, idx, hint).0 == s,
{
}

/// Processing a type adds to what is known and takes nothing back: what
/// was known of a visited type before is what is known of it afterwards.
pub proof fn lemma_visited_stays(
    g: &TypeGraph,
    db: RegistryView,
    s: SessionView,
    idx: TypeIndex,
    hint: Option<u64>,
    other: TypeIndex,
)
    requires
        s.wf(g),
        s.lookup(other) is Some,
    ensures
        process_type_spec(g, db, s, idx, hint).lookup(other) == s.lookup(other),
        resolve_spec(g, db, s, idx, hint).0.lookup(other) == s.lookup(other),
{
    let after = process_type_spec(g, db, s, idx, hint);
    lemma_process_type_keeps(g, db, s, idx, hint);
    lemma_process_type_advances(g, db, s, idx, hint);
    if table_has(s.processed, other) {
        assert(table_get(after.processed, other) == table_get(s.processed, other));
    } else {
        let i = choose|i: int| 0 <= i < s.outside.len() && s.outside[i] == other;
        assert(after.outside[i] == other);
    }
}

/// Resolution keeps every slot that was filled before it.
pub proof fn lemma_resolve_keeps(
    g: &TypeGraph,
    db: RegistryView,
    s: SessionView,
    idx: TypeIndex,
    hint: Option<u64>,
)
    requires
        s.wf(g),
    ensures
        table_keeps(s.processed, resolve_spec(g, db, s, idx, hint).0.processed, None),
    decreases unvisited(s.processed), 1int, 0int,
{
    match table_get(s.processed, idx) {
        Some(found) => {},
        None => {
            lemma_process_type_keeps(g, db, s, idx, hint);
        },
    }
}

/// Processing a type keeps every slot that was filled before it.
pub proof fn lemma_process_type_keeps(
    g: &TypeGraph,
    db: RegistryView,
    s: SessionView,
    idx: TypeIndex,
    hint: Option<u64>,
)
    requires
        s.wf(g),
    ensures
        table_keeps(s.processed, process_type_spec(g, db, s, idx, hint).processed, None),
    decreases unvisited(s.processed), 0int, 0int,
{
    if g.has(idx) && table_get(s.processed, idx) is None {
        let marked = s.put(idx, None);
        lemma_mark(s, g, idx);
        match g.at(idx) {
            TypeKind::Base(ty) => {
                match (ty.name, ty.byte_size) {
                    (Some(name), Some(size)) => {
                    },
                    _ => {},
                }
            },
            TypeKind::Def(ty) => {
                lemma_sym_link_keeps(
                    g,
                    db,
                    marked,
                    idx,
                    TypeIndex { input_id: idx.input_id, typoff: ty.ty },
                    hint,
                );
            },
            TypeKind::Struct(ty) => {
                lemma_struct_type_keeps(g, db, marked, idx, ty, hint);
            },
            TypeKind::Union(ty) => {
                lemma_union_type_keeps(g, db, marked, idx, ty, hint);
            },
            TypeKind::Enumeration(ty) => {
                lemma_enum_type_keeps(g, db, marked, idx, ty, hint);
            },
            TypeKind::Array(ty) => {
                lemma_array_type_keeps(g, db, marked, idx, ty, hint);
            },
            TypeKind::Modifier(ty) => {
                lemma_modifier_type_keeps(g, db, marked, idx, ty, hint);
            },
            _ => {},
        }
    }
}

/// Making a type stand for another keeps every slot that was filled, but
/// for its own.
pub proof fn lemma_sym_link_keeps(
    g: &TypeGraph,
    db: RegistryView,
    s: SessionView,
    idx: TypeIndex,
    target: TypeIndex,
    hint: Option<u64>,
)
    requires
        s.wf(g),
    ensures
        table_keeps(s.processed, sym_link_spec(g, db, s, idx, target, hint).processed, Some(idx)),
    decreases unvisited(s.processed), 2int, 0int,
{
    lemma_resolve_keeps(g, db, s, target, hint);
    let (after, info) = resolve_spec(g, db, s, target, hint);
    lemma_put_keeps(after, idx, info);
}

/// Processing a declaration keeps every slot that was filled, but for its
/// own.
pub proof fn lemma_declaration_keeps(
    g: &TypeGraph,
    db: RegistryView,
    s: SessionView,
    idx: TypeIndex,
    name: TypeNameView,
    hint: Option<u64>,
)
    requires
        s.wf(g),
    ensures
        table_keeps(s.processed, declaration_spec(g, db, s, idx, name, hint).processed, Some(idx)),
    decreases unvisited(s.processed), 3int, 0int,
{
    match registry_find(db, name) {
        Some(target) => {
            lemma_sym_link_keeps(g, db, s, idx, target, hint);
        },
        None => {},
    }
}

/// Turning a member into fields keeps every slot that was filled.
pub proof fn lemma_typed_field_keeps(
    g: &TypeGraph,
    db: RegistryView,
    s: SessionView,
    input_id: usize,
    ty: usize,
    off: u64,
    len: u64,
    field: Seq<char>,
    pad: bool,
)
    requires
        s.wf(g),
    ensures
        table_keeps(
            s.processed,
            typed_field_spec(g, db, s, input_id, ty, off, len, field, pad).0.processed,
            None,
        ),
    decreases unvisited(s.processed), 2int, 0int,
{
    lemma_resolve_keeps(g, db, s, TypeIndex { input_id, typoff: ty }, Some(len));
}

/// Turning a span into fields keeps every slot that was filled.
pub proof fn lemma_span_fields_keeps(
    g: &TypeGraph,
    db: RegistryView,
    s: SessionView,
    input_id: usize,
    item: Layout,
    span: Span,
)
    requires
        s.wf(g),
    ensures
        table_keeps(
            s.processed,
            span_fields_spec(g, db, s, input_id, item, span).0.processed,
            None,
        ),
    decreases unvisited(s.processed), 3int, 0int,
{
    if !bitfield(item) {
        match item.item {
            LayoutItem::Padding => {},
            LayoutItem::VariantPart => {},
            LayoutItem::Member { name, ty } => {
                let (field, id) = member_name_spec(opt_text(name), s.next_id);
                lemma_typed_field_keeps(
                    g,
                    db,
                    s.with_id(id),
                    input_id,
                    ty,
                    span.off,
                    span.len,
                    field,
                    true,
                );
            },
            LayoutItem::Inherit { ty } => {
                let (drawn, m) = s.opaque(span.off, span.len, "__parent"@, false);
                lemma_typed_field_keeps(
                    g,
                    db,
                    drawn,
                    input_id,
                    ty,
                    span.off,
                    span.len,
                    m.field_name,
                    true,
                );
            },
        }
    }
}

/// Turning the spans of a structure into fields keeps every slot that was
/// filled.
pub proof fn lemma_struct_walk_keeps(
    g: &TypeGraph,
    db: RegistryView,
    s: SessionView,
    input_id: usize,
    items: Seq<Layout>,
    spans: Seq<Span>,
    k: int,
    acc: Seq<MemberView>,
)
    requires
        s.wf(g),
        0 <= k <= spans.len(),
    ensures
        table_keeps(
            s.processed,
            struct_walk_spec(g, db, s, input_id, items, spans, k, acc).0.processed,
            None,
        ),
    decreases unvisited(s.processed), 4int, spans.len() - k,
{
    if k < spans.len() {
        let item = items[spans[k].idx as int];
        lemma_span_fields_keeps(g, db, s, input_id, item, spans[k]);
        let (after, fields) = span_fields_spec(g, db, s, input_id, item, spans[k]);
        if unvisited(after.processed) <= unvisited(s.processed) {
            lemma_span_fields_wf(g, db, s, input_id, item, spans[k]);
            lemma_struct_walk_keeps(g, db, after, input_id, items, spans, k + 1, acc + fields);
        }
    }
}

/// Turning a span into fields leaves the table valid and in shape.
pub proof fn lemma_span_fields_wf(
    g: &TypeGraph,
    db: RegistryView,
    s: SessionView,
    input_id: usize,
    item: Layout,
    span: Span,
)
    requires
        s.wf(g),
    ensures
        span_fields_spec(g, db, s, input_id, item, span).0.wf(g),
{
    if !bitfield(item) {
        match item.item {
            LayoutItem::Padding => {},
            LayoutItem::VariantPart => {},
            LayoutItem::Member { name, ty } => {
                let (field, id) = member_name_spec(opt_text(name), s.next_id);
                lemma_resolve_advances(
                    g,
                    db,
                    s.with_id(id),
                    TypeIndex { input_id, typoff: ty },
                    Some(span.len),
                );
            },
            LayoutItem::Inherit { ty } => {
                let (drawn, m) = s.opaque(span.off, span.len, "__parent"@, false);
                lemma_resolve_advances(
                    g,
                    db,
                    drawn,
                    TypeIndex { input_id, typoff: ty },
                    Some(span.len),
                );
            },
        }
    }
}

/// Processing a structure keeps every slot that was filled, but for its
/// own.
pub proof fn lemma_struct_type_keeps(
    g: &TypeGraph,
    db: RegistryView,
    s: SessionView,
    idx: TypeIndex,
    ty: StructType,
    hint: Option<u64>,
)
    requires
        s.wf(g),
    ensures
        table_keeps(s.processed, struct_type_spec(g, db, s, idx, ty, hint).processed, Some(idx)),
    decreases unvisited(s.processed), 5int, 0int,
{
    if ty.declaration {
        lemma_declaration_keeps(g, db, s, idx, ty.name@, hint);
    } else {
        match struct_plan(ty, hint) {
            None => {},
            Some(spans) => {
                lemma_struct_walk_keeps(
                    g,
                    db,
                    s,
                    idx.input_id,
                    struct_items(ty),
                    spans,
                    0,
                    Seq::empty(),
                );
                let walked = struct_walk_spec(
                    g,
                    db,
                    s,
                    idx.input_id,
                    struct_items(ty),
                    spans,
                    0,
                    Seq::empty(),
                ).0;
                let after = struct_type_spec(g, db, s, idx, ty, hint);
                assert forall|j: TypeIndex|
                    table_get(s.processed, j) is Some && j != idx implies #[trigger] table_get(
                    after.processed,
                    j,
                ) == table_get(s.processed, j) by {
                    assert(table_get(walked.processed, j) == table_get(s.processed, j));
                }
            },
        }
    }
}

/// Turning the members of a union into fields keeps every slot that was
/// filled.
pub proof fn lemma_union_walk_keeps(
    g: &TypeGraph,
    db: RegistryView,
    s: SessionView,
    input_id: usize,
    members: Seq<UnionMember>,
    k: int,
    acc: Seq<MemberView>,
)
    requires
        s.wf(g),
        0 <= k <= members.len(),
    ensures
        table_keeps(
            s.processed,
            union_walk_spec(g, db, s, input_id, members, k, acc).0.processed,
            None,
        ),
    decreases unvisited(s.processed), 4int, members.len() - k,
{
    if k < members.len() {
        let m = members[k];
        match m.bit_size {
            None => {},
            Some(bits) => {
                if m.bit_offset == 0 {
                    let len = bytes_for_bits(bits as int) as u64;
                    if bits % 8 != 0 {
                        let (drawn, f) = s.opaque(0, len, "__bitfield"@, false);
                        lemma_union_walk_keeps(g, db, drawn, input_id, members, k + 1, acc + seq![f]);
                    } else {
                        let (field, id) = member_name_spec(opt_text(m.name), s.next_id);
                        let from = s.with_id(id);
                        lemma_typed_field_keeps(g, db, from, input_id, m.ty, 0, len, field, false);
                        lemma_resolve_advances(
                            g,
                            db,
                            from,
                            TypeIndex { input_id, typoff: m.ty },
                            Some(len),
                        );
                        let (after, fields) = typed_field_spec(
                            g,
                            db,
                            from,
                            input_id,
                            m.ty,
                            0,
                            len,
                            field,
                            false,
                        );
                        if unvisited(after.processed) <= unvisited(s.processed) {
                            lemma_union_walk_keeps(
                                g,
                                db,
                                after,
                                input_id,
                                members,
                                k + 1,
                                acc + fields,
                            );
                        }
                    }
                }
            },
        }
    }
}

/// Processing a union keeps every slot that was filled, but for its own.
pub proof fn lemma_union_type_keeps(
    g: &TypeGraph,
    db: RegistryView,
    s: SessionView,
    idx: TypeIndex,
    ty: UnionType,
    hint: Option<u64>,
)
    requires
        s.wf(g),
    ensures
        table_keeps(s.processed, union_type_spec(g, db, s, idx, ty, hint).processed, Some(idx)),
    decreases unvisited(s.processed), 5int, 0int,
{
    if ty.declaration {
        lemma_declaration_keeps(g, db, s, idx, ty.name@, hint);
    } else {
        match ty.byte_size {
            None => {},
            Some(size) => {
                if !too_large(size, hint) {
                    lemma_union_walk_keeps(g, db, s, idx.input_id, ty.members@, 0, Seq::empty());
                    let walked = union_walk_spec(
                        g,
                        db,
                        s,
                        idx.input_id,
                        ty.members@,
                        0,
                        Seq::empty(),
                    ).0;
                    let after = union_type_spec(g, db, s, idx, ty, hint);
                    assert forall|j: TypeIndex|
                        table_get(s.processed, j) is Some && j != idx implies #[trigger] table_get(
                        after.processed,
                        j,
                    ) == table_get(s.processed, j) by {
                        assert(table_get(walked.processed, j) == table_get(s.processed, j));
                    }
                }
            },
        }
    }
}

/// Processing an enumeration keeps every slot that was filled, but for its
/// own.
pub proof fn lemma_enum_type_keeps(
    g: &TypeGraph,
    db: RegistryView,
    s: SessionView,
    idx: TypeIndex,
    ty: EnumerationType,
    hint: Option<u64>,
)
    requires
        s.wf(g),
    ensures
        table_keeps(s.processed, enum_type_spec(g, db, s, idx, ty, hint).processed, Some(idx)),
    decreases unvisited(s.processed), 5int, 0int,
{
    if ty.declaration {
        lemma_declaration_keeps(g, db, s, idx, ty.name@, hint);
    } else {
        match ty.byte_size {
            None => {},
            Some(size) => {
                if !too_large(size, hint) && enum_repr(size) is Some {
                    let (named, ident) = s.alloc_ident(ty.name@);
                }
            },
        }
    }
}

/// Processing an array keeps every slot that was filled, but for its own.
pub proof fn lemma_array_type_keeps(
    g: &TypeGraph,
    db: RegistryView,
    s: SessionView,
    idx: TypeIndex,
    ty: ArrayType,
    hint: Option<u64>,
)
    requires
        s.wf(g),
    ensures
        table_keeps(s.processed, array_type_spec(g, db, s, idx, ty, hint).processed, Some(idx)),
    decreases unvisited(s.processed), 5int, 0int,
{
    let target = TypeIndex { input_id: idx.input_id, typoff: ty.ty };
    lemma_resolve_keeps(g, db, s, target, None);
    let (resolved, found) = resolve_spec(g, db, s, target, None);
    match found {
        None => {},
        Some(elem) => {
            let (wrapped, elem_name) = if elem.size > elem.packed_size {
                padded_element_spec(resolved, idx, elem)
            } else {
                (resolved, elem.name)
            };
            match array_count(ty, elem, hint) {
                None => {},
                Some(count) => {
                    let after = array_type_spec(g, db, s, idx, ty, hint);
                    assert forall|j: TypeIndex|
                        table_get(s.processed, j) is Some && j != idx implies #[trigger] table_get(
                        after.processed,
                        j,
                    ) == table_get(s.processed, j) by {
                        assert(table_get(resolved.processed, j) == table_get(s.processed, j));
                    }
                },
            }
        },
    }
}

/// Processing a pointer, a reference or a qualified type keeps every slot
/// that was filled, but for its own.
pub proof fn lemma_modifier_type_keeps(
    g: &TypeGraph,
    db: RegistryView,
    s: SessionView,
    idx: TypeIndex,
    ty: TypeModifier,
    hint: Option<u64>,
)
    requires
        s.wf(g),
    ensures
        table_keeps(
            s.processed,
            modifier_type_spec(g, db, s, idx, ty, hint).processed,
            Some(idx),
        ),
    decreases unvisited(s.processed), 5int, 0int,
{
    let target = TypeIndex { input_id: idx.input_id, typoff: ty.ty };
    if makes_pointer(ty.kind) {
        match ty.byte_size {
            None => {},
            Some(size) => {
                if !too_large(size, hint) {
                    lemma_resolve_keeps(g, db, s, target, None);
                    let (resolved, info) = resolve_spec(g, db, s, target, None);
                    let after = modifier_type_spec(g, db, s, idx, ty, hint);
                    assert forall|j: TypeIndex|
                        table_get(s.processed, j) is Some && j != idx implies #[trigger] table_get(
                        after.processed,
                        j,
                    ) == table_get(s.processed, j) by {
                        assert(table_get(resolved.processed, j) == table_get(s.processed, j));
                    }
                }
            },
        }
    } else {
        lemma_sym_link_keeps(g, db, s, idx, target, hint);
    }
}

} // verus!
