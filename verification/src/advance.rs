//! Every step of a run moves forward.
//!
//! Processing a type never takes a visited type back, never changes the
//! shape of the table, and leaves no summary behind whose packed size is
//! above its size. The tests on the number of unvisited types that stand in
//! the descriptions of the processors therefore always succeed: they are
//! there to show that the descriptions are well-founded.

use crate::layout::bitfield;
use crate::layout::lemma_spans_at;
use crate::layout::lemma_trimmed;
use crate::layout::lemma_without_trailing_padding;
use crate::layout::without_trailing_padding;
use crate::layout::Span;
use crate::member::member_name_spec;
use crate::member::MemberView;
use crate::model::registry_find;
use crate::model::type_ident;
use crate::model::BaseType;
use crate::model::ArrayType;
use crate::model::EnumerationType;
use crate::model::Layout;
use crate::model::LayoutItem;
use crate::model::RegistryView;
use crate::model::StructType;
use crate::model::TypeGraph;
use crate::model::TypeIndex;
use crate::model::TypeInfoView;
use crate::model::TypeKind;
use crate::model::TypeModifier;
use crate::model::UnionMember;
use crate::model::UnionType;
use crate::names::opt_text;
use crate::names::TypeNameView;
use crate::semantics::array_count;
use crate::semantics::array_line;
use crate::semantics::array_type_spec;
use crate::semantics::base_type_spec;
use crate::semantics::declaration_spec;
use crate::semantics::enum_repr;
use crate::semantics::enum_type_spec;
use crate::semantics::fields_within;
use crate::semantics::makes_pointer;
use crate::semantics::modifier_type_spec;
use crate::semantics::padded_element_spec;
use crate::semantics::plain_name;
use crate::semantics::process_type_spec;
use crate::semantics::resolve_spec;
use crate::semantics::sizeof_expr;
use crate::semantics::sound;
use crate::semantics::span_fields_spec;
use crate::semantics::struct_end;
use crate::semantics::struct_items;
use crate::semantics::struct_plan;
use crate::semantics::struct_type_spec;
use crate::semantics::struct_walk_spec;
use crate::semantics::summary;
use crate::semantics::sym_link_spec;
use crate::semantics::too_large;
use crate::semantics::typed_field_spec;
use crate::semantics::union_type_spec;
use crate::semantics::union_walk_spec;
use crate::state::lemma_unvisited_put;
use crate::state::table_get;
use crate::state::table_has;
use crate::state::unvisited;
use crate::state::SessionView;
use crate::text::bytes_for_bits;
use crate::text::decimal;
use crate::semantics::definition_lines;
use crate::semantics::members_asserts;
use crate::semantics::packed_size_of;
use crate::semantics::process_members_spec;
use crate::printer::EqAssertView;
use vstd::prelude::*;

verus! {

/// `later` can come after `s` in a run over `g`.
pub open spec fn advances(s: SessionView, later: SessionView, g: &TypeGraph) -> bool {
    later.wf(g) && s.precedes(later)
}

/// Putting a sound summary into a table keeps the table valid and in shape.
pub proof fn lemma_put_wf(s: SessionView, g: &TypeGraph, idx: TypeIndex, v: Option<TypeInfoView>)
    requires
        s.wf(g),
        sound(v),
    ensures
        s.put(idx, v).wf(g),
        s.precedes(s.put(idx, v)),
        table_get(s.put(idx, v).processed, idx) == if table_has(s.processed, idx) {
            Some(v)
        } else {
            None
        },
{
    lemma_unvisited_put(s.processed, idx, v);
}

/// Emitting a type whose packed size is not above its size keeps the table
/// valid and in shape.
pub proof fn lemma_members_wf(
    s: SessionView,
    g: &TypeGraph,
    idx: TypeIndex,
    tyname: TypeNameView,
    members: Seq<MemberView>,
    tydef: Seq<char>,
    tysize: Option<u64>,
)
    requires
        s.wf(g),
        members.len() > 0 ==> packed_size_of(members) <= u64::MAX,
        members.len() > 0 && tysize is Some ==> packed_size_of(members) <= tysize->0,
    ensures
        process_members_spec(s, idx, tyname, members, tydef, tysize).wf(g),
        s.precedes(process_members_spec(s, idx, tyname, members, tydef, tysize)),
{
    if members.len() > 0 {
        let packed = packed_size_of(members) as u64;
        let emitted = s.emit_type(definition_lines(idx, tyname, members, tydef)).emit_asserts(
            members_asserts(tydef, members).push(
                EqAssertView { expr: sizeof_expr(tydef), val: packed },
            ),
        );
        match tysize {
            Some(size) => {
                lemma_put_wf(
                    emitted,
                    g,
                    idx,
                    Some(TypeInfoView { name: tydef, packed_size: packed, size }),
                );
            },
            None => {},
        }
    }
}

/// Marking a type of the graph that was not visited takes one from the
/// number of unvisited types.
pub proof fn lemma_mark(s: SessionView, g: &TypeGraph, idx: TypeIndex)
    requires
        s.wf(g),
        g.has(idx),
        table_get(s.processed, idx) is None,
    ensures
        unvisited(s.put(idx, None).processed) < unvisited(s.processed),
        advances(s, s.put(idx, None), g),
{
    lemma_unvisited_put(s.processed, idx, None);
}

/// Resolution moves a run forward, and gives a summary whose packed size is
/// not above its size nor above the bytes that are free.
pub proof fn lemma_resolve_advances(
    g: &TypeGraph,
    db: RegistryView,
    s: SessionView,
    idx: TypeIndex,
    hint: Option<u64>,
)
    requires
        s.wf(g),
    ensures
        advances(s, resolve_spec(g, db, s, idx, hint).0, g),
        sound(resolve_spec(g, db, s, idx, hint).1),
        resolve_spec(g, db, s, idx, hint).1 is Some && hint is Some ==> resolve_spec(
            g,
            db,
            s,
            idx,
            hint,
        ).1->0.packed_size <= hint->0,
    decreases unvisited(s.processed), 1int, 0int,
{
    match table_get(s.processed, idx) {
        Some(found) => {},
        None => {
            lemma_process_type_advances(g, db, s, idx, hint);
        },
    }
}

/// Processing a type moves a run forward, and leaves the type visited:
/// with its summary, or without layout, never absent.
pub proof fn lemma_process_type_advances(
    g: &TypeGraph,
    db: RegistryView,
    s: SessionView,
    idx: TypeIndex,
    hint: Option<u64>,
)
    requires
        s.wf(g),
    ensures
        advances(s, process_type_spec(g, db, s, idx, hint), g),
        process_type_spec(g, db, s, idx, hint).lookup(idx) is Some,
    decreases unvisited(s.processed), 0int, 0int,
{
    if s.lookup(idx) is None && !g.has(idx) {
        let after = s.mark_outside(idx);
        assert(after.outside[after.outside.len() - 1] == idx);
    }
    if g.has(idx) && table_get(s.processed, idx) is None {
        let marked = s.put(idx, None);
        lemma_mark(s, g, idx);
        assert(marked.processed[idx.input_id as int][idx.typoff as int] is Some);
        match g.at(idx) {
            TypeKind::Base(ty) => {
                lemma_base_type_advances(g, marked, idx, ty);
            },
            TypeKind::Def(ty) => {
                lemma_sym_link_advances(
                    g,
                    db,
                    marked,
                    idx,
                    TypeIndex { input_id: idx.input_id, typoff: ty.ty },
                    hint,
                );
            },
            TypeKind::Struct(ty) => {
                lemma_struct_type_advances(g, db, marked, idx, ty, hint);
            },
            TypeKind::Union(ty) => {
                lemma_union_type_advances(g, db, marked, idx, ty, hint);
            },
            TypeKind::Enumeration(ty) => {
                lemma_enum_type_advances(g, db, marked, idx, ty, hint);
            },
            TypeKind::Array(ty) => {
                lemma_array_type_advances(g, db, marked, idx, ty, hint);
            },
            TypeKind::Modifier(ty) => {
                lemma_modifier_type_advances(g, db, marked, idx, ty, hint);
            },
            _ => {},
        }
    }
}

/// Processing a primitive type moves a run forward.
pub proof fn lemma_base_type_advances(
    g: &TypeGraph,
    s: SessionView,
    idx: TypeIndex,
    ty: BaseType,
)
    requires
        s.wf(g),
    ensures
        advances(s, base_type_spec(s, idx, ty), g),
{
    match (ty.name, ty.byte_size) {
        (Some(name), Some(size)) => {
            lemma_put_wf(s, g, idx, Some(TypeInfoView { name: name@, packed_size: size, size }));
        },
        _ => {},
    }
}

/// Making a type stand for another moves a run forward.
pub proof fn lemma_sym_link_advances(
    g: &TypeGraph,
    db: RegistryView,
    s: SessionView,
    idx: TypeIndex,
    target: TypeIndex,
    hint: Option<u64>,
)
    requires
        s.wf(g),
    ensures
        advances(s, sym_link_spec(g, db, s, idx, target, hint), g),
    decreases unvisited(s.processed), 2int, 0int,
{
    lemma_resolve_advances(g, db, s, target, hint);
    let (after, info) = resolve_spec(g, db, s, target, hint);
    lemma_put_wf(after, g, idx, info);
}

/// Processing a declaration moves a run forward.
pub proof fn lemma_declaration_advances(
    g: &TypeGraph,
    db: RegistryView,
    s: SessionView,
    idx: TypeIndex,
    name: TypeNameView,
    hint: Option<u64>,
)
    requires
        s.wf(g),
    ensures
        advances(s, declaration_spec(g, db, s, idx, name, hint), g),
    decreases unvisited(s.processed), 3int, 0int,
{
    match registry_find(db, name) {
        Some(target) => {
            lemma_sym_link_advances(g, db, s, idx, target, hint);
        },
        None => {},
    }
}

/// Turning a member into fields moves a run forward, and the fields lie in
/// the bytes that were given for them.
pub proof fn lemma_typed_field_advances(
    g: &TypeGraph,
    db: RegistryView,
    s: SessionView,
    input_id: usize,
    ty: usize,
    off: u64,
    len: u64,
    field: Seq<char>,
    pad: bool,
)
    requires
        s.wf(g),
        off + len <= u64::MAX,
    ensures
        advances(s, typed_field_spec(g, db, s, input_id, ty, off, len, field, pad).0, g),
        fields_within(
            typed_field_spec(g, db, s, input_id, ty, off, len, field, pad).1,
            off as int,
            off + len,
        ),
    decreases unvisited(s.processed), 2int, 0int,
{
    lemma_resolve_advances(g, db, s, TypeIndex { input_id, typoff: ty }, Some(len));
}

/// Turning a span into fields moves a run forward, and the fields lie in
/// the span.
pub proof fn lemma_span_fields_advances(
    g: &TypeGraph,
    db: RegistryView,
    s: SessionView,
    input_id: usize,
    item: Layout,
    span: Span,
)
    requires
        s.wf(g),
        span.off + span.len <= u64::MAX,
    ensures
        advances(s, span_fields_spec(g, db, s, input_id, item, span).0, g),
        fields_within(
            span_fields_spec(g, db, s, input_id, item, span).1,
            span.off as int,
            span.off + span.len,
        ),
    decreases unvisited(s.processed), 3int, 0int,
{
    if !bitfield(item) {
        match item.item {
            LayoutItem::Padding => {},
            LayoutItem::VariantPart => {},
            LayoutItem::Member { name, ty } => {
                let (field, id) = member_name_spec(opt_text(name), s.next_id);
                lemma_typed_field_advances(
                    g,
                    db,
                    s.with_id(id),
                    input_id,
                    ty,
                    span.off,
                    span.len,
                    field,
                    true,
                );
            },
            LayoutItem::Inherit { ty } => {
                let (drawn, m) = s.opaque(span.off, span.len, "__parent"@, false);
                lemma_typed_field_advances(
                    g,
                    db,
                    drawn,
                    input_id,
                    ty,
                    span.off,
                    span.len,
                    m.field_name,
                    true,
                );
            },
        }
    }
}

/// All spans end at or before `end`.
pub open spec fn spans_end_by(spans: Seq<Span>, end: int) -> bool {
    forall|i: int| 0 <= i < spans.len() ==> (#[trigger] spans[i]).off + spans[i].len <= end
}

/// Every span of a structure is turned into fields in its turn: the walk
/// over the spans from the `k`-th on is the `k`-th span turned into fields,
/// followed by the walk from the next on.
pub proof fn lemma_struct_walk_step(
    g: &TypeGraph,
    db: RegistryView,
    s: SessionView,
    input_id: usize,
    items: Seq<Layout>,
    spans: Seq<Span>,
    k: int,
    acc: Seq<MemberView>,
    end: u64,
)
    requires
        s.wf(g),
        0 <= k < spans.len(),
        spans_end_by(spans, end as int),
    ensures
        ({
            let (after, fields) = span_fields_spec(
                g,
                db,
                s,
                input_id,
                items[spans[k].idx as int],
                spans[k],
            );
            &&& advances(s, after, g)
            &&& struct_walk_spec(g, db, s, input_id, items, spans, k, acc) == struct_walk_spec(
                g,
                db,
                after,
                input_id,
                items,
                spans,
                k + 1,
                acc + fields,
            )
        }),
{
    lemma_span_fields_advances(g, db, s, input_id, items[spans[k].idx as int], spans[k]);
}

/// Turning the spans of a structure into fields moves a run forward, and
/// the fields end at or before the end of the structure.
pub proof fn lemma_struct_walk_advances(
    g: &TypeGraph,
    db: RegistryView,
    s: SessionView,
    input_id: usize,
    items: Seq<Layout>,
    spans: Seq<Span>,
    k: int,
    acc: Seq<MemberView>,
    end: u64,
)
    requires
        s.wf(g),
        0 <= k <= spans.len(),
        spans_end_by(spans, end as int),
        fields_within(acc, 0, end as int),
    ensures
        advances(s, struct_walk_spec(g, db, s, input_id, items, spans, k, acc).0, g),
        fields_within(
            struct_walk_spec(g, db, s, input_id, items, spans, k, acc).1,
            0,
            end as int,
        ),
    decreases unvisited(s.processed), 4int, spans.len() - k,
{
    if k < spans.len() {
        lemma_span_fields_advances(g, db, s, input_id, items[spans[k].idx as int], spans[k]);
        let (after, fields) = span_fields_spec(
            g,
            db,
            s,
            input_id,
            items[spans[k].idx as int],
            spans[k],
        );
        lemma_struct_walk_advances(g, db, after, input_id, items, spans, k + 1, acc + fields, end);
    }
}

/// The structure ends for the layout of its fields at or before its size.
pub proof fn lemma_struct_end(ty: StructType, hint: Option<u64>)
    requires
        struct_end(ty, hint) is Some,
    ensures
        ty.byte_size is Some,
        struct_end(ty, hint)->0 <= ty.byte_size->0,
        hint is Some ==> struct_end(ty, hint)->0 <= hint->0,
{
    let size = ty.byte_size->0;
    lemma_trimmed(ty.layout@, size * 8);
}

/// Processing a structure moves a run forward.
pub proof fn lemma_struct_type_advances(
    g: &TypeGraph,
    db: RegistryView,
    s: SessionView,
    idx: TypeIndex,
    ty: StructType,
    hint: Option<u64>,
)
    requires
        s.wf(g),
    ensures
        advances(s, struct_type_spec(g, db, s, idx, ty, hint), g),
    decreases unvisited(s.processed), 5int, 0int,
{
    if ty.declaration {
        lemma_declaration_advances(g, db, s, idx, ty.name@, hint);
    } else {
        match struct_plan(ty, hint) {
            None => {},
            Some(spans) => {
                let end = struct_end(ty, hint)->0;
                let items = struct_items(ty);
                lemma_struct_end(ty, hint);
                lemma_trimmed(ty.layout@, 0);
                assert(items.len() <= ty.layout.len() <= usize::MAX);
                lemma_spans_at(items, 0, end);
                lemma_struct_walk_advances(g, db, s, idx.input_id, items, spans, 0, Seq::empty(), end);
                let (walked, fields) = struct_walk_spec(
                    g,
                    db,
                    s,
                    idx.input_id,
                    items,
                    spans,
                    0,
                    Seq::empty(),
                );
                let kept = without_trailing_padding(fields);
                lemma_without_trailing_padding(fields);
                let (named, ident) = walked.alloc_ident(ty.name@);
                lemma_members_wf(named, g, idx, ty.name@, kept, "struct "@ + ident, ty.byte_size);
            },
        }
    }
}

/// Every member of a union is turned into fields in its turn, as long as
/// the members begin at the start of the union and have a size.
pub proof fn lemma_union_walk_advances(
    g: &TypeGraph,
    db: RegistryView,
    s: SessionView,
    input_id: usize,
    members: Seq<UnionMember>,
    k: int,
    acc: Seq<MemberView>,
)
    requires
        s.wf(g),
        0 <= k <= members.len(),
    ensures
        advances(s, union_walk_spec(g, db, s, input_id, members, k, acc).0, g),
    decreases unvisited(s.processed), 4int, members.len() - k,
{
    if k < members.len() {
        let m = members[k];
        match m.bit_size {
            None => {},
            Some(bits) => {
                if m.bit_offset == 0 {
                    let len = bytes_for_bits(bits as int) as u64;
                    if bits % 8 != 0 {
                        let (drawn, f) = s.opaque(0, len, "__bitfield"@, false);
                        lemma_union_walk_advances(
                            g,
                            db,
                            drawn,
                            input_id,
                            members,
                            k + 1,
                            acc + seq![f],
                        );
                    } else {
                        let (field, id) = member_name_spec(opt_text(m.name), s.next_id);
                        lemma_typed_field_advances(
                            g,
                            db,
                            s.with_id(id),
                            input_id,
                            m.ty,
                            0,
                            len,
                            field,
                            false,
                        );
                        let (after, fields) = typed_field_spec(
                            g,
                            db,
                            s.with_id(id),
                            input_id,
                            m.ty,
                            0,
                            len,
                            field,
                            false,
                        );
                        lemma_union_walk_advances(
                            g,
                            db,
                            after,
                            input_id,
                            members,
                            k + 1,
                            acc + fields,
                        );
                    }
                }
            },
        }
    }
}

/// Processing a union moves a run forward.
pub proof fn lemma_union_type_advances(
    g: &TypeGraph,
    db: RegistryView,
    s: SessionView,
    idx: TypeIndex,
    ty: UnionType,
    hint: Option<u64>,
)
    requires
        s.wf(g),
    ensures
        advances(s, union_type_spec(g, db, s, idx, ty, hint), g),
    decreases unvisited(s.processed), 5int, 0int,
{
    if ty.declaration {
        lemma_declaration_advances(g, db, s, idx, ty.name@, hint);
    } else {
        match ty.byte_size {
            None => {},
            Some(size) => {
                if !too_large(size, hint) {
                    lemma_union_walk_advances(g, db, s, idx.input_id, ty.members@, 0, Seq::empty());
                    let (walked, fields) = union_walk_spec(
                        g,
                        db,
                        s,
                        idx.input_id,
                        ty.members@,
                        0,
                        Seq::empty(),
                    );
                    match fields {
                        None => {},
                        Some(fs) => {
                            let (drawn, whole) = walked.opaque(0, size, "__HIDVA_dont_use"@, false);
                            let (named, ident) = drawn.alloc_ident(ty.name@);
                            lemma_members_wf(
                                named,
                                g,
                                idx,
                                ty.name@,
                                fs.push(whole),
                                "union "@ + ident,
                                Some(size),
                            );
                        },
                    }
                }
            },
        }
    }
}

/// Processing an enumeration moves a run forward.
pub proof fn lemma_enum_type_advances(
    g: &TypeGraph,
    db: RegistryView,
    s: SessionView,
    idx: TypeIndex,
    ty: EnumerationType,
    hint: Option<u64>,
)
    requires
        s.wf(g),
    ensures
        advances(s, enum_type_spec(g, db, s, idx, ty, hint), g),
    decreases unvisited(s.processed), 5int, 0int,
{
    if ty.declaration {
        lemma_declaration_advances(g, db, s, idx, ty.name@, hint);
    } else {
        match ty.byte_size {
            None => {},
            Some(size) => {
                if !too_large(size, hint) && enum_repr(size) is Some {
                    let (named, ident) = s.alloc_ident(ty.name@);
                    lemma_put_wf(
                        named,
                        g,
                        idx,
                        Some(TypeInfoView { name: ident, packed_size: size, size }),
                    );
                }
            },
        }
    }
}

/// Processing an array moves a run forward.
pub proof fn lemma_array_type_advances(
    g: &TypeGraph,
    db: RegistryView,
    s: SessionView,
    idx: TypeIndex,
    ty: ArrayType,
    hint: Option<u64>,
)
    requires
        s.wf(g),
    ensures
        advances(s, array_type_spec(g, db, s, idx, ty, hint), g),
    decreases unvisited(s.processed), 5int, 0int,
{
    let target = TypeIndex { input_id: idx.input_id, typoff: ty.ty };
    lemma_resolve_advances(g, db, s, target, None);
    let (after, found) = resolve_spec(g, db, s, target, None);
    match found {
        None => {},
        Some(elem) => {
            let (wrapped, elem_name) = if elem.size > elem.packed_size {
                padded_element_spec(after, idx, elem)
            } else {
                (after, elem.name)
            };
            match array_count(ty, elem, hint) {
                None => {},
                Some(count) => {
                    assert(elem.size * count <= u64::MAX) by (nonlinear_arith)
                        requires
                            count == 0 || elem.size * count <= u64::MAX,
                    ;
                    let size = (elem.size * count) as u64;
                    let (named, ident) = wrapped.alloc_ident(
                        plain_name(type_ident(elem.name) + "_Array"@ + decimal(count as nat)),
                    );
                    let emitted = named.emit_type(
                        seq![array_line(elem_name, ident, count)],
                    ).emit_assert(sizeof_expr(ident), size);
                    lemma_put_wf(
                        emitted,
                        g,
                        idx,
                        Some(TypeInfoView { name: ident, packed_size: size, size }),
                    );
                },
            }
        },
    }
}

/// Processing a pointer, a reference or a qualified type moves a run
/// forward.
pub proof fn lemma_modifier_type_advances(
    g: &TypeGraph,
    db: RegistryView,
    s: SessionView,
    idx: TypeIndex,
    ty: TypeModifier,
    hint: Option<u64>,
)
    requires
        s.wf(g),
    ensures
        advances(s, modifier_type_spec(g, db, s, idx, ty, hint), g),
    decreases unvisited(s.processed), 5int, 0int,
{
    let target = TypeIndex { input_id: idx.input_id, typoff: ty.ty };
    if makes_pointer(ty.kind) {
        match ty.byte_size {
            None => {},
            Some(size) => {
                if !too_large(size, hint) {
                    lemma_resolve_advances(g, db, s, target, None);
                    let (after, info) = resolve_spec(g, db, s, target, None);
                    let name = (match info {
                        Some(i) => i.name,
                        None => "void"@,
                    }) + "*"@;
                    let emitted = after.emit_assert(sizeof_expr(name), size);
                    lemma_put_wf(
                        emitted,
                        g,
                        idx,
                        Some(TypeInfoView { name, packed_size: size, size }),
                    );
                }
            },
        }
    } else {
        lemma_sym_link_advances(g, db, s, idx, target, hint);
    }
}

} // verus!
