//! A structure that points to itself.
//!
//! While a structure is being worked on, its slot in the table is filled
//! but empty. A member whose type is a pointer to that structure is reached
//! in this state: the pointer takes `void` for the name of what it points
//! to, the member becomes a field of the pointer's size, and the structure
//! is emitted with it.

use crate::advance::lemma_mark;
use crate::advance::lemma_struct_end;
use crate::advance::lemma_struct_walk_advances;
use crate::advance::lemma_struct_walk_step;
use crate::advance::spans_end_by;
use crate::fidelity::lemma_pointer_into_cycle;
use crate::layout::bitfield;
use crate::layout::lemma_spans_at;
use crate::layout::lemma_trimmed;
use crate::layout::lemma_without_trailing_padding;
use crate::layout::without_trailing_padding;
use crate::layout::Span;
use crate::member::member_name_spec;
use crate::member::typed_member;
use crate::member::MemberView;
use crate::memo::lemma_struct_walk_keeps;
use crate::model::Layout;
use crate::model::RegistryView;
use crate::model::StructType;
use crate::model::TypeGraph;
use crate::model::TypeIndex;
use crate::model::TypeInfoView;
use crate::model::TypeKind;
use crate::names::opt_text;
use crate::semantics::makes_pointer;
use crate::semantics::resolve_spec;
use crate::semantics::span_fields_spec;
use crate::semantics::struct_end;
use crate::semantics::struct_items;
use crate::semantics::struct_plan;
use crate::semantics::struct_type_spec;
use crate::semantics::struct_walk_spec;
use crate::semantics::typed_field_spec;
use crate::state::table_get;
use crate::state::SessionView;
use vstd::prelude::*;

verus! {

/// The summary of a pointer of `size` bytes to a type that is being worked
/// on.
pub open spec fn void_pointer(size: u64) -> TypeInfoView {
    TypeInfoView { name: "void"@ + "*"@, packed_size: size, size }
}

/// The type at `ptr` is a pointer or reference of `size` bytes to the type
/// at `to`, which lies in the same input.
pub open spec fn points_to(g: &TypeGraph, ptr: TypeIndex, to: TypeIndex, size: u64) -> bool {
    &&& g.has(ptr)
    &&& ptr.input_id == to.input_id
    &&& match g.at(ptr) {
        TypeKind::Modifier(m) => makes_pointer(m.kind) && m.ty == to.typoff && m.byte_size == Some(
            size,
        ),
        _ => false,
    }
}

/// Resolving a pointer that was not visited, to a type that is being worked
/// on, where the pointer fits: the pointer gets the summary of a pointer to
/// `void`, and that is what resolution gives.
pub proof fn lemma_resolve_pointer_into_cycle(
    g: &TypeGraph,
    db: RegistryView,
    s: SessionView,
    ptr: TypeIndex,
    to: TypeIndex,
    size: u64,
    len: u64,
)
    requires
        s.wf(g),
        points_to(g, ptr, to, size),
        size <= len,
        table_get(s.processed, ptr) is None,
        table_get(s.processed, to) == Some(None::<TypeInfoView>),
    ensures
        resolve_spec(g, db, s, ptr, Some(len)).1 == Some(void_pointer(size)),
        table_get(resolve_spec(g, db, s, ptr, Some(len)).0.processed, ptr) == Some(
            Some(void_pointer(size)),
        ),
        resolve_spec(g, db, s, ptr, Some(len)).0.next_id == s.next_id,
{
    let marked = s.put(ptr, None);
    lemma_mark(s, g, ptr);
    match g.at(ptr) {
        TypeKind::Modifier(m) => {
            assert(table_get(marked.processed, to) == Some(None::<TypeInfoView>));
            lemma_pointer_into_cycle(g, db, marked, ptr, m, Some(len));
        },
        _ => {},
    }
}

/// A member whose type is a pointer that was not visited, to a type that is
/// being worked on, becomes a field of the size of the pointer, declared as a
/// pointer to `void`; padding follows it where the span is larger.
pub proof fn lemma_pointer_member_in_cycle(
    g: &TypeGraph,
    db: RegistryView,
    s: SessionView,
    input_id: usize,
    ty: usize,
    to: TypeIndex,
    size: u64,
    off: u64,
    len: u64,
    field: Seq<char>,
)
    requires
        s.wf(g),
        points_to(g, TypeIndex { input_id, typoff: ty }, to, size),
        size <= len,
        table_get(s.processed, TypeIndex { input_id, typoff: ty }) is None,
        table_get(s.processed, to) == Some(None::<TypeInfoView>),
    ensures
        ({
            let fields = typed_field_spec(g, db, s, input_id, ty, off, len, field, true).1;
            &&& fields.len() == if size < len {
                2int
            } else {
                1int
            }
            &&& fields[0] == typed_member(off, size, "void"@ + "*"@, field)
            &&& fields.len() == 2 ==> fields[1].is_padding
        }),
{
    lemma_resolve_pointer_into_cycle(g, db, s, TypeIndex { input_id, typoff: ty }, to, size, len);
}

/// The fields that a walk has when it begins are the first fields that it
/// ends with.
pub proof fn lemma_walk_keeps_fields(
    g: &TypeGraph,
    db: RegistryView,
    s: SessionView,
    input_id: usize,
    items: Seq<Layout>,
    spans: Seq<Span>,
    k: int,
    acc: Seq<MemberView>,
    end: u64,
)
    requires
        s.wf(g),
        0 <= k <= spans.len(),
        spans_end_by(spans, end as int),
    ensures
        struct_walk_spec(g, db, s, input_id, items, spans, k, acc).1.len() >= acc.len(),
        forall|i: int|
            0 <= i < acc.len() ==> struct_walk_spec(g, db, s, input_id, items, spans, k, acc).1[i]
                == #[trigger] acc[i],
    decreases spans.len() - k,
{
    if k < spans.len() {
        lemma_struct_walk_step(g, db, s, input_id, items, spans, k, acc, end);
        let (after, fields) = span_fields_spec(
            g,
            db,
            s,
            input_id,
            items[spans[k].idx as int],
            spans[k],
        );
        lemma_walk_keeps_fields(g, db, after, input_id, items, spans, k + 1, acc + fields, end);
        let out = struct_walk_spec(g, db, after, input_id, items, spans, k + 1, acc + fields).1;
        assert forall|i: int| 0 <= i < acc.len() implies out[i] == #[trigger] acc[i] by {
            assert((acc + fields)[i] == acc[i]);
        }
    }
}

/// A walk over the spans is the walk over the first `j` of them, followed by
/// the walk over the others from the state and with the fields that the
/// first walk gives.
pub proof fn lemma_walk_split(
    g: &TypeGraph,
    db: RegistryView,
    s: SessionView,
    input_id: usize,
    items: Seq<Layout>,
    spans: Seq<Span>,
    k: int,
    j: int,
    acc: Seq<MemberView>,
    end: u64,
)
    requires
        s.wf(g),
        0 <= k <= j <= spans.len(),
        spans_end_by(spans, end as int),
    ensures
        ({
            let (reached, fields) = struct_walk_spec(
                g,
                db,
                s,
                input_id,
                items,
                spans.take(j),
                k,
                acc,
            );
            struct_walk_spec(g, db, s, input_id, items, spans, k, acc) == struct_walk_spec(
                g,
                db,
                reached,
                input_id,
                items,
                spans,
                j,
                fields,
            )
        }),
    decreases j - k,
{
    let first = spans.take(j);
    if k < j {
        assert(first[k] == spans[k]);
        assert(spans_end_by(first, end as int)) by {
            assert forall|i: int| 0 <= i < first.len() implies (#[trigger] first[i]).off
                + first[i].len <= end by {
                assert(first[i] == spans[i]);
            }
        }
        lemma_struct_walk_step(g, db, s, input_id, items, spans, k, acc, end);
        lemma_struct_walk_step(g, db, s, input_id, items, first, k, acc, end);
        let (after, fields) = span_fields_spec(
            g,
            db,
            s,
            input_id,
            items[spans[k].idx as int],
            spans[k],
        );
        lemma_walk_split(g, db, after, input_id, items, spans, k + 1, j, acc + fields, end);
    }
}

/// A field that is no padding, and all before it, stay when the padding at
/// the end is taken away.
pub proof fn lemma_field_stays(fields: Seq<MemberView>, i: int)
    requires
        0 <= i < fields.len(),
        !fields[i].is_padding,
    ensures
        without_trailing_padding(fields).len() > i,
    decreases fields.len(),
{
    if fields.last().is_padding {
        lemma_field_stays(fields.drop_last(), i);
    }
}

/// A structure that is being worked on and has a member whose type is a
/// pointer to the structure itself is emitted with that member as a field
/// of the size of the pointer, declared as a pointer to `void`, and gets a
/// summary. This holds where the pointer was not visited when the member is
/// reached and fits the span of the member.
pub proof fn lemma_self_pointer_member(
    g: &TypeGraph,
    db: RegistryView,
    s: SessionView,
    idx: TypeIndex,
    ty: StructType,
    hint: Option<u64>,
    j: int,
    size: u64,
)
    requires
        s.wf(g),
        g.has(idx),
        table_get(s.processed, idx) == Some(None::<TypeInfoView>),
        !ty.declaration,
        struct_plan(ty, hint) is Some,
        0 <= j < struct_plan(ty, hint)->0.len(),
        ({
            let spans = struct_plan(ty, hint)->0;
            let item = struct_items(ty)[spans[j].idx as int];
            let reached = struct_walk_spec(
                g,
                db,
                s,
                idx.input_id,
                struct_items(ty),
                spans.take(j),
                0,
                Seq::empty(),
            ).0;
            &&& !bitfield(item)
            &&& item.item is Member
            &&& points_to(
                g,
                TypeIndex { input_id: idx.input_id, typoff: item.item->Member_ty },
                idx,
                size,
            )
            &&& size <= spans[j].len
            &&& table_get(
                reached.processed,
                TypeIndex { input_id: idx.input_id, typoff: item.item->Member_ty },
            ) is None
        }),
    ensures
        ({
            let spans = struct_plan(ty, hint)->0;
            let item = struct_items(ty)[spans[j].idx as int];
            let (reached, before) = struct_walk_spec(
                g,
                db,
                s,
                idx.input_id,
                struct_items(ty),
                spans.take(j),
                0,
                Seq::empty(),
            );
            let fields = struct_walk_spec(
                g,
                db,
                s,
                idx.input_id,
                struct_items(ty),
                spans,
                0,
                Seq::empty(),
            ).1;
            let kept = without_trailing_padding(fields);
            let name = member_name_spec(opt_text(item.item->Member_name), reached.next_id).0;
            &&& kept.len() > before.len()
            &&& kept[before.len() as int] == typed_member(
                spans[j].off,
                size,
                "void"@ + "*"@,
                name,
            )
            &&& match table_get(struct_type_spec(g, db, s, idx, ty, hint).processed, idx) {
                Some(Some(info)) => info.size == ty.byte_size->0,
                _ => false,
            }
        }),
{
    let spans = struct_plan(ty, hint)->0;
    let items = struct_items(ty);
    let end = struct_end(ty, hint)->0;
    let item = items[spans[j].idx as int];
    lemma_struct_end(ty, hint);
    lemma_trimmed(ty.layout@, 0);
    assert(items.len() <= ty.layout.len() <= usize::MAX);
    lemma_spans_at(items, 0, end);
    let first = spans.take(j);
    assert(spans_end_by(first, end as int)) by {
        assert forall|i: int| 0 <= i < first.len() implies (#[trigger] first[i]).off + first[i].len
            <= end by {
            assert(first[i] == spans[i]);
        }
    }
    let (reached, before) = struct_walk_spec(g, db, s, idx.input_id, items, first, 0, Seq::empty());
    lemma_walk_split(g, db, s, idx.input_id, items, spans, 0, j, Seq::empty(), end);
    lemma_struct_walk_advances(g, db, s, idx.input_id, items, first, 0, Seq::empty(), end);
    lemma_struct_walk_keeps(g, db, s, idx.input_id, items, first, 0, Seq::empty());
    assert(table_get(reached.processed, idx) == Some(None::<TypeInfoView>));
    // The member is reached.
    let (name, id) = member_name_spec(opt_text(item.item->Member_name), reached.next_id);
    lemma_struct_walk_step(g, db, reached, idx.input_id, items, spans, j, before, end);
    lemma_pointer_member_in_cycle(
        g,
        db,
        reached.with_id(id),
        idx.input_id,
        item.item->Member_ty,
        idx,
        size,
        spans[j].off,
        spans[j].len,
        name,
    );
    let (after, made) = span_fields_spec(g, db, reached, idx.input_id, item, spans[j]);
    assert(made[0] == typed_member(spans[j].off, size, "void"@ + "*"@, name));
    // What follows keeps the field.
    lemma_walk_keeps_fields(g, db, after, idx.input_id, items, spans, j + 1, before + made, end);
    let (walked, fields) = struct_walk_spec(g, db, s, idx.input_id, items, spans, 0, Seq::empty());
    assert((before + made)[before.len() as int] == made[0]);
    assert(fields[before.len() as int] == made[0]);
    lemma_field_stays(fields, before.len() as int);
    lemma_without_trailing_padding(fields);
    let kept = without_trailing_padding(fields);
    assert(kept[before.len() as int] == fields[before.len() as int]);
    // So the structure has a field, and gets its summary.
    lemma_struct_walk_advances(g, db, s, idx.input_id, items, spans, 0, Seq::empty(), end);
}

} // verus!
