//! What the emitted checks say of the fields, and what the processors do
//! in the cases that matter most for a faithful layout.

use crate::ids::next_id;
use crate::layout::bitfield;
use crate::layout::byte_aligned;
use crate::layout::byte_offset;
use crate::layout::lemma_next_aligned;
use crate::layout::lemma_spans_skip;
use crate::layout::next_aligned;
use crate::layout::spans_at;
use crate::layout::struct_spans;
use crate::layout::Span;
use crate::member::member_asserts;
use crate::member::offset_expr;
use crate::member::opaque_member;
use crate::member::size_expr;
use crate::member::typed_member;
use crate::member::MemberView;
use crate::model::type_ident;
use crate::model::Layout;
use crate::model::RegistryView;
use crate::model::TypeGraph;
use crate::model::TypeIndex;
use crate::model::TypeInfoView;
use crate::model::TypeModifier;
use crate::names::TypeNameView;
use crate::printer::assert_lines;
use crate::printer::EqAssertView;
use crate::advance::lemma_struct_end;
use crate::advance::lemma_struct_walk_advances;
use crate::advance::lemma_struct_walk_step;
use crate::advance::spans_end_by;
use crate::layout::lemma_trimmed;
use crate::layout::lemma_without_trailing_padding;
use crate::layout::span_stop;
use crate::layout::without_trailing_padding;
use crate::model::StructType;
use crate::semantics::fit;
use crate::semantics::struct_end;
use crate::semantics::struct_items;
use crate::semantics::struct_plan;
use crate::semantics::struct_type_spec;
use crate::semantics::struct_walk_spec;
use crate::semantics::process_type_spec;
use crate::semantics::summary;
use crate::member::member_name_spec;
use crate::model::LayoutItem;
use crate::names::opt_text;
use crate::semantics::makes_pointer;
use crate::semantics::members_asserts;
use crate::semantics::modifier_type_spec;
use crate::semantics::packed_size_of;
use crate::semantics::padded_element_spec;
use crate::semantics::plain_name;
use crate::semantics::process_members_spec;
use crate::semantics::resolve_spec;
use crate::semantics::sizeof_expr;
use crate::semantics::span_fields_spec;
use crate::semantics::too_large;
use crate::semantics::typed_field_spec;
use crate::state::table_get;
use crate::state::table_has;
use crate::state::SessionView;
use vstd::prelude::*;

verus! {

/// The fields follow each other without gap or overlap from byte `from` to
/// byte `to`.
pub open spec fn tiles(members: Seq<MemberView>, from: int, to: int) -> bool {
    &&& members.len() > 0
    &&& members[0].off == from
    &&& forall|i: int|
        0 <= i < members.len() - 1 ==> (#[trigger] members[i]).off + members[i].len
            == members[i + 1].off
    &&& members.last().off + members.last().len == to
}

/// The checks on the fields of a type come in pairs, in the order of the
/// fields: the offset of a field is checked against the byte at which the
/// field begins, its size against the number of its bytes.
pub proof fn lemma_members_asserts(tydef: Seq<char>, members: Seq<MemberView>)
    ensures
        members_asserts(tydef, members).len() == 2 * members.len(),
        forall|i: int|
            0 <= i < members.len() ==> {
                let m = #[trigger] members[i];
                &&& members_asserts(tydef, members)[2 * i] == (EqAssertView {
                    expr: offset_expr(tydef, m.field_name),
                    val: m.off,
                })
                &&& members_asserts(tydef, members)[2 * i + 1] == (EqAssertView {
                    expr: size_expr(tydef, m.field_name),
                    val: m.len,
                })
            },
    decreases members.len(),
{
    if members.len() > 0 {
        let shorter = members.drop_last();
        lemma_members_asserts(tydef, shorter);
        let all = members_asserts(tydef, members);
        assert(all == members_asserts(tydef, shorter) + member_asserts(tydef, members.last()));
        assert forall|i: int| 0 <= i < members.len() implies {
            let m = #[trigger] members[i];
            &&& all[2 * i] == (EqAssertView { expr: offset_expr(tydef, m.field_name), val: m.off })
            &&& all[2 * i + 1] == (EqAssertView {
                expr: size_expr(tydef, m.field_name),
                val: m.len,
            })
        } by {
            if i < shorter.len() {
                assert(members[i] == shorter[i]);
            }
        }
    }
}

/// A type whose fields cover its first `total` bytes without gap or overlap
/// is emitted with a check of each field's offset against where the field
/// begins, a check of each field's size, and a check of the size of the type
/// against `total`, which is also the packed size that the table records.
pub proof fn lemma_layout_fidelity(
    s: SessionView,
    idx: TypeIndex,
    tyname: TypeNameView,
    members: Seq<MemberView>,
    tydef: Seq<char>,
    size: u64,
    total: u64,
)
    requires
        tiles(members, 0, total as int),
        table_has(s.processed, idx),
    ensures
        ({
            let after = process_members_spec(s, idx, tyname, members, tydef, Some(size));
            let checks = members_asserts(tydef, members);
            &&& after.printer.program == (s.printer.program + assert_lines(
                checks.push(EqAssertView { expr: sizeof_expr(tydef), val: total }),
            )).push(""@)
            &&& checks.len() == 2 * members.len()
            &&& forall|i: int|
                0 <= i < members.len() ==> {
                    let m = #[trigger] members[i];
                    &&& checks[2 * i] == (EqAssertView {
                        expr: offset_expr(tydef, m.field_name),
                        val: m.off,
                    })
                    &&& checks[2 * i + 1] == (EqAssertView {
                        expr: size_expr(tydef, m.field_name),
                        val: m.len,
                    })
                }
            &&& table_get(after.processed, idx) == Some(
                Some(TypeInfoView { name: tydef, packed_size: total, size }),
            )
        }),
{
    lemma_members_asserts(tydef, members);
    assert(packed_size_of(members) == total);
}

/// Resolution where at most `max` bytes are free gives no summary with a
/// larger packed size.
pub proof fn lemma_resolve_fits(
    g: &TypeGraph,
    db: RegistryView,
    s: SessionView,
    idx: TypeIndex,
    max: u64,
)
    ensures
        match resolve_spec(g, db, s, idx, Some(max)).1 {
            Some(info) => info.packed_size <= max,
            None => true,
        },
{
    match table_get(s.processed, idx) {
        Some(found) => {
            assert(resolve_spec(g, db, s, idx, Some(max)).1 == fit(found, Some(max)));
        },
        None => {
            let after = process_type_spec(g, db, s, idx, Some(max));
            assert(resolve_spec(g, db, s, idx, Some(max)).1 == fit(
                summary(table_get(after.processed, idx)),
                Some(max),
            ));
        },
    }
}

/// The fields made for a member or a base of a structure cover its span
/// without gap or overlap.
pub proof fn lemma_typed_field_tiles(
    g: &TypeGraph,
    db: RegistryView,
    s: SessionView,
    input_id: usize,
    ty: usize,
    off: u64,
    len: u64,
    field: Seq<char>,
)
    requires
        off + len <= u64::MAX,
    ensures
        tiles(typed_field_spec(g, db, s, input_id, ty, off, len, field, true).1, off as int, off + len),
{
    let target = TypeIndex { input_id, typoff: ty };
    lemma_resolve_fits(g, db, s, target, len);
    let (after, info) = resolve_spec(g, db, s, target, Some(len));
    match info {
        None => {
            let (drawn, m) = after.opaque(off, len, "__unknown_type"@, false);
            assert(typed_field_spec(g, db, s, input_id, ty, off, len, field, true).1 == seq![m]);
        },
        Some(i) => {
            let m = typed_member(off, i.packed_size, i.name, field);
            if i.packed_size < len {
                let (drawn, filler) = after.opaque(
                    (off + i.packed_size) as u64,
                    (len - i.packed_size) as u64,
                    "__padding"@,
                    true,
                );
                assert(typed_field_spec(g, db, s, input_id, ty, off, len, field, true).1 == seq![
                    m,
                    filler,
                ]);
            } else {
                assert(typed_field_spec(g, db, s, input_id, ty, off, len, field, true).1 == seq![m]);
            }
        },
    }
}

/// The fields made for a span cover the span without gap or overlap; so
/// the first of them begins where the span begins.
pub proof fn lemma_span_fields_tile(
    g: &TypeGraph,
    db: RegistryView,
    s: SessionView,
    input_id: usize,
    item: Layout,
    span: Span,
)
    requires
        span.off + span.len <= u64::MAX,
    ensures
        tiles(
            span_fields_spec(g, db, s, input_id, item, span).1,
            span.off as int,
            span.off + span.len,
        ),
{
    if !bitfield(item) {
        match item.item {
            LayoutItem::Padding => {},
            LayoutItem::VariantPart => {},
            LayoutItem::Member { name, ty } => {
                let (field, id) = member_name_spec(opt_text(name), s.next_id);
                lemma_typed_field_tiles(g, db, s.with_id(id), input_id, ty, span.off, span.len, field);
            },
            LayoutItem::Inherit { ty } => {
                let (drawn, m) = s.opaque(span.off, span.len, "__parent"@, false);
                lemma_typed_field_tiles(
                    g,
                    db,
                    drawn,
                    input_id,
                    ty,
                    span.off,
                    span.len,
                    m.field_name,
                );
            },
        }
    }
}

/// A pointer to a type that is being worked on does not wait for that type:
/// it is emitted as a pointer to `void`, with the check of its size and its
/// summary. So a structure that holds a pointer to itself is processed to
/// the end.
pub proof fn lemma_pointer_into_cycle(
    g: &TypeGraph,
    db: RegistryView,
    s: SessionView,
    idx: TypeIndex,
    ty: TypeModifier,
    hint: Option<u64>,
)
    requires
        makes_pointer(ty.kind),
        ty.byte_size is Some,
        !too_large(ty.byte_size->0, hint),
        table_get(s.processed, TypeIndex { input_id: idx.input_id, typoff: ty.ty }) == Some(
            None::<TypeInfoView>,
        ),
    ensures
        modifier_type_spec(g, db, s, idx, ty, hint) == s.emit_assert(
            sizeof_expr("void"@ + "*"@),
            ty.byte_size->0,
        ).put(
            idx,
            Some(
                TypeInfoView {
                    name: "void"@ + "*"@,
                    packed_size: ty.byte_size->0,
                    size: ty.byte_size->0,
                },
            ),
        ),
{
}

/// Items that begin inside a byte belong to the span of the byte-aligned
/// item before them: a layout whose only byte-aligned item is its first has
/// one span, which reaches to the end. Where that first item is a
/// bit-field, the span becomes one opaque field.
pub proof fn lemma_joined_bit_fields(
    g: &TypeGraph,
    db: RegistryView,
    s: SessionView,
    input_id: usize,
    layout: Seq<Layout>,
    end: u64,
)
    requires
        1 <= layout.len() <= usize::MAX,
        byte_aligned(layout[0]),
        byte_offset(layout[0]) <= end,
        forall|k: int| 1 <= k < layout.len() ==> !byte_aligned(#[trigger] layout[k]),
    ensures
        ({
            let span = Span {
                idx: 0,
                off: byte_offset(layout[0]),
                len: (end - byte_offset(layout[0])) as u64,
            };
            &&& struct_spans(layout, end) == Some(seq![span])
            &&& bitfield(layout[0]) ==> span_fields_spec(g, db, s, input_id, layout[0], span) == (
                s.with_id(next_id(s.next_id)),
                seq![opaque_member(span.off, span.len, "_bitfield"@, s.next_id, false)],
            )
        }),
{
    lemma_next_aligned(layout, 1);
    lemma_spans_skip(layout, 1, end);
    let span = Span {
        idx: 0,
        off: byte_offset(layout[0]),
        len: (end - byte_offset(layout[0])) as u64,
    };
    assert(spans_at(layout, 1, end) == Some(Seq::<Span>::empty()));
    assert(seq![span] + Seq::<Span>::empty() =~= seq![span]);
}

/// The structure that wraps an array element whose size is above its packed
/// size holds the element in its packed size and padding for the rest, and
/// is emitted with a check of its size against the size of the element.
pub proof fn lemma_padded_element(s: SessionView, idx: TypeIndex, elem: TypeInfoView)
    requires
        elem.packed_size < elem.size,
    ensures
        ({
            let (named, ident) = s.alloc_ident(plain_name(type_ident(elem.name) + "_Padded"@));
            let tydef = "struct "@ + ident;
            let data = typed_member(0, elem.packed_size, elem.name, "data"@);
            let filler = opaque_member(
                elem.packed_size,
                (elem.size - elem.packed_size) as u64,
                "__padding"@,
                named.next_id,
                true,
            );
            let (after, name) = padded_element_spec(s, idx, elem);
            &&& name == tydef
            &&& tiles(seq![data, filler], 0, elem.size as int)
            &&& after.printer.program == (named.printer.program + assert_lines(
                members_asserts(tydef, seq![data, filler]).push(
                    EqAssertView { expr: sizeof_expr(tydef), val: elem.size },
                ),
            )).push(""@)
            &&& after.processed == s.processed
        }),
{
}

/// The spans follow each other without gap or overlap from byte `from` to
/// byte `to`.
pub open spec fn spans_tile(spans: Seq<Span>, from: int, to: int) -> bool {
    &&& spans.len() > 0
    &&& spans[0].off == from
    &&& forall|i: int|
        0 <= i < spans.len() - 1 ==> (#[trigger] spans[i]).off + spans[i].len == spans[i + 1].off
    &&& spans.last().off + spans.last().len == to
}

/// The spans of a layout follow each other without gap or overlap, from the
/// byte of the first byte-aligned item to the end of the structure.
pub proof fn lemma_spans_tile(layout: Seq<Layout>, i: int, end: u64)
    requires
        0 <= i,
        layout.len() <= usize::MAX,
        spans_at(layout, i, end) is Some,
    ensures
        match next_aligned(layout, i) {
            Some(n) => spans_tile(
                spans_at(layout, i, end)->0,
                byte_offset(layout[n]) as int,
                end as int,
            ),
            None => spans_at(layout, i, end)->0.len() == 0,
        },
    decreases layout.len() - i,
{
    if i < layout.len() && !byte_aligned(layout[i]) {
        lemma_spans_tile(layout, i + 1, end);
    } else if i < layout.len() {
        let off = byte_offset(layout[i]);
        let stop = span_stop(layout, i, end);
        let rest = spans_at(layout, i + 1, end)->0;
        lemma_spans_tile(layout, i + 1, end);
        let spans = spans_at(layout, i, end)->0;
        if stop == off && next_aligned(layout, i + 1) is Some {
            assert(spans == rest);
        } else {
            let first = Span { idx: i as usize, off, len: (stop - off) as u64 };
            assert(spans == seq![first] + rest);
            assert(spans[0] == first);
            assert forall|k: int| 0 <= k < spans.len() - 1 implies (#[trigger] spans[k]).off
                + spans[k].len == spans[k + 1].off by {
                assert(spans[k + 1] == rest[k]);
                if k > 0 {
                    assert(spans[k] == rest[k - 1]);
                }
            }
            if rest.len() > 0 {
                assert(spans.last() == rest.last());
            }
        }
    }
}

/// The fields cover the bytes from `from` to `to` without gap or overlap;
/// where there is no field, there is no byte to cover.
pub open spec fn tiles_or_empty(members: Seq<MemberView>, from: int, to: int) -> bool {
    if members.len() == 0 {
        from == to
    } else {
        tiles(members, from, to)
    }
}

/// Fields that cover the bytes up to a point, followed by fields that cover
/// the bytes from that point on, cover all of them.
pub proof fn lemma_tiles_join(
    a: Seq<MemberView>,
    b: Seq<MemberView>,
    from: int,
    mid: int,
    to: int,
)
    requires
        tiles_or_empty(a, from, mid),
        tiles(b, mid, to),
    ensures
        tiles(a + b, from, to),
{
    let all = a + b;
    assert(all.last() == b.last());
    assert forall|i: int| 0 <= i < all.len() - 1 implies (#[trigger] all[i]).off + all[i].len
        == all[i + 1].off by {
        if i < a.len() - 1 {
            assert(all[i] == a[i]);
            assert(all[i + 1] == a[i + 1]);
        } else if i == a.len() - 1 {
            assert(all[i] == a.last());
            assert(all[i + 1] == b[0]);
        } else {
            assert(all[i] == b[i - a.len()]);
            assert(all[i + 1] == b[i - a.len() + 1]);
        }
    }
    if a.len() > 0 {
        assert(all[0] == a[0]);
    } else {
        assert(all[0] == b[0]);
    }
}

/// The first fields of a tiling cover the bytes up to where the last of
/// them ends.
pub proof fn lemma_tiles_prefix(a: Seq<MemberView>, n: int, from: int, to: int)
    requires
        tiles(a, from, to),
        0 < n <= a.len(),
    ensures
        tiles(a.take(n), from, a[n - 1].off + a[n - 1].len),
{
    let p = a.take(n);
    assert(p.last() == a[n - 1]);
    assert forall|i: int| 0 <= i < p.len() - 1 implies (#[trigger] p[i]).off + p[i].len == p[i
        + 1].off by {
        assert(p[i] == a[i]);
        assert(p[i + 1] == a[i + 1]);
    }
}

/// The byte at which the `k`-th span begins; the end of the structure
/// where there is no such span.
pub open spec fn span_start(spans: Seq<Span>, k: int, end: u64) -> int {
    if 0 <= k < spans.len() {
        spans[k].off as int
    } else {
        end as int
    }
}

/// Where the spans of a structure cover its bytes without gap or overlap,
/// so do the fields that the spans are turned into.
#[verifier::rlimit(60)]
#[verifier::spinoff_prover]
pub proof fn lemma_struct_walk_tiles(
    g: &TypeGraph,
    db: RegistryView,
    s: SessionView,
    input_id: usize,
    items: Seq<Layout>,
    spans: Seq<Span>,
    k: int,
    acc: Seq<MemberView>,
    from: int,
    end: u64,
)
    requires
        s.wf(g),
        0 <= k <= spans.len(),
        spans_tile(spans, from, end as int),
        tiles_or_empty(acc, from, span_start(spans, k, end)),
    ensures
        tiles_or_empty(
            struct_walk_spec(g, db, s, input_id, items, spans, k, acc).1,
            from,
            end as int,
        ),
    decreases spans.len() - k,
{
    if k < spans.len() {
        assert(spans_end_by(spans, end as int)) by {
            lemma_spans_tile_bounds(spans, from, end as int, 0);
        }
        lemma_struct_walk_step(g, db, s, input_id, items, spans, k, acc, end);
        let (after, fields) = span_fields_spec(
            g,
            db,
            s,
            input_id,
            items[spans[k].idx as int],
            spans[k],
        );
        lemma_span_fields_tile(g, db, s, input_id, items[spans[k].idx as int], spans[k]);
        lemma_tiles_join(
            acc,
            fields,
            from,
            spans[k].off as int,
            spans[k].off + spans[k].len,
        );
        assert(spans[k].off + spans[k].len == span_start(spans, k + 1, end));
        lemma_struct_walk_tiles(g, db, after, input_id, items, spans, k + 1, acc + fields, from, end);
    }
}

/// Spans that follow each other up to `to` all end at or before `to`.
pub proof fn lemma_spans_tile_bounds(spans: Seq<Span>, from: int, to: int, k: int)
    requires
        spans_tile(spans, from, to),
        0 <= k <= spans.len(),
    ensures
        forall|i: int| k <= i < spans.len() ==> (#[trigger] spans[i]).off + spans[i].len <= to,
    decreases spans.len() - k,
{
    if k < spans.len() {
        lemma_spans_tile_bounds(spans, from, to, k + 1);
        if k < spans.len() - 1 {
            assert(spans[k].off + spans[k].len == spans[k + 1].off);
            assert(spans[k + 1].off + spans[k + 1].len <= to);
        }
    }
}

/// A structure whose first byte-aligned item begins at byte 0 is emitted
/// with fields that cover its bytes from 0 to its packed size without gap
/// or overlap, each checked at the offset of its span; the check of its
/// size is against that packed size, and the table records it with the
/// size that the input reports.
pub proof fn lemma_struct_fidelity(
    g: &TypeGraph,
    db: RegistryView,
    s: SessionView,
    idx: TypeIndex,
    ty: StructType,
    hint: Option<u64>,
)
    requires
        s.wf(g),
        g.has(idx),
        !ty.declaration,
        struct_plan(ty, hint) is Some,
        next_aligned(struct_items(ty), 0) is Some,
        byte_offset(struct_items(ty)[next_aligned(struct_items(ty), 0)->0]) == 0,
    ensures
        ({
            let (walked, fields) = struct_walk_spec(
                g,
                db,
                s,
                idx.input_id,
                struct_items(ty),
                struct_plan(ty, hint)->0,
                0,
                Seq::empty(),
            );
            let kept = without_trailing_padding(fields);
            let (named, ident) = walked.alloc_ident(ty.name@);
            let tydef = "struct "@ + ident;
            let after = struct_type_spec(g, db, s, idx, ty, hint);
            let checks = members_asserts(tydef, kept);
            kept.len() > 0 ==> {
                &&& tiles(kept, 0, packed_size_of(kept))
                &&& packed_size_of(kept) <= ty.byte_size->0
                &&& after.printer.program == (named.printer.program + assert_lines(
                    checks.push(
                        EqAssertView { expr: sizeof_expr(tydef), val: packed_size_of(kept) as u64 },
                    ),
                )).push(""@)
                &&& forall|i: int|
                    0 <= i < kept.len() ==> (#[trigger] checks[2 * i]).val == kept[i].off
                &&& table_get(after.processed, idx) == Some(
                    Some(
                        TypeInfoView {
                            name: tydef,
                            packed_size: packed_size_of(kept) as u64,
                            size: ty.byte_size->0,
                        },
                    ),
                )
            }
        }),
{
    let end = struct_end(ty, hint)->0;
    let items = struct_items(ty);
    let spans = struct_plan(ty, hint)->0;
    lemma_struct_end(ty, hint);
    lemma_trimmed(ty.layout@, 0);
    assert(items.len() <= ty.layout.len() <= usize::MAX);
    lemma_spans_tile(items, 0, end);
    lemma_spans_tile_bounds(spans, 0, end as int, 0);
    lemma_struct_walk_tiles(g, db, s, idx.input_id, items, spans, 0, Seq::empty(), 0, end);
    lemma_struct_walk_advances(g, db, s, idx.input_id, items, spans, 0, Seq::empty(), end);
    let (walked, fields) = struct_walk_spec(g, db, s, idx.input_id, items, spans, 0, Seq::empty());
    let kept = without_trailing_padding(fields);
    lemma_without_trailing_padding(fields);
    let (named, ident) = walked.alloc_ident(ty.name@);
    let tydef = "struct "@ + ident;
    if kept.len() > 0 {
        lemma_tiles_prefix(fields, kept.len() as int, 0, end as int);
        assert(kept.last() == fields[kept.len() - 1]);
        assert(packed_size_of(kept) <= end);
        assert(table_has(named.processed, idx));
        lemma_layout_fidelity(
            named,
            idx,
            ty.name@,
            kept,
            tydef,
            ty.byte_size->0,
            packed_size_of(kept) as u64,
        );
    }
}

} // verus!
