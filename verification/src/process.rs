//! The processors: one for each kind of type, and the resolution through
//! the table of processed types that ties them together.
//!
//! What each of them does to the state of a run is told in `semantics`;
//! each states here that it does just that.

use crate::advance::lemma_members_wf;
use crate::advance::lemma_put_wf;
use crate::ids::uniq_id;
use crate::layout::Span;
use crate::layout::drop_trailing_padding;
use crate::layout::is_bitfield;
use crate::layout::lemma_spans_at;
use crate::layout::lemma_without_trailing_padding;
use crate::layout::spans_of;
use crate::layout::trim_trailing_padding;
use crate::member::Member;
use crate::member::MemberView;
use crate::member::member_name;
use crate::member::member_views;
use crate::model::ArrayType;
use crate::model::BaseType;
use crate::model::EnumerationType;
use crate::model::Enumerator;
use crate::model::EnumeratorValue;
use crate::model::Layout;
use crate::model::LayoutItem;
use crate::model::StructType;
use crate::model::TypeGraph;
use crate::model::TypeIndex;
use crate::model::TypeInfo;
use crate::model::TypeInfoView;
use crate::model::TypeKind;
use crate::model::TypeModifier;
use crate::model::TypeModifierKind;
use crate::model::TypeRegistry;
use crate::model::UnionMember;
use crate::model::UnionType;
use crate::names::TypeName;
use crate::printer::EqAssert;
use crate::printer::EqAssertView;
use crate::printer::assert_views;
use crate::semantics::UNKNOWN_ENUM_VALUE;
use crate::semantics::array_count;
use crate::semantics::array_line;
use crate::semantics::array_type_spec;
use crate::semantics::base_type_spec;
use crate::semantics::comment_line;
use crate::semantics::declaration_spec;
use crate::semantics::definition_lines;
use crate::semantics::enum_lines;
use crate::semantics::enum_type_spec;
use crate::semantics::enumerator_line;
use crate::semantics::fields_within;
use crate::semantics::fit;
use crate::semantics::makes_pointer;
use crate::semantics::member_lines;
use crate::semantics::members_asserts;
use crate::semantics::modifier_type_spec;
use crate::semantics::padded_element_spec;
use crate::semantics::process_members_spec;
use crate::semantics::process_type_spec;
use crate::semantics::resolve_spec;
use crate::semantics::sizeof_expr;
use crate::semantics::sound;
use crate::semantics::span_fields_spec;
use crate::semantics::struct_type_spec;
use crate::semantics::struct_walk_spec;
use crate::semantics::summary;
use crate::semantics::sym_link_spec;
use crate::semantics::typed_field_spec;
use crate::semantics::union_type_spec;
use crate::semantics::union_walk_spec;
use crate::semantics::array_fault;
use crate::semantics::union_fault;
use crate::state::Session;
use crate::state::WarningKind;
use crate::state::info_view;
use crate::state::lemma_unvisited_put;
use crate::state::unvisited;
use crate::text::bit2byte;
use crate::text::push_decimal;
use crate::text::push_signed_decimal;
use crate::text::texts;
use std::rc::Rc;
use vstd::prelude::*;
use vstd::slice::slice_subrange;
use vstd::string::StringExecFns;

verus! {

fn sizeof_text(ty: &str) -> (expr: String)
    ensures
        expr@ == sizeof_expr(ty@),
{
    let mut expr = String::from_str("sizeof(");
    expr.append(ty);
    expr.append(")");
    expr
}

fn comment_text(tyname: &TypeName, tyidx: TypeIndex) -> (l: String)
    ensures
        l@ == comment_line(tyname@, tyidx),
{
    let mut l = String::from_str("// tyname=");
    l.append(tyname.display().as_str());
    l.append(" tyidx=");
    l.append("TypeIndex { input_id: ");
    push_decimal(&mut l, tyidx.input_id as u64);
    l.append(", typoff: ");
    push_decimal(&mut l, tyidx.typoff as u64);
    l.append(" }");
    l
}

/// Emits the type `tydef` with the fields `tymems`: its definition, the
/// checks on its fields and on its size and, where `tysize` is given, its
/// summary. Without fields nothing is emitted.
pub fn process_members(
    session: &mut Session,
    tyidx: TypeIndex,
    tyname: &TypeName,
    tymems: &[Member],
    tydef: &str,
    tysize: Option<u64>,
)
    requires
        tymems@.len() > 0 ==> tymems@.last().off + tymems@.last().len <= u64::MAX,
        tymems@.len() > 0 && tysize is Some ==> tymems@.last().off + tymems@.last().len
            <= tysize->0,
    ensures
        final(session)@ == process_members_spec(
            old(session)@,
            tyidx,
            tyname@,
            member_views(tymems@),
            tydef@,
            tysize,
        ),
{
    let ghost fields = member_views(tymems@);
    let n = tymems.len();
    if n == 0 {
        return ;
    }
    let mut asserts: Vec<EqAssert> = Vec::new();
    let mut struct_def: Vec<String> = Vec::new();
    struct_def.push(comment_text(tyname, tyidx));
    let mut open = String::from_str(tydef);
    open.append(" {");
    struct_def.push(open);
    let ghost head = texts(struct_def@);
    proof {
        assert(head =~= seq![comment_line(tyname@, tyidx), tydef@ + " {"@]);
    }
    let mut i: usize = 0;
    while i < n
        invariant
            i <= n,
            n == tymems@.len(),
            fields == member_views(tymems@),
            texts(struct_def@) == head + member_lines(fields.take(i as int)),
            assert_views(asserts@) == members_asserts(tydef@, fields.take(i as int)),
        decreases n - i,
    {
        tymems[i].print(tydef, &mut struct_def, &mut asserts);
        proof {
            assert(fields.take(i + 1).drop_last() =~= fields.take(i as int));
        }
        i = i + 1;
    }
    struct_def.push(String::from_str("} __attribute__((__packed__));"));
    let packed_size = tymems[n - 1].off + tymems[n - 1].len;
    asserts.push(EqAssert { expr: sizeof_text(tydef), val: packed_size });
    proof {
        assert(fields.take(n as int) =~= fields);
        assert(texts(struct_def@) =~= definition_lines(tyidx, tyname@, fields, tydef@));
        assert(assert_views(asserts@) =~= members_asserts(tydef@, fields).push(
            EqAssertView { expr: sizeof_expr(tydef@), val: packed_size },
        ));
    }
    session.printer.add_type(&struct_def);
    session.printer.add_eq_asserts(&asserts);
    match tysize {
        Some(size) => {
            session.processed.insert(
                tyidx,
                Some(Rc::new(TypeInfo { name: String::from_str(tydef), packed_size, size })),
            );
        },
        None => {},
    }
}

/// Resolves the type at `tyidx` where at most `ty_max_size` bytes are free.
/// A type that was visited before is answered from the table; any other is
/// processed first. Returns the summary of the type, or `None` where the
/// type has no layout or its packed size does not fit.
pub fn get_type_info(
    session: &mut Session,
    tyidx: TypeIndex,
    ty_max_size: Option<u64>,
    graph: &TypeGraph,
    type_db: &TypeRegistry,
) -> (info: Option<Rc<TypeInfo>>)
    requires
        old(session)@.wf(graph),
    ensures
        (final(session)@, info_view(info)) == resolve_spec(
            graph,
            type_db@,
            old(session)@,
            tyidx,
            ty_max_size,
        ),
        final(session)@.wf(graph),
        old(session)@.precedes(final(session)@),
        final(session)@.lookup(tyidx) is Some,
        sound(info_view(info)),
        info is Some && ty_max_size is Some ==> info->0.packed_size <= ty_max_size->0,
    decreases unvisited(old(session)@.processed), 1int, 0int,
{
    let found = match session.processed.get(tyidx) {
        Some(v) => v,
        None => {
            process_type(session, tyidx, ty_max_size, graph, type_db);
            match session.processed.get(tyidx) {
                Some(v) => v,
                None => None,
            }
        },
    };
    match (&found, ty_max_size) {
        (Some(i), Some(max)) => {
            if i.packed_size > max {
                return None;
            }
        },
        _ => {},
    }
    found
}

/// Makes the type at `tyidx` stand for the type at `real_tyidx`: resolves
/// that type and puts what it gives into the slot of `tyidx`.
pub fn handle_sym_link(
    session: &mut Session,
    tyidx: TypeIndex,
    real_tyidx: TypeIndex,
    ty_max_size: Option<u64>,
    graph: &TypeGraph,
    type_db: &TypeRegistry,
)
    requires
        old(session)@.wf(graph),
    ensures
        final(session)@ == sym_link_spec(
            graph,
            type_db@,
            old(session)@,
            tyidx,
            real_tyidx,
            ty_max_size,
        ),
        final(session)@.wf(graph),
        old(session)@.precedes(final(session)@),
    decreases unvisited(old(session)@.processed), 2int, 0int,
{
    let tyinfo = get_type_info(session, real_tyidx, ty_max_size, graph, type_db);
    let ghost mid = session@;
    proof {
        lemma_put_wf(mid, graph, tyidx, info_view(tyinfo));
    }
    session.processed.insert(tyidx, tyinfo);
}

fn link_declaration(
    session: &mut Session,
    tyidx: TypeIndex,
    tyname: &TypeName,
    ty_max_size: Option<u64>,
    graph: &TypeGraph,
    type_db: &TypeRegistry,
)
    requires
        old(session)@.wf(graph),
    ensures
        final(session)@ == declaration_spec(
            graph,
            type_db@,
            old(session)@,
            tyidx,
            tyname@,
            ty_max_size,
        ),
        final(session)@.wf(graph),
        old(session)@.precedes(final(session)@),
    decreases unvisited(old(session)@.processed), 3int, 0int,
{
    match type_db.get(tyname) {
        Some(real_tyidx) => {
            handle_sym_link(session, tyidx, real_tyidx, ty_max_size, graph, type_db);
        },
        None => {
            session.warn(WarningKind::UnknownDeclaration, tyidx);
        },
    }
}

fn typed_field(
    session: &mut Session,
    input_id: usize,
    ty: usize,
    off: u64,
    len: u64,
    field: String,
    pad: bool,
    out: &mut Vec<Member>,
    graph: &TypeGraph,
    type_db: &TypeRegistry,
)
    requires
        old(session)@.wf(graph),
        off + len <= u64::MAX,
    ensures
        ({
            let (after, fields) = typed_field_spec(
                graph,
                type_db@,
                old(session)@,
                input_id,
                ty,
                off,
                len,
                field@,
                pad,
            );
            &&& final(session)@ == after
            &&& member_views(final(out)@) == member_views(old(out)@) + fields
            &&& fields_within(fields, off as int, off + len)
        }),
        final(session)@.wf(graph),
        old(session)@.precedes(final(session)@),
    decreases unvisited(old(session)@.processed), 2int, 0int,
{
    let mem_tyidx = TypeIndex { input_id, typoff: ty };
    let mem_tyinfo = get_type_info(session, mem_tyidx, Some(len), graph, type_db);
    match mem_tyinfo {
        None => {
            let m = Member::new_placeholder(off, len, "__unknown_type", &mut session.ids);
            out.push(m);
        },
        Some(info) => {
            let mut def = info.name.clone();
            def.append(" ");
            def.append(field.as_str());
            let m = Member { off, len: info.packed_size, def, field_name: field, is_padding: false };
            out.push(m);
            if pad && info.packed_size < len {
                let filler = Member::new_padding(
                    off + info.packed_size,
                    len - info.packed_size,
                    &mut session.ids,
                );
                out.push(filler);
            }
        },
    }
}

fn span_fields(
    session: &mut Session,
    input_id: usize,
    item: &Layout,
    span: Span,
    out: &mut Vec<Member>,
    graph: &TypeGraph,
    type_db: &TypeRegistry,
)
    requires
        old(session)@.wf(graph),
        span.off + span.len <= u64::MAX,
    ensures
        ({
            let (after, fields) = span_fields_spec(
                graph,
                type_db@,
                old(session)@,
                input_id,
                *item,
                span,
            );
            &&& final(session)@ == after
            &&& member_views(final(out)@) == member_views(old(out)@) + fields
            &&& fields_within(fields, span.off as int, span.off + span.len)
        }),
        final(session)@.wf(graph),
        old(session)@.precedes(final(session)@),
    decreases unvisited(old(session)@.processed), 3int, 0int,
{
    if is_bitfield(item) {
        let m = Member::new_placeholder(span.off, span.len, "_bitfield", &mut session.ids);
        out.push(m);
        return ;
    }
    match &item.item {
        LayoutItem::Padding => {
            let m = Member::new_padding(span.off, span.len, &mut session.ids);
            out.push(m);
        },
        LayoutItem::VariantPart => {
            let m = Member::new_placeholder(span.off, span.len, "__variant_part", &mut session.ids);
            out.push(m);
        },
        LayoutItem::Member { name, ty } => {
            let field = match name {
                Some(n) => member_name(Some(n.as_str()), &mut session.ids),
                None => member_name(None, &mut session.ids),
            };
            typed_field(
                session,
                input_id,
                *ty,
                span.off,
                span.len,
                field,
                true,
                out,
                graph,
                type_db,
            );
        },
        LayoutItem::Inherit { ty } => {
            let mut field = String::from_str("__parent");
            push_decimal(&mut field, uniq_id(&mut session.ids));
            typed_field(
                session,
                input_id,
                *ty,
                span.off,
                span.len,
                field,
                true,
                out,
                graph,
                type_db,
            );
        },
    }
}

/// Processes a structure. A declaration is made to stand for its
/// definition. Of any other the layout is cut into byte spans, each span is
/// turned into fields, the padding at the end is dropped, and the structure
/// is emitted under a new identifier with the size that the input reports.
/// Where the structure has no size, or its layout does not fit, nothing is
/// emitted and the structure is recorded as left without layout.
pub fn process_struct_type(
    session: &mut Session,
    tyidx: TypeIndex,
    ty: &StructType,
    ty_max_size: Option<u64>,
    graph: &TypeGraph,
    type_db: &TypeRegistry,
)
    requires
        old(session)@.wf(graph),
    ensures
        final(session)@ == struct_type_spec(
            graph,
            type_db@,
            old(session)@,
            tyidx,
            *ty,
            ty_max_size,
        ),
        final(session)@.wf(graph),
        old(session)@.precedes(final(session)@),
    decreases unvisited(old(session)@.processed), 5int, 0int,
{
    if ty.declaration {
        link_declaration(session, tyidx, &ty.name, ty_max_size, graph, type_db);
        return ;
    }
    let ty_dwarf_size = match ty.byte_size {
        Some(v) => v,
        None => {
            session.warn(WarningKind::UnknownSize, tyidx);
            return ;
        },
    };
    let ty_bit_size = match ty_dwarf_size.checked_mul(8) {
        Some(v) => v,
        None => {
            session.warn(WarningKind::UnknownSize, tyidx);
            return ;
        },
    };
    let tylayout = ty.layout.as_slice();
    let (kept, bits) = match trim_trailing_padding(tylayout, ty_bit_size) {
        Some(v) => v,
        None => {
            session.warn(WarningKind::InvalidLayout, tyidx);
            return ;
        },
    };
    let tysize = bit2byte(bits);
    let end = match ty_max_size {
        Some(v) => if v > tysize {
            tysize
        } else {
            v
        },
        None => tysize,
    };
    let items = slice_subrange(tylayout, 0, kept);
    let spans = match spans_of(items, end) {
        Some(v) => v,
        None => {
            session.warn(WarningKind::InvalidLayout, tyidx);
            return ;
        },
    };
    proof {
        lemma_spans_at(items@, 0, end);
    }
    let mut tymems: Vec<Member> = Vec::new();
    let mut k: usize = 0;
    while k < spans.len()
        invariant
            k <= spans.len(),
            session@.wf(graph),
            old(session)@.precedes(session@),
            end <= ty_dwarf_size,
            forall|i: int|
                0 <= i < spans@.len() ==> (#[trigger] spans@[i]).idx < items@.len() && spans@[i].off
                    + spans@[i].len <= end,
            fields_within(member_views(tymems@), 0, end as int),
            struct_walk_spec(
                graph,
                type_db@,
                session@,
                tyidx.input_id,
                items@,
                spans@,
                k as int,
                member_views(tymems@),
            ) == struct_walk_spec(
                graph,
                type_db@,
                old(session)@,
                tyidx.input_id,
                items@,
                spans@,
                0,
                Seq::empty(),
            ),
        decreases spans.len() - k,
    {
        let span = spans[k];
        span_fields(session, tyidx.input_id, &items[span.idx], span, &mut tymems, graph, type_db);
        k = k + 1;
    }
    let ghost fields = member_views(tymems@);
    drop_trailing_padding(&mut tymems);
    proof {
        lemma_without_trailing_padding(fields);
    }
    let ident = session.printer.alloc_ident(&ty.name, &mut session.ids);
    let mut tydef = String::from_str("struct ");
    tydef.append(ident.as_str());
    let ghost named = session@;
    process_members(session, tyidx, &ty.name, tymems.as_slice(), tydef.as_str(), Some(ty_dwarf_size));
    proof {
        lemma_members_wf(
            named,
            graph,
            tyidx,
            ty.name@,
            member_views(tymems@),
            tydef@,
            Some(ty_dwarf_size),
        );
    }
}

fn union_fields(
    session: &mut Session,
    input_id: usize,
    members: &[UnionMember],
    out: &mut Vec<Member>,
    graph: &TypeGraph,
    type_db: &TypeRegistry,
) -> (fault: Option<WarningKind>)
    requires
        old(session)@.wf(graph),
        old(out)@.len() == 0,
    ensures
        ({
            let (after, fields) = union_walk_spec(
                graph,
                type_db@,
                old(session)@,
                input_id,
                members@,
                0,
                Seq::empty(),
            );
            &&& final(session)@ == after
            &&& fault is None <==> fields is Some
            &&& fault is None ==> member_views(final(out)@) == fields->0
            &&& fault is Some ==> fault == union_fault(members@, 0)
        }),
        final(session)@.wf(graph),
        old(session)@.precedes(final(session)@),
    decreases unvisited(old(session)@.processed), 4int, 0int,
{
    let mut k: usize = 0;
    let mut fault: Option<WarningKind> = None;
    while fault.is_none() && k < members.len()
        invariant
            k <= members.len(),
            session@.wf(graph),
            old(session)@.precedes(session@),
            fault is None ==> union_fault(members@, k as int) == union_fault(members@, 0),
            fault is Some ==> fault == union_fault(members@, 0),
            fault is None ==> union_walk_spec(
                graph,
                type_db@,
                session@,
                input_id,
                members@,
                k as int,
                member_views(out@),
            ) == union_walk_spec(
                graph,
                type_db@,
                old(session)@,
                input_id,
                members@,
                0,
                Seq::empty(),
            ),
            fault is Some ==> union_walk_spec(
                graph,
                type_db@,
                old(session)@,
                input_id,
                members@,
                0,
                Seq::empty(),
            ) == (session@, None::<Seq<MemberView>>),
        decreases
                (if fault is None {
                    1int
                } else {
                    0int
                }),
                members.len() - k,
    {
        let union_mem = &members[k];
        let ghost acc = member_views(out@);
        match union_mem.bit_size {
            None => {
                fault = Some(WarningKind::UnsizedUnionMember);
            },
            Some(union_mem_bit_size) => {
                if union_mem.bit_offset != 0 {
                    fault = Some(WarningKind::MisplacedUnionMember);
                } else {
                    let member_size = bit2byte(union_mem_bit_size);
                    if union_mem_bit_size % 8 != 0 {
                        let m = Member::new_placeholder(0, member_size, "__bitfield", &mut session.ids);
                        out.push(m);
                        proof {
                            assert(member_views(out@) =~= acc + seq![m@]);
                        }
                    } else {
                        let field = match &union_mem.name {
                            Some(n) => member_name(Some(n.as_str()), &mut session.ids),
                            None => member_name(None, &mut session.ids),
                        };
                        typed_field(
                            session,
                            input_id,
                            union_mem.ty,
                            0,
                            member_size,
                            field,
                            false,
                            out,
                            graph,
                            type_db,
                        );
                    }
                    k = k + 1;
                }
            },
        }
    }
    fault
}

/// Processes a union. A declaration is made to stand for its definition.
/// Of any other each member becomes a field at the start of the union, an
/// opaque field of the size of the union follows them, and the union is
/// emitted under a new identifier. Where the union has no size, does not
/// fit, or has a member that does not begin at its start or has no size,
/// nothing is emitted and the union is recorded as left without layout.
pub fn process_union_type(
    session: &mut Session,
    tyidx: TypeIndex,
    ty: &UnionType,
    ty_max_size: Option<u64>,
    graph: &TypeGraph,
    type_db: &TypeRegistry,
)
    requires
        old(session)@.wf(graph),
    ensures
        final(session)@ == union_type_spec(
            graph,
            type_db@,
            old(session)@,
            tyidx,
            *ty,
            ty_max_size,
        ),
        final(session)@.wf(graph),
        old(session)@.precedes(final(session)@),
    decreases unvisited(old(session)@.processed), 5int, 0int,
{
    if ty.declaration {
        link_declaration(session, tyidx, &ty.name, ty_max_size, graph, type_db);
        return ;
    }
    let ty_size = match ty.byte_size {
        Some(v) => v,
        None => {
            session.warn(WarningKind::UnknownSize, tyidx);
            return ;
        },
    };
    match ty_max_size {
        Some(max) => {
            if ty_size > max {
                session.warn(WarningKind::TooLarge, tyidx);
                return ;
            }
        },
        None => {},
    }
    let mut tymems: Vec<Member> = Vec::new();
    match union_fields(session, tyidx.input_id, ty.members.as_slice(), &mut tymems, graph, type_db) {
        Some(kind) => {
            session.warn(kind, tyidx);
            return ;
        },
        None => {},
    }
    let ghost fields = member_views(tymems@);
    let whole = Member::new_placeholder(0, ty_size, "__HIDVA_dont_use", &mut session.ids);
    tymems.push(whole);
    proof {
        assert(member_views(tymems@) =~= fields.push(whole@));
    }
    let ident = session.printer.alloc_ident(&ty.name, &mut session.ids);
    let mut tydef = String::from_str("union ");
    tydef.append(ident.as_str());
    let ghost named = session@;
    process_members(session, tyidx, &ty.name, tymems.as_slice(), tydef.as_str(), Some(ty_size));
    proof {
        lemma_members_wf(named, graph, tyidx, ty.name@, member_views(tymems@), tydef@, Some(ty_size));
    }
}

fn enumerator_text(e: &Enumerator) -> (l: String)
    ensures
        l@ == enumerator_line(*e),
{
    let mut l = String::from_str("// ");
    match &e.name {
        Some(n) => l.append(n.as_str()),
        None => l.append("<unknown enum item>"),
    }
    l.append("=");
    match e.value {
        EnumeratorValue::Signed(v) => push_signed_decimal(&mut l, v),
        EnumeratorValue::Unsigned(v) => push_decimal(&mut l, v),
        EnumeratorValue::Other => push_signed_decimal(&mut l, UNKNOWN_ENUM_VALUE),
    }
    l
}

/// Processes an enumeration. A declaration is made to stand for its
/// definition. Any other of 1, 2, 4 or 8 bytes that fits is emitted under a
/// new identifier as the signed integer type of its size, below comments
/// that list its values.
pub fn process_enum_type(
    session: &mut Session,
    tyidx: TypeIndex,
    ty: &EnumerationType,
    ty_max_size: Option<u64>,
    graph: &TypeGraph,
    type_db: &TypeRegistry,
)
    requires
        old(session)@.wf(graph),
    ensures
        final(session)@ == enum_type_spec(
            graph,
            type_db@,
            old(session)@,
            tyidx,
            *ty,
            ty_max_size,
        ),
        final(session)@.wf(graph),
        old(session)@.precedes(final(session)@),
    decreases unvisited(old(session)@.processed), 5int, 0int,
{
    if ty.declaration {
        link_declaration(session, tyidx, &ty.name, ty_max_size, graph, type_db);
        return ;
    }
    let ty_size = match ty.byte_size {
        Some(v) => v,
        None => {
            session.warn(WarningKind::UnknownSize, tyidx);
            return ;
        },
    };
    match ty_max_size {
        Some(max) => {
            if ty_size > max {
                session.warn(WarningKind::TooLarge, tyidx);
                return ;
            }
        },
        None => {},
    }
    let ty_repr = if ty_size == 8 {
        "__s64"
    } else if ty_size == 4 {
        "__s32"
    } else if ty_size == 2 {
        "__s16"
    } else if ty_size == 1 {
        "__s8"
    } else {
        session.warn(WarningKind::UnsupportedEnumWidth, tyidx);
        return ;
    };
    let mut asserts: Vec<EqAssert> = Vec::new();
    let mut struct_def: Vec<String> = Vec::new();
    asserts.push(EqAssert { expr: sizeof_text(ty_repr), val: ty_size });
    let tydef = session.printer.alloc_ident(&ty.name, &mut session.ids);
    let ghost named = session@;
    let mut begin = String::from_str("// --- enum ");
    begin.append(tydef.as_str());
    begin.append(" begin ---");
    struct_def.push(begin);
    let ghost head = texts(struct_def@);
    let ghost items = ty.enumerators@;
    proof {
        assert(head =~= seq!["// --- enum "@ + tydef@ + " begin ---"@]);
    }
    let mut i: usize = 0;
    while i < ty.enumerators.len()
        invariant
            i <= ty.enumerators.len(),
            items == ty.enumerators@,
            texts(struct_def@) == head + items.take(i as int).map_values(
                |e: Enumerator| enumerator_line(e),
            ),
        decreases ty.enumerators.len() - i,
    {
        let ghost before = texts(struct_def@);
        struct_def.push(enumerator_text(&ty.enumerators[i]));
        proof {
            assert(texts(struct_def@) =~= before.push(enumerator_line(items[i as int])));
        }
        i = i + 1;
    }
    let mut finish = String::from_str("// --- enum ");
    finish.append(tydef.as_str());
    finish.append(" end ---");
    struct_def.push(finish);
    let mut alias = String::from_str("typedef ");
    alias.append(ty_repr);
    alias.append(" ");
    alias.append(tydef.as_str());
    alias.append(";");
    struct_def.push(alias);
    proof {
        assert(items.take(i as int) =~= items);
        assert(texts(struct_def@) =~= enum_lines(tydef@, ty_repr@, items));
        assert(assert_views(asserts@) =~= seq![
            EqAssertView { expr: sizeof_expr(ty_repr@), val: ty_size },
        ]);
        lemma_put_wf(
            named,
            graph,
            tyidx,
            Some(TypeInfoView { name: tydef@, packed_size: ty_size, size: ty_size }),
        );
    }
    session.processed.insert(
        tyidx,
        Some(Rc::new(TypeInfo { name: tydef, packed_size: ty_size, size: ty_size })),
    );
    session.printer.add_type(&struct_def);
    session.printer.add_eq_asserts(&asserts);
}

fn padded_element(session: &mut Session, tyidx: TypeIndex, elem: &TypeInfo, graph: &TypeGraph) -> (tydef:
    String)
    requires
        old(session)@.wf(graph),
        elem.size > elem.packed_size,
    ensures
        (final(session)@, tydef@) == padded_element_spec(old(session)@, tyidx, elem@),
        final(session)@.wf(graph),
        old(session)@.precedes(final(session)@),
{
    let mut wrapper = String::from_str(elem.ident());
    wrapper.append("_Padded");
    let ident = session.printer.alloc_ident(&TypeName::plain(wrapper), &mut session.ids);
    let mut tydef = String::from_str("struct ");
    tydef.append(ident.as_str());
    let mut members: Vec<Member> = Vec::new();
    let mut def = elem.name.clone();
    def.append(" ");
    def.append("data");
    let data = Member {
        off: 0,
        len: elem.packed_size,
        field_name: String::from_str("data"),
        def,
        is_padding: false,
    };
    members.push(data);
    let filler = Member::new_padding(
        elem.packed_size,
        elem.size - elem.packed_size,
        &mut session.ids,
    );
    members.push(filler);
    let tyname = TypeName::plain(String::from_str("padding struct"));
    proof {
        assert(member_views(members@) =~= seq![data@, filler@]);
    }
    process_members(session, tyidx, &tyname, members.as_slice(), tydef.as_str(), None);
    tydef
}

fn array_fault_of(ty: &ArrayType, ty_max_size: Option<u64>) -> (kind: WarningKind)
    ensures
        kind == array_fault(*ty, ty_max_size),
{
    match ty.byte_size {
        None => WarningKind::UnknownSize,
        Some(bytes) => {
            let too_large = match ty_max_size {
                Some(max) => bytes > max,
                None => false,
            };
            if too_large {
                WarningKind::TooLarge
            } else if ty.count.is_none() {
                WarningKind::UnknownCount
            } else {
                WarningKind::InconsistentArray
            }
        },
    }
}

fn count_elements(ty: &ArrayType, elem: &TypeInfo, ty_max_size: Option<u64>) -> (count: Option<u64>)
    ensures
        count == array_count(*ty, elem@, ty_max_size),
{
    match ty_max_size {
        Some(max) => {
            if max == 0 {
                return Some(0);
            }
        },
        None => {},
    }
    let array_byte_size = match ty.byte_size {
        Some(v) => v,
        None => {
            return None;
        },
    };
    match ty_max_size {
        Some(max) => {
            if max < array_byte_size {
                return None;
            }
        },
        None => {},
    }
    let ele_count = match ty.count {
        Some(v) => v,
        None => {
            return None;
        },
    };
    match elem.size.checked_mul(ele_count) {
        Some(total) => {
            if total == array_byte_size {
                Some(ele_count)
            } else {
                None
            }
        },
        None => None,
    }
}

/// Processes an array. The type of its elements is resolved first; an
/// element whose size is above its packed size is wrapped in a structure of
/// the full size. Where the number of elements can be told, the array is
/// emitted under a new identifier.
pub fn process_array_type(
    session: &mut Session,
    tyidx: TypeIndex,
    ty: &ArrayType,
    ty_max_size: Option<u64>,
    graph: &TypeGraph,
    type_db: &TypeRegistry,
)
    requires
        old(session)@.wf(graph),
    ensures
        final(session)@ == array_type_spec(
            graph,
            type_db@,
            old(session)@,
            tyidx,
            *ty,
            ty_max_size,
        ),
        final(session)@.wf(graph),
        old(session)@.precedes(final(session)@),
    decreases unvisited(old(session)@.processed), 5int, 0int,
{
    let mem_tyidx = TypeIndex { input_id: tyidx.input_id, typoff: ty.ty };
    let mem_tyinfo = match get_type_info(session, mem_tyidx, None, graph, type_db) {
        Some(v) => v,
        None => {
            session.warn(WarningKind::UnknownElement, tyidx);
            return ;
        },
    };
    let mem_tyident = mem_tyinfo.ident();
    let mem_tyname = if mem_tyinfo.size > mem_tyinfo.packed_size {
        padded_element(session, tyidx, &mem_tyinfo, graph)
    } else {
        mem_tyinfo.name.clone()
    };
    let ele_cnt = match count_elements(ty, &mem_tyinfo, ty_max_size) {
        Some(v) => v,
        None => {
            session.warn(array_fault_of(ty, ty_max_size), tyidx);
            return ;
        },
    };
    let mut name = String::from_str(mem_tyident);
    name.append("_Array");
    push_decimal(&mut name, ele_cnt);
    let array_name = session.printer.alloc_ident(&TypeName::plain(name), &mut session.ids);
    assert(mem_tyinfo.size * ele_cnt <= u64::MAX) by (nonlinear_arith)
        requires
            ele_cnt == 0 || mem_tyinfo.size * ele_cnt <= u64::MAX,
    ;
    let array_size = mem_tyinfo.size * ele_cnt;
    let mut line = String::from_str("typedef ");
    line.append(mem_tyname.as_str());
    line.append(" ");
    line.append(array_name.as_str());
    line.append("[");
    push_decimal(&mut line, ele_cnt);
    line.append("];");
    let mut lines: Vec<String> = Vec::new();
    lines.push(line);
    proof {
        assert(texts(lines@) =~= seq![array_line(mem_tyname@, array_name@, ele_cnt)]);
    }
    session.printer.add_type(&lines);
    session.printer.add_eq_assert(sizeof_text(array_name.as_str()).as_str(), array_size);
    let ghost emitted = session@;
    proof {
        let info = Some(
            TypeInfoView { name: array_name@, packed_size: array_size, size: array_size },
        );
        lemma_put_wf(emitted, graph, tyidx, info);
    }
    session.processed.insert(
        tyidx,
        Some(Rc::new(TypeInfo { name: array_name, packed_size: array_size, size: array_size })),
    );
}

fn is_pointer_kind(kind: TypeModifierKind) -> (b: bool)
    ensures
        b == makes_pointer(kind),
{
    match kind {
        TypeModifierKind::Pointer
        | TypeModifierKind::Reference
        | TypeModifierKind::RvalueReference => true,
        TypeModifierKind::Const
        | TypeModifierKind::Packed
        | TypeModifierKind::Volatile
        | TypeModifierKind::Restrict
        | TypeModifierKind::Shared
        | TypeModifierKind::Atomic
        | TypeModifierKind::Other => false,
    }
}

/// Processes a pointer, a reference or a qualified type. A qualified type
/// is made to stand for the type that it qualifies. A pointer or reference
/// with a size that fits gets the name of the type it points to, followed
/// by `*`; that type is resolved for its name only, and `void` stands for
/// one without layout.
pub fn process_modifier_type(
    session: &mut Session,
    tyidx: TypeIndex,
    ty: &TypeModifier,
    ty_max_size: Option<u64>,
    graph: &TypeGraph,
    type_db: &TypeRegistry,
)
    requires
        old(session)@.wf(graph),
    ensures
        final(session)@ == modifier_type_spec(
            graph,
            type_db@,
            old(session)@,
            tyidx,
            *ty,
            ty_max_size,
        ),
        final(session)@.wf(graph),
        old(session)@.precedes(final(session)@),
    decreases unvisited(old(session)@.processed), 5int, 0int,
{
    let real_tyidx = TypeIndex { input_id: tyidx.input_id, typoff: ty.ty };
    if !is_pointer_kind(ty.kind) {
        handle_sym_link(session, tyidx, real_tyidx, ty_max_size, graph, type_db);
        return ;
    }
    let tysize = match ty.byte_size {
        Some(v) => v,
        None => {
            session.warn(WarningKind::UnknownSize, tyidx);
            return ;
        },
    };
    match ty_max_size {
        Some(max) => {
            if max < tysize {
                session.warn(WarningKind::TooLarge, tyidx);
                return ;
            }
        },
        None => {},
    }
    let real_tyinfo = get_type_info(session, real_tyidx, None, graph, type_db);
    let mut tyname = match &real_tyinfo {
        Some(info) => info.name.clone(),
        None => String::from_str("void"),
    };
    tyname.append("*");
    session.printer.add_eq_assert(sizeof_text(tyname.as_str()).as_str(), tysize);
    let ghost emitted = session@;
    proof {
        let info = Some(TypeInfoView { name: tyname@, packed_size: tysize, size: tysize });
        lemma_put_wf(emitted, graph, tyidx, info);
    }
    session.processed.insert(
        tyidx,
        Some(Rc::new(TypeInfo { name: tyname, packed_size: tysize, size: tysize })),
    );
}

fn process_base_type(session: &mut Session, tyidx: TypeIndex, ty: &BaseType, graph: &TypeGraph)
    requires
        old(session)@.wf(graph),
    ensures
        final(session)@ == base_type_spec(old(session)@, tyidx, *ty),
        final(session)@.wf(graph),
        old(session)@.precedes(final(session)@),
{
    match (&ty.name, ty.byte_size) {
        (Some(tyname), Some(tysize)) => {
            proof {
                lemma_put_wf(
                    old(session)@,
                    graph,
                    tyidx,
                    Some(TypeInfoView { name: tyname@, packed_size: tysize, size: tysize }),
                );
            }
            session.processed.insert(
                tyidx,
                Some(Rc::new(TypeInfo { name: tyname.clone(), packed_size: tysize, size: tysize })),
            );
            session.printer.add_eq_assert(sizeof_text(tyname.as_str()).as_str(), tysize);
        },
        (_, None) => {
            session.warn(WarningKind::UnknownSize, tyidx);
        },
        (None, Some(_)) => {
            session.warn(WarningKind::UnknownName, tyidx);
        },
    }
}

/// Processes the type at `tyidx`. A type that the graph does not hold, or
/// that was visited before, is left alone. Any other is marked in the table
/// and handed to the processor of its kind.
pub fn process_type(
    session: &mut Session,
    tyidx: TypeIndex,
    ty_max_size: Option<u64>,
    graph: &TypeGraph,
    type_db: &TypeRegistry,
)
    requires
        old(session)@.wf(graph),
    ensures
        final(session)@ == process_type_spec(graph, type_db@, old(session)@, tyidx, ty_max_size),
        final(session)@.wf(graph),
        old(session)@.precedes(final(session)@),
        final(session)@.lookup(tyidx) is Some,
    decreases unvisited(old(session)@.processed), 0int, 0int,
{
    if session.processed.contains_key(tyidx) {
        return ;
    }
    let typ = match graph.node(tyidx) {
        Some(v) => v,
        None => {
            session.processed.mark_outside(tyidx);
            proof {
                let outside = session@.outside;
                assert(outside[outside.len() - 1] == tyidx);
            }
            return ;
        },
    };
    proof {
        lemma_unvisited_put(old(session)@.processed, tyidx, None);
    }
    session.processed.insert(tyidx, None);
    let ghost marked = session@;
    match typ {
        TypeKind::Void
        | TypeKind::Function
        | TypeKind::PointerToMember
        | TypeKind::Subrange
        | TypeKind::Unspecified => {},
        TypeKind::Base(ty) => {
            process_base_type(session, tyidx, ty, graph);
        },
        TypeKind::Def(ty) => {
            let real_typidx = TypeIndex { input_id: tyidx.input_id, typoff: ty.ty };
            handle_sym_link(session, tyidx, real_typidx, ty_max_size, graph, type_db);
        },
        TypeKind::Struct(ty) => {
            process_struct_type(session, tyidx, ty, ty_max_size, graph, type_db);
        },
        TypeKind::Union(ty) => {
            process_union_type(session, tyidx, ty, ty_max_size, graph, type_db);
        },
        TypeKind::Enumeration(ty) => {
            process_enum_type(session, tyidx, ty, ty_max_size, graph, type_db);
        },
        TypeKind::Array(ty) => {
            process_array_type(session, tyidx, ty, ty_max_size, graph, type_db);
        },
        TypeKind::Modifier(ty) => {
            process_modifier_type(session, tyidx, ty, ty_max_size, graph, type_db);
        },
    }
    proof {
        let slot = marked.processed[tyidx.input_id as int][tyidx.typoff as int];
        assert(slot is Some);
    }
}

} // verus!
