//! What a run has found out so far.
//!
//! For every type that was visited the table of processed types holds a
//! slot: empty while the type is being worked on or where it has no layout,
//! else the summary of the type. A type that is met again while it is being
//! worked on is thereby taken to have no layout, which ends every cycle of
//! the type graph. A position that the graph does not hold has no slot; once
//! visited it is kept in a list of its own, and has no layout.

use crate::ids::next_id;
use crate::ids::IdGenerator;
use crate::member::opaque_member;
use crate::member::MemberView;
use crate::names::TypeNameView;
use crate::printer::alloc_ident_spec;
use crate::printer::EqAssertView;
use crate::model::TypeGraph;
use crate::model::TypeIndex;
use crate::model::TypeInfo;
use crate::model::TypeInfoView;
use crate::printer::Printer;
use crate::printer::PrinterView;
use std::rc::Rc;
use vstd::prelude::*;

verus! {

/// The table of processed types as plain values: for each input, for each of
/// its types, `None` where the type was not visited, `Some(None)` where it is
/// being worked on or has no layout, and `Some(Some(..))` with its summary.
pub type Table = Seq<Seq<Option<Option<TypeInfoView>>>>;

/// The table has a slot for `idx`.
pub open spec fn table_has(t: Table, idx: TypeIndex) -> bool {
    idx.input_id < t.len() && idx.typoff < t[idx.input_id as int].len()
}

/// What the table holds for `idx`; `None` where the type was not visited or
/// the table has no slot for it.
pub open spec fn table_get(t: Table, idx: TypeIndex) -> Option<Option<TypeInfoView>> {
    if table_has(t, idx) {
        t[idx.input_id as int][idx.typoff as int]
    } else {
        None
    }
}

/// The table with `v` in the slot of `idx`; the table itself where it has no
/// such slot.
pub open spec fn table_put(t: Table, idx: TypeIndex, v: Option<TypeInfoView>) -> Table {
    if table_has(t, idx) {
        t.update(
            idx.input_id as int,
            t[idx.input_id as int].update(idx.typoff as int, Some(v)),
        )
    } else {
        t
    }
}

/// The number of slots of a row that were not visited.
pub open spec fn unvisited_row(row: Seq<Option<Option<TypeInfoView>>>) -> nat
    decreases row.len(),
{
    if row.len() == 0 {
        0
    } else {
        unvisited_row(row.drop_last()) + if row.last() is None {
            1nat
        } else {
            0nat
        }
    }
}

/// The number of slots of the table that were not visited.
pub open spec fn unvisited(t: Table) -> nat
    decreases t.len(),
{
    if t.len() == 0 {
        0
    } else {
        unvisited(t.drop_last()) + unvisited_row(t.last())
    }
}

/// The tables have the same rows of the same lengths.
pub open spec fn same_shape(t: Table, u: Table) -> bool {
    &&& t.len() == u.len()
    &&& forall|i: int| 0 <= i < t.len() ==> (#[trigger] t[i]).len() == u[i].len()
}

/// The table has one slot for each type of the graph.
pub open spec fn table_fits(t: Table, g: &TypeGraph) -> bool {
    &&& t.len() == g.inputs.len()
    &&& forall|i: int| 0 <= i < t.len() ==> (#[trigger] t[i]).len() == g.inputs[i].len()
}

/// No summary in the table has a packed size above its size.
pub open spec fn table_valid(t: Table) -> bool {
    forall|i: int, j: int|
        0 <= i < t.len() && 0 <= j < t[i].len() ==> match #[trigger] t[i][j] {
            Some(Some(info)) => info.packed_size <= info.size,
            _ => true,
        }
}

/// Every slot that `t` has filled, `u` has filled too.
pub open spec fn table_grows(t: Table, u: Table) -> bool {
    &&& same_shape(t, u)
    &&& forall|i: int, j: int|
        0 <= i < t.len() && 0 <= j < t[i].len() && (#[trigger] t[i][j]) is Some ==> u[i][j] is Some
}

/// Filling one slot of a row takes one from the number of unvisited slots if
/// the slot was not visited, and leaves the number as it is otherwise.
pub proof fn lemma_unvisited_row_update(
    row: Seq<Option<Option<TypeInfoView>>>,
    j: int,
    v: Option<TypeInfoView>,
)
    requires
        0 <= j < row.len(),
    ensures
        unvisited_row(row.update(j, Some(v))) + (if row[j] is None {
            1nat
        } else {
            0nat
        }) == unvisited_row(row),
    decreases row.len(),
{
    let after = row.update(j, Some(v));
    if j == row.len() - 1 {
        assert(after.drop_last() =~= row.drop_last());
    } else {
        assert(after.drop_last() =~= row.drop_last().update(j, Some(v)));
        lemma_unvisited_row_update(row.drop_last(), j, v);
    }
}

/// Filling one slot of the table takes one from the number of unvisited
/// slots if the slot was not visited, and leaves the number as it is
/// otherwise.
pub proof fn lemma_unvisited_put(t: Table, idx: TypeIndex, v: Option<TypeInfoView>)
    ensures
        unvisited(table_put(t, idx, v)) + (if table_has(t, idx) && table_get(t, idx) is None {
            1nat
        } else {
            0nat
        }) == unvisited(t),
        same_shape(t, table_put(t, idx, v)),
        table_grows(t, table_put(t, idx, v)),
    decreases t.len(),
{
    if table_has(t, idx) {
        let i = idx.input_id as int;
        let after = table_put(t, idx, v);
        if i == t.len() - 1 {
            assert(after.drop_last() =~= t.drop_last());
            lemma_unvisited_row_update(t[i], idx.typoff as int, v);
        } else {
            assert(after.drop_last() =~= table_put(t.drop_last(), idx, v));
            lemma_unvisited_put(t.drop_last(), idx, v);
        }
    }
}

/// What is known of the type at `idx`: what its slot in the table holds;
/// for a position that has no slot, that it has no layout if it is among the
/// positions `outside` that were visited, and nothing otherwise.
pub open spec fn table_lookup(t: Table, outside: Seq<TypeIndex>, idx: TypeIndex) -> Option<
    Option<TypeInfoView>,
> {
    if table_has(t, idx) {
        table_get(t, idx)
    } else if outside.contains(idx) {
        Some(None)
    } else {
        None
    }
}

/// The table of processed types.
#[derive(Debug)]
pub struct ProcessState {
    /// For each input, the slots of its types.
    pub slots: Vec<Vec<Option<Option<Rc<TypeInfo>>>>>,
    /// The positions without a slot that were visited: they stand for `void`
    /// or for types that the inputs do not describe, and have no layout.
    pub outside: Vec<TypeIndex>,
}

/// A slot as plain values.
pub open spec fn slot_view(slot: Option<Option<Rc<TypeInfo>>>) -> Option<Option<TypeInfoView>> {
    match slot {
        None => None,
        Some(None) => Some(None),
        Some(Some(info)) => Some(Some(info@)),
    }
}

/// A summary, where there is one, as plain values.
pub open spec fn info_view(info: Option<Rc<TypeInfo>>) -> Option<TypeInfoView> {
    match info {
        None => None,
        Some(i) => Some(i@),
    }
}

impl View for ProcessState {
    type V = Table;

    open spec fn view(&self) -> Table {
        Seq::new(
            self.slots.len() as nat,
            |i: int|
                Seq::new(self.slots[i].len() as nat, |j: int| slot_view(self.slots[i][j])),
        )
    }
}

impl ProcessState {
    /// A table for the types of `graph` in which no type was visited.
    pub fn new(graph: &TypeGraph) -> (state: ProcessState)
        ensures
            state@ == empty_table(graph),
            state.outside@ == Seq::<TypeIndex>::empty(),
            table_fits(state@, graph),
            table_valid(state@),
    {
        let mut slots: Vec<Vec<Option<Option<Rc<TypeInfo>>>>> = Vec::new();
        let mut i: usize = 0;
        while i < graph.inputs.len()
            invariant
                i <= graph.inputs.len(),
                slots.len() == i,
                forall|a: int| 0 <= a < i ==> (#[trigger] slots[a]).len() == graph.inputs[a].len(),
                forall|a: int, b: int|
                    0 <= a < i && 0 <= b < slots[a].len() ==> (#[trigger] slots[a][b]) is None,
            decreases graph.inputs.len() - i,
        {
            let mut row: Vec<Option<Option<Rc<TypeInfo>>>> = Vec::new();
            let mut j: usize = 0;
            while j < graph.inputs[i].len()
                invariant
                    i < graph.inputs.len(),
                    j <= graph.inputs[i as int].len(),
                    row.len() == j,
                    forall|b: int| 0 <= b < j ==> (#[trigger] row[b]) is None,
                decreases graph.inputs[i as int].len() - j,
            {
                row.push(None);
                j = j + 1;
            }
            slots.push(row);
            i = i + 1;
        }
        let state = ProcessState { slots, outside: Vec::new() };
        assert forall|a: int| 0 <= a < state@.len() implies state@[a] =~= empty_table(graph)[a] by {}
        state
    }

    fn visited_outside(&self, idx: TypeIndex) -> (b: bool)
        ensures
            b == self.outside@.contains(idx),
    {
        let mut i: usize = 0;
        while i < self.outside.len()
            invariant
                i <= self.outside.len(),
                forall|k: int| 0 <= k < i ==> self.outside@[k] != idx,
            decreases self.outside.len() - i,
        {
            if self.outside[i] == idx {
                return true;
            }
            i = i + 1;
        }
        false
    }

    /// Looks up what is known of the type at `idx`.
    pub fn get(&self, idx: TypeIndex) -> (found: Option<Option<Rc<TypeInfo>>>)
        ensures
            slot_view(found) == table_lookup(self@, self.outside@, idx),
    {
        if idx.input_id < self.slots.len() {
            let row = &self.slots[idx.input_id];
            if idx.typoff < row.len() {
                return match &row[idx.typoff] {
                    None => None,
                    Some(None) => Some(None),
                    Some(Some(info)) => Some(Some(Rc::clone(info))),
                };
            }
        }
        if self.visited_outside(idx) {
            Some(None)
        } else {
            None
        }
    }

    /// Tells whether the type at `idx` was visited.
    pub fn contains_key(&self, idx: TypeIndex) -> (b: bool)
        ensures
            b == table_lookup(self@, self.outside@, idx) is Some,
    {
        if idx.input_id < self.slots.len() {
            let row = &self.slots[idx.input_id];
            if idx.typoff < row.len() {
                return row[idx.typoff].is_some();
            }
        }
        self.visited_outside(idx)
    }

    /// Records a position without a slot as visited.
    pub fn mark_outside(&mut self, idx: TypeIndex)
        ensures
            final(self)@ == old(self)@,
            final(self).outside@ == old(self).outside@.push(idx),
    {
        self.outside.push(idx);
        assert forall|a: int| 0 <= a < final(self)@.len() implies final(self)@[a] =~= old(
            self,
        )@[a] by {}
    }

    /// Puts `info` in the slot of `idx`. A table without such a slot stays as
    /// it is.
    pub fn insert(&mut self, idx: TypeIndex, info: Option<Rc<TypeInfo>>)
        ensures
            final(self)@ == table_put(old(self)@, idx, info_view(info)),
            final(self).outside@ == old(self).outside@,
    {
        if idx.input_id < self.slots.len() {
            let row = &mut self.slots[idx.input_id];
            if idx.typoff < row.len() {
                row[idx.typoff] = Some(info);
                assert forall|a: int| 0 <= a < final(self)@.len() implies final(self)@[a]
                    =~= table_put(old(self)@, idx, info_view(info))[a] by {}
            }
        }
    }
}

/// Why a type was left without layout.
#[derive(Debug, Clone, Copy, PartialEq, Eq, Structural)]
pub enum WarningKind {
    /// The size of the type is not known, or too large to be counted in
    /// bits.
    UnknownSize,
    /// A primitive type has no name.
    UnknownName,
    /// The size of the type is above the bytes that are free for it.
    TooLarge,
    /// The type is only declared, and no definition is registered under its
    /// name.
    UnknownDeclaration,
    /// The layout of a structure does not fit: the padding at its end has no
    /// size or is larger than the structure, or a field would end before it
    /// begins.
    InvalidLayout,
    /// The size of an enumeration is not 1, 2, 4 or 8 bytes.
    UnsupportedEnumWidth,
    /// A member of a union does not begin at the start of the union.
    MisplacedUnionMember,
    /// A member of a union has no size.
    UnsizedUnionMember,
    /// The type of the elements of an array has no layout.
    UnknownElement,
    /// The number of elements of an array is not known.
    UnknownCount,
    /// The size of an array is not the number of its elements times the size
    /// of one.
    InconsistentArray,
}

/// The record that a type was left without layout, and why.
#[derive(Debug, Clone, Copy, PartialEq, Eq, Structural)]
pub struct Warning {
    /// Why the type has no layout.
    pub kind: WarningKind,
    /// The type.
    pub index: TypeIndex,
}

/// The state of a run: the table of processed types, the emission sink with
/// its identifiers, the counter for generated names, and the types that were
/// left without layout.
#[derive(Debug)]
pub struct Session {
    /// The table of processed types.
    pub processed: ProcessState,
    /// The emission sink and the identifiers handed out.
    pub printer: Printer,
    /// The counter for generated names.
    pub ids: IdGenerator,
    /// The types that were left without layout, in the order in which that
    /// was found out.
    pub warnings: Vec<Warning>,
}

/// The state of a run as plain values.
pub struct SessionView {
    /// The table of processed types.
    pub processed: Table,
    /// The emission sink and the identifiers handed out.
    pub printer: PrinterView,
    /// The number that the next generated name takes.
    pub next_id: u64,
    /// The types that were left without layout.
    pub warnings: Seq<Warning>,
    /// The positions that were visited and that the graph does not hold.
    pub outside: Seq<TypeIndex>,
}

impl View for Session {
    type V = SessionView;

    open spec fn view(&self) -> SessionView {
        SessionView {
            processed: self.processed@,
            printer: self.printer@,
            next_id: self.ids.next,
            warnings: self.warnings@,
            outside: self.processed.outside@,
        }
    }
}

/// The table for the types of `g` in which no type was visited.
pub open spec fn empty_table(g: &TypeGraph) -> Table {
    Seq::new(
        g.inputs.len() as nat,
        |i: int| Seq::new(g.inputs[i].len() as nat, |j: int| None::<Option<TypeInfoView>>),
    )
}

impl SessionView {
    /// The state at the start of a run over `g` whose header is written
    /// under the name `path` with `.h` appended.
    pub open spec fn start(g: &TypeGraph, path: Seq<char>) -> SessionView {
        SessionView {
            processed: empty_table(g),
            printer: PrinterView::opened(path),
            next_id: 0,
            warnings: Seq::empty(),
            outside: Seq::empty(),
        }
    }

    /// What is known of the type at `idx`: `None` where it was not visited,
    /// `Some(None)` where it is being worked on or has no layout, else its
    /// summary.
    pub open spec fn lookup(self, idx: TypeIndex) -> Option<Option<TypeInfoView>> {
        table_lookup(self.processed, self.outside, idx)
    }

    /// The state with the position `idx`, which the graph does not hold,
    /// recorded as visited.
    pub open spec fn mark_outside(self, idx: TypeIndex) -> SessionView {
        SessionView { outside: self.outside.push(idx), ..self }
    }

    /// The state with the record that the type at `idx` was left without
    /// layout for the reason `kind`.
    pub open spec fn warn(self, kind: WarningKind, idx: TypeIndex) -> SessionView {
        SessionView { warnings: self.warnings.push(Warning { kind, index: idx }), ..self }
    }

    /// The state with `v` in the slot of `idx`.
    pub open spec fn put(self, idx: TypeIndex, v: Option<TypeInfoView>) -> SessionView {
        SessionView { processed: table_put(self.processed, idx, v), ..self }
    }

    /// The state after a definition was added to the header.
    pub open spec fn emit_type(self, lines: Seq<Seq<char>>) -> SessionView {
        SessionView { printer: self.printer.add_type(lines), ..self }
    }

    /// The state after one check was added to the program.
    pub open spec fn emit_assert(self, expr: Seq<char>, val: u64) -> SessionView {
        SessionView { printer: self.printer.add_eq_assert(expr, val), ..self }
    }

    /// The state after a group of checks was added to the program.
    pub open spec fn emit_asserts(self, asserts: Seq<EqAssertView>) -> SessionView {
        SessionView { printer: self.printer.add_eq_asserts(asserts), ..self }
    }

    /// The state after an identifier was allocated for `tyname`, and that
    /// identifier.
    pub open spec fn alloc_ident(self, tyname: TypeNameView) -> (SessionView, Seq<char>) {
        let (used, id, name) = alloc_ident_spec(self.printer.used, self.next_id, tyname);
        (
            SessionView { printer: PrinterView { used, ..self.printer }, next_id: id, ..self },
            name,
        )
    }

    /// The state with the counter for generated names at `id`.
    pub open spec fn with_id(self, id: u64) -> SessionView {
        SessionView { next_id: id, ..self }
    }

    /// The state after a number was drawn for an opaque field, and that
    /// field.
    pub open spec fn opaque(self, off: u64, len: u64, prefix: Seq<char>, is_padding: bool) -> (
        SessionView,
        MemberView,
    ) {
        (
            self.with_id(next_id(self.next_id)),
            opaque_member(off, len, prefix, self.next_id, is_padding),
        )
    }

    /// The table has one slot for each type of `g`, and no summary in it has
    /// a packed size above its size.
    pub open spec fn wf(self, g: &TypeGraph) -> bool {
        table_fits(self.processed, g) && table_valid(self.processed)
    }

    /// `later` can come after this state in a run: the table has kept its
    /// shape, and every type visited here is visited there.
    pub open spec fn precedes(self, later: SessionView) -> bool {
        &&& table_grows(self.processed, later.processed)
        &&& unvisited(later.processed) <= unvisited(self.processed)
        &&& self.outside.len() <= later.outside.len()
        &&& forall|i: int|
            0 <= i < self.outside.len() ==> #[trigger] later.outside[i] == self.outside[i]
    }
}

impl Session {
    /// The state at the start of a run over `graph` whose header is written
    /// under the name `path` with `.h` appended.
    pub fn new(graph: &TypeGraph, path: &str) -> (s: Session)
        ensures
            s@ == SessionView::start(graph, path@),
            s@.wf(graph),
    {
        Session {
            processed: ProcessState::new(graph),
            printer: Printer::try_open(path),
            ids: IdGenerator::new(),
            warnings: Vec::new(),
        }
    }

    /// Records that the type at `index` was left without layout for the
    /// reason `kind`.
    pub fn warn(&mut self, kind: WarningKind, index: TypeIndex)
        ensures
            final(self)@ == old(self)@.warn(kind, index),
    {
        self.warnings.push(Warning { kind, index });
    }
}

} // verus!
