//! A whole run: from a graph and the names of the wanted types to the two
//! texts.

use crate::model::RegistryView;
use crate::model::TypeGraph;
use crate::model::TypeIndex;
use crate::model::TypeKind;
use crate::model::TypeRegistry;
use crate::names::TypeName;
use crate::names::TypeNameView;
use crate::printer::PrinterView;
use crate::process::process_type;
use crate::semantics::process_type_spec;
use crate::state::Session;
use crate::state::SessionView;
use crate::text::texts;
use vstd::prelude::*;

verus! {

/// The descriptor only declares its type: a structure, union or enumeration
/// without members, or a type of which only the name is known.
pub open spec fn declared_only(ty: TypeKind) -> bool {
    match ty {
        TypeKind::Struct(s) => s.declaration,
        TypeKind::Union(s) => s.declaration,
        TypeKind::Enumeration(s) => s.declaration,
        TypeKind::Unspecified => true,
        _ => false,
    }
}

/// The qualified name of the type that the descriptor defines: aliases,
/// structures, unions and enumerations have one, unless they are only
/// declared.
pub open spec fn defined_name(ty: TypeKind) -> Option<TypeNameView> {
    if declared_only(ty) {
        None
    } else {
        match ty {
            TypeKind::Def(d) => Some(d.name@),
            TypeKind::Struct(s) => Some(s.name@),
            TypeKind::Union(s) => Some(s.name@),
            TypeKind::Enumeration(s) => Some(s.name@),
            _ => None,
        }
    }
}

/// The destinations of a list, as plain values.
pub open spec fn dest_views(dests: Seq<Vec<String>>) -> Seq<Seq<Seq<char>>> {
    dests.map_values(|d: Vec<String>| texts(d@))
}

/// The name ends with one of the destinations.
pub open spec fn is_dest_spec(dests: Seq<Seq<Seq<char>>>, name: TypeNameView) -> bool {
    exists|i: int| 0 <= i < dests.len() && name.ends_with(#[trigger] dests[i])
}

/// The registry entries that the first `n` types of an input give, in their
/// order: one for each definition whose name is not anonymous.
pub open spec fn input_entries(types: Seq<TypeKind>, input_id: usize, n: int) -> RegistryView
    decreases n,
{
    if n <= 0 {
        Seq::empty()
    } else {
        let before = input_entries(types, input_id, n - 1);
        match defined_name(types[n - 1]) {
            Some(name) => {
                if name.is_anon() {
                    before
                } else {
                    before.push((name, TypeIndex { input_id, typoff: (n - 1) as usize }))
                }
            },
            None => before,
        }
    }
}

/// The registry entries that the first `m` inputs of a graph give.
pub open spec fn graph_entries(g: &TypeGraph, m: int) -> RegistryView
    decreases m,
{
    if m <= 0 {
        Seq::empty()
    } else {
        graph_entries(g, m - 1) + input_entries(
            g.inputs[m - 1]@,
            (m - 1) as usize,
            g.inputs[m - 1].len() as int,
        )
    }
}

/// The registry of a graph: its named definitions in the order of the
/// inputs and, in an input, of the types.
pub open spec fn registry_of(g: &TypeGraph) -> RegistryView {
    graph_entries(g, g.inputs.len() as int)
}

/// The definitions among the first `n` types of an input whose name ends
/// with `dest`.
pub open spec fn input_matches(
    types: Seq<TypeKind>,
    input_id: usize,
    dest: Seq<Seq<char>>,
    n: int,
) -> Seq<TypeIndex>
    decreases n,
{
    if n <= 0 {
        Seq::empty()
    } else {
        let before = input_matches(types, input_id, dest, n - 1);
        match defined_name(types[n - 1]) {
            Some(name) => {
                if name.ends_with(dest) {
                    before.push(TypeIndex { input_id, typoff: (n - 1) as usize })
                } else {
                    before
                }
            },
            None => before,
        }
    }
}

/// The definitions in the first `m` inputs of a graph whose name ends with
/// `dest`.
pub open spec fn graph_matches(g: &TypeGraph, dest: Seq<Seq<char>>, m: int) -> Seq<TypeIndex>
    decreases m,
{
    if m <= 0 {
        Seq::empty()
    } else {
        graph_matches(g, dest, m - 1) + input_matches(
            g.inputs[m - 1]@,
            (m - 1) as usize,
            dest,
            g.inputs[m - 1].len() as int,
        )
    }
}

/// The types to process for the first `d` destinations: for each
/// destination in turn, the definitions whose name ends with it.
pub open spec fn roots_of(g: &TypeGraph, dests: Seq<Seq<Seq<char>>>, d: int) -> Seq<TypeIndex>
    decreases d,
{
    if d <= 0 {
        Seq::empty()
    } else {
        roots_of(g, dests, d - 1) + graph_matches(g, dests[d - 1], g.inputs.len() as int)
    }
}

/// The state after the first `k` of `roots` were processed in their order.
pub open spec fn process_roots(
    g: &TypeGraph,
    db: RegistryView,
    s: SessionView,
    roots: Seq<TypeIndex>,
    k: int,
) -> SessionView
    decreases k,
{
    if k <= 0 {
        s
    } else {
        process_type_spec(g, db, process_roots(g, db, s, roots, k - 1), roots[k - 1], None)
    }
}

/// The state at the end of a run: every wanted type was processed, with
/// all that it depends on, and the program was closed.
pub open spec fn run_spec(g: &TypeGraph, dests: Seq<Seq<Seq<char>>>, path: Seq<char>) -> SessionView {
    let roots = roots_of(g, dests, dests.len() as int);
    let done = process_roots(
        g,
        registry_of(g),
        SessionView::start(g, path),
        roots,
        roots.len() as int,
    );
    SessionView { printer: done.printer.finish(), ..done }
}

/// The entry stands for a definition of the graph that has the name under
/// which it is registered, and that name is not anonymous.
pub open spec fn registers_definition(g: &TypeGraph, entry: (TypeNameView, TypeIndex)) -> bool {
    &&& g.has(entry.1)
    &&& !declared_only(g.at(entry.1))
    &&& defined_name(g.at(entry.1)) == Some(entry.0)
    &&& !entry.0.is_anon()
}

proof fn lemma_input_entries(types: Seq<TypeKind>, input_id: usize, n: int, k: int)
    requires
        0 <= n <= types.len() <= usize::MAX,
        0 <= k < input_entries(types, input_id, n).len(),
    ensures
        ({
            let entry = input_entries(types, input_id, n)[k];
            &&& entry.1.input_id == input_id
            &&& entry.1.typoff < n
            &&& !declared_only(types[entry.1.typoff as int])
            &&& defined_name(types[entry.1.typoff as int]) == Some(entry.0)
            &&& !entry.0.is_anon()
        }),
    decreases n,
{
    if n > 0 {
        let before = input_entries(types, input_id, n - 1);
        if k < before.len() {
            lemma_input_entries(types, input_id, n - 1, k);
        }
    }
}

proof fn lemma_graph_entries(g: &TypeGraph, m: int, k: int)
    requires
        0 <= m <= g.inputs.len(),
        0 <= k < graph_entries(g, m).len(),
    ensures
        registers_definition(g, graph_entries(g, m)[k]),
        graph_entries(g, m)[k].1.input_id < m,
    decreases m,
{
    if m > 0 {
        let before = graph_entries(g, m - 1);
        if k < before.len() {
            lemma_graph_entries(g, m - 1, k);
        } else {
            let types = g.inputs[m - 1]@;
            assert(types.len() == g.inputs[m - 1].len() <= usize::MAX);
            lemma_input_entries(types, (m - 1) as usize, types.len() as int, k - before.len());
        }
    }
}

/// Every entry of the registry of a graph stands for a definition: a type
/// that is only declared is never registered, nor is an anonymous one.
pub proof fn lemma_registry_holds_definitions(g: &TypeGraph, k: int)
    requires
        0 <= k < registry_of(g).len(),
    ensures
        registers_definition(g, registry_of(g)[k]),
{
    lemma_graph_entries(g, g.inputs.len() as int, k);
}

/// The type at `idx` is a definition whose name ends with `dest`.
pub open spec fn names_dest(g: &TypeGraph, idx: TypeIndex, dest: Seq<Seq<char>>) -> bool {
    &&& g.has(idx)
    &&& defined_name(g.at(idx)) is Some
    &&& defined_name(g.at(idx))->0.ends_with(dest)
}

proof fn lemma_contains_push<T>(a: Seq<T>, y: T, x: T)
    ensures
        a.push(y).contains(x) <==> a.contains(x) || x == y,
{
    if a.contains(x) {
        let i = choose|i: int| 0 <= i < a.len() && a[i] == x;
        assert(a.push(y)[i] == x);
    }
    if x == y {
        assert(a.push(y)[a.len() as int] == x);
    }
    if a.push(y).contains(x) {
        let i = choose|i: int| 0 <= i < a.push(y).len() && a.push(y)[i] == x;
        if i < a.len() {
            assert(a[i] == x);
        }
    }
}

proof fn lemma_contains_add<T>(a: Seq<T>, b: Seq<T>, x: T)
    ensures
        (a + b).contains(x) <==> a.contains(x) || b.contains(x),
{
    if a.contains(x) {
        let i = choose|i: int| 0 <= i < a.len() && a[i] == x;
        assert((a + b)[i] == x);
    }
    if b.contains(x) {
        let i = choose|i: int| 0 <= i < b.len() && b[i] == x;
        assert((a + b)[a.len() + i] == x);
    }
    if (a + b).contains(x) {
        let i = choose|i: int| 0 <= i < (a + b).len() && (a + b)[i] == x;
        if i < a.len() {
            assert(a[i] == x);
        } else {
            assert(b[i - a.len()] == x);
        }
    }
}

proof fn lemma_input_matches(
    types: Seq<TypeKind>,
    input_id: usize,
    dest: Seq<Seq<char>>,
    n: int,
    idx: TypeIndex,
)
    requires
        0 <= n <= types.len() <= usize::MAX,
    ensures
        input_matches(types, input_id, dest, n).contains(idx) <==> idx.input_id == input_id
            && idx.typoff < n && defined_name(types[idx.typoff as int]) is Some && defined_name(
            types[idx.typoff as int],
        )->0.ends_with(dest),
    decreases n,
{
    if n > 0 {
        lemma_input_matches(types, input_id, dest, n - 1, idx);
        let before = input_matches(types, input_id, dest, n - 1);
        lemma_contains_push(before, TypeIndex { input_id, typoff: (n - 1) as usize }, idx);
    }
}

proof fn lemma_graph_matches(g: &TypeGraph, dest: Seq<Seq<char>>, m: int, idx: TypeIndex)
    requires
        0 <= m <= g.inputs.len(),
    ensures
        graph_matches(g, dest, m).contains(idx) <==> idx.input_id < m && names_dest(g, idx, dest),
    decreases m,
{
    if m > 0 {
        lemma_graph_matches(g, dest, m - 1, idx);
        let types = g.inputs[m - 1]@;
        assert(types.len() == g.inputs[m - 1].len() <= usize::MAX);
        lemma_input_matches(types, (m - 1) as usize, dest, types.len() as int, idx);
        lemma_contains_add(
            graph_matches(g, dest, m - 1),
            input_matches(types, (m - 1) as usize, dest, types.len() as int),
            idx,
        );
    }
}

/// A type is among the types to process if and only if it is a definition
/// whose name ends with one of the destinations.
pub proof fn lemma_roots(g: &TypeGraph, dests: Seq<Seq<Seq<char>>>, d: int, idx: TypeIndex)
    requires
        0 <= d <= dests.len(),
    ensures
        roots_of(g, dests, d).contains(idx) <==> exists|i: int|
            0 <= i < d && names_dest(g, idx, #[trigger] dests[i]),
    decreases d,
{
    if d > 0 {
        lemma_roots(g, dests, d - 1, idx);
        lemma_graph_matches(g, dests[d - 1], g.inputs.len() as int, idx);
        lemma_contains_add(
            roots_of(g, dests, d - 1),
            graph_matches(g, dests[d - 1], g.inputs.len() as int),
            idx,
        );
        if roots_of(g, dests, d).contains(idx) {
            if roots_of(g, dests, d - 1).contains(idx) {
                let i = choose|i: int| 0 <= i < d - 1 && names_dest(g, idx, #[trigger] dests[i]);
                assert(0 <= i < d && names_dest(g, idx, dests[i]));
            } else {
                assert(names_dest(g, idx, dests[d - 1]));
            }
        }
        if exists|i: int| 0 <= i < d && names_dest(g, idx, #[trigger] dests[i]) {
            let i = choose|i: int| 0 <= i < d && names_dest(g, idx, #[trigger] dests[i]);
            if i < d - 1 {
                assert(0 <= i < d - 1 && names_dest(g, idx, dests[i]));
            }
        }
    }
}

/// The types to process are the definitions that `is_dest` accepts.
pub proof fn lemma_roots_are_dests(g: &TypeGraph, dests: Seq<Seq<Seq<char>>>, idx: TypeIndex)
    ensures
        roots_of(g, dests, dests.len() as int).contains(idx) <==> g.has(idx) && defined_name(
            g.at(idx),
        ) is Some && is_dest_spec(dests, defined_name(g.at(idx))->0),
{
    lemma_roots(g, dests, dests.len() as int, idx);
    if roots_of(g, dests, dests.len() as int).contains(idx) {
        let i = choose|i: int| 0 <= i < dests.len() && names_dest(g, idx, #[trigger] dests[i]);
        assert(defined_name(g.at(idx))->0.ends_with(dests[i]));
    }
    if g.has(idx) && defined_name(g.at(idx)) is Some && is_dest_spec(
        dests,
        defined_name(g.at(idx))->0,
    ) {
        let i = choose|i: int|
            0 <= i < dests.len() && defined_name(g.at(idx))->0.ends_with(#[trigger] dests[i]);
        assert(names_dest(g, idx, dests[i]));
    }
}

/// Where no definition has a name that ends with a destination, a run
/// processes nothing: both texts hold their opening lines, the program is
/// closed, and no type was visited.
pub proof fn lemma_run_without_roots(g: &TypeGraph, dests: Seq<Seq<Seq<char>>>, path: Seq<char>)
    requires
        forall|idx: TypeIndex, i: int|
            0 <= i < dests.len() ==> !#[trigger] names_dest(g, idx, dests[i]),
    ensures
        run_spec(g, dests, path) == (SessionView {
            printer: PrinterView::opened(path).finish(),
            ..SessionView::start(g, path)
        }),
{
    let roots = roots_of(g, dests, dests.len() as int);
    if roots.len() > 0 {
        assert(roots.contains(roots[0]));
        lemma_roots(g, dests, dests.len() as int, roots[0]);
    }
}

/// Tells whether the descriptor only declares its type.
pub fn is_declaration(ty: &TypeKind) -> (b: bool)
    ensures
        b == declared_only(*ty),
{
    match ty {
        TypeKind::Struct(s) => s.declaration,
        TypeKind::Union(s) => s.declaration,
        TypeKind::Enumeration(s) => s.declaration,
        TypeKind::Unspecified => true,
        _ => false,
    }
}

/// The qualified name of the type that the descriptor defines, if it
/// defines one.
pub fn type_name_of(ty: &TypeKind) -> (name: Option<&TypeName>)
    ensures
        match name {
            Some(n) => defined_name(*ty) == Some(n@),
            None => defined_name(*ty) is None,
        },
{
    if is_declaration(ty) {
        return None;
    }
    match ty {
        TypeKind::Def(d) => Some(&d.name),
        TypeKind::Struct(s) => Some(&s.name),
        TypeKind::Union(s) => Some(&s.name),
        TypeKind::Enumeration(s) => Some(&s.name),
        _ => None,
    }
}

/// Tells whether the name ends with one of the destinations.
pub fn is_dest(dests: &Vec<Vec<String>>, tyn: &TypeName) -> (b: bool)
    ensures
        b == is_dest_spec(dest_views(dests@), tyn@),
{
    let mut i: usize = 0;
    while i < dests.len()
        invariant
            i <= dests.len(),
            forall|k: int| 0 <= k < i ==> !tyn@.ends_with(#[trigger] dest_views(dests@)[k]),
        decreases dests.len() - i,
    {
        if tyn.ends_with(&dests[i]) {
            assert(tyn@.ends_with(dest_views(dests@)[i as int]));
            return true;
        }
        i = i + 1;
    }
    false
}

/// Builds the registry of a graph.
pub fn build_registry(graph: &TypeGraph) -> (type_db: TypeRegistry)
    ensures
        type_db@ == registry_of(graph),
{
    let mut type_db = TypeRegistry::new();
    let mut input_id: usize = 0;
    while input_id < graph.inputs.len()
        invariant
            input_id <= graph.inputs.len(),
            type_db@ == graph_entries(graph, input_id as int),
        decreases graph.inputs.len() - input_id,
    {
        let types = &graph.inputs[input_id];
        let ghost before = type_db@;
        let mut typoff: usize = 0;
        proof {
            assert(before + input_entries(types@, input_id, 0) =~= before);
        }
        while typoff < types.len()
            invariant
                typoff <= types.len(),
                type_db@ == before + input_entries(types@, input_id, typoff as int),
            decreases types.len() - typoff,
        {
            let ghost so_far = input_entries(types@, input_id, typoff as int);
            match type_name_of(&types[typoff]) {
                Some(name) => {
                    if !name.is_anon() {
                        let idx = TypeIndex { input_id, typoff };
                        type_db.insert(name.duplicate(), idx);
                        proof {
                            assert((before + so_far).push((name@, idx)) =~= before + so_far.push(
                                (name@, idx),
                            ));
                        }
                    }
                },
                None => {},
            }
            typoff = typoff + 1;
        }
        input_id = input_id + 1;
    }
    type_db
}

fn push_matches(graph: &TypeGraph, dest: &Vec<String>, roots: &mut Vec<TypeIndex>)
    ensures
        final(roots)@ == old(roots)@ + graph_matches(graph, texts(dest@), graph.inputs.len() as int),
{
    let ghost start = roots@;
    let ghost want = texts(dest@);
    let mut input_id: usize = 0;
    proof {
        assert(start + graph_matches(graph, want, 0) =~= start);
    }
    while input_id < graph.inputs.len()
        invariant
            input_id <= graph.inputs.len(),
            want == texts(dest@),
            roots@ == start + graph_matches(graph, want, input_id as int),
        decreases graph.inputs.len() - input_id,
    {
        let types = &graph.inputs[input_id];
        let ghost before = roots@;
        let mut typoff: usize = 0;
        proof {
            assert(before + input_matches(types@, input_id, want, 0) =~= before);
        }
        while typoff < types.len()
            invariant
                typoff <= types.len(),
                want == texts(dest@),
                roots@ == before + input_matches(types@, input_id, want, typoff as int),
            decreases types.len() - typoff,
        {
            let ghost so_far = input_matches(types@, input_id, want, typoff as int);
            match type_name_of(&types[typoff]) {
                Some(name) => {
                    if name.ends_with(dest) {
                        let idx = TypeIndex { input_id, typoff };
                        roots.push(idx);
                        proof {
                            assert((before + so_far).push(idx) =~= before + so_far.push(idx));
                        }
                    }
                },
                None => {},
            }
            typoff = typoff + 1;
        }
        proof {
            assert(start + (graph_matches(graph, want, input_id as int) + input_matches(
                types@,
                input_id,
                want,
                types.len() as int,
            )) =~= before + input_matches(types@, input_id, want, types.len() as int));
        }
        input_id = input_id + 1;
    }
}

/// Finds the types to process: for each destination in turn, the
/// definitions whose name ends with it, in the order of the inputs and, in
/// an input, of the types.
pub fn find_roots(graph: &TypeGraph, dests: &Vec<Vec<String>>) -> (roots: Vec<TypeIndex>)
    ensures
        roots@ == roots_of(graph, dest_views(dests@), dests.len() as int),
{
    let mut roots: Vec<TypeIndex> = Vec::new();
    let mut d: usize = 0;
    while d < dests.len()
        invariant
            d <= dests.len(),
            roots@ == roots_of(graph, dest_views(dests@), d as int),
        decreases dests.len() - d,
    {
        push_matches(graph, &dests[d], &mut roots);
        proof {
            assert(dest_views(dests@)[d as int] == texts(dests@[d as int]@));
        }
        d = d + 1;
    }
    roots
}

/// Runs the reconstruction: builds the registry of `graph`, processes every
/// type that one of `dests` names, and closes the program. `out_path` is the
/// name under which the header will be written, without `.h`.
pub fn run(graph: &TypeGraph, dests: &Vec<Vec<String>>, out_path: &str) -> (session: Session)
    ensures
        session@ == run_spec(graph, dest_views(dests@), out_path@),
        session@.wf(graph),
{
    let type_db = build_registry(graph);
    let roots = find_roots(graph, dests);
    let mut session = Session::new(graph, out_path);
    let mut k: usize = 0;
    while k < roots.len()
        invariant
            k <= roots.len(),
            session@.wf(graph),
            session@ == process_roots(
                graph,
                type_db@,
                SessionView::start(graph, out_path@),
                roots@,
                k as int,
            ),
        decreases roots.len() - k,
    {
        process_type(&mut session, roots[k], None, graph, &type_db);
        k = k + 1;
    }
    session.printer.finish();
    session
}

} // verus!
