//! No identifier is handed out twice.
//!
//! A run is a sequence of steps that allocate an identifier or draw a number
//! from the counter. Every identifier that is handed out is recorded and
//! stays recorded, and none is handed out that is recorded. So any two
//! allocations of a run give different identifiers, whatever they are for
//! and whatever happens between them.

use crate::fresh::lemma_free_number_is_free;
use crate::ids::next_id;
use crate::names::TypeNameView;
use crate::printer::alloc_ident_spec;
use crate::printer::alloc_named;
use crate::printer::anon_ident;
use crate::printer::candidate;
use crate::printer::clean;
use crate::printer::find_used;
use crate::printer::free_number;
use crate::printer::lemma_find_used;
use crate::printer::lemma_pushed_is_used;
use crate::printer::numbered;
use crate::printer::scope_idents;
use vstd::prelude::*;

verus! {

/// The identifiers in use, each with its counter.
pub type Used = Seq<(Seq<char>, u64)>;

/// One step of a run, as far as identifiers are concerned.
pub enum Step {
    /// An identifier is allocated for a type of this name.
    Alloc(TypeNameView),
    /// A number is drawn for a generated field name.
    Draw,
}

/// The identifiers in use and the counter after one step.
pub open spec fn after_step(used: Used, id: u64, step: Step) -> (Used, u64) {
    match step {
        Step::Alloc(tyname) => {
            let (after, next, name) = alloc_ident_spec(used, id, tyname);
            (after, next)
        },
        Step::Draw => (used, next_id(id)),
    }
}

/// The identifiers in use and the counter after the first `n` of `steps`.
pub open spec fn after_steps(used: Used, id: u64, steps: Seq<Step>, n: int) -> (Used, u64)
    decreases n,
{
    if n <= 0 {
        (used, id)
    } else {
        let (before, at) = after_steps(used, id, steps, n - 1);
        after_step(before, at, steps[n - 1])
    }
}

/// `later` holds the identifiers of `used` at their places, and at most
/// `more` others after them.
pub open spec fn grown(used: Used, later: Used, more: int) -> bool {
    &&& used.len() <= later.len() <= used.len() + more
    &&& forall|i: int| 0 <= i < used.len() ==> (#[trigger] later[i]).0 == used[i].0
}

/// An identifier that is in use stays in use, at its place.
pub proof fn lemma_grown_find(used: Used, later: Used, more: int, name: Seq<char>)
    requires
        grown(used, later, more),
        find_used(used, name) is Some,
    ensures
        find_used(later, name) == find_used(used, name),
{
    lemma_find_used(used, name);
    lemma_find_used(later, name);
    let i = find_used(used, name)->0;
    assert(later[i].0 == name);
    match find_used(later, name) {
        Some(j) => {
            if j < i {
                assert(later[j].0 == used[j].0);
            }
        },
        None => {},
    }
}

/// Allocation for a named type hands out an identifier that was not in use,
/// has it in use afterwards, and keeps every identifier in use.
pub proof fn lemma_alloc_named(used: Used, leaf: Seq<char>, scopes: Seq<Seq<char>>, k: nat)
    requires
        k <= scopes.len(),
        used.len() <= usize::MAX,
    ensures
        ({
            let (after, name) = alloc_named(used, leaf, scopes, k);
            &&& grown(used, after, 1)
            &&& find_used(used, name) is None
            &&& find_used(after, name) is Some
        }),
    decreases scopes.len() - k,
{
    let cand = candidate(leaf, scopes, k);
    match find_used(used, cand) {
        None => {
            lemma_pushed_is_used(used, cand);
        },
        Some(i) => {
            lemma_find_used(used, cand);
            if k >= scopes.len() {
                let n = free_number(used, cand + "_"@, next_id(used[i].1), used.len());
                lemma_free_number_is_free(used, cand + "_"@, next_id(used[i].1));
                let bumped = used.update(i, (cand, n));
                lemma_pushed_is_used(bumped, numbered(cand, n));
                let after = bumped.push((numbered(cand, n), 0));
                assert forall|x: int| 0 <= x < used.len() implies (#[trigger] after[x]).0
                    == used[x].0 by {
                    assert(after[x] == bumped[x]);
                }
            } else {
                lemma_alloc_named(used, leaf, scopes, k + 1);
            }
        },
    }
}

/// Every allocation hands out an identifier that was not in use, has it in
/// use afterwards, and keeps every identifier in use.
pub proof fn lemma_alloc_is_new(used: Used, id: u64, tyname: TypeNameView)
    requires
        used.len() <= usize::MAX,
    ensures
        ({
            let (after, next, name) = alloc_ident_spec(used, id, tyname);
            &&& grown(used, after, 1)
            &&& find_used(used, name) is None
            &&& find_used(after, name) is Some
        }),
{
    let leaf = clean(tyname.name);
    if leaf.len() == 0 {
        let n = free_number(used, "AnonType"@, id, used.len());
        lemma_free_number_is_free(used, "AnonType"@, id);
        lemma_pushed_is_used(used, anon_ident(n));
    } else {
        lemma_alloc_named(used, leaf, scope_idents(tyname.namespace), 0);
    }
}

/// A run of `n` steps keeps every identifier in use, and adds `n` at most.
pub proof fn lemma_steps(used: Used, id: u64, steps: Seq<Step>, n: int)
    requires
        0 <= n <= steps.len(),
        used.len() + n <= usize::MAX,
    ensures
        grown(used, after_steps(used, id, steps, n).0, n),
    decreases n,
{
    if n > 0 {
        lemma_steps(used, id, steps, n - 1);
        let (before, at) = after_steps(used, id, steps, n - 1);
        match steps[n - 1] {
            Step::Alloc(tyname) => {
                lemma_alloc_is_new(before, at, tyname);
            },
            Step::Draw => {},
        }
        let after = after_steps(used, id, steps, n).0;
        assert forall|x: int| 0 <= x < used.len() implies (#[trigger] after[x]).0 == used[x].0 by {
            assert(before[x].0 == used[x].0);
        }
    }
}

/// Two allocations in one run hand out different identifiers, whatever they
/// are for and whatever happens between them.
pub proof fn lemma_idents_differ(
    used: Used,
    id: u64,
    first: TypeNameView,
    steps: Seq<Step>,
    second: TypeNameView,
)
    requires
        used.len() + steps.len() + 2 <= usize::MAX,
    ensures
        ({
            let (used1, id1, name1) = alloc_ident_spec(used, id, first);
            let (used2, id2) = after_steps(used1, id1, steps, steps.len() as int);
            let (used3, id3, name2) = alloc_ident_spec(used2, id2, second);
            name1 != name2
        }),
{
    let (used1, id1, name1) = alloc_ident_spec(used, id, first);
    lemma_alloc_is_new(used, id, first);
    lemma_steps(used1, id1, steps, steps.len() as int);
    let (used2, id2) = after_steps(used1, id1, steps, steps.len() as int);
    lemma_grown_find(used1, used2, steps.len() as int, name1);
    lemma_alloc_is_new(used2, id2, second);
}

/// Two allocations for the same name in one run hand out different
/// identifiers.
pub proof fn lemma_same_name_twice_differs(
    used: Used,
    id: u64,
    tyname: TypeNameView,
    steps: Seq<Step>,
)
    requires
        used.len() + steps.len() + 2 <= usize::MAX,
    ensures
        ({
            let (used1, id1, name1) = alloc_ident_spec(used, id, tyname);
            let (used2, id2) = after_steps(used1, id1, steps, steps.len() as int);
            let (used3, id3, name2) = alloc_ident_spec(used2, id2, tyname);
            name1 != name2
        }),
{
    lemma_idents_differ(used, id, tyname, steps, tyname);
}

} // verus!
