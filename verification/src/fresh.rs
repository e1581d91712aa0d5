//! The search for a number that makes an identifier new always finds one.
//!
//! The search tries as many numbers in a row as there are identifiers in
//! use, and one more. These numbers give different identifiers, so not all
//! of them can be in use.

use crate::ids::next_id;
use crate::printer::find_used;
use crate::printer::free_number;
use crate::printer::lemma_find_used;
use crate::printer::with_number;
use crate::text::decimal;
use crate::text::lemma_decimal_injective;
use vstd::prelude::*;
use vstd::relations::injective_on;
use vstd::set_lib::lemma_int_range;
use vstd::set_lib::lemma_len_subset;
use vstd::set_lib::lemma_map_size;
use vstd::set_lib::set_int_range;

verus! {

/// What two texts with the same beginning have after it differs if the
/// texts differ.
pub proof fn lemma_same_prefix(a: Seq<char>, x: Seq<char>, y: Seq<char>)
    requires
        a + x == a + y,
    ensures
        x == y,
{
    assert((a + x).skip(a.len() as int) =~= x);
    assert((a + y).skip(a.len() as int) =~= y);
}

/// Different numbers after the same beginning give different identifiers.
pub proof fn lemma_with_number_injective(prefix: Seq<char>, a: u64, b: u64)
    requires
        with_number(prefix, a) == with_number(prefix, b),
    ensures
        a == b,
{
    lemma_same_prefix(prefix, decimal(a as nat), decimal(b as nat));
    lemma_decimal_injective(a as nat, b as nat);
}

/// The counter value that is reached from `n` in `k` steps.
pub open spec fn step_id(n: u64, k: nat) -> u64
    decreases k,
{
    if k == 0 {
        n
    } else {
        step_id(next_id(n), (k - 1) as nat)
    }
}

/// The counter goes round after as many steps as `u64` has values.
pub proof fn lemma_step_id(n: u64, k: nat)
    ensures
        step_id(n, k) == (n + k) % 0x1_0000_0000_0000_0000,
    decreases k,
{
    if k > 0 {
        lemma_step_id(next_id(n), (k - 1) as nat);
    }
}

/// Fewer steps than `u64` has values never lead to the same counter value
/// twice.
pub proof fn lemma_step_id_distinct(n: u64, a: nat, b: nat)
    requires
        a < b <= u64::MAX,
    ensures
        step_id(n, a) != step_id(n, b),
{
    lemma_step_id(n, a);
    lemma_step_id(n, b);
}

/// Where none of `m` pigeons shares a hole, there are at least `m` holes.
pub proof fn lemma_pigeonhole(hole: spec_fn(int) -> int, m: int, holes: int)
    requires
        0 <= m,
        0 <= holes,
        forall|j: int| 0 <= j < m ==> 0 <= #[trigger] hole(j) < holes,
        forall|a: int, b: int|
            0 <= a < m && 0 <= b < m && #[trigger] hole(a) == #[trigger] hole(b) ==> a == b,
    ensures
        m <= holes,
{
    let pigeons = set_int_range(0, m);
    let taken = pigeons.map(hole);
    lemma_int_range(0, m);
    lemma_int_range(0, holes);
    assert(injective_on(hole, pigeons));
    lemma_map_size(pigeons, taken, hole);
    assert(taken.subset_of(set_int_range(0, holes))) by {
        assert forall|i: int| taken.contains(i) implies set_int_range(0, holes).contains(i) by {
            let j = choose|j: int| pigeons.contains(j) && i == hole(j);
            assert(0 <= hole(j) < holes);
        }
    }
    lemma_len_subset(taken, set_int_range(0, holes));
}

/// The number of numbers that the search passes over before it ends.
pub open spec fn passed_over(used: Seq<(Seq<char>, u64)>, prefix: Seq<char>, n: u64, fuel: nat) -> nat
    decreases fuel,
{
    if fuel == 0 || find_used(used, with_number(prefix, n)) is None {
        0
    } else {
        1 + passed_over(used, prefix, next_id(n), (fuel - 1) as nat)
    }
}

/// The search ends at the number that is reached when it has passed over
/// the numbers before it, each of which gives an identifier in use. Where it
/// did not try as many numbers as it may, the number it ends at gives an
/// identifier that is not in use.
pub proof fn lemma_search(used: Seq<(Seq<char>, u64)>, prefix: Seq<char>, n: u64, fuel: nat)
    ensures
        ({
            let t = passed_over(used, prefix, n, fuel);
            &&& t <= fuel
            &&& free_number(used, prefix, n, fuel) == step_id(n, t)
            &&& forall|j: int|
                0 <= j < t ==> find_used(used, with_number(prefix, #[trigger] step_id(n, j as nat)))
                    is Some
            &&& t < fuel ==> find_used(used, with_number(prefix, step_id(n, t))) is None
        }),
    decreases fuel,
{
    if fuel > 0 && find_used(used, with_number(prefix, n)) is Some {
        lemma_search(used, prefix, next_id(n), (fuel - 1) as nat);
        let t = passed_over(used, prefix, n, fuel);
        assert forall|j: int| 0 <= j < t implies find_used(
            used,
            with_number(prefix, #[trigger] step_id(n, j as nat)),
        ) is Some by {
            if j > 0 {
                assert(step_id(n, j as nat) == step_id(next_id(n), (j - 1) as nat));
            }
        }
    }
}

/// The place in `used` of the identifier that the `j`-th number of a search
/// gives.
pub open spec fn place_of(used: Seq<(Seq<char>, u64)>, prefix: Seq<char>, n: u64, j: int) -> int {
    match find_used(used, with_number(prefix, step_id(n, j as nat))) {
        Some(i) => i,
        None => 0,
    }
}

/// A search that may try as many numbers as there are identifiers in use
/// ends at a number that gives an identifier that is not in use.
pub proof fn lemma_free_number_is_free(used: Seq<(Seq<char>, u64)>, prefix: Seq<char>, n: u64)
    requires
        used.len() <= usize::MAX,
    ensures
        find_used(used, with_number(prefix, free_number(used, prefix, n, used.len()))) is None,
{
    let fuel = used.len();
    lemma_search(used, prefix, n, fuel);
    let t = passed_over(used, prefix, n, fuel);
    if t == fuel && find_used(used, with_number(prefix, step_id(n, t))) is Some {
        let hole = |j: int| place_of(used, prefix, n, j);
        assert forall|j: int| 0 <= j < fuel + 1 implies 0 <= #[trigger] hole(j) < fuel by {
            assert(find_used(used, with_number(prefix, step_id(n, j as nat))) is Some);
            lemma_find_used(used, with_number(prefix, step_id(n, j as nat)));
        }
        assert forall|a: int, b: int|
            0 <= a < fuel + 1 && 0 <= b < fuel + 1 && #[trigger] hole(a) == #[trigger] hole(
                b,
            ) implies a == b by {
            let na = with_number(prefix, step_id(n, a as nat));
            let nb = with_number(prefix, step_id(n, b as nat));
            assert(find_used(used, na) is Some);
            assert(find_used(used, nb) is Some);
            lemma_find_used(used, na);
            lemma_find_used(used, nb);
            assert(na == nb);
            lemma_with_number_injective(prefix, step_id(n, a as nat), step_id(n, b as nat));
            if a < b {
                lemma_step_id_distinct(n, a as nat, b as nat);
            }
            if b < a {
                lemma_step_id_distinct(n, b as nat, a as nat);
            }
        }
        lemma_pigeonhole(hole, fuel as int + 1, fuel as int);
    }
}

} // verus!
