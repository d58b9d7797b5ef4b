use vstd::prelude::*;

verus! {

/// The survivor that refills slot `i` of a population of `pop_size`
/// ordered best first: the better half survives, and the slots of the
/// other half cycle through the survivors.
pub open spec fn parent_of(pop_size: nat, i: nat) -> nat {
    i % (pop_size / 2)
}

/// The parents of the refilled slots `pop_size / 2 .. pop_size`, in slot
/// order. A population of one has no survivor to refill its slot from.
pub fn offspring_parents(pop_size: usize) -> (r: Vec<usize>)
    requires
        pop_size != 1,
    ensures
        r@.len() == pop_size - pop_size / 2,
        forall|k: int|
            0 <= k < r@.len() ==> #[trigger] r@[k] == parent_of(pop_size as nat, (pop_size / 2 + k) as nat),
        forall|k: int| 0 <= k < r@.len() ==> #[trigger] r@[k] < pop_size / 2,
{
    let half = pop_size / 2;
    let mut r: Vec<usize> = Vec::new();
    let mut i: usize = half;
    while i < pop_size
        invariant
            pop_size != 1,
            half == pop_size / 2,
            half <= i <= pop_size,
            r@.len() == i - half,
            forall|k: int|
                0 <= k < r@.len() ==> #[trigger] r@[k] == parent_of(pop_size as nat, (half + k) as nat),
            forall|k: int| 0 <= k < r@.len() ==> #[trigger] r@[k] < half,
        decreases pop_size - i,
    {
        r.push(i % half);
        i += 1;
    }
    r
}

} // verus!
