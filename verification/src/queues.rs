//! Queue families: which families support an operation, and which family
//! each of the graphics, transfer and compute queues is taken from.

use vstd::prelude::*;

use crate::vulkan::queue_flags_contain;
use crate::PixelEngine;

verus! {

/// `VK_QUEUE_GRAPHICS_BIT`.
pub const QUEUE_GRAPHICS: u32 = 0x1;

/// `VK_QUEUE_COMPUTE_BIT`.
pub const QUEUE_COMPUTE: u32 = 0x2;

/// `VK_QUEUE_TRANSFER_BIT`.
pub const QUEUE_TRANSFER: u32 = 0x4;

/// `VK_QUEUE_SPARSE_BINDING_BIT`.
pub const QUEUE_SPARSE_BINDING: u32 = 0x8;

/// A family whose flags are `flags` offers every operation in `required`.
pub open spec fn supports(flags: u32, required: u32) -> bool {
    flags & required == required
}

/// `indices` lists, in strictly increasing order, exactly the positions
/// `0 <= i < len` at which `holds` is true.
pub open spec fn ascending_positions(len: nat, holds: spec_fn(int) -> bool, indices: Seq<u32>) -> bool {
    &&& forall|k: int| 0 <= k < indices.len() ==> #[trigger] indices[k] < len && holds(indices[k] as int)
    &&& forall|k1: int, k2: int| 0 <= k1 < k2 < indices.len() ==> #[trigger] indices[k1] < #[trigger] indices[k2]
    &&& forall|i: int| 0 <= i < len && #[trigger] holds(i) ==> indices.contains(i as u32)
}

/// The last element of `s` that differs from `avoid`, or `default` when
/// every element equals `avoid`.
pub open spec fn last_other(s: Seq<u32>, avoid: u32, default: u32) -> u32
    decreases s.len(),
{
    if s.len() == 0 {
        default
    } else if s.last() != avoid {
        s.last()
    } else {
        last_other(s.drop_last(), avoid, default)
    }
}

/// The first element of `s` that is neither `a` nor `b`, if there is one.
pub open spec fn first_outside(s: Seq<u32>, a: u32, b: u32) -> Option<u32>
    decreases s.len(),
{
    if s.len() == 0 {
        None
    } else {
        match first_outside(s.drop_last(), a, b) {
            Some(x) => Some(x),
            None => if s.last() != a && s.last() != b {
                Some(s.last())
            } else {
                None
            },
        }
    }
}

/// The family the transfer queue comes from: the last transfer family other
/// than the graphics family, else the first transfer family.
pub open spec fn chosen_transfer(graphics: u32, transfer: Seq<u32>) -> u32 {
    last_other(transfer, graphics, transfer[0])
}

/// The family the compute queue comes from: the first compute family that
/// is neither the graphics nor the transfer family; failing that, the last
/// compute family other than the graphics family; failing that, the first
/// compute family.
pub open spec fn chosen_compute(graphics: u32, transfer: u32, compute: Seq<u32>) -> u32 {
    match first_outside(compute, graphics, transfer) {
        Some(x) => x,
        None => last_other(compute, graphics, compute[0]),
    }
}

/// The queue family indices the logical device takes its three queues from.
#[derive(Clone, Copy, Debug, PartialEq, Eq, Structural)]
pub struct QueueFamilyChoice {
    pub graphics: u32,
    pub transfer: u32,
    pub compute: u32,
}

proof fn lemma_last_other_in(s: Seq<u32>, avoid: u32, default: u32)
    ensures
        last_other(s, avoid, default) == default || s.contains(last_other(s, avoid, default)),
        (exists|i: int| 0 <= i < s.len() && s[i] != avoid) ==> last_other(s, avoid, default) != avoid
            && s.contains(last_other(s, avoid, default)),
    decreases s.len(),
{
    if s.len() > 0 {
        lemma_last_other_in(s.drop_last(), avoid, default);
        if s.last() == avoid {
            let r = last_other(s, avoid, default);
            if s.drop_last().contains(r) {
                let j = choose|j: int| 0 <= j < s.drop_last().len() && s.drop_last()[j] == r;
                assert(s[j] == r);
            }
            if exists|i: int| 0 <= i < s.len() && s[i] != avoid {
                let i = choose|i: int| 0 <= i < s.len() && s[i] != avoid;
                assert(s.drop_last()[i] != avoid);
            }
        } else {
            assert(s[s.len() - 1] == s.last());
        }
    }
}

proof fn lemma_first_outside(s: Seq<u32>, a: u32, b: u32)
    ensures
        match first_outside(s, a, b) {
            Some(x) => x != a && x != b && s.contains(x),
            None => forall|i: int| 0 <= i < s.len() ==> s[i] == a || s[i] == b,
        },
    decreases s.len(),
{
    if s.len() > 0 {
        lemma_first_outside(s.drop_last(), a, b);
        match first_outside(s.drop_last(), a, b) {
            Some(x) => {
                let j = choose|j: int| 0 <= j < s.drop_last().len() && s.drop_last()[j] == x;
                assert(s[j] == x);
            },
            None => {
                assert(s[s.len() - 1] == s.last());
                assert forall|i: int| 0 <= i < s.len() - 1 implies s[i] == a || s[i] == b by {
                    assert(s.drop_last()[i] == s[i]);
                }
            },
        }
    }
}

impl PixelEngine {
    /// The positions of the queue families whose flags contain `flags`, in
    /// increasing order (`queue_flags[i]` is the raw `VkQueueFlags` of
    /// family `i`).
    pub fn get_index_family_queues(queue_flags: &Vec<u32>, flags: u32) -> (indices: Vec<u32>)
        requires
            queue_flags.len() <= u32::MAX,
        ensures
            ascending_positions(
                queue_flags.len() as nat,
                |i: int| supports(queue_flags@[i], flags),
                indices@,
            ),
    {
        let mut indices: Vec<u32> = Vec::new();
        let mut n: usize = 0;
        while n < queue_flags.len()
            invariant
                n <= queue_flags.len() <= u32::MAX,
                forall|k: int|
                    0 <= k < indices.len() ==> #[trigger] indices@[k] < n && supports(
                        queue_flags@[indices@[k] as int],
                        flags,
                    ),
                forall|k1: int, k2: int|
                    0 <= k1 < k2 < indices.len() ==> #[trigger] indices@[k1] < #[trigger] indices@[k2],
                forall|i: int|
                    0 <= i < n && supports(#[trigger] queue_flags@[i], flags) ==> indices@.contains(
                        i as u32,
                    ),
            decreases queue_flags.len() - n,
        {
            let ghost before = indices@;
            if queue_flags_contain(queue_flags[n], flags) {
                indices.push(n as u32);
                assert(indices@[before.len() as int] == n as u32);
                assert forall|i: int|
                    0 <= i < n && supports(#[trigger] queue_flags@[i], flags) implies indices@.contains(
                    i as u32,
                ) by {
                    let j = choose|j: int| 0 <= j < before.len() && before[j] == i as u32;
                    assert(indices@[j] == i as u32);
                }
            }
            n += 1;
        }
        indices
    }

    /// Picks the family of each of the three queues: graphics from the
    /// first graphics family; transfer and compute, where the lists allow
    /// it, from families that no other of the three queues uses.
    pub fn choose_queue_families(graphics: &Vec<u32>, transfer: &Vec<u32>, compute: &Vec<u32>) -> (choice: QueueFamilyChoice)
        requires
            graphics.len() > 0,
            transfer.len() > 0,
            compute.len() > 0,
        ensures
            choice.graphics == graphics@[0],
            choice.transfer == chosen_transfer(choice.graphics, transfer@),
            choice.compute == chosen_compute(choice.graphics, choice.transfer, compute@),
            transfer@.contains(choice.transfer),
            compute@.contains(choice.compute),
            (exists|i: int| 0 <= i < transfer.len() && transfer@[i] != choice.graphics)
                ==> choice.transfer != choice.graphics,
            (exists|i: int| 0 <= i < compute.len() && compute@[i] != choice.graphics)
                ==> choice.compute != choice.graphics,
            (exists|i: int|
                0 <= i < compute.len() && compute@[i] != choice.graphics && compute@[i] != choice.transfer)
                ==> choice.compute != choice.graphics && choice.compute != choice.transfer,
    {
        let index_graphics = graphics[0];

        let mut index_transfer = transfer[0];
        let mut i: usize = 0;
        while i < transfer.len()
            invariant
                i <= transfer.len(),
                transfer.len() > 0,
                index_transfer == last_other(transfer@.take(i as int), index_graphics, transfer@[0]),
            decreases transfer.len() - i,
        {
            assert(transfer@.take(i + 1).drop_last() =~= transfer@.take(i as int));
            if transfer[i] != index_graphics {
                index_transfer = transfer[i];
            }
            i += 1;
        }
        assert(transfer@.take(transfer.len() as int) =~= transfer@);

        let mut index_compute = compute[0];
        let mut j: usize = 0;
        assert(compute@.take(compute.len() as int) =~= compute@);
        while j < compute.len()
            invariant_except_break
                j <= compute.len(),
                compute.len() > 0,
                compute@.take(compute.len() as int) == compute@,
                first_outside(compute@.take(j as int), index_graphics, index_transfer) is None,
                index_compute == last_other(compute@.take(j as int), index_graphics, compute@[0]),
            ensures
                index_compute == chosen_compute(index_graphics, index_transfer, compute@),
            decreases compute.len() - j,
        {
            assert(compute@.take(j + 1).drop_last() =~= compute@.take(j as int));
            if compute[j] != index_graphics {
                index_compute = compute[j];
            }
            if compute[j] != index_graphics && compute[j] != index_transfer {
                index_compute = compute[j];
                proof {
                    assert(first_outside(compute@.take(j + 1), index_graphics, index_transfer)
                        == Some(compute[j as int]));
                    lemma_first_outside_prefix(compute@, (j + 1) as int, index_graphics, index_transfer);
                }
                break;
            }
            j += 1;
        }
        proof {
            lemma_last_other_in(transfer@, index_graphics, transfer@[0]);
            assert(transfer@[0] == transfer@[0]);
            lemma_first_outside(compute@, index_graphics, index_transfer);
            lemma_last_other_in(compute@, index_graphics, compute@[0]);
        }
        QueueFamilyChoice { graphics: index_graphics, transfer: index_transfer, compute: index_compute }
    }
}

/// When the three lists are the families that support graphics, transfer and
/// compute, each queue is taken from a family that supports its operation.
pub proof fn lemma_chosen_families_support(flags: Seq<u32>, graphics: Seq<u32>, transfer: Seq<u32>, compute: Seq<u32>)
    requires
        ascending_positions(flags.len(), |i: int| supports(flags[i], QUEUE_GRAPHICS), graphics),
        ascending_positions(flags.len(), |i: int| supports(flags[i], QUEUE_TRANSFER), transfer),
        ascending_positions(flags.len(), |i: int| supports(flags[i], QUEUE_COMPUTE), compute),
        graphics.len() > 0,
        transfer.len() > 0,
        compute.len() > 0,
    ensures
        graphics[0] < flags.len() && supports(flags[graphics[0] as int], QUEUE_GRAPHICS),
        chosen_transfer(graphics[0], transfer) < flags.len() && supports(
            flags[chosen_transfer(graphics[0], transfer) as int],
            QUEUE_TRANSFER,
        ),
        chosen_compute(graphics[0], chosen_transfer(graphics[0], transfer), compute) < flags.len()
            && supports(
            flags[chosen_compute(graphics[0], chosen_transfer(graphics[0], transfer), compute) as int],
            QUEUE_COMPUTE,
        ),
{
    let g = graphics[0];
    let t = chosen_transfer(g, transfer);
    let c = chosen_compute(g, t, compute);
    assert(graphics[0] == g);
    lemma_last_other_in(transfer, g, transfer[0]);
    if t != transfer[0] {
        let k = choose|k: int| 0 <= k < transfer.len() && transfer[k] == t;
        assert(transfer[k] == t);
    } else {
        assert(transfer[0] == t);
    }
    lemma_first_outside(compute, g, t);
    lemma_last_other_in(compute, g, compute[0]);
    if c == compute[0] {
        assert(compute[0] == c);
    } else {
        let k = choose|k: int| 0 <= k < compute.len() && compute[k] == c;
        assert(compute[k] == c);
    }
}

/// Once a prefix of `s` holds an element outside `{a, b}`, the whole of `s`
/// has the same first such element.
proof fn lemma_first_outside_prefix(s: Seq<u32>, k: int, a: u32, b: u32)
    requires
        0 <= k <= s.len(),
        first_outside(s.take(k), a, b) is Some,
    ensures
        first_outside(s, a, b) == first_outside(s.take(k), a, b),
    decreases s.len() - k,
{
    if k < s.len() {
        assert(s.take(k + 1).drop_last() =~= s.take(k));
        lemma_first_outside_prefix(s, k + 1, a, b);
    } else {
        assert(s.take(k) =~= s);
    }
}

} // verus!
