//! Choice of the physical device and the count of device-local memory.

use vstd::prelude::*;

use crate::vulkan::memory_heap_flags_contain;
use crate::PixelEngine;

verus! {

/// `VK_PHYSICAL_DEVICE_TYPE_DISCRETE_GPU`.
pub const DEVICE_TYPE_DISCRETE_GPU: i32 = 2;

/// `VK_MEMORY_HEAP_DEVICE_LOCAL_BIT`.
pub const MEMORY_HEAP_DEVICE_LOCAL: u32 = 0x1;

/// One memory heap of a physical device: its size in bytes and its raw
/// `VkMemoryHeapFlags`.
#[derive(Clone, Copy, Debug, PartialEq, Eq, Structural)]
pub struct MemoryHeap {
    pub size: u64,
    pub flags: u32,
}

/// What the engine reads of one physical device: its raw
/// `VkPhysicalDeviceType` and its memory heaps.
#[derive(Debug)]
pub struct PhysicalDeviceInfo {
    pub device_type: i32,
    pub heaps: Vec<MemoryHeap>,
}

/// The engine's choice among the physical devices: the position of the
/// chosen device and the device-local memory counted over all devices.
#[derive(Clone, Copy, Debug, PartialEq, Eq, Structural)]
pub struct PhysicalDeviceChoice {
    pub index: usize,
    pub memory: u64,
}

/// The position of the last discrete GPU among `types`, or 0 when there is none.
pub open spec fn chosen_device(types: Seq<i32>) -> int
    decreases types.len(),
{
    if types.len() == 0 {
        0
    } else if types.last() == DEVICE_TYPE_DISCRETE_GPU {
        types.len() - 1
    } else {
        chosen_device(types.drop_last())
    }
}

/// Bytes in the device-local heaps among `heaps`.
pub open spec fn local_bytes(heaps: Seq<MemoryHeap>) -> int
    decreases heaps.len(),
{
    if heaps.len() == 0 {
        0
    } else {
        local_bytes(heaps.drop_last()) + if heaps.last().flags & MEMORY_HEAP_DEVICE_LOCAL
            == MEMORY_HEAP_DEVICE_LOCAL {
            heaps.last().size as int
        } else {
            0
        }
    }
}

/// Bytes in the device-local heaps of all the devices in `devices`.
pub open spec fn all_local_bytes(devices: Seq<PhysicalDeviceInfo>) -> int
    decreases devices.len(),
{
    if devices.len() == 0 {
        0
    } else {
        all_local_bytes(devices.drop_last()) + local_bytes(devices.last().heaps@)
    }
}

/// The device types of `devices`, in order.
pub open spec fn device_types(devices: Seq<PhysicalDeviceInfo>) -> Seq<i32> {
    devices.map_values(|d: PhysicalDeviceInfo| d.device_type)
}

proof fn lemma_local_bytes_nonneg(heaps: Seq<MemoryHeap>)
    ensures
        local_bytes(heaps) >= 0,
    decreases heaps.len(),
{
    if heaps.len() > 0 {
        lemma_local_bytes_nonneg(heaps.drop_last());
    }
}

proof fn lemma_all_local_bytes_monotone(devices: Seq<PhysicalDeviceInfo>, k: int)
    requires
        0 <= k <= devices.len(),
    ensures
        0 <= all_local_bytes(devices.take(k)) <= all_local_bytes(devices),
    decreases devices.len() - k,
{
    if k < devices.len() {
        assert(devices.take(k + 1).drop_last() =~= devices.take(k));
        assert(devices.take(k + 1).last() == devices[k]);
        lemma_local_bytes_nonneg(devices[k].heaps@);
        lemma_all_local_bytes_monotone(devices, k + 1);
        lemma_all_local_bytes_nonneg(devices.take(k));
    } else {
        assert(devices.take(k) =~= devices);
        lemma_all_local_bytes_nonneg(devices);
    }
}

proof fn lemma_all_local_bytes_nonneg(devices: Seq<PhysicalDeviceInfo>)
    ensures
        all_local_bytes(devices) >= 0,
    decreases devices.len(),
{
    if devices.len() > 0 {
        lemma_all_local_bytes_nonneg(devices.drop_last());
        lemma_local_bytes_nonneg(devices.last().heaps@);
    }
}

proof fn lemma_local_bytes_prefix(heaps: Seq<MemoryHeap>, k: int)
    requires
        0 <= k <= heaps.len(),
    ensures
        0 <= local_bytes(heaps.take(k)) <= local_bytes(heaps),
    decreases heaps.len() - k,
{
    if k < heaps.len() {
        assert(heaps.take(k + 1).drop_last() =~= heaps.take(k));
        lemma_local_bytes_prefix(heaps, k + 1);
    } else {
        assert(heaps.take(k) =~= heaps);
    }
    lemma_local_bytes_nonneg(heaps.take(k));
}

/// No heap counts toward an empty list of heaps.
pub proof fn lemma_local_bytes_empty()
    ensures
        local_bytes(Seq::<MemoryHeap>::empty()) == 0,
{
}

/// Adding a heap adds its whole size to the count when it is device-local,
/// and nothing otherwise.
pub proof fn lemma_local_bytes_push(heaps: Seq<MemoryHeap>, h: MemoryHeap)
    ensures
        local_bytes(heaps.push(h)) == local_bytes(heaps) + if h.flags & MEMORY_HEAP_DEVICE_LOCAL
            == MEMORY_HEAP_DEVICE_LOCAL {
            h.size as int
        } else {
            0
        },
{
    assert(heaps.push(h).drop_last() =~= heaps);
}

/// The count of two lists of heaps together is the sum of their counts.
pub proof fn lemma_local_bytes_concat(a: Seq<MemoryHeap>, b: Seq<MemoryHeap>)
    ensures
        local_bytes(a + b) == local_bytes(a) + local_bytes(b),
    decreases b.len(),
{
    if b.len() == 0 {
        assert(a + b =~= a);
    } else {
        lemma_local_bytes_concat(a, b.drop_last());
        assert((a + b).drop_last() =~= a + b.drop_last());
        assert((a + b).last() == b.last());
    }
}

/// A list whose heaps are all device-local counts the sum of all their sizes;
/// a list with no device-local heap counts nothing.
pub proof fn lemma_local_bytes_extremes(heaps: Seq<MemoryHeap>)
    ensures
        (forall|i: int| 0 <= i < heaps.len() ==> heaps[i].flags & MEMORY_HEAP_DEVICE_LOCAL
            != MEMORY_HEAP_DEVICE_LOCAL) ==> local_bytes(heaps) == 0,
        (forall|i: int| 0 <= i < heaps.len() ==> heaps[i].flags & MEMORY_HEAP_DEVICE_LOCAL
            == MEMORY_HEAP_DEVICE_LOCAL) ==> local_bytes(heaps) == heaps.fold_left(
            0int,
            |acc: int, h: MemoryHeap| acc + h.size,
        ),
    decreases heaps.len(),
{
    if heaps.len() > 0 {
        let rest = heaps.drop_last();
        lemma_local_bytes_extremes(rest);
        if forall|i: int| 0 <= i < heaps.len() ==> heaps[i].flags & MEMORY_HEAP_DEVICE_LOCAL
            != MEMORY_HEAP_DEVICE_LOCAL {
            assert forall|i: int| 0 <= i < rest.len() implies rest[i].flags & MEMORY_HEAP_DEVICE_LOCAL
                != MEMORY_HEAP_DEVICE_LOCAL by {
                assert(rest[i] == heaps[i]);
            }
            assert(heaps[heaps.len() - 1] == heaps.last());
        }
        if forall|i: int| 0 <= i < heaps.len() ==> heaps[i].flags & MEMORY_HEAP_DEVICE_LOCAL
            == MEMORY_HEAP_DEVICE_LOCAL {
            assert forall|i: int| 0 <= i < rest.len() implies rest[i].flags & MEMORY_HEAP_DEVICE_LOCAL
                == MEMORY_HEAP_DEVICE_LOCAL by {
                assert(rest[i] == heaps[i]);
            }
            assert(heaps[heaps.len() - 1] == heaps.last());
        }
    }
}

/// Adding a device adds the count of its heaps to the total.
pub proof fn lemma_all_local_bytes_push(devices: Seq<PhysicalDeviceInfo>, d: PhysicalDeviceInfo)
    ensures
        all_local_bytes(devices.push(d)) == all_local_bytes(devices) + local_bytes(d.heaps@),
        all_local_bytes(Seq::<PhysicalDeviceInfo>::empty()) == 0,
{
    assert(devices.push(d).drop_last() =~= devices);
}

/// The chosen position is a device of the list, and it is a discrete GPU
/// whenever the list holds one; no discrete GPU comes after it.
pub proof fn lemma_chosen_device(types: Seq<i32>)
    requires
        types.len() > 0,
    ensures
        0 <= chosen_device(types) < types.len(),
        (exists|i: int| 0 <= i < types.len() && types[i] == DEVICE_TYPE_DISCRETE_GPU)
            ==> types[chosen_device(types)] == DEVICE_TYPE_DISCRETE_GPU,
        forall|i: int| chosen_device(types) < i < types.len() ==> types[i] != DEVICE_TYPE_DISCRETE_GPU,
        (forall|i: int| 0 <= i < types.len() ==> types[i] != DEVICE_TYPE_DISCRETE_GPU)
            ==> chosen_device(types) == 0,
    decreases types.len(),
{
    if types.len() == 1 && types.last() != DEVICE_TYPE_DISCRETE_GPU {
        assert(chosen_device(types.drop_last()) == 0);
    } else if types.len() > 1 && types.last() != DEVICE_TYPE_DISCRETE_GPU {
        let rest = types.drop_last();
        lemma_chosen_device(rest);
        if forall|i: int| 0 <= i < types.len() ==> types[i] != DEVICE_TYPE_DISCRETE_GPU {
            assert forall|i: int| 0 <= i < rest.len() implies rest[i] != DEVICE_TYPE_DISCRETE_GPU by {
                assert(rest[i] == types[i]);
            }
        }
        if exists|i: int| 0 <= i < types.len() && types[i] == DEVICE_TYPE_DISCRETE_GPU {
            let i = choose|i: int| 0 <= i < types.len() && types[i] == DEVICE_TYPE_DISCRETE_GPU;
            assert(rest[i] == DEVICE_TYPE_DISCRETE_GPU);
        }
        assert forall|i: int| chosen_device(types) < i < types.len() implies types[i]
            != DEVICE_TYPE_DISCRETE_GPU by {
            if i < types.len() - 1 {
                assert(rest[i] == types[i]);
            }
        }
    }
}

impl PixelEngine {
    /// Sums the sizes of the device-local heaps among `heaps`, adding to `total`.
    fn add_local_heaps(heaps: &Vec<MemoryHeap>, total: u64) -> (sum: u64)
        requires
            total + local_bytes(heaps@) <= u64::MAX,
        ensures
            sum == total + local_bytes(heaps@),
    {
        let mut sum = total;
        let mut i: usize = 0;
        while i < heaps.len()
            invariant
                i <= heaps.len(),
                total + local_bytes(heaps@) <= u64::MAX,
                sum == total + local_bytes(heaps@.take(i as int)),
            decreases heaps.len() - i,
        {
            assert(heaps@.take(i + 1).drop_last() =~= heaps@.take(i as int));
            proof {
                lemma_local_bytes_prefix(heaps@, i + 1);
            }
            if memory_heap_flags_contain(heaps[i].flags, MEMORY_HEAP_DEVICE_LOCAL) {
                sum = sum + heaps[i].size;
            }
            i += 1;
        }
        assert(heaps@.take(heaps.len() as int) =~= heaps@);
        sum
    }

    /// Whether the device-local memory of all the devices together fits in
    /// 64 bits, so that it can be counted in a `u64`.
    pub fn device_local_memory_fits(devices: &Vec<PhysicalDeviceInfo>) -> (fits: bool)
        ensures
            fits == (all_local_bytes(devices@) <= u64::MAX),
    {
        let mut total: u64 = 0;
        let mut n: usize = 0;
        while n < devices.len()
            invariant
                n <= devices.len(),
                total == all_local_bytes(devices@.take(n as int)),
            decreases devices.len() - n,
        {
            let heaps = &devices[n].heaps;
            proof {
                assert(devices@.take(n + 1).drop_last() =~= devices@.take(n as int));
                assert(devices@.take(n + 1).last() == devices@[n as int]);
                lemma_all_local_bytes_monotone(devices@, n + 1);
            }
            let mut k: usize = 0;
            while k < heaps.len()
                invariant
                    k <= heaps.len(),
                    n < devices.len(),
                    heaps == devices@[n as int].heaps,
                    all_local_bytes(devices@.take(n + 1)) <= all_local_bytes(devices@),
                    all_local_bytes(devices@.take(n + 1)) == all_local_bytes(devices@.take(n as int))
                        + local_bytes(heaps@),
                    total == all_local_bytes(devices@.take(n as int)) + local_bytes(heaps@.take(k as int)),
                decreases heaps.len() - k,
            {
                proof {
                    assert(heaps@.take(k + 1).drop_last() =~= heaps@.take(k as int));
                    lemma_local_bytes_prefix(heaps@, k + 1);
                }
                if memory_heap_flags_contain(heaps[k].flags, MEMORY_HEAP_DEVICE_LOCAL) {
                    match total.checked_add(heaps[k].size) {
                        Some(sum) => {
                            total = sum;
                        },
                        None => {
                            return false;
                        },
                    }
                }
                k += 1;
            }
            assert(heaps@.take(heaps.len() as int) =~= heaps@);
            n += 1;
        }
        assert(devices@.take(devices.len() as int) =~= devices@);
        true
    }

    /// Chooses the physical device the engine runs on (the last discrete
    /// GPU, else the first device) and counts the device-local memory of
    /// all the devices together.
    pub fn choose_physical_device(devices: &Vec<PhysicalDeviceInfo>) -> (choice: PhysicalDeviceChoice)
        requires
            devices.len() > 0,
            all_local_bytes(devices@) <= u64::MAX,
        ensures
            choice.index == chosen_device(device_types(devices@)),
            choice.memory == all_local_bytes(devices@),
            choice.index < devices.len(),
            (exists|i: int| 0 <= i < devices.len() && devices@[i].device_type == DEVICE_TYPE_DISCRETE_GPU)
                ==> devices@[choice.index as int].device_type == DEVICE_TYPE_DISCRETE_GPU,
            forall|i: int|
                choice.index < i < devices.len() ==> devices@[i].device_type != DEVICE_TYPE_DISCRETE_GPU,
            (forall|i: int| 0 <= i < devices.len() ==> devices@[i].device_type != DEVICE_TYPE_DISCRETE_GPU)
                ==> choice.index == 0,
    {
        let mut index: usize = 0;
        let mut memory: u64 = 0;
        let mut n: usize = 0;
        while n < devices.len()
            invariant
                n <= devices.len(),
                all_local_bytes(devices@) <= u64::MAX,
                index == chosen_device(device_types(devices@.take(n as int))),
                memory == all_local_bytes(devices@.take(n as int)),
            decreases devices.len() - n,
        {
            assert(devices@.take(n + 1).drop_last() =~= devices@.take(n as int));
            assert(device_types(devices@.take(n + 1)).drop_last() =~= device_types(devices@.take(n as int)));
            proof {
                lemma_all_local_bytes_monotone(devices@, n + 1);
                lemma_local_bytes_nonneg(devices@[n as int].heaps@);
            }
            memory = Self::add_local_heaps(&devices[n].heaps, memory);
            if devices[n].device_type == DEVICE_TYPE_DISCRETE_GPU {
                index = n;
            }
            n += 1;
        }
        assert(devices@.take(devices.len() as int) =~= devices@);
        proof {
            lemma_chosen_device(device_types(devices@));
            if exists|i: int| 0 <= i < devices.len() && devices@[i].device_type == DEVICE_TYPE_DISCRETE_GPU {
                let i = choose|i: int|
                    0 <= i < devices.len() && devices@[i].device_type == DEVICE_TYPE_DISCRETE_GPU;
                assert(device_types(devices@)[i] == DEVICE_TYPE_DISCRETE_GPU);
            }
            assert forall|i: int| index < i < devices.len() implies devices@[i].device_type
                != DEVICE_TYPE_DISCRETE_GPU by {
                assert(device_types(devices@)[i] == devices@[i].device_type);
            }
            if forall|i: int| 0 <= i < devices.len() ==> devices@[i].device_type != DEVICE_TYPE_DISCRETE_GPU {
                assert forall|i: int| 0 <= i < devices.len() implies device_types(devices@)[i]
                    != DEVICE_TYPE_DISCRETE_GPU by {
                    assert(device_types(devices@)[i] == devices@[i].device_type);
                }
            }
        }
        PhysicalDeviceChoice { index, memory }
    }
}

} // verus!
