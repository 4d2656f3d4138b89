//! Choice of the physical device and its queue families.
//!
//! At startup the engine looks at every graphics device the system
//! offers, keeps those that support the required extensions and can
//! serve every required queue kind, and among those prefers a discrete
//! GPU over an integrated one, an integrated one over a virtual one, and
//! so on. The device properties are plain values here; enumerating the
//! hardware happens outside this crate.

use vstd::prelude::*;

verus! {

/// Queue capability bit for graphics work.
pub const QUEUE_GRAPHICS: u32 = 0x1;

/// Queue capability bit for compute work.
pub const QUEUE_COMPUTE: u32 = 0x2;

/// Queue capability bit for transfer work.
pub const QUEUE_TRANSFER: u32 = 0x4;

/// Whether a queue family's capability bits include all required bits.
pub open spec fn flags_contain(flags: u32, required: u32) -> bool {
    flags & required == required
}

/// The kind of hardware a graphics device reports itself as.
#[derive(Clone, Copy, Debug, PartialEq, Eq, Structural)]
pub enum DeviceKind {
    DiscreteGpu,
    IntegratedGpu,
    VirtualGpu,
    Cpu,
    Other,
    Unknown,
}

/// The preference rank of a device kind; lower is better.
pub open spec fn device_rank(kind: DeviceKind) -> u32 {
    match kind {
        DeviceKind::DiscreteGpu => 0,
        DeviceKind::IntegratedGpu => 1,
        DeviceKind::VirtualGpu => 2,
        DeviceKind::Cpu => 3,
        DeviceKind::Other => 4,
        DeviceKind::Unknown => 5,
    }
}

/// One graphics device as the selection logic sees it: whether it
/// supports the required extensions, what kind of hardware it is, and
/// the capability bits of each of its queue families.
#[derive(Clone, Debug)]
pub struct DeviceCandidate {
    pub supports_extensions: bool,
    pub kind: DeviceKind,
    pub queue_flags: Vec<u32>,
}

/// The queue family indices a renderer needs.
#[derive(Clone, Copy, Debug, PartialEq, Eq, Structural)]
pub struct QueueFamilies {
    pub graphics: u32,
    pub transfer: u32,
}

impl DeviceKind {
    /// The preference rank of this device kind; lower is better.
    pub fn rank(self) -> (r: u32)
        ensures
            r == device_rank(self),
    {
        match self {
            DeviceKind::DiscreteGpu => 0,
            DeviceKind::IntegratedGpu => 1,
            DeviceKind::VirtualGpu => 2,
            DeviceKind::Cpu => 3,
            DeviceKind::Other => 4,
            DeviceKind::Unknown => 5,
        }
    }
}

/// The first queue family whose capabilities include the required bits,
/// if any does.
pub open spec fn first_family(required: u32, families: Seq<u32>) -> Option<int>
    decreases families.len(),
{
    if families.len() == 0 {
        None
    } else if flags_contain(families[0], required) {
        Some(0)
    } else {
        match first_family(required, families.skip(1)) {
            Some(i) => Some(i + 1),
            None => None,
        }
    }
}

proof fn lemma_first_family_at(required: u32, families: Seq<u32>, i: int)
    requires
        0 <= i < families.len(),
        flags_contain(families[i], required),
        forall|j: int| 0 <= j < i ==> !flags_contain(#[trigger] families[j], required),
    ensures
        first_family(required, families) == Some(i),
    decreases i,
{
    if i > 0 {
        assert(families.skip(1)[i - 1] == families[i]);
        assert forall|j: int| 0 <= j < i - 1 implies !flags_contain(
            #[trigger] families.skip(1)[j],
            required,
        ) by {
            assert(families.skip(1)[j] == families[j + 1]);
        }
        lemma_first_family_at(required, families.skip(1), i - 1);
    }
}

proof fn lemma_first_family_none(required: u32, families: Seq<u32>)
    requires
        forall|j: int|
            0 <= j < families.len() ==> !flags_contain(#[trigger] families[j], required),
    ensures
        first_family(required, families) is None,
    decreases families.len(),
{
    if families.len() > 0 {
        assert forall|j: int| 0 <= j < families.len() - 1 implies !flags_contain(
            #[trigger] families.skip(1)[j],
            required,
        ) by {
            assert(families.skip(1)[j] == families[j + 1]);
        }
        lemma_first_family_none(required, families.skip(1));
    }
}

/// Finds the first queue family of a device whose capability bits
/// include every required bit.
pub fn find_queue_family(required_flags: u32, families: &Vec<u32>) -> (r: Option<usize>)
    ensures
        match r {
            Option::Some(i) => {
                &&& i < families@.len()
                &&& flags_contain(families@[i as int], required_flags)
                &&& forall|j: int|
                    0 <= j < i ==> !flags_contain(#[trigger] families@[j], required_flags)
                &&& first_family(required_flags, families@) == Some(i as int)
            },
            Option::None => {
                &&& forall|j: int|
                    0 <= j < families@.len() ==> !flags_contain(
                        #[trigger] families@[j],
                        required_flags,
                    )
                &&& first_family(required_flags, families@) is None
            },
        },
{
    let n = families.len();
    let mut i: usize = 0;
    while i < n
        invariant
            n == families@.len(),
            i <= n,
            forall|j: int| 0 <= j < i ==> !flags_contain(#[trigger] families@[j], required_flags),
        decreases n - i,
    {
        if families[i] & required_flags == required_flags {
            proof {
                lemma_first_family_at(required_flags, families@, i as int);
            }
            return Some(i);
        }
        i = i + 1;
    }
    proof {
        lemma_first_family_none(required_flags, families@);
    }
    None
}

/// Whether `qs` is the selection of queue family indices for the given
/// required capabilities and families: the first matching family of each
/// required capability, listed in increasing order without repetition.
pub open spec fn is_family_selection(required: Seq<u32>, families: Seq<u32>, qs: Seq<u32>) -> bool {
    &&& forall|a: int, b: int| 0 <= a < b < qs.len() ==> qs[a] < qs[b]
    &&& forall|x: u32|
        #[trigger] qs.contains(x) <==> exists|k: int|
            0 <= k < required.len() && first_family(#[trigger] required[k], families) == Some(
                x as int,
            )
}

/// Finds, for each required set of capability bits, the first queue
/// family of the device that offers it, and hands the family indices
/// back in increasing order without repetition; nothing if some
/// requirement no family can serve.
#[verifier::rlimit(50)]
pub fn find_queue_families(required_flags: &Vec<u32>, families: &Vec<u32>) -> (r: Option<Vec<u32>>)
    requires
        families@.len() <= u32::MAX,
    ensures
        match r {
            Option::Some(qs) => is_family_selection(required_flags@, families@, qs@) && (
            forall|k: int|
                0 <= k < required_flags@.len() ==> first_family(
                    #[trigger] required_flags@[k],
                    families@,
                ) is Some),
            Option::None => exists|k: int|
                0 <= k < required_flags@.len() && first_family(
                    #[trigger] required_flags@[k],
                    families@,
                ) is None,
        },
{
    let n = required_flags.len();
    let mut picked: Vec<u32> = Vec::new();
    let mut i: usize = 0;
    while i < n
        invariant
            n == required_flags@.len(),
            i <= n,
            families@.len() <= u32::MAX,
            forall|k: int|
                0 <= k < i ==> first_family(#[trigger] required_flags@[k], families@) is Some,
            forall|x: u32|
                #[trigger] picked@.contains(x) <==> exists|k: int|
                    0 <= k < i && first_family(#[trigger] required_flags@[k], families@) == Some(
                        x as int,
                    ),
        decreases n - i,
    {
        match find_queue_family(required_flags[i], families) {
            Option::Some(family) => {
                let ghost pre = picked@;
                picked.push(family as u32);
                proof {
                    assert forall|x: u32| #[trigger] picked@.contains(x) implies exists|k: int|
                        0 <= k < i + 1 && first_family(#[trigger] required_flags@[k], families@)
                            == Some(x as int) by {
                        if pre.contains(x) {
                            let k = choose|k: int|
                                0 <= k < i && first_family(
                                    #[trigger] required_flags@[k],
                                    families@,
                                ) == Some(x as int);
                            assert(0 <= k < i + 1 && first_family(required_flags@[k], families@)
                                == Some(x as int));
                        } else {
                            let idx = choose|m: int| 0 <= m < picked@.len() && (#[trigger] picked@[m]) == x;
                            assert(picked@[picked@.len() - 1] == family as u32);
                            assert(x == family as u32);
                            assert(first_family(required_flags@[i as int], families@) == Some(
                                x as int,
                            ));
                        }
                    }
                    assert forall|x: u32|
                        exists|k: int|
                            0 <= k < i + 1 && first_family(
                                #[trigger] required_flags@[k],
                                families@,
                            ) == Some(x as int) implies picked@.contains(x) by {
                        let k = choose|k: int|
                            0 <= k < i + 1 && first_family(
                                #[trigger] required_flags@[k],
                                families@,
                            ) == Some(x as int);
                        if k < i {
                            assert(pre.contains(x));
                            assert(picked@[choose|m: int| 0 <= m < pre.len() && (#[trigger] pre[m]) == x]
                                == x);
                        } else {
                            assert(picked@[picked@.len() - 1] == x);
                        }
                    }
                }
            },
            Option::None => {
                return None;
            },
        }
        i = i + 1;
    }
    let sorted = sort_dedup(picked);
    Some(sorted)
}

/// Sorts a vector of family indices and removes repetitions, leaving
/// exactly the distinct values it held, in increasing order.
fn sort_dedup(v: Vec<u32>) -> (r: Vec<u32>)
    ensures
        forall|a: int, b: int| 0 <= a < b < r@.len() ==> r@[a] < r@[b],
        forall|x: u32| #[trigger] r@.contains(x) <==> v@.contains(x),
{
    let mut r: Vec<u32> = Vec::new();
    let n = v.len();
    let mut i: usize = 0;
    while i < n
        invariant
            n == v@.len(),
            i <= n,
            forall|a: int, b: int| 0 <= a < b < r@.len() ==> r@[a] < r@[b],
            forall|x: u32| #[trigger] r@.contains(x) <==> v@.take(i as int).contains(x),
        decreases n - i,
    {
        let x = v[i];
        let inserted = insert_unique_sorted(&mut r, x);
        proof {
            assert(v@.take(i + 1).drop_last() =~= v@.take(i as int));
            assert(v@.take(i + 1).last() == x);
            assert forall|y: u32| #[trigger] v@.take(i + 1).contains(y) implies r@.contains(
                y,
            ) by {
                if y != x {
                    let m = choose|m: int| 0 <= m < i + 1 && (#[trigger] v@.take(i + 1)[m]) == y;
                    assert(v@.take(i as int)[m] == y);
                    assert(v@.take(i as int).contains(y));
                }
            }
            assert forall|y: u32| #[trigger] r@.contains(y) implies v@.take(i + 1).contains(
                y,
            ) by {
                if y == x {
                    assert(v@.take(i + 1)[i as int] == x);
                } else {
                    let m = choose|m: int| 0 <= m < i && (#[trigger] v@.take(i as int)[m]) == y;
                    assert(v@.take(i + 1)[m] == y);
                }
            }
        }
        let _ = inserted;
        i = i + 1;
    }
    proof {
        assert(v@.take(n as int) =~= v@);
    }
    r
}

/// Inserts a value into a strictly increasing vector, keeping it
/// strictly increasing; a value already present is left alone.
fn insert_unique_sorted(r: &mut Vec<u32>, x: u32) -> (inserted: bool)
    requires
        forall|a: int, b: int| 0 <= a < b < old(r)@.len() ==> old(r)@[a] < old(r)@[b],
    ensures
        forall|a: int, b: int| 0 <= a < b < final(r)@.len() ==> final(r)@[a] < final(r)@[b],
        forall|y: u32| #[trigger] final(r)@.contains(y) <==> (old(r)@.contains(y) || y == x),
{
    let n = r.len();
    let mut i: usize = 0;
    while i < n && r[i] < x
        invariant
            n == r@.len(),
            i <= n,
            forall|a: int, b: int| 0 <= a < b < r@.len() ==> r@[a] < r@[b],
            forall|a: int| 0 <= a < i ==> r@[a] < x,
        decreases n - i,
    {
        i = i + 1;
    }
    if i < n && r[i] == x {
        proof {
            assert(r@[i as int] == x);
        }
        return false;
    }
    let ghost pre = r@;
    r.insert(i, x);
    proof {
        assert forall|a: int, b: int| 0 <= a < b < r@.len() implies r@[a] < r@[b] by {
            if b < i {
                assert(r@[a] == pre[a] && r@[b] == pre[b]);
            } else if a > i {
                assert(r@[a] == pre[a - 1] && r@[b] == pre[b - 1]);
            } else if b == i {
                assert(r@[b] == x && r@[a] == pre[a]);
            } else if a == i {
                assert(r@[a] == x && r@[b] == pre[b - 1]);
                assert(b - 1 >= i);
                if i < pre.len() {
                    assert(pre[i as int] > x || pre[i as int] < x);
                    assert(!(pre[i as int] < x));
                }
                if b - 1 == i {
                    assert(r@[b] == pre[i as int]);
                } else {
                    assert(pre[i as int] < pre[b - 1]);
                }
            } else {
                assert(a < i && b > i);
                assert(r@[a] == pre[a] && r@[b] == pre[b - 1]);
                assert(pre[a] < x);
                if b - 1 == i {
                    assert(r@[b] == pre[i as int]);
                    assert(!(pre[i as int] < x));
                } else {
                    assert(!(pre[i as int] < x));
                    assert(pre[i as int] <= pre[b - 1]);
                }
            }
        }
        assert forall|y: u32| #[trigger] r@.contains(y) implies (pre.contains(y) || y == x) by {
            let m = choose|m: int| 0 <= m < r@.len() && (#[trigger] r@[m]) == y;
            if m < i {
                assert(pre[m] == y);
            } else if m > i {
                assert(pre[m - 1] == y);
            }
        }
        assert forall|y: u32| pre.contains(y) || y == x implies #[trigger] r@.contains(y) by {
            if y == x {
                assert(r@[i as int] == x);
            } else {
                let m = choose|m: int| 0 <= m < pre.len() && (#[trigger] pre[m]) == y;
                if m < i {
                    assert(r@[m] == y);
                } else {
                    assert(r@[m + 1] == y);
                }
            }
        }
    }
    true
}

/// The family of the first created queue whose family's capability bits
/// include the required ones, walking the queues in creation order.
/// `queue_families` gives each queue's family index; `family_flags` the
/// capability bits of each family.
pub open spec fn first_queue_family(required: u32, queue_families: Seq<u32>, family_flags: Seq<u32>) -> Option<u32>
    decreases queue_families.len(),
{
    if queue_families.len() == 0 {
        None
    } else if flags_contain(family_flags[queue_families[0] as int], required) {
        Some(queue_families[0])
    } else {
        first_queue_family(required, queue_families.skip(1), family_flags)
    }
}

proof fn lemma_first_queue_family_at(
    required: u32,
    queue_families: Seq<u32>,
    family_flags: Seq<u32>,
    i: int,
)
    requires
        0 <= i < queue_families.len(),
        flags_contain(family_flags[queue_families[i] as int], required),
        forall|j: int|
            0 <= j < i ==> !flags_contain(
                family_flags[(#[trigger] queue_families[j]) as int],
                required,
            ),
    ensures
        first_queue_family(required, queue_families, family_flags) == Some(queue_families[i]),
    decreases i,
{
    if i > 0 {
        assert(queue_families.skip(1)[i - 1] == queue_families[i]);
        assert forall|j: int| 0 <= j < i - 1 implies !flags_contain(
            family_flags[(#[trigger] queue_families.skip(1)[j]) as int],
            required,
        ) by {
            assert(queue_families.skip(1)[j] == queue_families[j + 1]);
        }
        lemma_first_queue_family_at(required, queue_families.skip(1), family_flags, i - 1);
    }
}

proof fn lemma_first_queue_family_none(
    required: u32,
    queue_families: Seq<u32>,
    family_flags: Seq<u32>,
)
    requires
        forall|j: int|
            0 <= j < queue_families.len() ==> !flags_contain(
                family_flags[(#[trigger] queue_families[j]) as int],
                required,
            ),
    ensures
        first_queue_family(required, queue_families, family_flags) is None,
    decreases queue_families.len(),
{
    if queue_families.len() > 0 {
        assert forall|j: int| 0 <= j < queue_families.len() - 1 implies !flags_contain(
            family_flags[(#[trigger] queue_families.skip(1)[j]) as int],
            required,
        ) by {
            assert(queue_families.skip(1)[j] == queue_families[j + 1]);
        }
        lemma_first_queue_family_none(required, queue_families.skip(1), family_flags);
    }
}

/// Finds the family of the first created queue that can serve the
/// required capability.
fn pick_queue(required: u32, queue_families: &Vec<u32>, family_flags: &Vec<u32>) -> (r: Option<
    u32,
>)
    requires
        forall|i: int|
            0 <= i < queue_families@.len() ==> (#[trigger] queue_families@[i])
                < family_flags@.len(),
    ensures
        r == first_queue_family(required, queue_families@, family_flags@),
{
    let n = queue_families.len();
    let mut i: usize = 0;
    while i < n
        invariant
            n == queue_families@.len(),
            i <= n,
            forall|k: int|
                0 <= k < queue_families@.len() ==> (#[trigger] queue_families@[k])
                    < family_flags@.len(),
            forall|j: int|
                0 <= j < i ==> !flags_contain(
                    family_flags@[(#[trigger] queue_families@[j]) as int],
                    required,
                ),
        decreases n - i,
    {
        let family = queue_families[i];
        if family_flags[family as usize] & required == required {
            proof {
                lemma_first_queue_family_at(required, queue_families@, family_flags@, i as int);
            }
            return Some(family);
        }
        i = i + 1;
    }
    proof {
        lemma_first_queue_family_none(required, queue_families@, family_flags@);
    }
    None
}

/// Picks the graphics and transfer queue families a renderer works
/// with: for each of the two capabilities, the family of the first
/// created queue that offers it; nothing when either capability has no
/// queue.
pub fn pick_queue_families(queue_families: &Vec<u32>, family_flags: &Vec<u32>) -> (r: Option<
    QueueFamilies,
>)
    requires
        forall|i: int|
            0 <= i < queue_families@.len() ==> (#[trigger] queue_families@[i])
                < family_flags@.len(),
    ensures
        match r {
            Option::Some(qf) => Some(qf.graphics) == first_queue_family(
                QUEUE_GRAPHICS,
                queue_families@,
                family_flags@,
            ) && Some(qf.transfer) == first_queue_family(
                QUEUE_TRANSFER,
                queue_families@,
                family_flags@,
            ),
            Option::None => first_queue_family(QUEUE_GRAPHICS, queue_families@, family_flags@)
                is None || first_queue_family(
                QUEUE_TRANSFER,
                queue_families@,
                family_flags@,
            ) is None,
        },
{
    let graphics = pick_queue(QUEUE_GRAPHICS, queue_families, family_flags);
    let transfer = pick_queue(QUEUE_TRANSFER, queue_families, family_flags);
    match (graphics, transfer) {
        (Option::Some(g), Option::Some(t)) => Some(QueueFamilies { graphics: g, transfer: t }),
        _ => None,
    }
}

/// Whether a device can serve the renderer: it supports the required
/// extensions and has a queue family for every required capability.
pub open spec fn eligible(required: Seq<u32>, d: DeviceCandidate) -> bool {
    &&& d.supports_extensions
    &&& forall|k: int|
        0 <= k < required.len() ==> first_family(#[trigger] required[k], d.queue_flags@) is Some
}

/// Picks the graphics device to render with: among the devices that
/// support the required extensions and can serve every required queue
/// capability, the first of the best-ranked kind, together with its
/// selected queue family indices; nothing when no device can serve.
pub fn select_physical_device(required_flags: &Vec<u32>, devices: &Vec<DeviceCandidate>) -> (r:
    Option<(usize, Vec<u32>)>)
    requires
        forall|i: int|
            0 <= i < devices@.len() ==> (#[trigger] devices@[i]).queue_flags@.len() <= u32::MAX,
    ensures
        match r {
            Option::Some(p) => {
                &&& p.0 < devices@.len()
                &&& eligible(required_flags@, devices@[p.0 as int])
                &&& is_family_selection(
                    required_flags@,
                    devices@[p.0 as int].queue_flags@,
                    p.1@,
                )
                &&& forall|j: int|
                    0 <= j < devices@.len() && eligible(required_flags@, #[trigger] devices@[j])
                        ==> device_rank(devices@[p.0 as int].kind) <= device_rank(
                        devices@[j].kind,
                    )
                &&& forall|j: int|
                    0 <= j < p.0 && eligible(required_flags@, #[trigger] devices@[j])
                        ==> device_rank(devices@[p.0 as int].kind) < device_rank(
                        devices@[j].kind,
                    )
            },
            Option::None => forall|j: int|
                0 <= j < devices@.len() ==> !eligible(required_flags@, #[trigger] devices@[j]),
        },
{
    let n = devices.len();
    let mut best: Option<(usize, Vec<u32>)> = None;
    let mut i: usize = 0;
    while i < n
        invariant
            n == devices@.len(),
            i <= n,
            forall|d: int|
                0 <= d < devices@.len() ==> (#[trigger] devices@[d]).queue_flags@.len()
                    <= u32::MAX,
            match best {
                Option::Some(p) => {
                    &&& p.0 < i
                    &&& eligible(required_flags@, devices@[p.0 as int])
                    &&& is_family_selection(
                        required_flags@,
                        devices@[p.0 as int].queue_flags@,
                        p.1@,
                    )
                    &&& forall|j: int|
                        0 <= j < i && eligible(required_flags@, #[trigger] devices@[j])
                            ==> device_rank(devices@[p.0 as int].kind) <= device_rank(
                            devices@[j].kind,
                        )
                    &&& forall|j: int|
                        0 <= j < p.0 && eligible(required_flags@, #[trigger] devices@[j])
                            ==> device_rank(devices@[p.0 as int].kind) < device_rank(
                            devices@[j].kind,
                        )
                },
                Option::None => forall|j: int|
                    0 <= j < i ==> !eligible(required_flags@, #[trigger] devices@[j]),
            },
        decreases n - i,
    {
        if devices[i].supports_extensions {
            match find_queue_families(required_flags, &devices[i].queue_flags) {
                Option::Some(qs) => {
                    proof {
                        assert(eligible(required_flags@, devices@[i as int]));
                    }
                    let replace = match &best {
                        Option::Some(p) => devices[i].kind.rank() < devices[p.0].kind.rank(),
                        Option::None => true,
                    };
                    if replace {
                        best = Some((i, qs));
                    }
                },
                Option::None => {
                    proof {
                        assert(!eligible(required_flags@, devices@[i as int]));
                    }
                },
            }
        } else {
            proof {
                assert(!eligible(required_flags@, devices@[i as int]));
            }
        }
        i = i + 1;
    }
    best
}

} // verus!
