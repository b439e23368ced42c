use vstd::prelude::*;

verus! {

/// What the logical-device builder reads of one queue family's
/// properties: whether its queues advertise graphics-capable work, and
/// whether the family can present to the active display backend (as the
/// platform reports it).
#[derive(Clone, Copy, Debug, PartialEq, Eq, Structural)]
pub struct QueueFamilyInfo {
    pub supports_graphics: bool,
    pub supports_present: bool,
}

/// A family the builder can use: its queues do graphics work and can
/// present to the display backend, so the swapchain created later is
/// served by the same family.
pub open spec fn family_usable(f: QueueFamilyInfo) -> bool {
    f.supports_graphics && f.supports_present
}

/// Index `i` is the first queue family advertising both graphics and
/// presentation support.
pub open spec fn is_first_usable_family(families: Seq<QueueFamilyInfo>, i: int) -> bool {
    &&& 0 <= i < families.len()
    &&& family_usable(families[i])
    &&& forall|j: int| 0 <= j < i ==> !family_usable(#[trigger] families[j])
}

/// Scans the queue families in enumeration order and returns the index of
/// the first family advertising graphics-capable queues with presentation
/// support, or `None` when no family qualifies.
pub fn find_queue_family_index(families: &Vec<QueueFamilyInfo>) -> (r: Option<u32>)
    requires
        families@.len() <= u32::MAX,
    ensures
        match r {
            Some(i) => is_first_usable_family(families@, i as int),
            None => forall|j: int|
                0 <= j < families@.len() ==> !family_usable(#[trigger] families@[j]),
        },
{
    let mut index: u32 = 0;
    let n = families.len();
    let mut k: usize = 0;
    while k < n
        invariant
            n == families@.len(),
            n <= u32::MAX,
            k <= n,
            index == k,
            forall|j: int| 0 <= j < k ==> !family_usable(#[trigger] families@[j]),
        decreases n - k,
    {
        if families[k].supports_graphics && families[k].supports_present {
            return Some(index);
        }
        index = index + 1;
        k = k + 1;
    }
    None
}

} // verus!
