use vstd::prelude::*;

use crate::errors::VulkanError;

verus! {

/// The type a physical device reports at enumeration time, as far as the
/// selector reads it. `Cpu` and `Other` stand for every reported type that
/// is not a discrete, integrated or virtual GPU.
#[derive(Clone, Copy, Debug, PartialEq, Eq, Structural)]
pub enum DeviceType {
    Discrete,
    Integrated,
    Virtual,
    Cpu,
    Other,
}

/// The selector's preference order: higher is better, zero is unsupported.
pub open spec fn rank(t: DeviceType) -> int {
    match t {
        DeviceType::Discrete => 3,
        DeviceType::Integrated => 2,
        DeviceType::Virtual => 1,
        DeviceType::Cpu => 0,
        DeviceType::Other => 0,
    }
}

/// A device type the selector accepts as a candidate.
pub open spec fn is_candidate(t: DeviceType) -> bool {
    rank(t) >= 1
}

/// `this` displaces the current best exactly when its type strictly
/// outranks the best's type: discrete beats integrated and virtual,
/// integrated beats virtual, and every other pairing keeps the best.
pub open spec fn beats(this: DeviceType, best: DeviceType) -> bool {
    ||| this == DeviceType::Integrated && best == DeviceType::Virtual
    ||| this == DeviceType::Discrete && (best == DeviceType::Virtual
        || best == DeviceType::Integrated)
}

/// Index `i` is the device the ranking policy selects from `devices`:
/// a candidate of maximal rank, and the first index of that rank.
pub open spec fn is_selected(devices: Seq<DeviceType>, i: int) -> bool {
    &&& 0 <= i < devices.len()
    &&& is_candidate(devices[i])
    &&& forall|j: int| 0 <= j < devices.len() ==> rank(#[trigger] devices[j]) <= rank(devices[i])
    &&& forall|j: int| 0 <= j < i ==> rank(#[trigger] devices[j]) < rank(devices[i])
}

/// One fold step of the ranking policy: with no best yet, `this` becomes
/// best; otherwise `this` displaces the best only if its type beats it.
pub fn pick_between(devices: &Vec<DeviceType>, this: usize, best: Option<usize>) -> (r: Option<
    usize,
>)
    requires
        this < devices@.len(),
        best matches Some(b) ==> b < devices@.len(),
    ensures
        best is None ==> r == Some(this),
        best matches Some(b) ==> r == (if beats(devices@[this as int], devices@[b as int]) {
            Some(this)
        } else {
            Some(b)
        }),
{
    let b = match best {
        Some(b) => b,
        None => {
            return Some(this);
        },
    };
    let this_type = devices[this];
    let best_type = devices[b];
    if this_type == DeviceType::Integrated && best_type == DeviceType::Virtual {
        Some(this)
    } else if this_type == DeviceType::Discrete && (best_type == DeviceType::Virtual || best_type
        == DeviceType::Integrated) {
        Some(this)
    } else {
        Some(b)
    }
}

/// Folds the ranking policy over the enumerated device types, left to
/// right, skipping unsupported types, and returns the index of the single
/// selected device; fails with `NoSuitableDevice` when no device passes
/// the type filter.
pub fn pick_physical(devices: &Vec<DeviceType>) -> (r: Result<usize, VulkanError>)
    ensures
        match r {
            Ok(i) => is_selected(devices@, i as int),
            Err(e) => {
                &&& e == VulkanError::NoSuitableDevice
                &&& forall|j: int| 0 <= j < devices@.len() ==> !is_candidate(#[trigger] devices@[j])
            },
        },
{
    let mut selected: Option<usize> = None;
    let n = devices.len();
    let mut k: usize = 0;
    while k < n
        invariant
            n == devices@.len(),
            k <= n,
            selected is None ==> forall|j: int|
                0 <= j < k ==> !is_candidate(#[trigger] devices@[j]),
            selected matches Some(b) ==> {
                &&& b < k
                &&& is_candidate(devices@[b as int])
                &&& forall|j: int|
                    0 <= j < k ==> rank(#[trigger] devices@[j]) <= rank(devices@[b as int])
                &&& forall|j: int|
                    0 <= j < b ==> rank(#[trigger] devices@[j]) < rank(devices@[b as int])
            },
        decreases n - k,
    {
        let t = devices[k];
        match t {
            DeviceType::Virtual | DeviceType::Discrete | DeviceType::Integrated => {
                selected = pick_between(devices, k, selected);
            },
            _ => {},
        }
        k = k + 1;
    }
    if let Some(i) = selected {
        Ok(i)
    } else {
        Err(VulkanError::NoSuitableDevice)
    }
}

/// The ranking policy is deterministic: at most one index satisfies it.
pub proof fn lemma_selected_unique(devices: Seq<DeviceType>, i: int, j: int)
    requires
        is_selected(devices, i),
        is_selected(devices, j),
    ensures
        i == j,
{
    if i < j {
        assert(rank(devices[i]) < rank(devices[j]));
        assert(rank(devices[j]) <= rank(devices[i]));
    } else if j < i {
        assert(rank(devices[j]) < rank(devices[i]));
        assert(rank(devices[i]) <= rank(devices[j]));
    }
}

/// Whenever any discrete device is enumerated, the selected device is
/// discrete, wherever the discrete device stands in the enumeration.
pub proof fn lemma_discrete_wins(devices: Seq<DeviceType>, i: int, k: int)
    requires
        is_selected(devices, i),
        0 <= k < devices.len(),
        devices[k] == DeviceType::Discrete,
    ensures
        devices[i] == DeviceType::Discrete,
{
    assert(rank(devices[k]) <= rank(devices[i]));
}

/// Over a list of integrated and virtual devices only, with at least one
/// integrated device present, the selected device is integrated.
pub proof fn lemma_integrated_beats_virtual(devices: Seq<DeviceType>, i: int, k: int)
    requires
        is_selected(devices, i),
        forall|j: int|
            0 <= j < devices.len() ==> (#[trigger] devices[j] == DeviceType::Integrated
                || devices[j] == DeviceType::Virtual),
        0 <= k < devices.len(),
        devices[k] == DeviceType::Integrated,
    ensures
        devices[i] == DeviceType::Integrated,
{
    assert(rank(devices[k]) <= rank(devices[i]));
}

/// Stability of ties: no device of the selected device's type stands
/// before it in the enumeration, so the first-enumerated device of the
/// best type is the one selected.
pub proof fn lemma_first_of_best_type(devices: Seq<DeviceType>, i: int)
    requires
        is_selected(devices, i),
    ensures
        forall|j: int| 0 <= j < i ==> #[trigger] devices[j] != devices[i],
{
    assert forall|j: int| 0 <= j < i implies #[trigger] devices[j] != devices[i] by {
        assert(rank(devices[j]) < rank(devices[i]));
    }
}

} // verus!
