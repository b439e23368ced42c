use vstd::prelude::*;

use crate::errors::VulkanError;

verus! {

// An extension name is a byte string handed to the graphics API as a
// C string, so it must carry no interior NUL byte.

/// A name the API accepts: free of interior NUL bytes.
pub open spec fn valid_ext_name(name: Seq<u8>) -> bool {
    !name.contains(0u8)
}

/// Every name of the list is encodable as a C string.
pub open spec fn all_names_valid(names: Seq<Seq<u8>>) -> bool {
    forall|i: int| 0 <= i < names.len() ==> valid_ext_name(#[trigger] names[i])
}

/// No name occurs twice.
pub open spec fn no_duplicates(names: Seq<Seq<u8>>) -> bool {
    forall|i: int, j: int| 0 <= i < j < names.len() ==> names[i] != names[j]
}

/// The list with every repeated name dropped, keeping each name at its
/// first occurrence, in first-occurrence order.
pub open spec fn dedup_first(names: Seq<Seq<u8>>) -> Seq<Seq<u8>>
    decreases names.len(),
{
    if names.len() == 0 {
        Seq::empty()
    } else {
        let init = names.drop_last();
        let rest = dedup_first(init);
        if init.contains(names.last()) {
            rest
        } else {
            rest.push(names.last())
        }
    }
}

/// The negotiated list: the caller's names followed by the mandated
/// names, deduplicated.
pub open spec fn merged(caller: Seq<Seq<u8>>, mandated: Seq<Seq<u8>>) -> Seq<Seq<u8>> {
    dedup_first(caller + mandated)
}

/// How often `name` occurs in `names`.
pub open spec fn count_of(names: Seq<Seq<u8>>, name: Seq<u8>) -> nat
    decreases names.len(),
{
    if names.len() == 0 {
        0
    } else {
        count_of(names.drop_last(), name) + if names.last() == name {
            1nat
        } else {
            0nat
        }
    }
}

proof fn lemma_contains_push(names: Seq<Seq<u8>>, last: Seq<u8>, x: Seq<u8>)
    ensures
        names.push(last).contains(x) <==> (names.contains(x) || last == x),
{
    if names.push(last).contains(x) {
        let i = choose|i: int| 0 <= i < names.push(last).len() && names.push(last)[i] == x;
        if i < names.len() {
            assert(names[i] == x);
        }
    }
    if names.contains(x) {
        let i = choose|i: int| 0 <= i < names.len() && names[i] == x;
        assert(names.push(last)[i] == x);
    }
    if last == x {
        assert(names.push(last)[names.len() as int] == x);
    }
}

proof fn lemma_contains_concat(a: Seq<Seq<u8>>, b: Seq<Seq<u8>>, x: Seq<u8>)
    ensures
        (a + b).contains(x) <==> (a.contains(x) || b.contains(x)),
{
    if (a + b).contains(x) {
        let i = choose|i: int| 0 <= i < (a + b).len() && (a + b)[i] == x;
        if i < a.len() {
            assert(a[i] == x);
        } else {
            assert(b[i - a.len()] == x);
        }
    }
    if a.contains(x) {
        let i = choose|i: int| 0 <= i < a.len() && a[i] == x;
        assert((a + b)[i] == x);
    }
    if b.contains(x) {
        let i = choose|i: int| 0 <= i < b.len() && b[i] == x;
        assert((a + b)[a.len() + i] == x);
    }
}

proof fn lemma_dedup_contains(names: Seq<Seq<u8>>, x: Seq<u8>)
    ensures
        dedup_first(names).contains(x) <==> names.contains(x),
    decreases names.len(),
{
    if names.len() == 0 {
    } else {
        let init = names.drop_last();
        lemma_dedup_contains(init, x);
        lemma_contains_push(dedup_first(init), names.last(), x);
        lemma_contains_push(init, names.last(), x);
        assert(names =~= init.push(names.last()));
    }
}

proof fn lemma_dedup_no_duplicates(names: Seq<Seq<u8>>)
    ensures
        no_duplicates(dedup_first(names)),
    decreases names.len(),
{
    if names.len() == 0 {
    } else {
        let init = names.drop_last();
        let rest = dedup_first(init);
        lemma_dedup_no_duplicates(init);
        if !init.contains(names.last()) {
            lemma_dedup_contains(init, names.last());
            assert forall|i: int, j: int|
                0 <= i < j < rest.push(names.last()).len() implies rest.push(names.last())[i]
                != rest.push(names.last())[j] by {
                if j < rest.len() {
                } else {
                    assert(rest.contains(rest[i]));
                }
            }
        }
    }
}

proof fn lemma_dedup_of_no_dup(names: Seq<Seq<u8>>)
    requires
        no_duplicates(names),
    ensures
        dedup_first(names) == names,
    decreases names.len(),
{
    if names.len() == 0 {
        assert(dedup_first(names) =~= names);
    } else {
        let init = names.drop_last();
        assert(no_duplicates(init)) by {
            assert forall|i: int, j: int| 0 <= i < j < init.len() implies init[i] != init[j] by {
                assert(names[i] == init[i] && names[j] == init[j]);
            }
        }
        lemma_dedup_of_no_dup(init);
        if init.contains(names.last()) {
            let i = choose|i: int| 0 <= i < init.len() && init[i] == names.last();
            assert(names[i] == names[names.len() - 1]);
            assert(false);
        }
        assert(dedup_first(names) =~= names);
    }
}

proof fn lemma_no_dup_count(names: Seq<Seq<u8>>, x: Seq<u8>)
    requires
        no_duplicates(names),
    ensures
        count_of(names, x) == if names.contains(x) {
            1nat
        } else {
            0nat
        },
    decreases names.len(),
{
    if names.len() == 0 {
    } else {
        let init = names.drop_last();
        assert(no_duplicates(init)) by {
            assert forall|i: int, j: int| 0 <= i < j < init.len() implies init[i] != init[j] by {
                assert(names[i] == init[i] && names[j] == init[j]);
            }
        }
        lemma_no_dup_count(init, x);
        lemma_contains_push(init, names.last(), x);
        assert(names =~= init.push(names.last()));
        if names.last() == x && init.contains(x) {
            let i = choose|i: int| 0 <= i < init.len() && init[i] == x;
            assert(names[i] == names[names.len() - 1]);
            assert(false);
        }
    }
}

/// Law: the negotiated list holds every caller-requested and every
/// mandated name exactly once, and nothing else, whatever order the
/// inputs came in.
pub proof fn lemma_merged_exactly_once(caller: Seq<Seq<u8>>, mandated: Seq<Seq<u8>>, x: Seq<u8>)
    ensures
        merged(caller, mandated).contains(x) <==> (caller.contains(x) || mandated.contains(x)),
        no_duplicates(merged(caller, mandated)),
        (caller.contains(x) || mandated.contains(x)) ==> count_of(merged(caller, mandated), x)
            == 1,
        !(caller.contains(x) || mandated.contains(x)) ==> count_of(merged(caller, mandated), x)
            == 0,
{
    lemma_dedup_contains(caller + mandated, x);
    lemma_contains_concat(caller, mandated, x);
    lemma_dedup_no_duplicates(caller + mandated);
    lemma_no_dup_count(merged(caller, mandated), x);
}

/// Law: as a set of names, the negotiated list is exactly the union of
/// its two inputs, so reordering either input cannot change it.
pub proof fn lemma_merged_order_insensitive(caller: Seq<Seq<u8>>, mandated: Seq<Seq<u8>>)
    ensures
        merged(caller, mandated).to_set() == caller.to_set().union(mandated.to_set()),
{
    assert forall|x: Seq<u8>| #[trigger]
        merged(caller, mandated).to_set().contains(x) <==> caller.to_set().union(
        mandated.to_set(),
    ).contains(x) by {
        lemma_merged_exactly_once(caller, mandated, x);
    }
    assert(merged(caller, mandated).to_set() =~= caller.to_set().union(mandated.to_set()));
}

proof fn lemma_dedup_absorbs(base: Seq<Seq<u8>>, extra: Seq<Seq<u8>>)
    requires
        no_duplicates(base),
        forall|x: Seq<u8>| extra.contains(x) ==> base.contains(x),
    ensures
        dedup_first(base + extra) == base,
    decreases extra.len(),
{
    if extra.len() == 0 {
        assert(base + extra =~= base);
        lemma_dedup_of_no_dup(base);
    } else {
        let init = extra.drop_last();
        assert((base + extra).drop_last() =~= base + init);
        assert((base + extra).last() == extra.last());
        assert(extra.contains(extra.last()));
        assert(base.contains(extra.last()));
        lemma_contains_concat(base, init, extra.last());
        assert((base + init).contains(extra.last()));
        assert forall|x: Seq<u8>| init.contains(x) implies base.contains(x) by {
            let i = choose|i: int| 0 <= i < init.len() && init[i] == x;
            assert(extra[i] == x);
        }
        lemma_dedup_absorbs(base, init);
    }
}

/// Law: negotiation is idempotent. Merging the mandated names into an
/// already negotiated list changes nothing.
pub proof fn lemma_merged_idempotent(caller: Seq<Seq<u8>>, mandated: Seq<Seq<u8>>)
    ensures
        merged(merged(caller, mandated), mandated) == merged(caller, mandated),
{
    lemma_dedup_no_duplicates(caller + mandated);
    assert forall|x: Seq<u8>| mandated.contains(x) implies merged(caller, mandated).contains(
        x,
    ) by {
        lemma_merged_exactly_once(caller, mandated, x);
    }
    lemma_dedup_absorbs(merged(caller, mandated), mandated);
}

/// Byte-for-byte equality of two names.
pub fn bytes_eq(a: &Vec<u8>, b: &Vec<u8>) -> (r: bool)
    ensures
        r == (a@ == b@),
{
    if a.len() != b.len() {
        return false;
    }
    let mut i: usize = 0;
    while i < a.len()
        invariant
            i <= a@.len(),
            a@.len() == b@.len(),
            forall|j: int| 0 <= j < i ==> a@[j] == b@[j],
        decreases a@.len() - i,
    {
        if a[i] != b[i] {
            return false;
        }
        i = i + 1;
    }
    proof {
        assert(a@ =~= b@);
    }
    true
}

/// An owned copy of a name.
pub fn copy_name(v: &Vec<u8>) -> (r: Vec<u8>)
    ensures
        r@ == v@,
{
    let mut out: Vec<u8> = Vec::new();
    let mut i: usize = 0;
    while i < v.len()
        invariant
            i <= v@.len(),
            out@ == v@.take(i as int),
        decreases v@.len() - i,
    {
        out.push(v[i]);
        proof {
            assert(out@ =~= v@.take(i + 1 as int));
        }
        i = i + 1;
    }
    proof {
        assert(v@.take(v@.len() as int) =~= v@);
    }
    out
}

/// Whether `x` already stands in `names`.
pub fn contains_name(names: &Vec<Vec<u8>>, x: &Vec<u8>) -> (r: bool)
    ensures
        r == names.deep_view().contains(x@),
{
    proof {
        lemma_deep_view_len(names);
    }
    let mut i: usize = 0;
    while i < names.len()
        invariant
            i <= names@.len(),
            names.deep_view().len() == names@.len(),
            forall|j: int| 0 <= j < i ==> names.deep_view()[j] != x@,
        decreases names@.len() - i,
    {
        proof {
            lemma_deep_view_index(names, i as int);
        }
        if bytes_eq(&names[i], x) {
            assert(names.deep_view()[i as int] == x@);
            return true;
        }
        i = i + 1;
    }
    false
}

proof fn lemma_deep_view_len(v: &Vec<Vec<u8>>)
    ensures
        v.deep_view().len() == v@.len(),
{
}

proof fn lemma_deep_view_index(v: &Vec<Vec<u8>>, i: int)
    requires
        0 <= i < v@.len(),
    ensures
        v.deep_view()[i] == v@[i]@,
{
    assert(v.deep_view()[i] =~= v@[i]@);
}

proof fn lemma_deep_view_push(old_v: Seq<Vec<u8>>, new_v: Seq<Vec<u8>>, x: Vec<u8>)
    requires
        new_v == old_v.push(x),
    ensures
        Seq::new(new_v.len(), |i: int| new_v[i].deep_view()) == Seq::new(
            old_v.len(),
            |i: int| old_v[i].deep_view(),
        ).push(x@),
{
    assert(Seq::new(new_v.len(), |i: int| new_v[i].deep_view()) =~= Seq::new(
        old_v.len(),
        |i: int| old_v[i].deep_view(),
    ).push(x@)) by {
        assert(x.deep_view() =~= x@);
    }
}

/// The deduplicated union of the two name lists, the caller's names
/// first, each name kept at its first occurrence.
pub fn merge_extension_names(caller: &Vec<Vec<u8>>, mandated: &Vec<Vec<u8>>) -> (r: Vec<Vec<u8>>)
    ensures
        r.deep_view() == merged(caller.deep_view(), mandated.deep_view()),
{
    let cs = Ghost(caller.deep_view());
    let ms = Ghost(mandated.deep_view());
    let mut out: Vec<Vec<u8>> = Vec::new();
    let mut i: usize = 0;
    proof {
        lemma_deep_view_len(caller);
        lemma_deep_view_len(mandated);
    }
    while i < caller.len()
        invariant
            i <= caller@.len(),
            cs@ == caller.deep_view(),
            cs@.len() == caller@.len(),
            out.deep_view() == dedup_first(cs@.take(i as int)),
        decreases caller@.len() - i,
    {
        proof {
            lemma_deep_view_index(caller, i as int);
            assert(cs@.take(i + 1 as int).drop_last() =~= cs@.take(i as int));
        }
        let present = contains_name(&out, &caller[i]);
        proof {
            lemma_dedup_contains(cs@.take(i as int), cs@[i as int]);
        }
        if !present {
            let ghost old_out = out@;
            out.push(copy_name(&caller[i]));
            proof {
                lemma_deep_view_push(old_out, out@, out@.last());
                assert(out@.last()@ == cs@[i as int]);
            }
        }
        i = i + 1;
    }
    proof {
        assert(cs@.take(cs@.len() as int) =~= cs@);
    }
    let mut j: usize = 0;
    while j < mandated.len()
        invariant
            j <= mandated@.len(),
            cs@ == caller.deep_view(),
            ms@ == mandated.deep_view(),
            ms@.len() == mandated@.len(),
            out.deep_view() == dedup_first(cs@ + ms@.take(j as int)),
        decreases mandated@.len() - j,
    {
        proof {
            lemma_deep_view_index(mandated, j as int);
            assert((cs@ + ms@.take(j + 1 as int)).drop_last() =~= cs@ + ms@.take(j as int));
            assert((cs@ + ms@.take(j + 1 as int)).last() == ms@[j as int]);
        }
        let present = contains_name(&out, &mandated[j]);
        proof {
            lemma_dedup_contains(cs@ + ms@.take(j as int), ms@[j as int]);
        }
        if !present {
            let ghost old_out = out@;
            out.push(copy_name(&mandated[j]));
            proof {
                lemma_deep_view_push(old_out, out@, out@.last());
                assert(out@.last()@ == ms@[j as int]);
            }
        }
        j = j + 1;
    }
    proof {
        assert(cs@ + ms@.take(ms@.len() as int) =~= cs@ + ms@);
    }
    out
}

/// Whether every name of the list is encodable as a C string.
pub fn all_valid(names: &Vec<Vec<u8>>) -> (r: bool)
    ensures
        r == all_names_valid(names.deep_view()),
{
    proof {
        lemma_deep_view_len(names);
    }
    let mut i: usize = 0;
    while i < names.len()
        invariant
            i <= names@.len(),
            names.deep_view().len() == names@.len(),
            forall|j: int| 0 <= j < i ==> valid_ext_name(#[trigger] names.deep_view()[j]),
        decreases names@.len() - i,
    {
        proof {
            lemma_deep_view_index(names, i as int);
        }
        let name = &names[i];
        let mut k: usize = 0;
        while k < name.len()
            invariant
                k <= name@.len(),
                0 <= i < names.deep_view().len(),
                name@ == names.deep_view()[i as int],
                forall|b: int| 0 <= b < k ==> name@[b] != 0u8,
            decreases name@.len() - k,
        {
            if name[k] == 0u8 {
                assert(name@.contains(0u8));
                assert(!valid_ext_name(names.deep_view()[i as int]));
                return false;
            }
            k = k + 1;
        }
        proof {
            if names.deep_view()[i as int].contains(0u8) {
                let b = choose|b: int| 0 <= b < name@.len() && name@[b] == 0u8;
            }
        }
        i = i + 1;
    }
    true
}

/// The final instance-extension list: the caller's names joined with the
/// platform-mandated windowing names, deduplicated. Fails with
/// `PlatformQueryFailed` when the platform reported no list at all, and
/// with `InvalidExtensionName` when a caller name cannot be a C string.
pub fn negotiate_instance_extensions(
    caller: &Vec<Vec<u8>>,
    platform: &Option<Vec<Vec<u8>>>,
) -> (r: Result<Vec<Vec<u8>>, VulkanError>)
    ensures
        match r {
            Ok(m) => {
                &&& platform matches Some(p) && m.deep_view() == merged(
                    caller.deep_view(),
                    p.deep_view(),
                )
                &&& all_names_valid(caller.deep_view())
            },
            Err(e) => {
                ||| (e == VulkanError::PlatformQueryFailed && platform is None)
                ||| (e == VulkanError::InvalidExtensionName && platform is Some
                    && !all_names_valid(caller.deep_view()))
            },
        },
{
    let platform_names = match platform {
        Some(p) => p,
        None => {
            return Err(VulkanError::PlatformQueryFailed);
        },
    };
    if !all_valid(caller) {
        return Err(VulkanError::InvalidExtensionName);
    }
    Ok(merge_extension_names(caller, platform_names))
}

/// The final device-extension list: the caller's names joined with the
/// single presentation (swapchain) extension, deduplicated. Fails with
/// `InvalidExtensionName` when a caller name cannot be a C string.
pub fn negotiate_device_extensions(caller: &Vec<Vec<u8>>, presentation: &Vec<u8>) -> (r: Result<
    Vec<Vec<u8>>,
    VulkanError,
>)
    ensures
        match r {
            Ok(m) => {
                &&& m.deep_view() == merged(caller.deep_view(), seq![presentation@])
                &&& all_names_valid(caller.deep_view())
            },
            Err(e) => e == VulkanError::InvalidExtensionName && !all_names_valid(
                caller.deep_view(),
            ),
        },
{
    if !all_valid(caller) {
        return Err(VulkanError::InvalidExtensionName);
    }
    let mut mandated: Vec<Vec<u8>> = Vec::new();
    mandated.push(copy_name(presentation));
    proof {
        lemma_deep_view_len(&mandated);
        lemma_deep_view_index(&mandated, 0);
        assert(mandated.deep_view() =~= seq![presentation@]);
    }
    Ok(merge_extension_names(caller, &mandated))
}

} // verus!
