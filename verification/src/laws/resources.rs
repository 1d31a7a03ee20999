//! Handles to a resource: who is reported, and who gets the resource back.
use std::ops::Deref;

use vstd::prelude::*;

use crate::owner::Owner;
use crate::resource::{
    reclaim_outcome, upgrade_outcome, ResourceHandle, Site, UsageMap, Usages, WeakHandle,
};

verus! {

/// Those of these clones that were made at `site`.
pub open spec fn made_at(usages: Usages, ids: Set<usize>, site: Site) -> Set<usize> {
    ids.filter(|id: usize| usages.sites[id] == site)
}

/// How many outstanding clones were made at `site`.
pub open spec fn clones_at(usages: Usages, site: Site) -> nat {
    made_at(usages, usages.sites.dom(), site).len()
}

/// How often `site` stands in `list`.
pub open spec fn times_listed(list: Seq<Site>, site: Site) -> nat
    decreases list.len(),
{
    if list.len() == 0 {
        0
    } else {
        times_listed(list.drop_last(), site) + if list.last() == site {
            1nat
        } else {
            0nat
        }
    }
}

proof fn lemma_times_listed(usages: Usages, ids: Seq<usize>, list: Seq<Site>, site: Site)
    requires
        ids.no_duplicates(),
        list.len() == ids.len(),
        forall|i: int| 0 <= i < ids.len() ==> list[i] == usages.sites[#[trigger] ids[i]],
    ensures
        times_listed(list, site) == made_at(usages, ids.to_set(), site).len(),
    decreases ids.len(),
{
    if ids.len() == 0 {
        assert(made_at(usages, ids.to_set(), site) =~= Set::<usize>::empty());
    } else {
        let front = ids.drop_last();
        let last = ids.last();
        assert(front.no_duplicates());
        lemma_times_listed(usages, front, list.drop_last(), site);
        vstd::seq_lib::seq_to_set_is_finite(front);
        assert(!front.to_set().contains(last)) by {
            if front.contains(last) {
                let i = choose|i: int| 0 <= i < front.len() && front[i] == last;
                assert(ids[i] == ids[ids.len() - 1]);
            }
        }
        assert(ids.to_set() =~= front.to_set().insert(last)) by {
            assert(ids =~= front.push(last));
            assert forall|x: usize| ids.to_set().contains(x) <==> front.to_set().insert(
                last,
            ).contains(x) by {
                if front.contains(x) {
                    let i = choose|i: int| 0 <= i < front.len() && front[i] == x;
                    assert(ids[i] == x);
                }
                if ids.contains(x) && x != last {
                    let i = choose|i: int| 0 <= i < ids.len() && ids[i] == x;
                    assert(front[i] == x);
                }
                assert(ids[ids.len() - 1] == last);
            }
        }
        let others = made_at(usages, front.to_set(), site);
        if usages.sites[last] == site {
            assert(made_at(usages, ids.to_set(), site) =~= others.insert(last));
        } else {
            assert(made_at(usages, ids.to_set(), site) =~= others);
        }
    }
}

proof fn lemma_listed(usages: Usages, list: Seq<Site>, site: Site)
    requires
        usages.listed(list),
    ensures
        times_listed(list, site) == clones_at(usages, site),
        list.len() == usages.sites.dom().len(),
{
    let ids = choose|ids: Seq<usize>|
        {
            &&& #[trigger] ids.no_duplicates()
            &&& ids.to_set() == usages.sites.dom()
            &&& list == ids.map_values(|id: usize| usages.sites[id])
        };
    lemma_times_listed(usages, ids, list, site);
    ids.unique_seq_to_set();
}

/// Each outstanding clone is reported once, with the place where it was made, and nothing
/// else is.
pub proof fn law_every_outstanding_clone_is_reported_once(
    usages: UsageMap,
    list: Vec<Site>,
    site: Site,
)
    requires
        call_ensures(UsageMap::outstanding, (&usages,), list),
    ensures
        times_listed(list@, site) == clones_at(usages@, site),
        list@.len() == usages@.sites.dom().len(),
{
    lemma_listed(usages@, list@, site);
}

/// A clone is to the same resource, and is reported with its place from then on, once more
/// than that place was before; releasing it undoes that. Other places are reported as often
/// as before.
pub proof fn law_clone_is_reported_until_released<R>(
    handle: ResourceHandle<R>,
    before: UsageMap,
    site: Site,
    other: ResourceHandle<R>,
    cloned: UsageMap,
    after: UsageMap,
    first: Vec<Site>,
    second: Vec<Site>,
    third: Vec<Site>,
    place: Site,
)
    requires
        handle@.resource == before@.resource,
        before@.sites.dom().finite(),
        !before@.sites.dom().contains(before@.next),
        exists|usages: &mut UsageMap|
            {
                &&& *usages == before
                &&& #[trigger] call_ensures(
                    ResourceHandle::<R>::clone_at,
                    (&handle, usages, site),
                    other,
                )
                &&& *final(usages) == cloned
            },
        exists|usages: &mut UsageMap|
            {
                &&& *usages == cloned
                &&& #[trigger] call_ensures(ResourceHandle::<R>::release, (other, usages), ())
                &&& *final(usages) == after
            },
        call_ensures(UsageMap::outstanding, (&before,), first),
        call_ensures(UsageMap::outstanding, (&cloned,), second),
        call_ensures(UsageMap::outstanding, (&after,), third),
    ensures
        other@.resource == handle@.resource && other@.res == handle@.res,
        times_listed(second@, site) == times_listed(first@, site) + 1,
        place != site ==> times_listed(second@, place) == times_listed(first@, place),
        times_listed(third@, place) == times_listed(first@, place),
        cloned@.handles == before@.handles + 1,
        after@.handles == before@.handles,
{
    lemma_listed(before@, first@, site);
    lemma_listed(cloned@, second@, site);
    lemma_listed(before@, first@, place);
    lemma_listed(cloned@, second@, place);
    lemma_listed(after@, third@, place);
    let id = before@.next;
    let old_dom = before@.sites.dom();
    assert(cloned@.sites.dom() =~= old_dom.insert(id));
    assert(after@.sites =~= before@.sites);
    assert(made_at(cloned@, cloned@.sites.dom(), site) =~= made_at(before@, old_dom, site).insert(
        id,
    ));
    if place != site {
        assert(made_at(cloned@, cloned@.sites.dom(), place) =~= made_at(before@, old_dom, place));
    }
}

/// The last handle on account gets the resource back. One beside which another is shown
/// does not, and is told of every clone but itself.
pub proof fn law_last_handle_gets_the_resource<R>(
    handle: ResourceHandle<R>,
    before: UsageMap,
    beside: Option<&ResourceHandle<R>>,
    outcome: Result<R, Vec<Site>>,
    after: UsageMap,
    place: Site,
)
    requires
        handle@.resource == before@.resource,
        beside matches Some(other) ==> other@.resource == handle@.resource && before@.handles > 1,
        exists|usages: &mut UsageMap|
            {
                &&& *usages == before
                &&& #[trigger] call_ensures(
                    ResourceHandle::<R>::try_unwrap,
                    (handle, usages, beside),
                    outcome,
                )
                &&& *final(usages) == after
            },
    ensures
        before@.handles == 1 ==> outcome is Ok,
        beside is Some ==> outcome is Err,
        outcome matches Ok(res) ==> res == handle@.res,
        outcome matches Err(list) ==> {
            &&& times_listed(list@, place) == clones_at(after@, place)
            &&& list@.len() == after@.sites.dom().len()
        },
        handle@.id is None ==> after@.sites == before@.sites,
        handle@.id matches Some(id) ==> {
            &&& !after@.sites.dom().contains(id)
            &&& forall|x: usize|
                x != id ==> (#[trigger] after@.sites.dom().contains(x)
                    <==> before@.sites.dom().contains(x))
            &&& forall|x: usize|
                x != id && #[trigger] after@.sites.dom().contains(x) ==> after@.sites[x]
                    == before@.sites[x]
        },
        after@.tried == before@.tried.push(outcome is Ok),
{
    if let Err(list) = outcome {
        lemma_listed(after@, list@, place);
    }
}

/// A weak handle made of a handle upgrades to the same resource as long as any handle is
/// shown, with its place on record, and not once every handle was released.
pub proof fn law_weak_handle_upgrades_while_owned<R>(
    handle: ResourceHandle<R>,
    before: UsageMap,
    weak: WeakHandle<R>,
    weakened: UsageMap,
    copy: WeakHandle<R>,
    now: UsageMap,
    site: Site,
    beside: Option<&ResourceHandle<R>>,
    upgraded: Option<ResourceHandle<R>>,
    after: UsageMap,
)
    requires
        handle@.resource == before@.resource,
        exists|usages: &mut UsageMap|
            {
                &&& *usages == before
                &&& #[trigger] call_ensures(ResourceHandle::<R>::into_weak, (handle, usages), weak)
                &&& *final(usages) == weakened
            },
        call_ensures(<WeakHandle<R> as Clone>::clone, (&weak,), copy),
        now@.resource == before@.resource,
        beside matches Some(other) ==> other@.resource == before@.resource && now@.handles > 0,
        exists|usages: &mut UsageMap|
            {
                &&& *usages == now
                &&& #[trigger] call_ensures(
                    WeakHandle::<R>::upgrade,
                    (&copy, usages, site, beside),
                    upgraded,
                )
                &&& *final(usages) == after
            },
    ensures
        beside is Some ==> upgraded is Some,
        now@.handles == 0 ==> upgraded is None,
        before@.handles > 0 ==> weakened@.handles == before@.handles - 1,
        handle@.id matches Some(id) ==> !weakened@.sites.dom().contains(id),
        upgraded matches Some(owned) ==> {
            &&& owned@.resource == handle@.resource
            &&& owned@.res == handle@.res
            &&& owned@.id matches Some(id) && after@.sites.dom().contains(id) && after@.sites[id]
                == site
            &&& after@.handles == now@.handles + 1
        },
        upgraded is None ==> after@.sites == now@.sites && after@.handles == now@.handles,
        after@.tried == now@.tried.push(upgraded is Some),
{
}

/// The first handle to a resource is the only one, and none of its clones is reported.
pub proof fn law_first_handle_is_the_only_one<R>(
    res: R,
    handle: ResourceHandle<R>,
    usages: UsageMap,
    list: Vec<Site>,
)
    requires
        call_ensures(ResourceHandle::<R>::new, (res,), (handle, usages)),
        call_ensures(UsageMap::outstanding, (&usages,), list),
    ensures
        handle@.res == res,
        handle@.id is None,
        handle@.resource == usages@.resource,
        usages@.handles == 1,
        list@.len() == 0,
        usages@.next == 0,
{
    let site = Site { file: "", line: 0, column: 0 };
    lemma_listed(usages@, list@, site);
}

/// A handle gives the resource that it was made for.
pub proof fn law_handle_gives_its_resource<R>(
    res: R,
    handle: ResourceHandle<R>,
    usages: UsageMap,
    given: &R,
)
    requires
        call_ensures(ResourceHandle::<R>::new, (res,), (handle, usages)),
        call_ensures(<ResourceHandle<R> as Deref>::deref, (&handle,), given),
    ensures
        *given == res,
{
}

/// Reclaiming comes to what unwrapping came to: the resource, or a report of every
/// outstanding clone. Upgrading comes to a handle where an owner came of it, which is put on
/// record with its place.
pub proof fn law_outcomes_are_as_attempted<R>(
    unwrapped: Option<R>,
    usages: UsageMap,
    outcome: Result<R, Vec<Site>>,
    promoted: Option<Owner<R>>,
    site: Site,
    handle: Option<ResourceHandle<R>>,
    after: UsageMap,
    place: Site,
)
    requires
        call_ensures(reclaim_outcome::<R>, (unwrapped, &usages), outcome),
        exists|u: &mut UsageMap|
            {
                &&& *u == usages
                &&& #[trigger] call_ensures(upgrade_outcome::<R>, (promoted, u, site), handle)
                &&& *final(u) == after
            },
    ensures
        unwrapped matches Some(res) ==> outcome == Ok::<R, Vec<Site>>(res),
        unwrapped is None ==> {
            &&& outcome matches Err(list)
            &&& times_listed(list@, place) == clones_at(usages@, place)
            &&& list@.len() == usages@.sites.dom().len()
        },
        promoted is Some <==> handle is Some,
        promoted is None ==> after@ == usages@,
        promoted matches Some(owner) ==> {
            &&& handle->0@.res == owner@.res
            &&& handle->0@.resource == owner@.resource
            &&& handle->0@.id == Some(usages@.next)
            &&& after@.sites.dom().contains(usages@.next)
            &&& after@.sites[usages@.next] == site
            &&& forall|x: usize|
                x != usages@.next ==> (#[trigger] after@.sites.dom().contains(x)
                    <==> usages@.sites.dom().contains(x))
            &&& forall|x: usize|
                x != usages@.next && #[trigger] usages@.sites.dom().contains(x)
                    ==> after@.sites[x] == usages@.sites[x]
            &&& after@.handles == usages@.handles
        },
{
    if let Err(list) = outcome {
        lemma_listed(usages@, list@, place);
    }
}

/// Every clone gets an id of its own, one after the other, until ids are used up and start
/// over.
pub proof fn law_clones_get_ids_in_turn<R>(
    handle: ResourceHandle<R>,
    before: UsageMap,
    site: Site,
    other: ResourceHandle<R>,
    after: UsageMap,
)
    requires
        handle@.resource == before@.resource,
        exists|usages: &mut UsageMap|
            {
                &&& *usages == before
                &&& #[trigger] call_ensures(
                    ResourceHandle::<R>::clone_at,
                    (&handle, usages, site),
                    other,
                )
                &&& *final(usages) == after
            },
    ensures
        other@.id == Some(before@.next),
        before@.next < usize::MAX ==> after@.next == before@.next + 1,
        before@.next == usize::MAX ==> after@.next == 0,
        after@.sites.dom().contains(before@.next) && after@.sites[before@.next] == site,
        after@.resource == before@.resource && after@.tried == before@.tried,
{
}

/// A handle that is released is off the record, and no other one is.
pub proof fn law_released_handle_is_off_the_record<R>(
    handle: ResourceHandle<R>,
    before: UsageMap,
    after: UsageMap,
)
    requires
        handle@.resource == before@.resource,
        exists|usages: &mut UsageMap|
            {
                &&& *usages == before
                &&& #[trigger] call_ensures(ResourceHandle::<R>::release, (handle, usages), ())
                &&& *final(usages) == after
            },
    ensures
        before@.handles > 0 ==> after@.handles == before@.handles - 1,
        handle@.id is None ==> after@.sites == before@.sites,
        handle@.id matches Some(id) ==> {
            &&& !after@.sites.dom().contains(id)
            &&& forall|x: usize|
                x != id ==> (#[trigger] after@.sites.dom().contains(x)
                    <==> before@.sites.dom().contains(x))
            &&& forall|x: usize|
                x != id && #[trigger] before@.sites.dom().contains(x) ==> after@.sites[x]
                    == before@.sites[x]
        },
        after@.next == before@.next && after@.resource == before@.resource,
        after@.tried == before@.tried,
{
}

} // verus!
