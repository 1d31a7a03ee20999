//! Owning, usage-tracked handles for sharing resources between services.
//!
//! [`ResourceHandle<R>`] is essentially `Arc<R>` with one extra capability: each
//! clone records in a [`UsageMap`] where it was made, and
//! [`try_unwrap`](ResourceHandle::try_unwrap) hands those places out if there are
//! still outstanding clones, which is useful for finding leaked references during
//! shutdown.
//!
//! This module is independent of the runtime: services typically inject their
//! dependencies as plain [`Arc`](std::sync::Arc)s. Use `ResourceHandle` when you want the leak
//! diagnostic.
use std::collections::HashMap;
use std::ops::Deref;

use vstd::prelude::*;

use crate::owner::{Owner, OwnerState, RefCount, WeakOwner};

verus! {

/// A place in the source code.
#[derive(Clone, Copy, Debug, PartialEq, Eq)]
pub struct Site {
    /// The source file.
    pub file: &'static str,
    /// The line in it.
    pub line: u32,
    /// The column in that line.
    pub column: u32,
}

/// What is known of the handles to a resource.
#[verifier::ext_equal]
pub struct Usages {
    /// Which resource it is.
    pub resource: int,
    /// How many handles to it there are at most: handles that are dropped without being
    /// released stay in the count.
    pub handles: nat,
    /// Where each outstanding clone was made.
    pub sites: Map<usize, Site>,
    /// The id that the next clone gets.
    pub next: usize,
    /// What came of each attempt to reclaim the resource or to upgrade a weak handle.
    pub tried: Seq<bool>,
}

impl Usages {
    /// The resource has its first handle and no clones of it.
    pub open spec fn first(resource: int) -> Usages {
        Usages { resource, handles: 1, sites: Map::empty(), next: 0, tried: Seq::empty() }
    }

    /// One more clone is made. Ids start over when they are used up.
    pub open spec fn recorded(self, site: Site) -> Usages {
        Usages {
            handles: self.handles + 1,
            sites: self.sites.insert(self.next, site),
            next: if self.next == usize::MAX {
                0
            } else {
                (self.next + 1) as usize
            },
            ..self
        }
    }

    /// The handle with this id is gone; the first handle to a resource has no id.
    pub open spec fn released(self, id: Option<usize>) -> Usages {
        Usages {
            handles: if self.handles > 0 {
                (self.handles - 1) as nat
            } else {
                0
            },
            sites: match id {
                Some(id) => self.sites.remove(id),
                None => self.sites,
            },
            ..self
        }
    }

    /// One more attempt to reclaim or to upgrade, and what came of it.
    pub open spec fn attempted(self, success: bool) -> Usages {
        Usages { tried: self.tried.push(success), ..self }
    }

    /// Every handle but the first is on record with its place, and the first is still
    /// there or not.
    pub open spec fn balanced(self, first: bool) -> bool {
        &&& self.sites.dom().finite()
        &&& self.handles == self.sites.dom().len() + if first {
            1nat
        } else {
            0nat
        }
    }

    /// `list` names the place of every outstanding clone, each clone once.
    pub open spec fn listed(self, list: Seq<Site>) -> bool {
        exists|ids: Seq<usize>|
            {
                &&& #[trigger] ids.no_duplicates()
                &&& ids.to_set() == self.sites.dom()
                &&& list == ids.map_values(|id: usize| self.sites[id])
            }
    }
}

/// The handles to a resource, and where the outstanding clones were made.
pub struct UsageMap {
    sites: HashMap<usize, Site>,
    next: usize,
    count: RefCount,
}

impl View for UsageMap {
    type V = Usages;

    closed spec fn view(&self) -> Usages {
        Usages {
            resource: self.count@.resource,
            handles: self.count@.live,
            sites: self.sites@,
            next: self.next,
            tried: self.count@.tried,
        }
    }
}

impl UsageMap {
    /// Note where a clone is made, and get an id for it.
    fn note(&mut self, site: Site) -> (id: usize)
        ensures
            id == old(self)@.next,
            final(self).count == old(self).count,
            final(self)@ == (Usages {
                handles: old(self)@.handles,
                ..old(self)@.recorded(site)
            }),
    {
        broadcast use vstd::std_specs::hash::group_hash_axioms;

        let id: usize = self.next;
        self.sites.insert(id, site);
        self.next = self.next.wrapping_add(1);
        id
    }

    /// Forget the clone with this id.
    fn forget(&mut self, id: Option<usize>)
        ensures
            final(self).count == old(self).count,
            final(self)@ == (Usages { handles: old(self)@.handles, ..old(self)@.released(id) }),
    {
        broadcast use vstd::std_specs::hash::group_hash_axioms;

        if let Some(id) = id {
            self.sites.remove(&id);
        }
    }

    /// Where the outstanding clones were made, in no particular order.
    pub fn outstanding(&self) -> (list: Vec<Site>)
        ensures
            self@.listed(list@),
    {
        broadcast use vstd::std_specs::hash::group_hash_axioms;

        let mut list: Vec<Site> = Vec::new();
        let ghost mut ids: Seq<usize> = Seq::empty();
        for id in keys: self.sites.keys()
            invariant
                keys.seq().no_duplicates(),
                keys.seq().unref().to_set() == self.sites@.dom(),
                keys.seq().len() == self.sites@.dom().len(),
                ids.len() == keys.index(),
                forall|i: int| 0 <= i < ids.len() ==> #[trigger] ids[i] == *keys.seq()[i],
                forall|i: int| 0 <= i < ids.len() ==> self.sites@.dom().contains(#[trigger] ids[i]),
                list@.len() == ids.len(),
                forall|i: int| 0 <= i < ids.len() ==> list@[i] == self.sites@[#[trigger] ids[i]],
        {
            assert(keys.seq().unref()[keys.index() as int] == *id);
            assert(keys.seq().unref().to_set().contains(*id));
            if let Some(site) = self.sites.get(id) {
                list.push(*site);
                proof {
                    ids = ids.push(*id);
                }
            }
        }
        proof {
            assert(ids.no_duplicates());
            ids.unique_seq_to_set();
            assert(ids.to_set().subset_of(self.sites@.dom()));
            vstd::set_lib::lemma_subset_equality(ids.to_set(), self.sites@.dom());
            assert(list@ =~= ids.map_values(|id: usize| self@.sites[id]));
        }
        list
    }
}

/// What is known of a handle.
pub struct HandleState<R> {
    /// Which resource it is a handle to.
    pub resource: int,
    /// The resource itself.
    pub res: R,
    /// The id of the handle among the usages of the resource; the first handle has
    /// none.
    pub id: Option<usize>,
}

/// An owning handle to a shared resource.
///
/// Clones share the same underlying resource (like `Arc<R>`) but each clone is
/// tracked individually in the resource's [`UsageMap`] so that
/// [`try_unwrap`](Self::try_unwrap) can report where outstanding clones were
/// created if the resource can't be reclaimed.
pub struct ResourceHandle<R> {
    id: Option<usize>,
    owner: Owner<R>,
}

impl<R> View for ResourceHandle<R> {
    type V = HandleState<R>;

    closed spec fn view(&self) -> HandleState<R> {
        HandleState { resource: self.owner@.resource, res: self.owner@.res, id: self.id }
    }
}

/// The owner behind a handle, where there is one.
fn owner_of<'a, R>(handle: Option<&'a ResourceHandle<R>>) -> (owner: Option<&'a Owner<R>>)
    ensures
        handle is Some <==> owner is Some,
        handle matches Some(handle) ==> owner->0@.resource == handle@.resource,
{
    match handle {
        Some(handle) => Some(&handle.owner),
        None => None,
    }
}

impl<R> ResourceHandle<R> {
    /// Wrap a resource for shared immutable access, and get the map of its usages.
    pub fn new(res: R) -> (made: (Self, UsageMap))
        ensures
            made.0@ == (HandleState { resource: made.1@.resource, res, id: None }),
            made.1@ == Usages::first(made.1@.resource),
    {
        let (owner, count) = Owner::new(res);
        let usages = UsageMap { sites: HashMap::new(), next: 0, count };
        (ResourceHandle { id: None, owner }, usages)
    }

    /// Make another handle to the resource, at the given place.
    pub fn clone_at(&self, usages: &mut UsageMap, site: Site) -> (other: Self)
        requires
            self@.resource == old(usages)@.resource,
        ensures
            other@ == (HandleState { id: Some(old(usages)@.next), ..self@ }),
            final(usages)@ == old(usages)@.recorded(site),
    {
        let id: usize = usages.note(site);
        let owner = self.owner.share(&mut usages.count);
        ResourceHandle { id: Some(id), owner }
    }

    /// Give up this handle.
    pub fn release(self, usages: &mut UsageMap)
        requires
            self@.resource == old(usages)@.resource,
        ensures
            final(usages)@ == old(usages)@.released(self@.id),
    {
        usages.forget(self.id);
        self.owner.give_up(&mut usages.count);
    }

    /// Convert this owned handle into a [`WeakHandle`].
    pub fn into_weak(self, usages: &mut UsageMap) -> (weak: WeakHandle<R>)
        requires
            self@.resource == old(usages)@.resource,
        ensures
            weak@ == (OwnerState { resource: self@.resource, res: self@.res }),
            final(usages)@ == old(usages)@.released(self@.id),
    {
        let inner = self.owner.demote();
        self.release(usages);
        WeakHandle { inner }
    }

    /// Attempt to reclaim ownership of the underlying resource.
    ///
    /// Returns the resource if this was the only outstanding handle. Otherwise the
    /// places where all outstanding clones were made are returned: usually enough
    /// to find the task or listener that didn't get stopped during shutdown.
    ///
    /// A handle can be dropped without being released, so that there is no other is
    /// stated where all others were released, and that there is one where it is shown:
    /// as `beside`. Whichever it is, one attempt is made, and what came of it decides.
    pub fn try_unwrap(self, usages: &mut UsageMap, beside: Option<&ResourceHandle<R>>) -> (outcome:
        Result<R, Vec<Site>>)
        requires
            self@.resource == old(usages)@.resource,
            beside matches Some(other) ==> other@.resource == self@.resource
                && old(usages)@.handles > 1,
        ensures
            old(usages)@.handles == 1 ==> outcome is Ok,
            beside is Some ==> outcome is Err,
            final(usages)@ == old(usages)@.released(self@.id).attempted(outcome is Ok),
            match outcome {
                Ok(res) => res == self@.res,
                Err(sites) => final(usages)@.listed(sites@),
            },
    {
        usages.forget(self.id);
        let unwrapped = self.owner.unwrap(&mut usages.count, owner_of(beside));
        reclaim_outcome(unwrapped, usages)
    }
}

/// The outcome of an attempt to reclaim a resource, from what came of unwrapping it:
/// the resource, or where the outstanding clones were made.
pub fn reclaim_outcome<R>(unwrapped: Option<R>, usages: &UsageMap) -> (outcome: Result<
    R,
    Vec<Site>,
>)
    ensures
        match unwrapped {
            Some(res) => outcome == Ok::<R, Vec<Site>>(res),
            None => outcome matches Err(sites) && usages@.listed(sites@),
        },
{
    match unwrapped {
        Some(res) => Ok(res),
        None => Err(usages.outstanding()),
    }
}

impl<R> Deref for ResourceHandle<R> {
    type Target = R;

    fn deref(&self) -> (res: &R)
        ensures
            *res == self@.res,
    {
        self.owner.get()
    }
}

/// A non-owning handle to a shared resource. Upgrade to [`ResourceHandle`] to use.
#[verifier::reject_recursive_types(R)]
pub struct WeakHandle<R> {
    inner: WeakOwner<R>,
}

impl<R> View for WeakHandle<R> {
    type V = OwnerState<R>;

    closed spec fn view(&self) -> OwnerState<R> {
        self.inner@
    }
}

impl<R> WeakHandle<R> {
    /// Try to upgrade to a [`ResourceHandle`] if the resource is still alive.
    ///
    /// A handle can be dropped without being released, so that the resource is gone is
    /// stated where all handles were released, and that it is alive where a handle is
    /// shown: as `beside`. Whichever it is, one attempt is made, and what came of it
    /// decides.
    pub fn upgrade(
        &self,
        usages: &mut UsageMap,
        site: Site,
        beside: Option<&ResourceHandle<R>>,
    ) -> (handle: Option<ResourceHandle<R>>)
        requires
            self@.resource == old(usages)@.resource,
            beside matches Some(other) ==> other@.resource == self@.resource
                && old(usages)@.handles > 0,
        ensures
            old(usages)@.handles == 0 ==> handle is None,
            beside is Some ==> handle is Some,
            handle matches Some(handle) ==> handle@ == (HandleState {
                resource: self@.resource,
                res: self@.res,
                id: Some(old(usages)@.next),
            }),
            final(usages)@ == (if handle is Some {
                old(usages)@.recorded(site)
            } else {
                old(usages)@
            }).attempted(handle is Some),
    {
        let promoted = self.inner.promote(&mut usages.count, owner_of(beside));
        upgrade_outcome(promoted, usages, site)
    }
}

/// The outcome of an attempt to upgrade a weak handle at the given place, from the owner
/// that came of it: a handle where there is one, on record like any other clone.
pub fn upgrade_outcome<R>(promoted: Option<Owner<R>>, usages: &mut UsageMap, site: Site) -> (handle:
    Option<ResourceHandle<R>>)
    ensures
        handle is Some <==> promoted is Some,
        promoted matches Some(owner) ==> {
            &&& handle->0@ == (HandleState {
                resource: owner@.resource,
                res: owner@.res,
                id: Some(old(usages)@.next),
            })
            &&& final(usages)@ == (Usages {
                handles: old(usages)@.handles,
                ..old(usages)@.recorded(site)
            })
        },
        promoted is None ==> final(usages)@ == old(usages)@,
{
    match promoted {
        Some(owner) => {
            let id: usize = usages.note(site);
            Some(ResourceHandle { id: Some(id), owner })
        },
        None => None,
    }
}

impl<R> Clone for WeakHandle<R> {
    fn clone(&self) -> (copy: Self)
        ensures
            copy@ == self@,
    {
        WeakHandle { inner: self.inner.copy() }
    }
}

/// Releasing a clone undoes recording it.
pub proof fn law_release_undoes_clone(usages: Usages, site: Site)
    requires
        !usages.sites.contains_key(usages.next),
    ensures
        ({
            let after = usages.recorded(site).released(Some(usages.next));
            &&& after.sites == usages.sites
            &&& after.handles == usages.handles
            &&& after.resource == usages.resource
        }),
{
    assert(usages.recorded(site).released(Some(usages.next)).sites =~= usages.sites);
}

/// Handles and records stay in balance, from the first handle on, as long as no id is
/// given out a second time while it is in use.
pub proof fn law_records_stay_balanced(
    usages: Usages,
    resource: int,
    site: Site,
    id: usize,
    first: bool,
)
    ensures
        Usages::first(resource).balanced(true),
        usages.balanced(first) && !usages.sites.contains_key(usages.next) ==> usages.recorded(
            site,
        ).balanced(first),
        usages.balanced(first) && usages.sites.contains_key(id) ==> usages.released(
            Some(id),
        ).balanced(first),
        usages.balanced(true) ==> usages.released(None).balanced(false),
{
    if usages.balanced(first) && !usages.sites.contains_key(usages.next) {
        assert(usages.recorded(site).sites.dom() =~= usages.sites.dom().insert(usages.next));
    }
    if usages.balanced(first) && usages.sites.contains_key(id) {
        assert(usages.released(Some(id)).sites.dom() =~= usages.sites.dom().remove(id));
    }
    assert(Usages::first(resource).sites.dom() =~= Set::<usize>::empty());
}

/// Once every clone on record was released, the first handle is the only one, and gets
/// the resource back; once that is released too, no weak handle can be upgraded.
pub proof fn law_released_clones_free_the_first(usages: Usages)
    requires
        usages.sites.dom() == Set::<usize>::empty(),
    ensures
        usages.balanced(true) ==> usages.handles == 1,
        usages.balanced(false) ==> usages.handles == 0,
{
}

/// A clone stays on record, with the place where it was made, through everything
/// that happens to other clones, and so is reported as long as it is not released.
pub proof fn law_unreleased_clone_is_reported(
    usages: Usages,
    id: usize,
    site: Site,
    other: Option<usize>,
    list: Seq<Site>,
)
    requires
        usages.sites.contains_key(id),
        other != Some(id),
        id != usages.next,
    ensures
        usages.recorded(site).sites.contains_key(id),
        usages.recorded(site).sites[id] == usages.sites[id],
        usages.released(other).sites.contains_key(id),
        usages.released(other).sites[id] == usages.sites[id],
        usages.listed(list) ==> list.contains(usages.sites[id]),
{
    if usages.listed(list) {
        let ids = choose|ids: Seq<usize>|
            {
                &&& #[trigger] ids.no_duplicates()
                &&& ids.to_set() == usages.sites.dom()
                &&& list == ids.map_values(|id: usize| usages.sites[id])
            };
        assert(ids.to_set().contains(id));
        let i = choose|i: int| 0 <= i < ids.len() && ids[i] == id;
        assert(list[i] == usages.sites[id]);
    }
}

/// A resource without outstanding clones is reported with none, and only such a one.
pub proof fn law_nothing_to_report(usages: Usages, list: Seq<Site>)
    requires
        usages.listed(list),
    ensures
        list.len() == 0 <==> usages.sites.dom() == Set::<usize>::empty(),
{
    let ids = choose|ids: Seq<usize>|
        {
            &&& #[trigger] ids.no_duplicates()
            &&& ids.to_set() == usages.sites.dom()
            &&& list == ids.map_values(|id: usize| usages.sites[id])
        };
    if list.len() == 0 {
        assert(ids.to_set() =~= Set::<usize>::empty());
    } else {
        assert(ids.to_set().contains(ids[0]));
    }
}

} // verus!
