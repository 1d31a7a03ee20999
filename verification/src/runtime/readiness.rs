//! Per-service readiness.
use tokio::sync::watch;
use vstd::prelude::*;

use crate::channel::watch::CellState;
use crate::service::ServiceName;
use crate::state::{CellAccount, State, StateReceiver};
use crate::util;

verus! {

/// Readiness of one service.
struct ReadinessSlot {
    name: ServiceName,
    flag: State<bool>,
    account: CellAccount<bool>,
}

/// Per-service readiness flags. Each is a [`State`], so that waiters can await the
/// transition from `false` to `true` and ones that come after the
/// transition see `true` immediately.
pub struct ReadinessRegistry {
    slots: Vec<ReadinessSlot>,
}

spec fn slot_at(slots: Seq<ReadinessSlot>, name: Seq<char>, i: int) -> bool {
    0 <= i < slots.len() && slots[i].name@ == name
}

spec fn has_slot(slots: Seq<ReadinessSlot>, name: Seq<char>) -> bool {
    exists|i: int| slot_at(slots, name, i)
}

spec fn cell_of(slots: Seq<ReadinessSlot>, name: Seq<char>) -> CellState<bool> {
    slots[choose|i: int| slot_at(slots, name, i)].account@
}

impl View for ReadinessRegistry {
    type V = Map<Seq<char>, CellState<bool>>;

    /// For each registered service, the cell that its readiness flag is kept in.
    closed spec fn view(&self) -> Map<Seq<char>, CellState<bool>> {
        Map::new(
            |name: Seq<char>| has_slot(self.slots@, name),
            |name: Seq<char>| cell_of(self.slots@, name),
        )
    }
}

impl ReadinessRegistry {
    /// Each service has one slot, with a flag and the account of it.
    pub closed spec fn wf(&self) -> bool {
        &&& forall|i: int, j: int|
            #![trigger self.slots@[i], self.slots@[j]]
            0 <= i < j < self.slots@.len() ==> self.slots@[i].name@ != self.slots@[j].name@
        &&& forall|i: int|
            0 <= i < self.slots@.len() ==> (#[trigger] self.slots@[i]).flag@
                == self.slots@[i].account@.cell
    }

    proof fn lemma_slot(&self, i: int)
        requires
            self.wf(),
            0 <= i < self.slots@.len(),
        ensures
            self@.dom().contains(self.slots@[i].name@),
            self.slots@[i].account@ == self@[self.slots@[i].name@],
            forall|j: int| slot_at(self.slots@, self.slots@[i].name@, j) ==> j == i,
    {
        let name = self.slots@[i].name@;
        assert(slot_at(self.slots@, name, i));
        let c = choose|c: int| slot_at(self.slots@, name, c);
        assert(c == i) by {
            if c < i {
                assert(self.slots@[c].name@ != self.slots@[i].name@);
            } else if i < c {
                assert(self.slots@[i].name@ != self.slots@[c].name@);
            }
        }
        assert forall|j: int| slot_at(self.slots@, name, j) implies j == i by {
            if j < i {
                assert(self.slots@[j].name@ != self.slots@[i].name@);
            } else if i < j {
                assert(self.slots@[i].name@ != self.slots@[j].name@);
            }
        }
    }

    /// Register `names`, none of them ready.
    pub fn new(names: &[ServiceName]) -> (registry: Self)
        ensures
            registry.wf(),
            forall|name: Seq<char>| #[trigger]
                registry@.dom().contains(name) <==> util::name_views(names@).contains(name),
            forall|name: Seq<char>| #[trigger]
                registry@.dom().contains(name) ==> registry@[name] == CellState::initial(
                    registry@[name].cell,
                    false,
                ),
    {
        let mut registry = ReadinessRegistry { slots: Vec::new() };
        let mut i: usize = 0;
        while i < names.len()
            invariant
                i <= names@.len(),
                registry.wf(),
                forall|name: Seq<char>| #[trigger]
                    has_slot(registry.slots@, name) <==> util::name_views(names@).take(
                        i as int,
                    ).contains(name),
                forall|j: int|
                    0 <= j < registry.slots@.len() ==> (#[trigger] registry.slots@[j]).account@
                        == CellState::initial(registry.slots@[j].account@.cell, false),
            decreases names@.len() - i,
        {
            let ghost before = registry.slots@;
            let ghost seen = util::name_views(names@).take(i as int);
            let ghost next = util::name_views(names@).take(i + 1);
            assert(next =~= seen.push(names@[i as int]@));
            if registry.position(names[i]).is_none() {
                let (flag, account) = State::new(false);
                registry.slots.push(ReadinessSlot { name: names[i], flag, account });
                assert forall|a: int, b: int|
                    #![trigger registry.slots@[a], registry.slots@[b]]
                    0 <= a < b < registry.slots@.len() implies registry.slots@[a].name@
                    != registry.slots@[b].name@ by {
                    if b == before.len() {
                        assert(!slot_at(before, names@[i as int]@, a));
                    } else {
                        assert(before[a].name@ != before[b].name@);
                    }
                }
            }
            proof {
                let slots = registry.slots@;
                let added = names@[i as int]@;
                assert forall|name: Seq<char>| #[trigger]
                    has_slot(slots, name) <==> next.contains(name) by {
                    assert(next.contains(name) <==> seen.contains(name) || name == added) by {
                        if seen.contains(name) {
                            let k = choose|k: int| 0 <= k < seen.len() && seen[k] == name;
                            assert(next[k] == name);
                        }
                        if name == added {
                            assert(next[i as int] == name);
                        }
                    }
                    assert(has_slot(before, name) <==> seen.contains(name));
                    if has_slot(before, name) {
                        let k = choose|k: int| slot_at(before, name, k);
                        assert(slot_at(slots, name, k));
                    }
                    if name == added && !has_slot(before, name) {
                        assert(slot_at(slots, name, slots.len() - 1));
                    }
                    if has_slot(slots, name) && name != added {
                        let k = choose|k: int| slot_at(slots, name, k);
                        assert(slot_at(before, name, k));
                    }
                }
            }
            i += 1;
        }
        proof {
            assert(util::name_views(names@).take(i as int) =~= util::name_views(names@));
            assert forall|name: Seq<char>| #[trigger]
                registry@.dom().contains(name) implies registry@[name] == CellState::initial(
                registry@[name].cell,
                false,
            ) by {
                let k = choose|k: int| slot_at(registry.slots@, name, k);
                registry.lemma_slot(k);
            }
            assert forall|name: Seq<char>| #[trigger]
                registry@.dom().contains(name) <==> util::name_views(names@).contains(name) by {
                assert(has_slot(registry.slots@, name) <==> util::name_views(names@).contains(
                    name,
                ));
            }
        }
        registry
    }

    /// Where the slot of `name` is.
    fn position(&self, name: ServiceName) -> (found: Option<usize>)
        ensures
            match found {
                Some(i) => slot_at(self.slots@, name@, i as int),
                None => !has_slot(self.slots@, name@),
            },
    {
        let mut i: usize = 0;
        while i < self.slots.len()
            invariant
                i <= self.slots@.len(),
                forall|j: int| 0 <= j < i ==> !#[trigger] slot_at(self.slots@, name@, j),
            decreases self.slots@.len() - i,
        {
            if util::same_name(self.slots[i].name, name) {
                return Some(i);
            }
            i += 1;
        }
        None
    }

    /// Mark a service ready, and notify everyone who waits for it. Idempotent; unknown
    /// names are ignored, and said to be unknown.
    pub fn mark_ready(&mut self, name: ServiceName) -> (known: bool)
        requires
            old(self).wf(),
        ensures
            final(self).wf(),
            known == old(self)@.dom().contains(name@),
            final(self)@ == if old(self)@.dom().contains(name@) {
                old(self)@.insert(name@, old(self)@[name@].updated(true, true))
            } else {
                old(self)@
            },
    {
        match self.position(name) {
            Some(i) => {
                let ghost before = *self;
                proof {
                    self.lemma_slot(i as int);
                }
                let slot = &mut self.slots[i];
                slot.flag.set(&mut slot.account, true);
                proof {
                    self.lemma_slot_changed(before, i as int);
                }
                true
            },
            None => false,
        }
    }

    proof fn lemma_slot_changed(&self, before: Self, i: int)
        requires
            before.wf(),
            0 <= i < before.slots@.len(),
            self.slots@.len() == before.slots@.len(),
            forall|j: int|
                0 <= j < before.slots@.len() && j != i ==> self.slots@[j] == before.slots@[j],
            self.slots@[i].name == before.slots@[i].name,
            self.slots@[i].flag@ == self.slots@[i].account@.cell,
        ensures
            self.wf(),
            before@.dom().contains(before.slots@[i].name@),
            self@ == before@.insert(before.slots@[i].name@, self.slots@[i].account@),
    {
        let changed = before.slots@[i].name@;
        before.lemma_slot(i);
        assert forall|a: int, b: int|
            #![trigger self.slots@[a], self.slots@[b]]
            0 <= a < b < self.slots@.len() implies self.slots@[a].name@ != self.slots@[b].name@ by {
            assert(before.slots@[a].name@ != before.slots@[b].name@);
        }
        assert forall|name: Seq<char>| #[trigger]
            self@.dom().contains(name) <==> before@.dom().contains(name) by {
            if before@.dom().contains(name) {
                let k = choose|k: int| slot_at(before.slots@, name, k);
                assert(slot_at(self.slots@, name, k));
            }
            if self@.dom().contains(name) {
                let k = choose|k: int| slot_at(self.slots@, name, k);
                assert(slot_at(before.slots@, name, k));
            }
        }
        assert forall|name: Seq<char>| #[trigger] self@.dom().contains(name) implies self@[name]
            == before@.insert(changed, self.slots@[i].account@)[name] by {
            let k = choose|k: int| slot_at(self.slots@, name, k);
            self.lemma_slot(k);
            before.lemma_slot(k);
        }
        assert(self@ =~= before@.insert(changed, self.slots@[i].account@));
    }

    /// Whether a service has been marked ready; `false` for unknown names.
    pub fn is_ready(&self, name: ServiceName) -> (ready: bool)
        requires
            self.wf(),
        ensures
            ready == (self@.dom().contains(name@) && self@[name@].value),
    {
        match self.position(name) {
            Some(i) => {
                proof {
                    self.lemma_slot(i as int);
                }
                let slot = &self.slots[i];
                slot.flag.snapshot(&slot.account)
            },
            None => false,
        }
    }

    /// A receiver that follows the readiness of a service, or `None` for unknown
    /// names. It is notified of every mark from here on.
    pub fn subscribe(&mut self, name: ServiceName) -> (receiver: Option<StateReceiver<bool>>)
        requires
            old(self).wf(),
        ensures
            final(self).wf(),
            final(self)@ == if old(self)@.dom().contains(name@) {
                old(self)@.insert(name@, old(self)@[name@].heard())
            } else {
                old(self)@
            },
            receiver is Some <==> old(self)@.dom().contains(name@),
            receiver matches Some(r) ==> r@ == old(self)@[name@].new_receiver(),
    {
        match self.position(name) {
            Some(i) => {
                let ghost before = *self;
                proof {
                    self.lemma_slot(i as int);
                }
                let slot = &mut self.slots[i];
                let receiver = slot.flag.subscribe(&mut slot.account);
                proof {
                    self.lemma_slot_changed(before, i as int);
                }
                Some(receiver)
            },
            None => None,
        }
    }

    /// Take a receiver that follows a service out, to wait on.
    pub fn lend(&mut self, name: ServiceName, receiver: StateReceiver<bool>) -> (changes:
        watch::Receiver<bool>)
        requires
            old(self).wf(),
            old(self)@.dom().contains(name@),
            receiver@.cell == old(self)@[name@].cell,
        ensures
            final(self).wf(),
            final(self)@ == old(self)@.insert(name@, old(self)@[name@].lending()),
            changes == receiver.inner(),
    {
        let i: usize = self.position(name).unwrap();
        let ghost before = *self;
        proof {
            self.lemma_slot(i as int);
        }
        let slot = &mut self.slots[i];
        let changes = receiver.into_inner(&mut slot.account);
        proof {
            self.lemma_slot_changed(before, i as int);
        }
        changes
    }

    /// What a receiver that follows a service shows of it.
    pub fn sighting(&self, name: ServiceName, receiver: &StateReceiver<bool>) -> (seen:
        ReadinessSighting)
        requires
            self.wf(),
            self@.dom().contains(name@) ==> receiver@.cell == self@[name@].cell,
        ensures
            seen == sighting_of(self@, name@),
    {
        match self.position(name) {
            Some(i) => {
                proof {
                    self.lemma_slot(i as int);
                }
                let flag = receiver.borrow(&self.slots[i].account);
                ReadinessSighting::Flag(*flag)
            },
            None => ReadinessSighting::Unregistered,
        }
    }
}

/// What someone waiting for a service to become ready can come to see.
#[derive(Debug, Clone, Copy, PartialEq, Eq)]
pub enum ReadinessSighting {
    /// The service is unknown.
    Unregistered,
    /// The service's readiness flag.
    Flag(bool),
    /// The flag is gone and will not change any more.
    Closed,
}

/// What is to be seen of a service where these are the readiness flags.
pub open spec fn sighting_of(
    readiness: Map<Seq<char>, CellState<bool>>,
    name: Seq<char>,
) -> ReadinessSighting {
    if readiness.dom().contains(name) {
        ReadinessSighting::Flag(readiness[name].value)
    } else {
        ReadinessSighting::Unregistered
    }
}

/// Waiting for a service to become ready is over with this sighting.
pub open spec fn ends_wait(seen: ReadinessSighting) -> bool {
    seen != ReadinessSighting::Flag(false)
}

/// Whether waiting for a service to become ready is over: unless its flag is
/// still `false`. Waiting on an unknown service, or on a flag that is gone, would
/// never end, so neither is waited on.
pub fn wait_is_over(seen: ReadinessSighting) -> (over: bool)
    ensures
        over == ends_wait(seen),
{
    match seen {
        ReadinessSighting::Unregistered => true,
        ReadinessSighting::Flag(ready) => ready,
        ReadinessSighting::Closed => true,
    }
}

} // verus!
