//! Shared handles and the object store.
//!
//! An [`ObjectStore`] is a registry of slots, each holding one core object
//! together with its share count and its runtime borrow flag.  A
//! [`DynObject`] is a handle naming one slot; any number of handles may
//! share a slot.  `aquire` opens the slot's exclusive access window by
//! checking the borrow flag and handing the core object out by value;
//! `release` hands it back and closes the window.  A slot dies when its last
//! handle is dropped; the uplink recorded in the core object never keeps it
//! alive.

use vstd::prelude::*;
use vstd::pervasive::unreached;
use crate::guards::{EventKind, GuardRule};
use crate::inner::{DynError, InnerDynObject};
use crate::value_cell::ValModel;

verus! {

/// One registry slot: the core object (absent while checked out or after
/// death), how many handles share it, and whether its access window is open.
struct Slot {
    core: Option<InnerDynObject>,
    shares: usize,
    borrowed: bool,
}

/// The registry that owns every core object.  Slots are never reused, so a
/// dead slot index stays recognisably dead.
pub struct ObjectStore {
    slots: Vec<Slot>,
}

/// A shareable handle naming one store slot.  Cloning a handle shares the
/// slot's core object; no data is duplicated.
#[derive(Debug)]
pub struct DynObject {
    slot: usize,
}

impl DynObject {
    /// The index of the store slot this handle refers to.
    pub closed spec fn id(self) -> int {
        self.slot as int
    }
}

impl ObjectStore {
    /// How many slots were ever allocated.
    pub closed spec fn n_slots(self) -> int {
        self.slots@.len() as int
    }

    /// How many handles currently share slot `i`.
    pub closed spec fn slot_shares(self, i: int) -> nat {
        self.slots@[i].shares as nat
    }

    /// Whether slot `i`'s exclusive access window is open.
    pub closed spec fn slot_borrowed(self, i: int) -> bool {
        self.slots@[i].borrowed
    }

    /// Whether slot `i`'s core object is checked in.
    pub closed spec fn slot_checked_in(self, i: int) -> bool {
        self.slots@[i].core is Some
    }

    /// The core object of slot `i`; meaningful while it is checked in.
    pub closed spec fn slot_core(self, i: int) -> InnerDynObject {
        self.slots@[i].core->Some_0
    }

    /// Whether slot `i` exists and is still owned by at least one handle.
    pub open spec fn slot_live(self, i: int) -> bool {
        0 <= i < self.n_slots() && self.slot_shares(i) >= 1
    }

    /// Well-formedness of the registry: a dead slot holds nothing; a live,
    /// unborrowed slot holds a well-formed core object whose uplink points
    /// back at the slot; a borrowed slot's core object is checked out.
    pub closed spec fn wf(self) -> bool {
        forall|i: int|
            0 <= i < self.slots@.len() ==> {
                let s = #[trigger] self.slots@[i];
                &&& (s.shares == 0 ==> s.core is None && !s.borrowed)
                &&& (s.shares >= 1 && !s.borrowed ==> (s.core matches Some(c) && c.wf()
                    && c.uplink() == Some(i as usize)))
                &&& (s.borrowed ==> s.shares >= 1 && s.core is None)
            }
    }

    /// An empty registry.
    pub fn new() -> (s: ObjectStore)
        ensures
            s.wf(),
            s.n_slots() == 0,
    {
        ObjectStore { slots: Vec::new() }
    }

    /// Closes the access window of the slot that `core`'s uplink names, by
    /// handing the core object back.  Every change made through the access
    /// window becomes visible to all handles of the slot.
    pub fn release(&mut self, core: InnerDynObject)
        requires
            old(self).wf(),
            core.wf(),
            core.uplink() matches Some(s) && (s as int) < old(self).n_slots() && old(
                self,
            ).slot_borrowed(s as int),
        ensures
            final(self).wf(),
            final(self).n_slots() == old(self).n_slots(),
            ({
                let i = core.uplink()->Some_0 as int;
                &&& !final(self).slot_borrowed(i)
                &&& final(self).slot_live(i)
                &&& final(self).slot_shares(i) == old(self).slot_shares(i)
                &&& final(self).slot_checked_in(i)
                &&& final(self).slot_core(i) == core
                &&& forall|j: int|
                    j != i && 0 <= j < old(self).n_slots() ==> slot_same(
                        *old(self),
                        *final(self),
                        j,
                    )
            }),
    {
        let i = match core.get_uplink() {
            Some(i) => i,
            None => unreached(),
        };
        let slot = &mut self.slots[i];
        slot.core = Some(core);
        slot.borrowed = false;
    }
}

/// Slot `i` is in the same state in both registries: same share count, same
/// borrow flag, same (presence of a) core object.
pub open spec fn slot_same(a: ObjectStore, b: ObjectStore, i: int) -> bool {
    &&& a.slot_shares(i) == b.slot_shares(i)
    &&& a.slot_borrowed(i) == b.slot_borrowed(i)
    &&& a.slot_checked_in(i) == b.slot_checked_in(i)
    &&& a.slot_core(i) == b.slot_core(i)
}

impl DynObject {
    /// Allocates a fresh, empty core object in a new slot, records the
    /// slot as the core object's uplink, and returns the first handle.
    pub fn new(store: &mut ObjectStore) -> (h: DynObject)
        requires
            old(store).wf(),
        ensures
            final(store).wf(),
            final(store).n_slots() == old(store).n_slots() + 1,
            h.id() == old(store).n_slots(),
            final(store).slot_live(h.id()),
            final(store).slot_shares(h.id()) == 1,
            !final(store).slot_borrowed(h.id()),
            final(store).slot_core(h.id()).wf(),
            final(store).slot_core(h.id()).props() == Map::<Seq<char>, ValModel>::empty(),
            forall|k: EventKind|
                #[trigger] final(store).slot_core(h.id()).guard_list(k) == Seq::<
                    GuardRule,
                >::empty(),
            final(store).slot_core(h.id()).uplink() == Some(h.id() as usize),
            forall|j: int|
                0 <= j < old(store).n_slots() ==> slot_same(*old(store), *final(store), j),
    {
        let idx = store.slots.len();
        let mut core = InnerDynObject::new();
        core.set_uplink(idx);
        store.slots.push(Slot { core: Some(core), shares: 1, borrowed: false });
        DynObject { slot: idx }
    }

    /// Reconstructs a handle from a core object's uplink, sharing the slot
    /// with the handles that already own it.  A core object never owned by a
    /// handle is refused with `UplinkMissing`; one whose owners are all gone
    /// with `UplinkDangling`.  No access window is needed or touched.
    pub fn create_from(store: &mut ObjectStore, core: &InnerDynObject) -> (r: Result<
        DynObject,
        DynError,
    >)
        requires
            old(store).wf(),
            core.uplink() matches Some(s) ==> (old(store).slot_live(s as int) ==> old(
                store,
            ).slot_shares(s as int) < usize::MAX as nat),
        ensures
            final(store).wf(),
            final(store).n_slots() == old(store).n_slots(),
            core.uplink() is None ==> r == Err::<DynObject, DynError>(DynError::UplinkMissing)
                && *final(store) == *old(store),
            core.uplink() matches Some(s) ==> (!old(store).slot_live(s as int) ==> r == Err::<
                DynObject,
                DynError,
            >(DynError::UplinkDangling) && *final(store) == *old(store)),
            core.uplink() matches Some(s) ==> (old(store).slot_live(s as int) ==> ({
                let i = s as int;
                &&& r matches Ok(h) && h.id() == i
                &&& final(store).slot_live(i)
                &&& final(store).slot_shares(i) == old(store).slot_shares(i) + 1
                &&& final(store).slot_borrowed(i) == old(store).slot_borrowed(i)
                &&& final(store).slot_checked_in(i) == old(store).slot_checked_in(i)
                &&& final(store).slot_core(i) == old(store).slot_core(i)
                &&& forall|j: int|
                    j != i && 0 <= j < old(store).n_slots() ==> slot_same(
                        *old(store),
                        *final(store),
                        j,
                    )
            })),
    {
        match core.get_uplink() {
            None => Err(DynError::UplinkMissing),
            Some(s) => {
                if s >= store.slots.len() {
                    return Err(DynError::UplinkDangling);
                }
                if store.slots[s].shares == 0 {
                    return Err(DynError::UplinkDangling);
                }
                let slot = &mut store.slots[s];
                slot.shares = slot.shares + 1;
                Ok(DynObject { slot: s })
            },
        }
    }

    /// Opens the slot's exclusive access window and hands the core object
    /// out by value.  While the window is open, every further `aquire` on
    /// the slot is refused with `BorrowConflict`; `ObjectStore::release`
    /// closes the window again.
    pub fn aquire(&self, store: &mut ObjectStore) -> (r: Result<InnerDynObject, DynError>)
        requires
            old(store).wf(),
            old(store).slot_live(self.id()),
        ensures
            final(store).wf(),
            final(store).n_slots() == old(store).n_slots(),
            old(store).slot_borrowed(self.id()) ==> r == Err::<InnerDynObject, DynError>(
                DynError::BorrowConflict,
            ) && *final(store) == *old(store),
            !old(store).slot_borrowed(self.id()) ==> ({
                &&& r matches Ok(c) && c == old(store).slot_core(self.id()) && c.wf()
                    && c.uplink() == Some(self.id() as usize)
                &&& final(store).slot_borrowed(self.id())
                &&& final(store).slot_live(self.id())
                &&& final(store).slot_shares(self.id()) == old(store).slot_shares(self.id())
                &&& forall|j: int|
                    j != self.id() && 0 <= j < old(store).n_slots() ==> slot_same(
                        *old(store),
                        *final(store),
                        j,
                    )
            }),
    {
        if store.slots[self.slot].borrowed {
            return Err(DynError::BorrowConflict);
        }
        let slot = &mut store.slots[self.slot];
        match slot.core.take() {
            Some(core) => {
                slot.borrowed = true;
                Ok(core)
            },
            None => unreached(),
        }
    }

    /// A further handle to the same slot: the share count grows by one and
    /// nothing else changes.
    pub fn clone(&self, store: &mut ObjectStore) -> (h: DynObject)
        requires
            old(store).wf(),
            old(store).slot_live(self.id()),
            old(store).slot_shares(self.id()) < usize::MAX as nat,
        ensures
            final(store).wf(),
            final(store).n_slots() == old(store).n_slots(),
            h.id() == self.id(),
            final(store).slot_live(self.id()),
            final(store).slot_shares(self.id()) == old(store).slot_shares(self.id()) + 1,
            final(store).slot_borrowed(self.id()) == old(store).slot_borrowed(self.id()),
            final(store).slot_checked_in(self.id()) == old(store).slot_checked_in(self.id()),
            final(store).slot_core(self.id()) == old(store).slot_core(self.id()),
            forall|j: int|
                j != self.id() && 0 <= j < old(store).n_slots() ==> slot_same(
                    *old(store),
                    *final(store),
                    j,
                ),
    {
        let slot = &mut store.slots[self.slot];
        slot.shares = slot.shares + 1;
        DynObject { slot: self.slot }
    }

    /// Gives this handle up.  The share count shrinks by one; when the last
    /// handle goes, the slot dies and its core object is destroyed with it,
    /// deterministically.  The uplink never keeps a slot alive.
    pub fn drop_handle(self, store: &mut ObjectStore)
        requires
            old(store).wf(),
            old(store).slot_live(self.id()),
            old(store).slot_shares(self.id()) == 1 ==> !old(store).slot_borrowed(self.id()),
        ensures
            final(store).wf(),
            final(store).n_slots() == old(store).n_slots(),
            final(store).slot_shares(self.id()) == old(store).slot_shares(self.id()) - 1,
            old(store).slot_shares(self.id()) > 1 ==> ({
                &&& final(store).slot_live(self.id())
                &&& final(store).slot_borrowed(self.id()) == old(store).slot_borrowed(self.id())
                &&& final(store).slot_checked_in(self.id()) == old(store).slot_checked_in(
                    self.id(),
                )
                &&& final(store).slot_core(self.id()) == old(store).slot_core(self.id())
            }),
            old(store).slot_shares(self.id()) == 1 ==> !final(store).slot_live(self.id())
                && !final(store).slot_borrowed(self.id()),
            forall|j: int|
                j != self.id() && 0 <= j < old(store).n_slots() ==> slot_same(
                    *old(store),
                    *final(store),
                    j,
                ),
    {
        let slot = &mut store.slots[self.slot];
        slot.shares = slot.shares - 1;
        if slot.shares == 0 {
            slot.core = None;
            slot.borrowed = false;
        }
    }
}

/// Handles naming the same slot observe the same core object, so a property
/// created through one is visible through any other, however the handles
/// were produced (by cloning or by reconstruction from the uplink).
pub proof fn lemma_shared_handles_same_core(store: ObjectStore, h1: DynObject, h2: DynObject)
    requires
        h1.id() == h2.id(),
    ensures
        store.slot_core(h1.id()) == store.slot_core(h2.id()),
        store.slot_core(h1.id()).props() == store.slot_core(h2.id()).props(),
        store.slot_core(h1.id()).props().dom() == store.slot_core(h2.id()).props().dom(),
{
}

/// The exclusive window is exclusive across sharing: while the window opened
/// through one handle is open, the slot every sharing handle names is
/// borrowed, which is exactly the state in which the `aquire` contract
/// refuses with `BorrowConflict`; `release` restores the state in which it
/// succeeds.
pub proof fn lemma_open_window_blocks_sharing_handles(
    store: ObjectStore,
    h1: DynObject,
    h2: DynObject,
)
    requires
        h1.id() == h2.id(),
        store.slot_borrowed(h1.id()),
    ensures
        store.slot_borrowed(h2.id()),
{
}

} // verus!
