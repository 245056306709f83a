//! The core object: the authoritative key-to-value-cell mapping, its guard
//! lists, and its uplink.
//!
//! An [`InnerDynObject`] is modelled as a finite map from key character
//! sequences to value models.  Every operation first consults the guard list
//! of its event kind; a denial is atomic, leaving the object untouched.

use vstd::prelude::*;
use vstd::pervasive::unreached;
use vstd::string::StringExecFns;
use crate::guards::{EventKind, GuardRegistry, GuardRule, lemma_deny_rule_blocks_all, list_allows, rule_allows};
use crate::value_cell::{DynProperty, TypeTag, ValModel, read_model, tag_of};

verus! {

/// The recoverable and fatal outcomes of the property operations.
#[derive(Clone, Copy, Debug, PartialEq, Eq, Structural)]
pub enum DynError {
    /// A set, remove or access named a key that is absent.
    KeyNotFound,
    /// A create named a key that is already present.
    KeyAlreadyExists,
    /// An in-place update offered a value of another type than the stored one.
    TypeMismatch,
    /// A registered guard vetoed the event; nothing was changed.
    GuardDenied,
    /// A second exclusive access window was requested while one is open.
    BorrowConflict,
    /// A handle was requested from a core object that no handle ever owned.
    UplinkMissing,
    /// A handle was requested from a core object whose owners are all gone.
    UplinkDangling,
}

/// One stored property: its key and its type-erased value cell.
#[derive(Debug)]
struct Entry {
    key: String,
    cell: DynProperty,
}

/// The map described by an entry list: later entries shadow earlier ones,
/// though with unique keys no shadowing ever happens.
spec fn entries_map(s: Seq<Entry>) -> Map<Seq<char>, ValModel>
    decreases s.len(),
{
    if s.len() == 0 {
        Map::empty()
    } else {
        entries_map(s.drop_last()).insert(s.last().key@, s.last().cell@)
    }
}

/// No two entries share a key.
spec fn unique_keys(s: Seq<Entry>) -> bool {
    forall|a: int, b: int|
        0 <= a < b < s.len() ==> (#[trigger] s[a].key@) != (#[trigger] s[b].key@)
}

proof fn lemma_entries_map_dom(s: Seq<Entry>)
    ensures
        forall|k: Seq<char>|
            #[trigger] entries_map(s).dom().contains(k) <==> exists|i: int|
                0 <= i < s.len() && (#[trigger] s[i].key@) == k,
    decreases s.len(),
{
    if s.len() > 0 {
        let pre = s.drop_last();
        lemma_entries_map_dom(pre);
        assert(entries_map(s) == entries_map(pre).insert(s.last().key@, s.last().cell@));
        assert forall|k: Seq<char>|
            #[trigger] entries_map(s).dom().contains(k) <==> exists|i: int|
                0 <= i < s.len() && (#[trigger] s[i].key@) == k by {
            if entries_map(s).dom().contains(k) {
                if k == s.last().key@ {
                    assert(s[s.len() - 1].key@ == k);
                } else {
                    let i = choose|i: int| 0 <= i < pre.len() && (#[trigger] pre[i].key@) == k;
                    assert(s[i].key@ == k);
                }
            }
            if exists|i: int| 0 <= i < s.len() && (#[trigger] s[i].key@) == k {
                let i = choose|i: int| 0 <= i < s.len() && (#[trigger] s[i].key@) == k;
                if i < s.len() - 1 {
                    assert(pre[i].key@ == k);
                    assert(entries_map(pre).dom().contains(k));
                }
            }
        }
    }
}

proof fn lemma_entries_map_val(s: Seq<Entry>, i: int)
    requires
        unique_keys(s),
        0 <= i < s.len(),
    ensures
        entries_map(s).dom().contains(s[i].key@),
        entries_map(s)[s[i].key@] == s[i].cell@,
    decreases s.len(),
{
    if i < s.len() - 1 {
        let pre = s.drop_last();
        assert(unique_keys(pre));
        lemma_entries_map_val(pre, i);
        assert(s[i].key@ != s.last().key@);
    }
}

proof fn lemma_entries_map_push(s: Seq<Entry>, e: Entry)
    ensures
        entries_map(s.push(e)) == entries_map(s).insert(e.key@, e.cell@),
{
    assert(s.push(e).drop_last() =~= s);
    assert(s.push(e).last() == e);
}

proof fn lemma_unique_push(s: Seq<Entry>, e: Entry)
    requires
        unique_keys(s),
        forall|j: int| 0 <= j < s.len() ==> (#[trigger] s[j].key@) != e.key@,
    ensures
        unique_keys(s.push(e)),
{
}

proof fn lemma_unique_remove(s: Seq<Entry>, i: int)
    requires
        unique_keys(s),
        0 <= i < s.len(),
    ensures
        unique_keys(s.remove(i)),
        forall|j: int|
            0 <= j < s.remove(i).len() ==> (#[trigger] s.remove(i)[j].key@) != s[i].key@,
{
    assert forall|j: int|
        0 <= j < s.remove(i).len() implies (#[trigger] s.remove(i)[j].key@) != s[i].key@ by {
        if j < i {
            assert(s.remove(i)[j] == s[j]);
        } else {
            assert(s.remove(i)[j] == s[j + 1]);
        }
    }
}

proof fn lemma_entries_map_remove(s: Seq<Entry>, i: int)
    requires
        unique_keys(s),
        0 <= i < s.len(),
    ensures
        entries_map(s.remove(i)) == entries_map(s).remove(s[i].key@),
    decreases s.len(),
{
    let k = s[i].key@;
    let pre = s.drop_last();
    lemma_entries_map_dom(pre);
    if i == s.len() - 1 {
        assert(s.remove(i) =~= pre);
        assert(!entries_map(pre).dom().contains(k)) by {
            if entries_map(pre).dom().contains(k) {
                let j = choose|j: int| 0 <= j < pre.len() && (#[trigger] pre[j].key@) == k;
                assert(s[j].key@ == s[i].key@);
            }
        }
        assert(entries_map(s).remove(k) =~= entries_map(pre));
    } else {
        assert(unique_keys(pre));
        lemma_entries_map_remove(pre, i);
        assert(s.remove(i).drop_last() =~= pre.remove(i));
        assert(s.remove(i).last() == s.last());
        assert(s.last().key@ != k);
        assert(entries_map(pre).remove(k).insert(s.last().key@, s.last().cell@) =~= entries_map(
            pre,
        ).insert(s.last().key@, s.last().cell@).remove(k));
    }
}

/// A dynamic object: named, type-erased properties, guarded lifecycle
/// events, and an optional non-owning back-reference to the store slot of
/// the handle wrapper that owns it.
#[derive(Debug)]
pub struct InnerDynObject {
    entries: Vec<Entry>,
    guards: GuardRegistry,
    uplink: Option<usize>,
}

impl InnerDynObject {
    /// The properties currently stored, as a map from key to value model.
    pub closed spec fn props(self) -> Map<Seq<char>, ValModel> {
        entries_map(self.entries@)
    }

    /// Well-formedness: every key occurs at most once.
    pub closed spec fn wf(self) -> bool {
        unique_keys(self.entries@)
    }

    /// The non-owning back-reference to the owning handle's store slot, if
    /// one was ever set.
    pub closed spec fn uplink(self) -> Option<usize> {
        self.uplink
    }

    /// The guard list registered for one event kind.
    pub closed spec fn guard_list(self, kind: EventKind) -> Seq<GuardRule> {
        self.guards.list(kind)
    }

    /// Whether the guard list of `kind` allows an event on `key` in the
    /// object's current state.
    pub open spec fn guards_allow(self, kind: EventKind, key: Seq<char>) -> bool {
        list_allows(self.guard_list(kind), self.props().dom(), key)
    }

    /// A fresh core object: no properties, no guards, no uplink.
    pub fn new() -> (obj: InnerDynObject)
        ensures
            obj.wf(),
            obj.props() == Map::<Seq<char>, ValModel>::empty(),
            forall|kind: EventKind| #[trigger] obj.guard_list(kind) == Seq::<GuardRule>::empty(),
            obj.uplink() is None,
    {
        InnerDynObject { entries: Vec::new(), guards: GuardRegistry::new(), uplink: None }
    }

    /// The uplink, read without consulting any guard.
    pub fn get_uplink(&self) -> (r: Option<usize>)
        ensures
            r == self.uplink(),
    {
        self.uplink
    }

    /// Records the back-reference to the owning store slot.  Only the store
    /// calls this, exactly once, when the first handle is built.
    pub(crate) fn set_uplink(&mut self, slot: usize)
        ensures
            final(self).uplink() == Some(slot),
            final(self).props() == old(self).props(),
            final(self).wf() == old(self).wf(),
            forall|kind: EventKind|
                #[trigger] final(self).guard_list(kind) == old(self).guard_list(kind),
    {
        self.uplink = Some(slot);
    }

    /// Registers one more guard rule for an event kind.  Rules are consulted
    /// in registration order; properties and uplink are untouched.
    pub fn add_guard(&mut self, kind: EventKind, rule: GuardRule)
        ensures
            final(self).guard_list(kind) == old(self).guard_list(kind).push(rule),
            forall|k: EventKind|
                k != kind ==> #[trigger] final(self).guard_list(k) == old(self).guard_list(k),
            final(self).props() == old(self).props(),
            final(self).uplink() == old(self).uplink(),
            final(self).wf() == old(self).wf(),
    {
        self.guards.push(kind, rule);
    }

    /// The index of the entry holding `key`, if any.
    fn find_index(&self, key: &String) -> (r: Option<usize>)
        ensures
            match r {
                Some(i) => i < self.entries@.len() && self.entries@[i as int].key@ == key@,
                None => forall|j: int|
                    0 <= j < self.entries@.len() ==> (#[trigger] self.entries@[j].key@) != key@,
            },
    {
        let n = self.entries.len();
        let mut i: usize = 0;
        while i < n
            invariant
                n == self.entries@.len(),
                i <= n,
                forall|j: int| 0 <= j < i ==> (#[trigger] self.entries@[j].key@) != key@,
            decreases n - i,
        {
            if self.entries[i].key == *key {
                return Some(i);
            }
            i = i + 1;
        }
        None
    }

    /// Whether `key` is present, stated over the owned key string.
    fn contains_key_exec(&self, key: &String) -> (b: bool)
        ensures
            b == self.props().dom().contains(key@),
    {
        proof {
            lemma_entries_map_dom(self.entries@);
        }
        match self.find_index(key) {
            Some(_) => true,
            None => false,
        }
    }

    /// Evaluates one guard rule against the current key set.
    fn eval_rule(&self, rule: &GuardRule, key: &String) -> (b: bool)
        ensures
            b == rule_allows(*rule, self.props().dom(), key@),
    {
        match rule {
            GuardRule::Allow => true,
            GuardRule::Deny => false,
            GuardRule::DenyKey(k) => !(*k == *key),
            GuardRule::AllowOnlyKey(k) => *k == *key,
            GuardRule::DenyIfPresent(k) => !self.contains_key_exec(k),
            GuardRule::DenyIfAbsent(k) => self.contains_key_exec(k),
        }
    }

    /// Evaluates the guard list of one event kind in registration order,
    /// stopping at the first denial.
    fn eval_guards(&self, kind: EventKind, key: &String) -> (b: bool)
        ensures
            b == self.guards_allow(kind, key@),
    {
        let rules = self.guards.rules(kind);
        let n = rules.len();
        let mut i: usize = 0;
        while i < n
            invariant
                n == rules@.len(),
                rules@ == self.guard_list(kind),
                i <= n,
                forall|j: int|
                    0 <= j < i ==> rule_allows(#[trigger] rules@[j], self.props().dom(), key@),
            decreases n - i,
        {
            if !self.eval_rule(&rules[i], key) {
                return false;
            }
            i = i + 1;
        }
        true
    }

    /// Pure lookup: whether a property named `key` exists.  Never consults
    /// guards and never fails.
    pub fn exists_property(&self, key: &str) -> (b: bool)
        ensures
            b == self.props().dom().contains(key@),
    {
        let k = String::from_str(key);
        self.contains_key_exec(&k)
    }

    /// Creates a new property.  The on-create guards are consulted first: a
    /// veto denies the event atomically.  A key already present is refused
    /// without change; otherwise the key now maps to exactly `value`.
    pub fn create_property(&mut self, key: &str, value: DynProperty) -> (r: Result<(), DynError>)
        requires
            old(self).wf(),
        ensures
            final(self).wf(),
            final(self).uplink() == old(self).uplink(),
            forall|k: EventKind|
                #[trigger] final(self).guard_list(k) == old(self).guard_list(k),
            !old(self).guards_allow(EventKind::OnCreate, key@) ==> r == Err::<(), DynError>(
                DynError::GuardDenied,
            ) && *final(self) == *old(self),
            old(self).guards_allow(EventKind::OnCreate, key@) && old(self).props().dom().contains(
                key@,
            ) ==> r == Err::<(), DynError>(DynError::KeyAlreadyExists) && *final(self) == *old(
                self,
            ),
            old(self).guards_allow(EventKind::OnCreate, key@) && !old(self).props().dom().contains(
                key@,
            ) ==> r == Ok::<(), DynError>(()) && final(self).props() == old(self).props().insert(
                key@,
                value@,
            ),
    {
        let k = String::from_str(key);
        if !self.eval_guards(EventKind::OnCreate, &k) {
            return Err(DynError::GuardDenied);
        }
        proof {
            lemma_entries_map_dom(self.entries@);
        }
        match self.find_index(&k) {
            Some(_) => Err(DynError::KeyAlreadyExists),
            None => {
                let ghost pre = self.entries@;
                let e = Entry { key: k, cell: value };
                proof {
                    lemma_unique_push(pre, e);
                    lemma_entries_map_push(pre, e);
                }
                self.entries.push(e);
                Ok(())
            },
        }
    }

    /// Replaces the value of an existing property.  The on-set guards are
    /// consulted first; an absent key is refused with `KeyNotFound` and is
    /// not created.  The new value's type need not match the old one.
    pub fn set_property(&mut self, key: &str, value: DynProperty) -> (r: Result<(), DynError>)
        requires
            old(self).wf(),
        ensures
            final(self).wf(),
            final(self).uplink() == old(self).uplink(),
            forall|k: EventKind|
                #[trigger] final(self).guard_list(k) == old(self).guard_list(k),
            !old(self).guards_allow(EventKind::OnSet, key@) ==> r == Err::<(), DynError>(
                DynError::GuardDenied,
            ) && *final(self) == *old(self),
            old(self).guards_allow(EventKind::OnSet, key@) && !old(self).props().dom().contains(
                key@,
            ) ==> r == Err::<(), DynError>(DynError::KeyNotFound) && *final(self) == *old(self),
            old(self).guards_allow(EventKind::OnSet, key@) && old(self).props().dom().contains(
                key@,
            ) ==> r == Ok::<(), DynError>(()) && final(self).props() == old(self).props().insert(
                key@,
                value@,
            ),
    {
        let k = String::from_str(key);
        if !self.eval_guards(EventKind::OnSet, &k) {
            return Err(DynError::GuardDenied);
        }
        proof {
            lemma_entries_map_dom(self.entries@);
        }
        match self.find_index(&k) {
            None => Err(DynError::KeyNotFound),
            Some(i) => {
                self.replace_at(i, k, value);
                Ok(())
            },
        }
    }

    /// Replaces the cell at entry `i`, whose key is `k`, with `value`.
    fn replace_at(&mut self, i: usize, k: String, value: DynProperty)
        requires
            old(self).wf(),
            i < old(self).entries@.len(),
            old(self).entries@[i as int].key@ == k@,
        ensures
            final(self).wf(),
            final(self).uplink() == old(self).uplink(),
            forall|kd: EventKind|
                #[trigger] final(self).guard_list(kd) == old(self).guard_list(kd),
            final(self).props() == old(self).props().insert(k@, value@),
    {
        let ghost pre = self.entries@;
        proof {
            lemma_unique_remove(pre, i as int);
            lemma_entries_map_remove(pre, i as int);
        }
        self.entries.remove(i);
        let ghost mid = self.entries@;
        let e = Entry { key: k, cell: value };
        proof {
            lemma_unique_push(mid, e);
            lemma_entries_map_push(mid, e);
            assert(entries_map(mid).insert(e.key@, e.cell@) =~= entries_map(pre).insert(
                e.key@,
                e.cell@,
            ));
        }
        self.entries.push(e);
    }

    /// Removes a property.  The on-remove guards are consulted first; an
    /// absent key is refused with `KeyNotFound`.
    pub fn remove_property(&mut self, key: &str) -> (r: Result<(), DynError>)
        requires
            old(self).wf(),
        ensures
            final(self).wf(),
            final(self).uplink() == old(self).uplink(),
            forall|k: EventKind|
                #[trigger] final(self).guard_list(k) == old(self).guard_list(k),
            !old(self).guards_allow(EventKind::OnRemove, key@) ==> r == Err::<(), DynError>(
                DynError::GuardDenied,
            ) && *final(self) == *old(self),
            old(self).guards_allow(EventKind::OnRemove, key@) && !old(self).props().dom().contains(
                key@,
            ) ==> r == Err::<(), DynError>(DynError::KeyNotFound) && *final(self) == *old(self),
            old(self).guards_allow(EventKind::OnRemove, key@) && old(self).props().dom().contains(
                key@,
            ) ==> r == Ok::<(), DynError>(()) && final(self).props() == old(self).props().remove(
                key@,
            ),
    {
        let k = String::from_str(key);
        if !self.eval_guards(EventKind::OnRemove, &k) {
            return Err(DynError::GuardDenied);
        }
        proof {
            lemma_entries_map_dom(self.entries@);
        }
        match self.find_index(&k) {
            None => Err(DynError::KeyNotFound),
            Some(i) => {
                let ghost pre = self.entries@;
                proof {
                    lemma_unique_remove(pre, i as int);
                    lemma_entries_map_remove(pre, i as int);
                }
                self.entries.remove(i);
                Ok(())
            },
        }
    }

    /// Read access to a property's value cell.  The read-access guards are
    /// consulted first; an absent key is refused with `KeyNotFound`.
    pub fn access_property(&self, key: &str) -> (r: Result<&DynProperty, DynError>)
        requires
            self.wf(),
        ensures
            !self.guards_allow(EventKind::OnAccessRef, key@) ==> r == Err::<&DynProperty, DynError>(
                DynError::GuardDenied,
            ),
            self.guards_allow(EventKind::OnAccessRef, key@) && !self.props().dom().contains(key@)
                ==> r == Err::<&DynProperty, DynError>(DynError::KeyNotFound),
            self.guards_allow(EventKind::OnAccessRef, key@) && self.props().dom().contains(key@)
                ==> (r matches Ok(c) && c@ == self.props()[key@]),
    {
        let k = String::from_str(key);
        if !self.eval_guards(EventKind::OnAccessRef, &k) {
            return Err(DynError::GuardDenied);
        }
        proof {
            lemma_entries_map_dom(self.entries@);
        }
        match self.find_index(&k) {
            None => Err(DynError::KeyNotFound),
            Some(i) => {
                proof {
                    lemma_entries_map_val(self.entries@, i as int);
                }
                Ok(&self.entries[i].cell)
            },
        }
    }

    /// Access for in-place mutation: replaces the value of an existing
    /// property with one of the same type.  The mutation-access guards are
    /// consulted first; an absent key is refused with `KeyNotFound`, and a
    /// value of another type than the stored one with `TypeMismatch`.
    pub fn access_property_mut(&mut self, key: &str, value: DynProperty) -> (r: Result<
        (),
        DynError,
    >)
        requires
            old(self).wf(),
        ensures
            final(self).wf(),
            final(self).uplink() == old(self).uplink(),
            forall|k: EventKind|
                #[trigger] final(self).guard_list(k) == old(self).guard_list(k),
            !old(self).guards_allow(EventKind::OnAccessMut, key@) ==> r == Err::<(), DynError>(
                DynError::GuardDenied,
            ) && *final(self) == *old(self),
            old(self).guards_allow(EventKind::OnAccessMut, key@) && !old(
                self,
            ).props().dom().contains(key@) ==> r == Err::<(), DynError>(DynError::KeyNotFound)
                && *final(self) == *old(self),
            old(self).guards_allow(EventKind::OnAccessMut, key@) && old(
                self,
            ).props().dom().contains(key@) && tag_of(old(self).props()[key@]) != tag_of(value@)
                ==> r == Err::<(), DynError>(DynError::TypeMismatch) && *final(self) == *old(self),
            old(self).guards_allow(EventKind::OnAccessMut, key@) && old(
                self,
            ).props().dom().contains(key@) && tag_of(old(self).props()[key@]) == tag_of(value@)
                ==> r == Ok::<(), DynError>(()) && final(self).props() == old(
                self,
            ).props().insert(key@, value@),
    {
        let k = String::from_str(key);
        if !self.eval_guards(EventKind::OnAccessMut, &k) {
            return Err(DynError::GuardDenied);
        }
        proof {
            lemma_entries_map_dom(self.entries@);
        }
        match self.find_index(&k) {
            None => Err(DynError::KeyNotFound),
            Some(i) => {
                proof {
                    lemma_entries_map_val(self.entries@, i as int);
                }
                if !(self.entries[i].cell.tag() == value.tag()) {
                    return Err(DynError::TypeMismatch);
                }
                self.replace_at(i, k, value);
                Ok(())
            },
        }
    }

    /// Indexed access: the value cell of a key the caller has already
    /// established to exist and to pass the read-access guards.  Using it on
    /// any other key is a fatal caller error, not a recoverable outcome.
    pub fn index_property(&self, key: &str) -> (r: &DynProperty)
        requires
            self.wf(),
            self.props().dom().contains(key@),
            self.guards_allow(EventKind::OnAccessRef, key@),
        ensures
            r@ == self.props()[key@],
    {
        let k = String::from_str(key);
        proof {
            lemma_entries_map_dom(self.entries@);
        }
        match self.find_index(&k) {
            Some(i) => {
                proof {
                    lemma_entries_map_val(self.entries@, i as int);
                }
                &self.entries[i].cell
            },
            None => unreached(),
        }
    }
}

/// After a successful create of `key` with `value`, the key is present and a
/// typed read with the value's own type returns exactly that value, while a
/// read with any other type is absent.
pub proof fn lemma_create_then_typed_read(
    pre: InnerDynObject,
    post: InnerDynObject,
    key: Seq<char>,
    value: DynProperty,
)
    requires
        post.props() == pre.props().insert(key, value@),
    ensures
        post.props().dom().contains(key),
        post.props()[key] == value@,
        read_model(post.props()[key], tag_of(value@)) == Some(value@),
        forall|t: TypeTag| t != tag_of(value@) ==> read_model(post.props()[key], t) is None,
{
}

/// After a successful create of `key`, the key is present, so by the
/// contract of `create_property` a second create of the same key (with no
/// intervening removal) is refused with `KeyAlreadyExists` and the stored
/// value stays the first one.
pub proof fn lemma_create_establishes_key(
    pre: InnerDynObject,
    post: InnerDynObject,
    key: Seq<char>,
    value: DynProperty,
)
    requires
        post.props() == pre.props().insert(key, value@),
    ensures
        post.props().dom().contains(key),
        post.props()[key] == value@,
{
}

/// After a successful removal of `key`, the key is absent, so
/// `exists_property` returns false and, by the contract of
/// `access_property`, a further access is refused with `KeyNotFound`.
pub proof fn lemma_removed_key_absent(pre: InnerDynObject, post: InnerDynObject, key: Seq<char>)
    requires
        post.props() == pre.props().remove(key),
    ensures
        !post.props().dom().contains(key),
{
}

/// A guard list holding an unconditional denial makes every event of its
/// kind fail: the operations' contracts then return `GuardDenied` and leave
/// the object unchanged.
pub proof fn lemma_deny_guard_blocks_events(obj: InnerDynObject, kind: EventKind, key: Seq<char>)
    requires
        exists|i: int| 0 <= i < obj.guard_list(kind).len() && obj.guard_list(kind)[i] is Deny,
    ensures
        !obj.guards_allow(kind, key),
{
    lemma_deny_rule_blocks_all(obj.guard_list(kind), obj.props().dom(), key);
}

} // verus!
