//! Guard predicates: boolean rules that gate the lifecycle events of a
//! dynamic object.
//!
//! Each event kind carries an ordered list of [`GuardRule`]s.  Before an
//! event proceeds, its list is evaluated in registration order; the first
//! rule that denies stops evaluation and the whole event is denied.  An empty
//! list allows everything.  A rule may consult the presence of sibling
//! properties, which enables cross-property validation such as "deny
//! removing key A while key B exists".

use vstd::prelude::*;

verus! {

/// The lifecycle events a guard can be registered for.  Read access and
/// access for mutation are guarded by separate lists.
#[derive(Clone, Copy, Debug, PartialEq, Eq, Structural)]
pub enum EventKind {
    OnCreate,
    OnSet,
    OnRemove,
    OnAccessRef,
    OnAccessMut,
}

/// One guard predicate, expressed as data over the event's key and the set
/// of keys currently present on the object.
#[derive(Debug)]
pub enum GuardRule {
    /// Allows every event.
    Allow,
    /// Denies every event.
    Deny,
    /// Denies the event exactly when its key is the named one.
    DenyKey(String),
    /// Allows the event only when its key is the named one.
    AllowOnlyKey(String),
    /// Denies the event while the named sibling key exists.
    DenyIfPresent(String),
    /// Denies the event unless the named sibling key exists.
    DenyIfAbsent(String),
}

/// Whether one rule allows an event on `key` when the object currently holds
/// exactly the keys in `keys`.
pub open spec fn rule_allows(rule: GuardRule, keys: Set<Seq<char>>, key: Seq<char>) -> bool {
    match rule {
        GuardRule::Allow => true,
        GuardRule::Deny => false,
        GuardRule::DenyKey(k) => key != k@,
        GuardRule::AllowOnlyKey(k) => key == k@,
        GuardRule::DenyIfPresent(k) => !keys.contains(k@),
        GuardRule::DenyIfAbsent(k) => keys.contains(k@),
    }
}

/// Whether an ordered guard list allows an event: every rule must allow it.
/// Evaluation order is irrelevant to the outcome because rules have no side
/// effects, so short-circuiting at the first denial computes exactly this.
pub open spec fn list_allows(rules: Seq<GuardRule>, keys: Set<Seq<char>>, key: Seq<char>) -> bool {
    forall|i: int| 0 <= i < rules.len() ==> rule_allows(#[trigger] rules[i], keys, key)
}

/// The ordered guard lists of one dynamic object, one list per event kind.
#[derive(Debug)]
pub struct GuardRegistry {
    create: Vec<GuardRule>,
    set: Vec<GuardRule>,
    remove: Vec<GuardRule>,
    access_ref: Vec<GuardRule>,
    access_mut: Vec<GuardRule>,
}

impl GuardRegistry {
    /// The registered rules for one event kind, in registration order.
    pub closed spec fn list(self, kind: EventKind) -> Seq<GuardRule> {
        match kind {
            EventKind::OnCreate => self.create@,
            EventKind::OnSet => self.set@,
            EventKind::OnRemove => self.remove@,
            EventKind::OnAccessRef => self.access_ref@,
            EventKind::OnAccessMut => self.access_mut@,
        }
    }

    /// A registry with no rules at all: every event is allowed.
    pub fn new() -> (r: GuardRegistry)
        ensures
            forall|kind: EventKind| #[trigger] r.list(kind) == Seq::<GuardRule>::empty(),
    {
        GuardRegistry {
            create: Vec::new(),
            set: Vec::new(),
            remove: Vec::new(),
            access_ref: Vec::new(),
            access_mut: Vec::new(),
        }
    }

    /// Appends one rule to the list of one event kind; the other lists are
    /// untouched.
    pub fn push(&mut self, kind: EventKind, rule: GuardRule)
        ensures
            final(self).list(kind) == old(self).list(kind).push(rule),
            forall|k: EventKind| k != kind ==> #[trigger] final(self).list(k) == old(self).list(k),
    {
        match kind {
            EventKind::OnCreate => self.create.push(rule),
            EventKind::OnSet => self.set.push(rule),
            EventKind::OnRemove => self.remove.push(rule),
            EventKind::OnAccessRef => self.access_ref.push(rule),
            EventKind::OnAccessMut => self.access_mut.push(rule),
        }
    }

    /// The rules of one event kind, for evaluation in registration order.
    pub fn rules(&self, kind: EventKind) -> (r: &Vec<GuardRule>)
        ensures
            r@ == self.list(kind),
    {
        match kind {
            EventKind::OnCreate => &self.create,
            EventKind::OnSet => &self.set,
            EventKind::OnRemove => &self.remove,
            EventKind::OnAccessRef => &self.access_ref,
            EventKind::OnAccessMut => &self.access_mut,
        }
    }
}

/// A list that contains an unconditional denial allows nothing: every event
/// of its kind is denied, whatever the key and whatever the object holds.
pub proof fn lemma_deny_rule_blocks_all(rules: Seq<GuardRule>, keys: Set<Seq<char>>, key: Seq<char>)
    requires
        exists|i: int| 0 <= i < rules.len() && rules[i] is Deny,
    ensures
        !list_allows(rules, keys, key),
{
    let i = choose|i: int| 0 <= i < rules.len() && rules[i] is Deny;
    assert(!rule_allows(rules[i], keys, key));
}

} // verus!
