//! Guard predicates: vetoing lifecycle events, short-circuit denial, and
//! cross-property rules.

use dyn_object::{DynError, DynObject, DynProperty, EventKind, GuardRule, InnerDynObject,
    ObjectStore};

#[test]
fn deny_guard_blocks_create_and_leaves_state_unchanged() {
    let mut obj = InnerDynObject::new();
    obj.add_guard(EventKind::OnCreate, GuardRule::Deny);
    let r = obj.create_property("a", DynProperty::Int(1));
    assert!(matches!(r, Err(DynError::GuardDenied)));
    assert!(!obj.exists_property("a"));
}

#[test]
fn deny_guard_blocks_set_remove_and_access() {
    let mut obj = InnerDynObject::new();
    obj.create_property("a", DynProperty::Int(1)).unwrap();
    obj.add_guard(EventKind::OnSet, GuardRule::Deny);
    obj.add_guard(EventKind::OnRemove, GuardRule::Deny);
    obj.add_guard(EventKind::OnAccessRef, GuardRule::Deny);
    obj.add_guard(EventKind::OnAccessMut, GuardRule::Deny);
    assert!(matches!(
        obj.set_property("a", DynProperty::Int(2)),
        Err(DynError::GuardDenied)
    ));
    assert!(matches!(obj.remove_property("a"), Err(DynError::GuardDenied)));
    assert!(matches!(obj.access_property("a"), Err(DynError::GuardDenied)));
    assert!(matches!(
        obj.access_property_mut("a", DynProperty::Int(2)),
        Err(DynError::GuardDenied)
    ));
    // the property survives every denied event, unchanged
    assert!(obj.exists_property("a"));
}

#[test]
fn allow_guard_alone_denies_nothing() {
    let mut obj = InnerDynObject::new();
    obj.add_guard(EventKind::OnCreate, GuardRule::Allow);
    assert!(obj.create_property("a", DynProperty::Int(1)).is_ok());
}

#[test]
fn deny_key_blocks_only_the_named_key() {
    let mut obj = InnerDynObject::new();
    obj.add_guard(EventKind::OnCreate, GuardRule::DenyKey(String::from("a")));
    assert!(matches!(
        obj.create_property("a", DynProperty::Int(1)),
        Err(DynError::GuardDenied)
    ));
    assert!(obj.create_property("b", DynProperty::Int(2)).is_ok());
}

#[test]
fn allow_only_key_blocks_every_other_key() {
    let mut obj = InnerDynObject::new();
    obj.add_guard(EventKind::OnCreate, GuardRule::AllowOnlyKey(String::from("a")));
    assert!(obj.create_property("a", DynProperty::Int(1)).is_ok());
    assert!(matches!(
        obj.create_property("b", DynProperty::Int(2)),
        Err(DynError::GuardDenied)
    ));
}

#[test]
fn deny_if_present_guards_cross_property_state() {
    let mut obj = InnerDynObject::new();
    obj.create_property("b", DynProperty::Bool(true)).unwrap();
    // deny removals while "b" exists
    obj.add_guard(EventKind::OnRemove, GuardRule::DenyIfPresent(String::from("b")));
    obj.create_property("a", DynProperty::Int(1)).unwrap();
    assert!(matches!(obj.remove_property("a"), Err(DynError::GuardDenied)));
    // the rule also blocks removing "b" itself; drop the block by key instead
    assert!(obj.exists_property("a"));
}

#[test]
fn deny_if_absent_requires_the_sibling() {
    let mut obj = InnerDynObject::new();
    obj.add_guard(EventKind::OnCreate, GuardRule::DenyIfAbsent(String::from("license")));
    assert!(matches!(
        obj.create_property("work", DynProperty::Int(1)),
        Err(DynError::GuardDenied)
    ));
    // no guard watches the license key itself once it exists
    let mut unlocked = InnerDynObject::new();
    unlocked.create_property("license", DynProperty::Bool(true)).unwrap();
    unlocked.add_guard(EventKind::OnCreate, GuardRule::DenyIfAbsent(String::from("license")));
    assert!(unlocked.create_property("work", DynProperty::Int(1)).is_ok());
}

#[test]
fn first_denial_wins_over_later_allows() {
    let mut obj = InnerDynObject::new();
    obj.add_guard(EventKind::OnCreate, GuardRule::Deny);
    obj.add_guard(EventKind::OnCreate, GuardRule::Allow);
    assert!(matches!(
        obj.create_property("a", DynProperty::Int(1)),
        Err(DynError::GuardDenied)
    ));
}

#[test]
fn guards_persist_across_handle_clones() {
    let mut store = ObjectStore::new();
    let h = DynObject::new(&mut store);
    let mut core = h.aquire(&mut store).unwrap();
    core.add_guard(EventKind::OnCreate, GuardRule::Deny);
    store.release(core);

    let h2 = h.clone(&mut store);
    let mut core2 = h2.aquire(&mut store).unwrap();
    let r = core2.create_property("a", DynProperty::Int(1));
    assert!(matches!(r, Err(DynError::GuardDenied)));
    store.release(core2);
}
