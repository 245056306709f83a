//! Property operations on the core object: create, set, remove, access and
//! typed reads, with every recoverable error exercised.

use dyn_object::{DynError, DynObject, DynProperty, InnerDynObject, ObjectStore, TypeTag};

#[test]
fn create_then_typed_read_returns_value() {
    let mut obj = InnerDynObject::new();
    obj.create_property("a", DynProperty::Int(7)).unwrap();
    let cell = obj.access_property("a").unwrap();
    assert_eq!(cell.as_int(), Some(7));
    assert_eq!(cell.as_bool(), None);
    assert!(cell.as_text().is_none());
}

#[test]
fn create_twice_fails_and_keeps_first_value() {
    let mut obj = InnerDynObject::new();
    obj.create_property("k", DynProperty::Int(1)).unwrap();
    let second = obj.create_property("k", DynProperty::Int(2));
    assert!(matches!(second, Err(DynError::KeyAlreadyExists)));
    assert_eq!(obj.access_property("k").unwrap().as_int(), Some(1));
}

#[test]
fn set_on_absent_key_fails_and_does_not_create() {
    let mut obj = InnerDynObject::new();
    let r = obj.set_property("missing", DynProperty::Int(3));
    assert!(matches!(r, Err(DynError::KeyNotFound)));
    assert!(!obj.exists_property("missing"));
}

#[test]
fn set_replaces_value_and_may_change_type() {
    let mut obj = InnerDynObject::new();
    obj.create_property("k", DynProperty::Int(1)).unwrap();
    obj.set_property("k", DynProperty::Text(String::from("two"))).unwrap();
    let cell = obj.access_property("k").unwrap();
    assert_eq!(cell.as_int(), None);
    assert_eq!(cell.as_text().unwrap(), "two");
}

#[test]
fn remove_then_key_is_absent() {
    let mut obj = InnerDynObject::new();
    obj.create_property("k", DynProperty::Bool(true)).unwrap();
    obj.remove_property("k").unwrap();
    assert!(!obj.exists_property("k"));
    let access = obj.access_property("k");
    assert!(matches!(access, Err(DynError::KeyNotFound)));
    let again = obj.remove_property("k");
    assert!(matches!(again, Err(DynError::KeyNotFound)));
}

#[test]
fn access_mut_updates_value_of_same_type() {
    let mut obj = InnerDynObject::new();
    obj.create_property("count", DynProperty::Int(1)).unwrap();
    obj.access_property_mut("count", DynProperty::Int(5)).unwrap();
    assert_eq!(obj.access_property("count").unwrap().as_int(), Some(5));
}

#[test]
fn access_mut_with_other_type_is_a_mismatch() {
    let mut obj = InnerDynObject::new();
    obj.create_property("count", DynProperty::Int(1)).unwrap();
    let r = obj.access_property_mut("count", DynProperty::Bool(false));
    assert!(matches!(r, Err(DynError::TypeMismatch)));
    assert_eq!(obj.access_property("count").unwrap().as_int(), Some(1));
}

#[test]
fn access_mut_on_absent_key_is_not_found() {
    let mut obj = InnerDynObject::new();
    let r = obj.access_property_mut("ghostly", DynProperty::Int(0));
    assert!(matches!(r, Err(DynError::KeyNotFound)));
}

#[test]
fn value_cells_carry_their_tags() {
    assert_eq!(DynProperty::Int(9).tag(), TypeTag::Int);
    assert_eq!(DynProperty::Bool(false).tag(), TypeTag::Bool);
    assert_eq!(DynProperty::Text(String::from("x")).tag(), TypeTag::Text);
}

#[test]
fn typed_reads_only_match_the_stored_type() {
    let b = DynProperty::Bool(true);
    assert_eq!(b.as_bool(), Some(true));
    assert_eq!(b.as_int(), None);
    assert!(b.as_text().is_none());
    let t = DynProperty::Text(String::from("hi"));
    assert_eq!(t.as_text().unwrap(), "hi");
    assert_eq!(t.as_bool(), None);
}

#[test]
fn fresh_object_has_no_properties() {
    let obj = InnerDynObject::new();
    assert!(!obj.exists_property(""));
    assert!(!obj.exists_property("anything"));
    assert!(matches!(obj.access_property("anything"), Err(DynError::KeyNotFound)));
}

#[test]
fn empty_key_is_an_ordinary_key() {
    let mut obj = InnerDynObject::new();
    obj.create_property("", DynProperty::Int(0)).unwrap();
    assert!(obj.exists_property(""));
    assert_eq!(obj.access_property("").unwrap().as_int(), Some(0));
}

#[test]
fn uplink_is_unset_on_a_bare_core_object() {
    let obj = InnerDynObject::new();
    assert_eq!(obj.get_uplink(), None);
}

#[test]
fn end_to_end_shared_counter() {
    let mut store = ObjectStore::new();
    let h = DynObject::new(&mut store);
    let mut core = h.aquire(&mut store).unwrap();
    core.create_property("count", DynProperty::Int(1)).unwrap();
    store.release(core);

    let h2 = h.clone(&mut store);
    let mut core2 = h2.aquire(&mut store).unwrap();
    core2.set_property("count", DynProperty::Int(2)).unwrap();
    store.release(core2);

    let core3 = h.aquire(&mut store).unwrap();
    assert_eq!(core3.access_property("count").unwrap().as_int(), Some(2));
    store.release(core3);
}
