//! Handle lifecycle: acquiring, releasing, cloning and reconstructing
//! handles that share one core object.

use dyn_object::{DynError, DynObject, DynProperty, InnerDynObject, ObjectStore};

fn create_dummy(store: &mut ObjectStore) -> DynObject {
    DynObject::new(store)
}

#[test]
fn aquire_should_not_panic_if_only_on_instance_exists() {
    let mut store = ObjectStore::new();
    let x = create_dummy(&mut store);
    let data = x.aquire(&mut store);
    assert!(data.is_ok());
}

#[test]
fn aquire_multiple_times_should_panic() {
    let mut store = ObjectStore::new();
    let x = create_dummy(&mut store);
    let obj_ref_2 = x.clone(&mut store);
    let data = x.aquire(&mut store);
    assert!(data.is_ok());
    let data2 = obj_ref_2.aquire(&mut store);
    assert!(matches!(data2, Err(DynError::BorrowConflict)));
}

#[test]
fn aquire_multiple_times_after_relasing_each_should_not_fail() {
    let mut store = ObjectStore::new();
    let x = create_dummy(&mut store);
    let data = x.aquire(&mut store).unwrap();
    store.release(data);
    let data2 = x.aquire(&mut store);
    assert!(data2.is_ok());
}

fn set_data(target: DynObject, store: &mut ObjectStore, value: i64) {
    let mut core = target.aquire(store).unwrap();
    core.create_property("hallo", DynProperty::Int(value)).unwrap();
    store.release(core);
}

#[test]
fn mutiple_cloned_dyn_object_should_share_the_same_core() {
    let mut store = ObjectStore::new();
    let value: i64 = 23;
    let obj1 = create_dummy(&mut store);
    let obj1_clone = obj1.clone(&mut store);
    set_data(obj1_clone, &mut store, value);
    let obj = obj1.aquire(&mut store).unwrap();
    match obj.index_property("hallo").as_int() {
        Some(data) => assert_eq!(data, value),
        None => panic!("type mismatch, error in test or other class"),
    }
}

#[test]
fn create_from_should_panic_if_no_uplink_exists() {
    let mut store = ObjectStore::new();
    let obj = InnerDynObject::new();
    let r = DynObject::create_from(&mut store, &obj);
    assert!(matches!(r, Err(DynError::UplinkMissing)));
}

#[test]
fn create_from_should_work_with_a_valid_reference() {
    let mut store = ObjectStore::new();
    let obj = create_dummy(&mut store);
    let obj_ref = obj.aquire(&mut store).unwrap();
    let obj2 = DynObject::create_from(&mut store, &obj_ref);
    assert!(obj2.is_ok());
    store.release(obj_ref);
}

#[test]
fn instances_created_with_create_from_should_share_state() {
    let mut store = ObjectStore::new();
    let obj = create_dummy(&mut store);
    let obj2 = {
        let mut obj_ref = obj.aquire(&mut store).unwrap();
        let res = DynObject::create_from(&mut store, &obj_ref).unwrap();
        obj_ref.create_property("hallo", DynProperty::Int(22)).unwrap();
        store.release(obj_ref);
        res
    };
    let obj2_ref = obj2.aquire(&mut store).unwrap();
    assert!(obj2_ref.exists_property("hallo"));
    store.release(obj2_ref);
}

#[test]
fn create_from_on_a_dead_slot_dangles() {
    let mut donor_store = ObjectStore::new();
    let donor = DynObject::new(&mut donor_store);
    let donor_core = donor.aquire(&mut donor_store).unwrap();

    let mut store = ObjectStore::new();
    let short_lived = DynObject::new(&mut store);
    short_lived.drop_handle(&mut store);
    // the donor core's uplink names slot 0, which is dead in this store
    let r = DynObject::create_from(&mut store, &donor_core);
    assert!(matches!(r, Err(DynError::UplinkDangling)));
    donor_store.release(donor_core);
}

#[test]
fn dropping_one_of_two_handles_keeps_the_core() {
    let mut store = ObjectStore::new();
    let h1 = DynObject::new(&mut store);
    let h2 = h1.clone(&mut store);
    let mut core = h1.aquire(&mut store).unwrap();
    core.create_property("kept", DynProperty::Bool(true)).unwrap();
    store.release(core);
    h1.drop_handle(&mut store);
    let core2 = h2.aquire(&mut store).unwrap();
    assert!(core2.exists_property("kept"));
    store.release(core2);
}
