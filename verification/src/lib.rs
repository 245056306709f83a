//! A dynamic, type-erased property container.
//!
//! A [`InnerDynObject`] is an open record: named properties can be created,
//! replaced, removed and read at runtime, each holding a tagged value whose
//! type is checked again on every read.  Ordered lists of guard predicates can
//! veto each kind of lifecycle event.  An [`ObjectStore`] holds the core
//! objects; any number of [`DynObject`] handles may share one core object, and
//! `aquire` opens an exclusive access window on it, enforced by a runtime
//! borrow flag.

pub mod guards;
pub mod inner;
pub mod store;
pub mod value_cell;

pub use guards::{EventKind, GuardRule};
pub use inner::{DynError, InnerDynObject};
pub use store::{DynObject, ObjectStore};
pub use value_cell::{DynProperty, TypeTag};
