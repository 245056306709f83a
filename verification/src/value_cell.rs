//! The value cell: a tagged, type-erased container for a single value.
//!
//! A [`DynProperty`] stores one value together with its type identity (the
//! [`TypeTag`]).  A typed read succeeds exactly when the requested type
//! matches the stored one; a mismatched request yields "absent" instead of a
//! coerced or corrupted value.

use vstd::prelude::*;

verus! {

/// The type identity stored alongside a value, compared on every typed read.
#[derive(Clone, Copy, Debug, PartialEq, Eq, Structural)]
pub enum TypeTag {
    Int,
    Bool,
    Text,
}

/// The mathematical value of a [`DynProperty`]: the stored payload, with a
/// text payload abstracted to its character sequence.
pub ghost enum ValModel {
    Int(i64),
    Bool(bool),
    Text(Seq<char>),
}

/// The type identity of a model value.
pub open spec fn tag_of(m: ValModel) -> TypeTag {
    match m {
        ValModel::Int(_) => TypeTag::Int,
        ValModel::Bool(_) => TypeTag::Bool,
        ValModel::Text(_) => TypeTag::Text,
    }
}

/// What a typed read of a cell holding `m` returns when type `t` is
/// requested: the stored value if the tags agree, absent otherwise.
pub open spec fn read_model(m: ValModel, t: TypeTag) -> Option<ValModel> {
    if tag_of(m) == t {
        Some(m)
    } else {
        None
    }
}

/// A type-erased single-value container: one value of any supported type,
/// readable only as the exact type it was stored with.
#[derive(Debug)]
pub enum DynProperty {
    Int(i64),
    Bool(bool),
    Text(String),
}

impl View for DynProperty {
    type V = ValModel;

    open spec fn view(&self) -> ValModel {
        match self {
            DynProperty::Int(i) => ValModel::Int(*i),
            DynProperty::Bool(b) => ValModel::Bool(*b),
            DynProperty::Text(s) => ValModel::Text(s@),
        }
    }
}

impl DynProperty {
    /// The type identity recorded when this cell was created.
    pub fn tag(&self) -> (t: TypeTag)
        ensures
            t == tag_of(self@),
    {
        match self {
            DynProperty::Int(_) => TypeTag::Int,
            DynProperty::Bool(_) => TypeTag::Bool,
            DynProperty::Text(_) => TypeTag::Text,
        }
    }

    /// Typed read as an integer: the stored value exactly when the cell holds
    /// an integer, absent for every other stored type.
    pub fn as_int(&self) -> (r: Option<i64>)
        ensures
            r == (match read_model(self@, TypeTag::Int) {
                Some(m) => Some(m->Int_0),
                None => None::<i64>,
            }),
    {
        match self {
            DynProperty::Int(i) => Some(*i),
            _ => None,
        }
    }

    /// Typed read as a boolean: the stored value exactly when the cell holds
    /// a boolean, absent for every other stored type.
    pub fn as_bool(&self) -> (r: Option<bool>)
        ensures
            r == (match read_model(self@, TypeTag::Bool) {
                Some(m) => Some(m->Bool_0),
                None => None::<bool>,
            }),
    {
        match self {
            DynProperty::Bool(b) => Some(*b),
            _ => None,
        }
    }

    /// Typed read as text: a reference to the stored string exactly when the
    /// cell holds text, absent for every other stored type.
    pub fn as_text(&self) -> (r: Option<&String>)
        ensures
            r is Some <==> self@ is Text,
            r matches Some(s) ==> s@ == self@->Text_0,
    {
        match self {
            DynProperty::Text(s) => Some(s),
            _ => None,
        }
    }
}

/// A value read back as its own type is returned unchanged, and a read with
/// any other type is absent: the cell never coerces.
pub proof fn lemma_typed_read_exact(m: ValModel)
    ensures
        read_model(m, tag_of(m)) == Some(m),
        forall|t: TypeTag| t != tag_of(m) ==> read_model(m, t) is None,
{
}

} // verus!
