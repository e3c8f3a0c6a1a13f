//! One extended attribute, and its mathematical model.

use vstd::prelude::*;

verus! {

/// An extended attribute of a file, as it was at the moment of enumeration.
///
/// Names and values are raw bytes: the platform defines their encoding, and
/// neither has to be valid text.
#[derive(Clone, Debug, PartialEq, Eq, Hash)]
pub struct ExtAttr {
    /// The name of the extended attribute.
    pub name: Vec<u8>,
    /// The value of the extended attribute; `None` where the fetch found the
    /// attribute to have no value.
    pub value: Option<Vec<u8>>,
}

/// What an [`ExtAttr`] stands for: the bytes of its name and, where it has a
/// value, the bytes of the value.
#[verifier::ext_equal]
pub ghost struct AttrModel {
    pub name: Seq<u8>,
    pub value: Option<Seq<u8>>,
}

/// The bytes of a value that may be absent.
pub open spec fn value_model(value: Option<Vec<u8>>) -> Option<Seq<u8>> {
    match value {
        Some(bytes) => Some(bytes@),
        None => None,
    }
}

/// The bytes of each name of a list, in the order of the list.
pub open spec fn names_model(names: Seq<Vec<u8>>) -> Seq<Seq<u8>> {
    Seq::new(names.len(), |i: int| names[i]@)
}

impl View for ExtAttr {
    type V = AttrModel;

    open spec fn view(&self) -> AttrModel {
        AttrModel { name: self.name@, value: value_model(self.value) }
    }
}

/// The model of each attribute of a list, in the order of the list.
pub open spec fn attrs_model(attrs: Seq<ExtAttr>) -> Seq<AttrModel> {
    Seq::new(attrs.len(), |i: int| attrs[i]@)
}

} // verus!
