//! What becomes of one fetch: the value, or a warning in its place.

use vstd::prelude::*;
use vstd::slice::slice_to_vec;
use crate::attr::value_model;
use crate::failure::Failure;

verus! {

/// What fetching the value of one attribute came back with: the value,
/// `None` for an attribute that has none, or the failure of the call.
pub type Fetched = Result<Option<Vec<u8>>, Failure>;

/// A [`Fetched`] with the value taken as a sequence of bytes.
pub type FetchedModel = Result<Option<Seq<u8>>, Failure>;

/// The model of a fetch result.
pub open spec fn fetched_model(fetched: Fetched) -> FetchedModel {
    match fetched {
        Ok(value) => Ok(value_model(value)),
        Err(cause) => Err(cause),
    }
}

/// The record of a fetch that failed and was passed over. It is meant for the
/// log, at warning level; the enumeration itself goes on.
#[derive(Clone, Debug, PartialEq, Eq, Hash)]
pub struct Warning<'p> {
    /// The attribute whose value could not be fetched.
    pub name: Vec<u8>,
    /// The path whose attributes are being enumerated.
    pub path: &'p [u8],
    /// The failure that the fetch reported.
    pub cause: Failure,
}

/// What a [`Warning`] stands for.
#[verifier::ext_equal]
pub ghost struct WarningModel {
    pub name: Seq<u8>,
    pub path: Seq<u8>,
    pub cause: Failure,
}

impl<'p> View for Warning<'p> {
    type V = WarningModel;

    open spec fn view(&self) -> WarningModel {
        WarningModel { name: self.name@, path: self.path@, cause: self.cause }
    }
}

/// The model of each warning of a list, in the order of the list.
pub open spec fn warnings_model(warnings: Seq<Warning<'_>>) -> Seq<WarningModel> {
    Seq::new(warnings.len(), |i: int| warnings[i]@)
}

/// Settles the fetch of the attribute `name` of `path`.
///
/// A fetch that succeeded hands its value on unchanged, also where the
/// attribute has no value. A fetch that failed is forgotten but for the
/// warning that is returned in its place, which names the attribute, the path
/// and the cause.
pub fn ext_attr_value<'p>(path: &'p [u8], name: &[u8], fetched: Fetched) -> (r: Result<
    Option<Vec<u8>>,
    Warning<'p>,
>)
    ensures
        match fetched {
            Ok(value) => r is Ok && r->Ok_0 == value,
            Err(cause) => r is Err && r->Err_0@ == (WarningModel {
                name: name@,
                path: path@,
                cause,
            }),
        },
{
    match fetched {
        Ok(value) => Ok(value),
        Err(cause) => Err(Warning { name: slice_to_vec(name), path, cause }),
    }
}

} // verus!
