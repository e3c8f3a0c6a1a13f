//! The model of a whole enumeration: which attributes it yields and which
//! warnings it leaves, given the listed names and what each fetch came back
//! with.

use vstd::prelude::*;
use crate::attr::AttrModel;
use crate::fetch::{fetched_model, Fetched, FetchedModel, WarningModel};

verus! {

/// One listed name together with what the fetch of its value came back with.
#[verifier::ext_equal]
pub ghost struct Attempt {
    pub name: Seq<u8>,
    pub fetched: FetchedModel,
}

/// The model of each fetch result of a list, in the order of the list.
pub open spec fn fetches_model(fetched: Seq<Fetched>) -> Seq<FetchedModel> {
    Seq::new(fetched.len(), |i: int| fetched_model(fetched[i]))
}

/// The attempts of an enumeration: the `i`-th name goes with the `i`-th
/// fetch result. Where one of the two runs out, the enumeration ends.
pub open spec fn attempts(names: Seq<Seq<u8>>, fetched: Seq<FetchedModel>) -> Seq<Attempt> {
    Seq::new(
        if names.len() <= fetched.len() {
            names.len()
        } else {
            fetched.len()
        },
        |i: int| Attempt { name: names[i], fetched: fetched[i] },
    )
}

/// The attribute that an attempt yields: one for every fetch that succeeded,
/// with the value that was fetched, and none for a fetch that failed.
pub open spec fn entry(attempt: Attempt) -> Option<AttrModel> {
    match attempt.fetched {
        Ok(value) => Some(AttrModel { name: attempt.name, value }),
        Err(_) => None,
    }
}

/// The warning that an attempt on an attribute of `path` leaves: one for
/// every fetch that failed, and none for a fetch that succeeded.
pub open spec fn warning(path: Seq<u8>, attempt: Attempt) -> Option<WarningModel> {
    match attempt.fetched {
        Ok(_) => None,
        Err(cause) => Some(WarningModel { name: attempt.name, path, cause }),
    }
}

/// [`entry`] as a function value.
pub open spec fn entry_of() -> spec_fn(Attempt) -> Option<AttrModel> {
    |attempt: Attempt| entry(attempt)
}

/// [`warning`] for the attributes of `path`, as a function value.
pub open spec fn warning_of(path: Seq<u8>) -> spec_fn(Attempt) -> Option<WarningModel> {
    |attempt: Attempt| warning(path, attempt)
}

/// The attributes that an enumeration yields: the entries of the attempts
/// that succeeded, in the order of the attempts.
pub open spec fn yielded(attempts: Seq<Attempt>) -> Seq<AttrModel> {
    attempts.filter_map(entry_of())
}

/// The warnings that an enumeration of the attributes of `path` leaves: one
/// for each attempt that failed, in the order of the attempts.
pub open spec fn logged(path: Seq<u8>, attempts: Seq<Attempt>) -> Seq<WarningModel> {
    attempts.filter_map(warning_of(path))
}

/// The names of the attempts, in their order.
pub open spec fn attempted_names(attempts: Seq<Attempt>) -> Seq<Seq<u8>> {
    Seq::new(attempts.len(), |i: int| attempts[i].name)
}

/// The names of the attributes, in their order.
pub open spec fn attr_names(attrs: Seq<AttrModel>) -> Seq<Seq<u8>> {
    Seq::new(attrs.len(), |i: int| attrs[i].name)
}

/// What one attempt yields, as a sequence of one attribute or of none.
pub open spec fn entry_seq(attempt: Attempt) -> Seq<AttrModel> {
    match entry(attempt) {
        Some(attr) => seq![attr],
        None => Seq::empty(),
    }
}

/// What one attempt on an attribute of `path` leaves, as a sequence of one
/// warning or of none.
pub open spec fn warning_seq(path: Seq<u8>, attempt: Attempt) -> Seq<WarningModel> {
    match warning(path, attempt) {
        Some(warning) => seq![warning],
        None => Seq::empty(),
    }
}

/// One more attempt adds what it yields and what it leaves at the end, and
/// changes nothing of what came before.
pub proof fn lemma_attempt_appended(path: Seq<u8>, attempts: Seq<Attempt>, index: int)
    requires
        0 <= index < attempts.len(),
    ensures
        yielded(attempts.take(index + 1)) == yielded(attempts.take(index)) + entry_seq(
            attempts[index],
        ),
        logged(path, attempts.take(index + 1)) == logged(path, attempts.take(index)) + warning_seq(
            path,
            attempts[index],
        ),
{
    attempts.lemma_filter_map_take_succ(entry_of(), index);
    attempts.lemma_filter_map_take_succ(warning_of(path), index);
}

} // verus!
