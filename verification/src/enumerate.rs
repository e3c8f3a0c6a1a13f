//! The enumeration: one listing, walked once, one fetch for each name.

use vstd::prelude::*;
use vstd::slice::slice_subrange;
use crate::attr::{attrs_model, names_model, AttrModel, ExtAttr};
use crate::failure::Failure;
use crate::fetch::{
    ext_attr_value, fetched_model, warnings_model, Fetched, FetchedModel, Warning, WarningModel,
};
use crate::trace::{attempts, fetches_model, lemma_attempt_appended, logged, yielded, Attempt};

verus! {

/// The attributes of one path, in the course of being enumerated.
///
/// It holds the names that the listing returned and how many of them have
/// been dealt with. The names are walked once, front to back: [`pending`]
/// says which value has to be fetched next, and [`resolve`] takes what the
/// fetch came back with. An `ExtAttrs` is made by [`ext_attrs`].
///
/// [`pending`]: ExtAttrs::pending
/// [`resolve`]: ExtAttrs::resolve
#[derive(Debug)]
pub struct ExtAttrs<'p> {
    path: &'p [u8],
    names: Vec<Vec<u8>>,
    cursor: usize,
}

/// What became of one name of the listing.
#[must_use]
#[derive(Debug, PartialEq, Eq)]
pub enum Step<'p> {
    /// The value was fetched: this attribute goes to the consumer.
    Yield(ExtAttr),
    /// The fetch failed: the attribute is left out, and this warning is to be
    /// logged.
    Skip(Warning<'p>),
    /// No name was left to resolve.
    Exhausted,
}

/// What a run of fetch results produced: the attributes for the consumer and
/// the warnings for the log, each in the order of the listing.
#[must_use]
#[derive(Debug, PartialEq, Eq)]
pub struct Enumeration<'p> {
    /// The attributes whose value was fetched.
    pub attrs: Vec<ExtAttr>,
    /// One warning for each attribute that was passed over.
    pub warnings: Vec<Warning<'p>>,
}

/// What a [`Step`] stands for.
#[verifier::ext_equal]
pub ghost enum StepModel {
    Yield(AttrModel),
    Skip(WarningModel),
    Exhausted,
}

impl<'p> View for Step<'p> {
    type V = StepModel;

    open spec fn view(&self) -> StepModel {
        match self {
            Step::Yield(attr) => StepModel::Yield(attr@),
            Step::Skip(warning) => StepModel::Skip(warning@),
            Step::Exhausted => StepModel::Exhausted,
        }
    }
}

/// How many attempts have been made once `results` fetch results have gone
/// in: one for each result, until the names run out.
spec fn attempts_made(results: int, tried: Seq<Attempt>) -> int {
    if results <= tried.len() {
        results
    } else {
        tried.len() as int
    }
}

/// What the attribute `name` of `path` turns into, given what the fetch of
/// its value came back with: an entry that carries the value, or no entry and
/// a warning that carries the cause.
pub open spec fn settle(path: Seq<u8>, name: Seq<u8>, fetched: FetchedModel) -> StepModel {
    match fetched {
        Ok(value) => StepModel::Yield(AttrModel { name, value }),
        Err(cause) => StepModel::Skip(WarningModel { name, path, cause }),
    }
}

/// Begins the enumeration of the extended attributes of `path`, given what
/// the listing of their names came back with.
///
/// A listing that failed is fatal: its failure is returned as it is and there
/// is nothing to enumerate. Otherwise the enumeration stands before the first
/// listed name, and the names keep the order of the listing.
pub fn ext_attrs<'p>(path: &'p [u8], listing: Result<Vec<Vec<u8>>, Failure>) -> (r: Result<
    ExtAttrs<'p>,
    Failure,
>)
    ensures
        match listing {
            Ok(names) => r is Ok && r->Ok_0.path_model() == path@ && r->Ok_0.listed()
                == names_model(names@) && r->Ok_0.position() == 0,
            Err(cause) => r is Err && r->Err_0 == cause,
        },
{
    match listing {
        Ok(names) => Ok(ExtAttrs { path, names, cursor: 0 }),
        Err(cause) => Err(cause),
    }
}

impl<'p> ExtAttrs<'p> {
    #[verifier::type_invariant]
    spec fn well_formed(self) -> bool {
        self.cursor <= self.names.len()
    }

    /// The path whose attributes are enumerated.
    pub closed spec fn path_model(self) -> Seq<u8> {
        self.path@
    }

    /// The names that the listing returned, in its order. They are fixed when
    /// the enumeration begins.
    pub closed spec fn listed(self) -> Seq<Seq<u8>> {
        names_model(self.names@)
    }

    /// How many of the listed names have been resolved.
    pub closed spec fn position(self) -> nat {
        self.cursor as nat
    }

    /// The listed names that have not been resolved yet.
    pub open spec fn remaining(self) -> Seq<Seq<u8>> {
        self.listed().skip(self.position() as int)
    }

    /// Whether every listed name has been resolved.
    pub open spec fn exhausted(self) -> bool {
        self.position() >= self.listed().len()
    }

    /// The path whose attributes are enumerated.
    pub fn path(&self) -> (r: &'p [u8])
        ensures
            r@ == self.path_model(),
    {
        self.path
    }

    /// The names that have not been resolved yet, in listing order.
    pub fn remaining_names(&self) -> (r: &[Vec<u8>])
        ensures
            names_model(r@) == self.remaining(),
    {
        proof {
            use_type_invariant(self);
        }
        let r = slice_subrange(self.names.as_slice(), self.cursor, self.names.len());
        assert(names_model(r@) =~= self.remaining());
        r
    }

    /// The name whose value has to be fetched next, or `None` once every
    /// listed name has been resolved.
    pub fn pending(&self) -> (r: Option<&[u8]>)
        ensures
            self.position() <= self.listed().len(),
            match r {
                Some(name) => !self.exhausted() && name@ == self.listed()[self.position() as int],
                None => self.exhausted(),
            },
    {
        proof {
            use_type_invariant(self);
        }
        if self.cursor < self.names.len() {
            Some(self.names[self.cursor].as_slice())
        } else {
            None
        }
    }

    /// Resolves the pending name with what the fetch of its value came back
    /// with, and moves on to the next name.
    ///
    /// A fetch that succeeded yields the attribute, with the value that was
    /// fetched or with none where the attribute has none. A fetch that failed
    /// yields no attribute: the name is passed over and the warning for the
    /// log is returned. Either way the name is used up. Once every name has
    /// been resolved, nothing changes any more and `fetched` is dropped.
    pub fn resolve(&mut self, fetched: Fetched) -> (r: Step<'p>)
        ensures
            final(self).path_model() == old(self).path_model(),
            final(self).listed() == old(self).listed(),
            final(self).position() <= final(self).listed().len(),
            if old(self).exhausted() {
                &&& r@ == StepModel::Exhausted
                &&& final(self).position() == old(self).position()
            } else {
                &&& r@ == settle(
                    old(self).path_model(),
                    old(self).listed()[old(self).position() as int],
                    fetched_model(fetched),
                )
                &&& final(self).position() == old(self).position() + 1
            },
    {
        proof {
            use_type_invariant(&*self);
        }
        if self.cursor >= self.names.len() {
            return Step::Exhausted;
        }
        let index = self.cursor;
        self.cursor = index + 1;
        match ext_attr_value(self.path, self.names[index].as_slice(), fetched) {
            Ok(value) => Step::Yield(ExtAttr { name: self.names[index].clone(), value }),
            Err(warning) => Step::Skip(warning),
        }
    }

    /// Resolves the names that remain, in order, with the fetch results in
    /// `fetched`, the first result for the pending name.
    ///
    /// The run ends where the names or the results run out, whichever comes
    /// first; results beyond the last name are dropped. The attributes and
    /// the warnings that the run produced are returned together.
    pub fn resolve_all(&mut self, fetched: Vec<Fetched>) -> (r: Enumeration<'p>)
        ensures
            final(self).path_model() == old(self).path_model(),
            final(self).listed() == old(self).listed(),
            final(self).position() <= final(self).listed().len(),
            ({
                let tried = attempts(old(self).remaining(), fetches_model(fetched@));
                &&& final(self).position() == old(self).position() + tried.len()
                &&& attrs_model(r.attrs@) == yielded(tried)
                &&& warnings_model(r.warnings@) == logged(old(self).path_model(), tried)
            }),
    {
        let mut attrs: Vec<ExtAttr> = Vec::new();
        let mut warnings: Vec<Warning<'p>> = Vec::new();
        let ghost path = self.path_model();
        let ghost listed = self.listed();
        let ghost start = self.position();
        let ghost outcomes = fetched@;
        let ghost tried = attempts(self.remaining(), fetches_model(outcomes));
        proof {
            use_type_invariant(&*self);
            assert(tried.take(0) =~= Seq::<Attempt>::empty());
        }
        for outcome in it: fetched
            invariant
                it.seq() == outcomes,
                self.path_model() == path,
                self.listed() == listed,
                start <= listed.len(),
                tried == attempts(listed.skip(start as int), fetches_model(outcomes)),
                self.position() == start + attempts_made(it.index(), tried),
                attrs_model(attrs@) == yielded(tried.take(attempts_made(it.index(), tried))),
                warnings_model(warnings@) == logged(path, tried.take(attempts_made(it.index(), tried))),
        {
            let ghost index = it.index();
            match self.resolve(outcome) {
                Step::Yield(attr) => attrs.push(attr),
                Step::Skip(warning) => warnings.push(warning),
                Step::Exhausted => {},
            }
            proof {
                if index < tried.len() {
                    lemma_attempt_appended(path, tried, index);
                    assert(attrs_model(attrs@) =~= yielded(tried.take(index + 1)));
                    assert(warnings_model(warnings@) =~= logged(path, tried.take(index + 1)));
                }
            }
        }
        proof {
            assert(tried.take(tried.len() as int) =~= tried);
        }
        Enumeration { attrs, warnings }
    }
}

} // verus!
