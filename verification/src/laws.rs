//! What holds of every enumeration, whatever was listed and whatever the
//! fetches came back with.

use vstd::prelude::*;
use vstd::multiset::group_multiset_axioms;
use vstd::seq_lib::{
    lemma_multiset_commutative, to_multiset_contains, to_multiset_len, to_multiset_remove,
};
use crate::attr::AttrModel;
use crate::enumerate::{settle, StepModel};
use crate::fetch::{FetchedModel, WarningModel};
use crate::trace::{
    attempted_names, attempts, attr_names, entry, entry_of, lemma_attempt_appended, logged,
    warning, warning_of, yielded, Attempt,
};

verus! {

/// A path without extended attributes yields nothing and leaves no warning:
/// with no name listed there is no attempt, whatever fetch results are at
/// hand.
pub proof fn lemma_nothing_listed(path: Seq<u8>, fetched: Seq<FetchedModel>)
    ensures
        attempts(Seq::empty(), fetched) == Seq::<Attempt>::empty(),
        yielded(attempts(Seq::empty(), fetched)) == Seq::<AttrModel>::empty(),
        logged(path, attempts(Seq::empty(), fetched)) == Seq::<WarningModel>::empty(),
{
    assert(attempts(Seq::empty(), fetched) =~= Seq::<Attempt>::empty());
}

/// An attribute that has no value is yielded like any other, with no value,
/// and leaves no warning.
pub proof fn lemma_valueless_attribute(path: Seq<u8>, name: Seq<u8>)
    ensures
        settle(path, name, Ok(None)) == StepModel::Yield(AttrModel { name, value: None }),
        entry(Attempt { name, fetched: Ok(None) }) == Some(AttrModel { name, value: None }),
        warning(path, Attempt { name, fetched: Ok(None) }) is None,
{
}

/// Resolving one name is one attempt: the step yields the attribute that the
/// attempt yields, or passes over with the warning that the attempt leaves,
/// and never both.
pub proof fn lemma_step_is_one_attempt(path: Seq<u8>, name: Seq<u8>, fetched: FetchedModel)
    ensures
        match settle(path, name, fetched) {
            StepModel::Yield(attr) => entry(Attempt { name, fetched }) == Some(attr) && warning(
                path,
                Attempt { name, fetched },
            ) is None,
            StepModel::Skip(left) => entry(Attempt { name, fetched }) is None && warning(
                path,
                Attempt { name, fetched },
            ) == Some(left),
            StepModel::Exhausted => false,
        },
{
}

/// Every attempt ends in exactly one of two ways: it yields an attribute or
/// it leaves a warning. So an enumeration never yields more attributes than
/// names were listed, and leaves exactly one warning for each attribute that
/// it passes over.
pub proof fn lemma_every_attempt_counts(path: Seq<u8>, tried: Seq<Attempt>)
    ensures
        yielded(tried).len() + logged(path, tried).len() == tried.len(),
    decreases tried.len(),
{
    if tried.len() > 0 {
        let last = tried.len() - 1;
        lemma_every_attempt_counts(path, tried.take(last));
        lemma_attempt_appended(path, tried, last);
        assert(tried.take(last + 1) =~= tried);
    }
}

/// Every attribute that is yielded stems from an attempt on a listed name
/// whose fetch succeeded, and carries that name and the value that was
/// fetched. The attempt is returned.
pub proof fn lemma_yielded_stems_from_attempt(tried: Seq<Attempt>, k: int) -> (i: int)
    requires
        0 <= k < yielded(tried).len(),
    ensures
        0 <= i < tried.len(),
        entry(tried[i]) == Some(yielded(tried)[k]),
{
    let attr = yielded(tried)[k];
    assert(tried.filter_map(entry_of()).contains(attr));
    tried.lemma_filter_map_contains(entry_of(), attr);
    let attempt = choose|attempt: Attempt| #[trigger]
        tried.contains(attempt) && entry_of()(attempt) == Some(attr);
    choose|i: int| 0 <= i < tried.len() && tried[i] == attempt
}

/// Every warning that is left stems from an attempt on a listed name whose
/// fetch failed, and carries that name, the path and the cause. Nothing is
/// logged for a fetch that succeeded. The attempt is returned.
pub proof fn lemma_logged_stems_from_attempt(path: Seq<u8>, tried: Seq<Attempt>, k: int) -> (i:
    int)
    requires
        0 <= k < logged(path, tried).len(),
    ensures
        0 <= i < tried.len(),
        warning(path, tried[i]) == Some(logged(path, tried)[k]),
{
    let left = logged(path, tried)[k];
    assert(tried.filter_map(warning_of(path)).contains(left));
    tried.lemma_filter_map_contains(warning_of(path), left);
    let attempt = choose|attempt: Attempt| #[trigger]
        tried.contains(attempt) && warning_of(path)(attempt) == Some(left);
    choose|i: int| 0 <= i < tried.len() && tried[i] == attempt
}

/// Attributes come out in listing order. Of two attributes that are yielded,
/// the one that comes out first stems from the attempt that was made first.
/// The two attempts are returned.
pub proof fn lemma_yielded_in_listing_order(tried: Seq<Attempt>, k1: int, k2: int) -> (sources: (
    int,
    int,
))
    requires
        0 <= k1 < k2 < yielded(tried).len(),
    ensures
        0 <= sources.0 < sources.1 < tried.len(),
        entry(tried[sources.0]) == Some(yielded(tried)[k1]),
        entry(tried[sources.1]) == Some(yielded(tried)[k2]),
    decreases tried.len(),
{
    let last = tried.len() - 1;
    let before = tried.take(last);
    lemma_attempt_appended(Seq::empty(), tried, last);
    assert(tried.take(last + 1) =~= tried);
    if k2 < yielded(before).len() {
        lemma_yielded_in_listing_order(before, k1, k2)
    } else {
        (lemma_yielded_stems_from_attempt(before, k1), last)
    }
}

/// Where the listing holds no name twice, no attribute is yielded twice.
pub proof fn lemma_nothing_yielded_twice(tried: Seq<Attempt>)
    requires
        attempted_names(tried).no_duplicates(),
    ensures
        attr_names(yielded(tried)).no_duplicates(),
    decreases tried.len(),
{
    if tried.len() > 0 {
        let last = tried.len() - 1;
        let before = tried.take(last);
        assert forall|i: int, j: int|
            0 <= i < before.len() && 0 <= j < before.len() && i != j implies attempted_names(
            before,
        )[i] != attempted_names(before)[j] by {
            assert(attempted_names(tried)[i] != attempted_names(tried)[j]);
        }
        lemma_nothing_yielded_twice(before);
        lemma_attempt_appended(Seq::empty(), tried, last);
        assert(tried.take(last + 1) =~= tried);
        let names = attr_names(yielded(tried));
        let earlier = yielded(before).len();
        assert forall|i: int, j: int|
            0 <= i < names.len() && 0 <= j < names.len() && i != j implies names[i]
            != names[j] by {
            if i < earlier && j < earlier {
                assert(attr_names(yielded(before))[i] != attr_names(yielded(before))[j]);
            } else {
                let k = if i < earlier {
                    i
                } else {
                    j
                };
                let source = lemma_yielded_stems_from_attempt(before, k);
                assert(attempted_names(tried)[source] != attempted_names(tried)[last]);
            }
        }
    }
}

/// A filter-map of two sequences, one after the other, is the filter-map of
/// the first followed by that of the second.
proof fn lemma_filter_map_concat<A, B>(
    first: Seq<A>,
    second: Seq<A>,
    f: spec_fn(A) -> Option<B>,
)
    ensures
        (first + second).filter_map(f) == first.filter_map(f) + second.filter_map(f),
    decreases second.len(),
{
    if second.len() == 0 {
        assert(first + second =~= first);
        assert(first.filter_map(f) + second.filter_map(f) =~= first.filter_map(f));
    } else {
        lemma_filter_map_concat(first, second.drop_last(), f);
        assert((first + second).drop_last() =~= first + second.drop_last());
        assert((first + second).last() == second.last());
        assert((first + second).filter_map(f) =~= first.filter_map(f) + second.filter_map(f));
    }
}

/// An enumeration is a single pass in listing order. Two runs of attempts,
/// one after the other, yield what the first yields followed by what the
/// second yields, and leave the warnings of the first followed by those of
/// the second: what has come out is never reordered or taken back.
pub proof fn lemma_enumeration_concat(path: Seq<u8>, first: Seq<Attempt>, second: Seq<Attempt>)
    ensures
        yielded(first + second) == yielded(first) + yielded(second),
        logged(path, first + second) == logged(path, first) + logged(path, second),
{
    lemma_filter_map_concat(first, second, entry_of());
    lemma_filter_map_concat(first, second, warning_of(path));
}

/// One pull of the consumer. Where the fetches fail for a run of names and
/// then succeed for one, the run yields that one attribute and leaves a
/// warning for each name before it. Where every fetch fails, the run yields
/// nothing and leaves a warning for every name: failures never end the
/// enumeration early, only the end of the listing does.
pub proof fn lemma_pull_skips_failures(path: Seq<u8>, tried: Seq<Attempt>)
    requires
        forall|i: int| 0 <= i < tried.len() - 1 ==> (#[trigger] tried[i]).fetched is Err,
    ensures
        tried.len() > 0 && tried.last().fetched is Ok ==> yielded(tried) == seq![
            AttrModel { name: tried.last().name, value: tried.last().fetched->Ok_0 },
        ] && logged(path, tried).len() == tried.len() - 1,
        tried.len() == 0 || tried.last().fetched is Err ==> yielded(tried) == Seq::<
            AttrModel,
        >::empty() && logged(path, tried).len() == tried.len(),
    decreases tried.len(),
{
    if tried.len() > 0 {
        let last = tried.len() - 1;
        let before = tried.take(last);
        assert forall|i: int| 0 <= i < before.len() - 1 implies (#[trigger] before[i]).fetched
            is Err by {
            assert(tried[i].fetched is Err);
        }
        if before.len() > 0 {
            assert(tried[before.len() - 1].fetched is Err);
        }
        lemma_pull_skips_failures(path, before);
        lemma_attempt_appended(path, tried, last);
        assert(tried.take(last + 1) =~= tried);
        lemma_every_attempt_counts(path, tried);
    }
}

/// Two runs on one listing compose. Resolving the names with the results
/// `first` and then the names that are left with the results `second` yields
/// the same attributes and leaves the same warnings, in the same order, as
/// resolving the names with `first` followed by `second` in one run.
pub proof fn lemma_runs_compose(
    path: Seq<u8>,
    names: Seq<Seq<u8>>,
    first: Seq<FetchedModel>,
    second: Seq<FetchedModel>,
)
    ensures
        ({
            let begun = attempts(names, first);
            let left = names.skip(begun.len() as int);
            &&& attempts(names, first + second) == begun + attempts(left, second)
            &&& yielded(attempts(names, first + second)) == yielded(begun) + yielded(
                attempts(left, second),
            )
            &&& logged(path, attempts(names, first + second)) == logged(path, begun) + logged(
                path,
                attempts(left, second),
            )
        }),
{
    let begun = attempts(names, first);
    let left = names.skip(begun.len() as int);
    assert(attempts(names, first + second) =~= begun + attempts(left, second));
    lemma_enumeration_concat(path, begun, attempts(left, second));
}

/// A failed fetch costs its own attribute and nothing else. The attributes
/// that are yielded are those that would be yielded had the name not been
/// listed at all, and the warnings are those of the other attempts with the
/// warning of the failed one in its place among them.
pub proof fn lemma_failure_costs_one_attribute(path: Seq<u8>, tried: Seq<Attempt>, failed: int)
    requires
        0 <= failed < tried.len(),
        tried[failed].fetched is Err,
    ensures
        yielded(tried) == yielded(tried.remove(failed)),
        logged(path, tried) == logged(path, tried.take(failed)) + seq![
            WarningModel { name: tried[failed].name, path, cause: tried[failed].fetched->Err_0 },
        ] + logged(path, tried.skip(failed + 1)),
{
    let before = tried.take(failed);
    let after = tried.skip(failed + 1);
    let one = seq![tried[failed]];
    assert(tried =~= before + one + after);
    assert(tried.remove(failed) =~= before + after);
    lemma_enumeration_concat(path, before, one);
    lemma_enumeration_concat(path, before + one, after);
    lemma_enumeration_concat(path, before, after);
    assert(one.take(0) =~= Seq::<Attempt>::empty());
    assert(one.take(1) =~= one);
    lemma_attempt_appended(path, one, 0);
    assert(yielded(one) =~= Seq::<AttrModel>::empty());
    assert(yielded(tried) =~= yielded(tried.remove(failed)));
}

/// Where no fetch fails, nothing is lost: the enumeration yields one
/// attribute for each attempt, in listing order, with the name that was
/// listed and the value that was fetched for it, and leaves no warning.
pub proof fn lemma_no_failure_no_loss(path: Seq<u8>, tried: Seq<Attempt>)
    requires
        forall|i: int| 0 <= i < tried.len() ==> (#[trigger] tried[i]).fetched is Ok,
    ensures
        yielded(tried) == Seq::new(
            tried.len(),
            |i: int| AttrModel { name: tried[i].name, value: tried[i].fetched->Ok_0 },
        ),
        logged(path, tried) == Seq::<WarningModel>::empty(),
    decreases tried.len(),
{
    let all = Seq::new(
        tried.len(),
        |i: int| AttrModel { name: tried[i].name, value: tried[i].fetched->Ok_0 },
    );
    if tried.len() > 0 {
        let last = tried.len() - 1;
        let before = tried.take(last);
        assert forall|i: int| 0 <= i < before.len() implies (#[trigger] before[i]).fetched is Ok by {
            assert(tried[i].fetched is Ok);
        }
        lemma_no_failure_no_loss(path, before);
        lemma_attempt_appended(path, tried, last);
        assert(tried.take(last + 1) =~= tried);
        assert(tried[last].fetched is Ok);
        assert(logged(path, tried) =~= Seq::<WarningModel>::empty());
    }
    assert(yielded(tried) =~= all);
}

/// The attributes stored on a path, as a set: one for each stored name, with
/// its value.
pub open spec fn stored_attrs(stored: Map<Seq<u8>, Seq<u8>>) -> Set<AttrModel> {
    Set::new(
        |attr: AttrModel| stored.dom().contains(attr.name) && attr.value == Some(stored[attr.name]),
    )
}

/// What a fetch comes back with where it succeeds and the attribute has the
/// value `value`.
pub open spec fn present(value: Seq<u8>) -> FetchedModel {
    Ok(Some(value))
}

/// Round trip. Let `stored` map each attribute name of a path to its value.
/// An enumeration whose listing returns each stored name once, in whatever
/// order, and whose every fetch succeeds with the stored value, yields
/// exactly the stored attributes, one for each listed name, and leaves no
/// warning.
pub proof fn lemma_round_trip(
    path: Seq<u8>,
    stored: Map<Seq<u8>, Seq<u8>>,
    names: Seq<Seq<u8>>,
    fetched: Seq<FetchedModel>,
)
    requires
        names.no_duplicates(),
        names.to_set() == stored.dom(),
        fetched.len() == names.len(),
        forall|i: int| 0 <= i < names.len() ==> #[trigger] fetched[i] == present(stored[names[i]]),
    ensures
        yielded(attempts(names, fetched)).to_set() == stored_attrs(stored),
        attr_names(yielded(attempts(names, fetched))) == names,
        logged(path, attempts(names, fetched)) == Seq::<WarningModel>::empty(),
{
    let tried = attempts(names, fetched);
    assert forall|i: int| 0 <= i < tried.len() implies (#[trigger] tried[i]).fetched is Ok by {
        assert(fetched[i] is Ok);
    }
    lemma_no_failure_no_loss(path, tried);
    let got = yielded(tried);
    assert(attr_names(got) =~= names);
    assert forall|attr: AttrModel| got.to_set().contains(attr) <==> stored_attrs(stored).contains(
        attr,
    ) by {
        if got.to_set().contains(attr) {
            let i = choose|i: int| 0 <= i < got.len() && got[i] == attr;
            assert(fetched[i] is Ok);
            assert(names.to_set().contains(names[i]));
        }
        if stored_attrs(stored).contains(attr) {
            assert(names.to_set().contains(attr.name));
            let i = choose|i: int| 0 <= i < names.len() && names[i] == attr.name;
            assert(fetched[i] is Ok);
            assert(got[i] == attr);
        }
    }
    assert(got.to_set() =~= stored_attrs(stored));
}

/// A filter-map takes sequences that hold the same elements, each as often,
/// to sequences that hold the same elements, each as often.
proof fn lemma_filter_map_of_permutation<A, B>(
    first: Seq<A>,
    second: Seq<A>,
    f: spec_fn(A) -> Option<B>,
)
    requires
        first.to_multiset() == second.to_multiset(),
    ensures
        first.filter_map(f).to_multiset() == second.filter_map(f).to_multiset(),
    decreases first.len(),
{
    broadcast use group_multiset_axioms;

    to_multiset_len(first);
    to_multiset_len(second);
    if first.len() > 0 {
        let last = first.len() - 1;
        let x = first[last];
        assert(first.contains(x));
        to_multiset_contains(first, x);
        to_multiset_contains(second, x);
        let j = choose|j: int| 0 <= j < second.len() && second[j] == x;
        let first_rest = first.remove(last);
        let second_rest = second.remove(j);
        to_multiset_remove(first, last);
        to_multiset_remove(second, j);
        lemma_filter_map_of_permutation(first_rest, second_rest, f);

        let head = second.take(j);
        let tail = second.skip(j + 1);
        let one = seq![x].filter_map(f);
        assert(first =~= first_rest + seq![x]);
        assert(second =~= head + seq![x] + tail);
        assert(second_rest =~= head + tail);
        lemma_filter_map_concat(first_rest, seq![x], f);
        lemma_filter_map_concat(head, seq![x], f);
        lemma_filter_map_concat(head + seq![x], tail, f);
        lemma_filter_map_concat(head, tail, f);
        lemma_multiset_commutative(first_rest.filter_map(f), one);
        lemma_multiset_commutative(head.filter_map(f), one);
        lemma_multiset_commutative(head.filter_map(f) + one, tail.filter_map(f));
        lemma_multiset_commutative(head.filter_map(f), tail.filter_map(f));
        assert(first.filter_map(f).to_multiset() =~= second.filter_map(f).to_multiset());
    }
}

/// The order of the listing does not matter to what comes out. Two
/// enumerations that make the same attempts, each as often as the other but
/// in whatever order, as two enumerations of one unchanged path do, yield
/// the same attributes and leave the same warnings, each as often as the
/// other.
pub proof fn lemma_same_attempts_same_outcome(
    path: Seq<u8>,
    first: Seq<Attempt>,
    second: Seq<Attempt>,
)
    requires
        first.to_multiset() == second.to_multiset(),
    ensures
        yielded(first).to_multiset() == yielded(second).to_multiset(),
        logged(path, first).to_multiset() == logged(path, second).to_multiset(),
{
    lemma_filter_map_of_permutation(first, second, entry_of());
    lemma_filter_map_of_permutation(first, second, warning_of(path));
}

} // verus!
