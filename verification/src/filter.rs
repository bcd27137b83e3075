//! The filter engine: given a sequence of country records, a field
//! selector and a [`Threshold`], keep exactly the records whose selected
//! field lies strictly inside the open interval.

use vstd::prelude::*;

use crate::model::Country;
use crate::model::Threshold;

verus! {

/// Which integer counter of a [`Country`] a filter query inspects.
/// The field is fixed per endpoint.
#[derive(Clone, Copy, Debug, PartialEq, Eq)]
pub enum FilterField {
    Deaths,
    Recovered,
}

/// The counter that `field` selects from a record.
pub open spec fn field_value(r: Country, field: FilterField) -> int {
    match field {
        FilterField::Deaths => r.deaths as int,
        FilterField::Recovered => r.recovered as int,
    }
}

/// The subsequence of `s` whose selected field the threshold admits,
/// in the original order.
pub open spec fn filtered(s: Seq<Country>, field: FilterField, t: Threshold) -> Seq<Country> {
    s.filter(|r: Country| t.admits(field_value(r, field)))
}

/// Runtime accessor for `field_value`.
pub fn field_of(r: &Country, field: FilterField) -> (v: i32)
    ensures
        v as int == field_value(*r, field),
{
    match field {
        FilterField::Deaths => r.deaths,
        FilterField::Recovered => r.recovered,
    }
}

/// Keep exactly the records whose selected field lies strictly inside
/// the threshold's open interval, preserving the input order. The input
/// is not mutated; a fresh vector is returned.
pub fn filter_countries(records: &Vec<Country>, field: FilterField, t: &Threshold) -> (res: Vec<
    Country,
>)
    ensures
        res@ == filtered(records@, field, *t),
{
    let ghost th: Threshold = *t;
    let ghost pred = (|r: Country| th.admits(field_value(r, field)));
    let mut out: Vec<Country> = Vec::new();
    let mut i: usize = 0;
    while i < records.len()
        invariant
            i <= records.len(),
            out@ == records@.take(i as int).filter(pred),
            th == *t,
            pred == (|r: Country| th.admits(field_value(r, field))),
        decreases records.len() - i,
    {
        let keep = t.accepts(field_of(&records[i], field));
        if keep {
            out.push(records[i].clone());
        }
        proof {
            let elem = records@[i as int];
            assert(keep == pred(elem));
            records@.take(i as int).lemma_filter_push(elem, pred);
            assert(records@.take(i as int + 1) =~= records@.take(i as int).push(elem));
        }
        i = i + 1;
    }
    proof {
        assert(records@.take(records@.len() as int) =~= records@);
    }
    out
}

/// `sub` can be obtained from `s` by deleting elements while keeping the
/// relative order of the rest.
pub open spec fn is_subsequence<A>(sub: Seq<A>, s: Seq<A>) -> bool
    decreases s.len(),
{
    if sub.len() == 0 {
        true
    } else if s.len() == 0 {
        false
    } else {
        (sub.last() == s.last() && is_subsequence(sub.drop_last(), s.drop_last()))
            || is_subsequence(sub, s.drop_last())
    }
}

/// A subsequence is never longer than the sequence it came from.
pub proof fn lemma_subsequence_len<A>(sub: Seq<A>, s: Seq<A>)
    requires
        is_subsequence(sub, s),
    ensures
        sub.len() <= s.len(),
    decreases s.len(),
{
    if sub.len() == 0 {
    } else {
        if sub.last() == s.last() && is_subsequence(sub.drop_last(), s.drop_last()) {
            lemma_subsequence_len(sub.drop_last(), s.drop_last());
        } else {
            lemma_subsequence_len(sub, s.drop_last());
        }
    }
}

/// Every element of a subsequence is an element of the sequence it came
/// from.
pub proof fn lemma_subsequence_contains<A>(sub: Seq<A>, s: Seq<A>, r: A)
    requires
        is_subsequence(sub, s),
        sub.contains(r),
    ensures
        s.contains(r),
    decreases s.len(),
{
    let i = choose|i: int| 0 <= i < sub.len() && sub[i] == r;
    if sub.last() == s.last() && is_subsequence(sub.drop_last(), s.drop_last()) {
        if i < sub.len() - 1 {
            assert(sub.drop_last()[i] == r);
            lemma_subsequence_contains(sub.drop_last(), s.drop_last(), r);
            let j = choose|j: int| 0 <= j < s.drop_last().len() && s.drop_last()[j] == r;
            assert(s[j] == r);
        } else {
            assert(s[s.len() - 1] == r);
        }
    } else {
        lemma_subsequence_contains(sub, s.drop_last(), r);
        let j = choose|j: int| 0 <= j < s.drop_last().len() && s.drop_last()[j] == r;
        assert(s[j] == r);
    }
}

/// Filtering any sequence by any predicate yields a subsequence of it.
proof fn lemma_filter_is_subsequence_of<A>(s: Seq<A>, p: spec_fn(A) -> bool)
    ensures
        is_subsequence(s.filter(p), s),
    decreases s.len(),
{
    reveal(Seq::filter);
    if s.len() == 0 {
    } else {
        let a = s.drop_last();
        lemma_filter_is_subsequence_of(a, p);
        if p(s.last()) {
            let sub = s.filter(p);
            assert(sub == a.filter(p).push(s.last()));
            assert(sub.last() == s.last());
            assert(sub.drop_last() =~= a.filter(p));
        } else {
            assert(s.filter(p) == a.filter(p));
        }
    }
}

/// If every element admitted by `p1` is admitted by `p2`, the `p1` filter
/// of a sequence is a subsequence of its `p2` filter.
proof fn lemma_filter_implication_subsequence<A>(
    s: Seq<A>,
    p1: spec_fn(A) -> bool,
    p2: spec_fn(A) -> bool,
)
    requires
        forall|a: A| #[trigger] p1(a) ==> p2(a),
    ensures
        is_subsequence(s.filter(p1), s.filter(p2)),
    decreases s.len(),
{
    reveal(Seq::filter);
    if s.len() == 0 {
    } else {
        let a = s.drop_last();
        lemma_filter_implication_subsequence(a, p1, p2);
        let f1 = s.filter(p1);
        let f2 = s.filter(p2);
        if p1(s.last()) {
            assert(f1 == a.filter(p1).push(s.last()));
            assert(f2 == a.filter(p2).push(s.last()));
            assert(f1.drop_last() =~= a.filter(p1));
            assert(f2.drop_last() =~= a.filter(p2));
        } else if p2(s.last()) {
            assert(f1 == a.filter(p1));
            assert(f2 == a.filter(p2).push(s.last()));
            assert(f2.drop_last() =~= a.filter(p2));
            if f1.len() > 0 {
                assert(is_subsequence(f1, f2.drop_last()));
            }
        } else {
            assert(f1 == a.filter(p1));
            assert(f2 == a.filter(p2));
        }
    }
}

/// Filtering by a predicate that every element satisfies returns the
/// sequence unchanged.
proof fn lemma_filter_all_kept<A>(s: Seq<A>, p: spec_fn(A) -> bool)
    requires
        forall|i: int| 0 <= i < s.len() ==> p(#[trigger] s[i]),
    ensures
        s.filter(p) == s,
    decreases s.len(),
{
    reveal(Seq::filter);
    if s.len() == 0 {
        assert(s.filter(p) =~= s);
    } else {
        let a = s.drop_last();
        assert forall|i: int| 0 <= i < a.len() implies p(#[trigger] a[i]) by {
            assert(a[i] == s[i]);
        }
        lemma_filter_all_kept(a, p);
        assert(s.filter(p) =~= s);
    }
}

/// Law: the filter result is a subsequence of the input, preserving the
/// input's original relative order, and so never longer than the input.
pub proof fn lemma_filter_subsequence(s: Seq<Country>, field: FilterField, t: Threshold)
    ensures
        is_subsequence(filtered(s, field, t), s),
        filtered(s, field, t).len() <= s.len(),
{
    let p = (|r: Country| t.admits(field_value(r, field)));
    lemma_filter_is_subsequence_of(s, p);
    lemma_subsequence_len(s.filter(p), s);
}

/// Law: filtering twice with the same field and threshold yields the
/// same result as filtering once.
pub proof fn lemma_filter_idempotent(s: Seq<Country>, field: FilterField, t: Threshold)
    ensures
        filtered(filtered(s, field, t), field, t) == filtered(s, field, t),
{
    broadcast use vstd::seq_lib::group_filter_ensures;

    let p = (|r: Country| t.admits(field_value(r, field)));
    let once = s.filter(p);
    assert forall|i: int| 0 <= i < once.len() implies p(#[trigger] once[i]) by {}
    lemma_filter_all_kept(once, p);
}

/// Law: filtering with both bounds absent returns the input unchanged,
/// element for element and in order.
pub proof fn lemma_filter_identity(s: Seq<Country>, field: FilterField)
    ensures
        filtered(s, field, (Threshold { min: None, max: None })) == s,
{
    let t = Threshold { min: None, max: None };
    let p = (|r: Country| t.admits(field_value(r, field)));
    lemma_filter_all_kept(s, p);
}

/// Law: a record whose selected field equals a present bound exactly is
/// excluded from the result — both bounds are strict.
pub proof fn lemma_filter_excludes_boundary(
    s: Seq<Country>,
    field: FilterField,
    t: Threshold,
    r: Country,
)
    requires
        (t.min matches Some(m) && field_value(r, field) == m) || (t.max matches Some(x)
            && field_value(r, field) == x),
    ensures
        !filtered(s, field, t).contains(r),
{
    broadcast use vstd::seq_lib::group_filter_ensures;

    let p = (|r: Country| t.admits(field_value(r, field)));
    assert(!p(r));
    if s.filter(p).contains(r) {
        let i = choose|i: int| 0 <= i < s.filter(p).len() && s.filter(p)[i] == r;
        assert(p(s.filter(p)[i]));
        assert(false);
    }
}

/// `wide` admits every value that `narrow` admits: its lower bound is
/// absent or no higher, and its upper bound absent or no lower.
pub open spec fn widens(narrow: Threshold, wide: Threshold) -> bool {
    &&& match (narrow.min, wide.min) {
        (_, None) => true,
        (Some(m1), Some(m2)) => m2 <= m1,
        (None, Some(_)) => false,
    }
    &&& match (narrow.max, wide.max) {
        (_, None) => true,
        (Some(x1), Some(x2)) => x2 >= x1,
        (None, Some(_)) => false,
    }
}

/// Law: widening the interval never shrinks the result set — the narrow
/// filter's result is a subsequence of the wide filter's result, so no
/// record is lost and the result can only grow.
pub proof fn lemma_filter_monotone_widening(
    s: Seq<Country>,
    field: FilterField,
    narrow: Threshold,
    wide: Threshold,
)
    requires
        widens(narrow, wide),
    ensures
        is_subsequence(filtered(s, field, narrow), filtered(s, field, wide)),
        filtered(s, field, narrow).len() <= filtered(s, field, wide).len(),
        forall|r: Country|
            filtered(s, field, narrow).contains(r) ==> filtered(s, field, wide).contains(r),
{
    let p1 = (|r: Country| narrow.admits(field_value(r, field)));
    let p2 = (|r: Country| wide.admits(field_value(r, field)));
    assert forall|r: Country| #[trigger] p1(r) implies p2(r) by {
        assert(narrow.admits(field_value(r, field)));
    }
    lemma_filter_implication_subsequence(s, p1, p2);
    lemma_subsequence_len(s.filter(p1), s.filter(p2));
    assert forall|r: Country| filtered(s, field, narrow).contains(r) implies filtered(
        s,
        field,
        wide,
    ).contains(r) by {
        lemma_subsequence_contains(s.filter(p1), s.filter(p2), r);
    }
}

} // verus!
