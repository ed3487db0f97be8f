//! Finding the first value that is present in a list of optional values, in
//! several ways that all return the same.

use vstd::prelude::*;
use vstd::slice::{slice_subrange, slice_to_vec};
use core::fmt::Debug;

verus! {

/// The first value that is present in `values`, or `default` if none is.
pub open spec fn first_present<A>(values: Seq<Option<A>>, default: A) -> A
    decreases values.len(),
{
    if values.len() == 0 {
        default
    } else {
        match values[0] {
            Some(a) => a,
            None => first_present(values.drop_first(), default),
        }
    }
}

/// The test that picks the values that are present.
pub open spec fn is_present<A>() -> spec_fn(Option<A>) -> bool {
    |o: Option<A>| o is Some
}

/// The values that are present in `values`, in their order.
pub open spec fn present<A>(values: Seq<Option<A>>) -> Seq<A> {
    values.filter(is_present()).map_values(|o: Option<A>| o->Some_0)
}

/// The first present value is the first value before which none is present;
/// where none is present at all, it is the default.
pub proof fn lemma_first_present<A>(values: Seq<Option<A>>, default: A)
    ensures
        (forall|j: int| 0 <= j < values.len() ==> values[j] is None) ==> first_present(
            values,
            default,
        ) == default,
        forall|i: int|
            0 <= i < values.len() && values[i] is Some && (forall|j: int|
                0 <= j < i ==> values[j] is None) ==> first_present(values, default)
                == values[i]->Some_0,
    decreases values.len(),
{
    if values.len() > 0 {
        let rest = values.drop_first();
        lemma_first_present(rest, default);
        assert forall|i: int|
            0 <= i < values.len() && values[i] is Some && (forall|j: int|
                0 <= j < i ==> values[j] is None) implies first_present(values, default)
            == values[i]->Some_0 by {
            if i > 0 {
                assert(values[0] is None);
                assert(rest[i - 1] == values[i]);
                assert forall|j: int| 0 <= j < i - 1 implies rest[j] is None by {
                    assert(rest[j] == values[j + 1]);
                }
            }
        }
        if forall|j: int| 0 <= j < values.len() ==> values[j] is None {
            assert(values[0] is None);
            assert forall|j: int| 0 <= j < rest.len() implies rest[j] is None by {
                assert(rest[j] == values[j + 1]);
            }
        }
    }
}

/// Where a list starts with a value, that value decides; where it starts with
/// a gap, the rest of the list does.
proof fn lemma_first_present_from<A>(values: Seq<Option<A>>, default: A, i: int)
    requires
        0 <= i < values.len(),
    ensures
        first_present(values.skip(i), default) == match values[i] {
            Some(a) => a,
            None => first_present(values.skip(i + 1), default),
        },
{
    assert(values.skip(i).drop_first() =~= values.skip(i + 1));
}

/// A value at the end of a list is the fallback of what stands before it.
proof fn lemma_first_present_push<A>(values: Seq<Option<A>>, last: Option<A>, default: A)
    ensures
        first_present(values.push(last), default) == first_present(
            values,
            match last {
                Some(a) => a,
                None => default,
            },
        ),
    decreases values.len(),
{
    if values.len() == 0 {
        assert(values.push(last).drop_first() =~= values);
    } else {
        assert(values.push(last).drop_first() =~= values.drop_first().push(last));
        lemma_first_present_push(values.drop_first(), last, default);
    }
}

/// The first present value is the head of the list of present values, and the
/// default where that list is empty.
pub proof fn lemma_first_of_present<A>(values: Seq<Option<A>>, default: A)
    ensures
        first_present(values, default) == if present(values).len() == 0 {
            default
        } else {
            present(values)[0]
        },
    decreases values.len(),
{
    reveal(Seq::filter);
    if values.len() > 0 {
        let init = values.drop_last();
        let last = values.last();
        let fallback = match last {
            Some(a) => a,
            None => default,
        };
        assert(init.push(last) =~= values);
        lemma_first_present_push(init, last, default);
        lemma_first_of_present(init, fallback);
    }
}

/// Returns the values that are present in `values`, in their order.
pub fn flatten<A: Copy>(values: &Vec<Option<A>>) -> (flat: Vec<A>)
    ensures
        flat@ == present(values@),
{
    let mut flat: Vec<A> = Vec::new();
    let mut i: usize = 0;
    while i < values.len()
        invariant
            i <= values.len(),
            flat@ == present(values@.take(i as int)),
        decreases values.len() - i,
    {
        proof {
            reveal(Seq::filter);
            assert(values@.take(i + 1).drop_last() =~= values@.take(i as int));
        }
        match values[i] {
            Some(a) => {
                flat.push(a);
            },
            None => {},
        }
        i += 1;
    }
    proof {
        reveal(Seq::filter);
        assert(values@.take(values.len() as int) =~= values@);
    }
    flat
}

/// Returns the first present value of `v`, or `default`: scans from the front
/// and stops at the first value found.
pub fn first_value_a<A: Copy>(v: Vec<Option<A>>, default: A) -> (r: A)
    ensures
        r == first_present(v@, default),
{
    let mut i: usize = 0;
    assert(v@.skip(0) =~= v@);
    while i < v.len()
        invariant
            i <= v.len(),
            first_present(v@, default) == first_present(v@.skip(i as int), default),
        decreases v.len() - i,
    {
        proof {
            lemma_first_present_from(v@, default, i as int);
        }
        match v[i] {
            Some(a) => return a,
            None => (),
        }
        i += 1;
    }
    default
}

/// Returns the first present value of `v`, or `default`: gathers the present
/// values and takes the head of that list unless it is empty.
pub fn first_value_b<A: Copy>(v: Vec<Option<A>>, default: A) -> (r: A)
    ensures
        r == first_present(v@, default),
{
    let flat = flatten(&v);
    proof {
        lemma_first_of_present(v@, default);
    }
    if flat.is_empty() {
        default
    } else {
        flat[0]
    }
}

/// Returns the first present value of `v`, or `default`: gathers the present
/// values and falls back on the default where that list has no head.
pub fn first_value_c<A: Copy>(v: Vec<Option<A>>, default: A) -> (r: A)
    ensures
        r == first_present(v@, default),
{
    let flat = flatten(&v);
    proof {
        lemma_first_of_present(v@, default);
    }
    *flat.as_slice().first().unwrap_or(&default)
}

/// Returns the first present value of `v`, or `default`: walks from the back,
/// each present value replacing what was found behind it.
pub fn first_value_d<A: Copy>(v: Vec<Option<A>>, default: A) -> (r: A)
    ensures
        r == first_present(v@, default),
{
    let mut found = default;
    let mut i: usize = v.len();
    while i > 0
        invariant
            i <= v.len(),
            found == first_present(v@.skip(i as int), default),
        decreases i,
    {
        i -= 1;
        proof {
            lemma_first_present_from(v@, default, i as int);
        }
        found = v[i].unwrap_or(found);
    }
    assert(v@.skip(0) =~= v@);
    found
}

/// Returns the first present value of `v`, or `default`: looks at the head
/// and, where it is a gap, asks the same of the rest.
pub fn first_value_e<A: Copy>(v: Vec<Option<A>>, default: A) -> (r: A)
    ensures
        r == first_present(v@, default),
    decreases v@.len(),
{
    if v.len() == 0 {
        default
    } else {
        match v[0] {
            Some(a) => a,
            None => {
                let rest = slice_to_vec(slice_subrange(v.as_slice(), 1, v.len()));
                assert(rest@ =~= v@.drop_first());
                first_value_e(rest, default)
            },
        }
    }
}

/// Returns the first present value of `values`, or `default`: the value
/// before which every place is a gap, and the default where all are gaps.
pub fn first_value<A: Copy + Debug>(values: Vec<Option<A>>, default: A) -> (r: A)
    ensures
        r == first_present(values@, default),
        (forall|j: int| 0 <= j < values@.len() ==> values@[j] is None) ==> r == default,
        forall|i: int|
            0 <= i < values@.len() && values@[i] is Some && (forall|j: int|
                0 <= j < i ==> values@[j] is None) ==> r == values@[i]->Some_0,
{
    let flat = flatten(&values);
    proof {
        lemma_first_of_present(values@, default);
        lemma_first_present(values@, default);
    }
    match flat.as_slice().first() {
        Some(x) => *x,
        None => default,
    }
}

} // verus!
