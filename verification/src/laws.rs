//! Laws of the algebra of parameter collections.
//!
//! Each law is stated of the sequences that model collections, in which no key
//! occurs twice, and so holds of every [`crate::parameter::Parameters`].

use vstd::prelude::*;

use crate::algebra::{
    key_not_in, lemma_filter_agree, lemma_filter_all, lemma_filter_none, lemma_put,
    lemma_put_last, put,
    as_map, counterpart, difference_parts, equal_one, has_key, key_set, keys, lemma_has_key,
    lemma_merged, lemma_last_with_key, lemma_position, lemma_same_lookup, lemma_subtracted,
    lemma_updated, lookup, loose_difference, loosely_equal, merged, only_here, position,
    subtracted, unequal_pair, unique_keys, updated,
};
use crate::parameter::ParameterView;

verus! {

/// An update changes no key and no place. The result has the keys of `a`, in
/// the order of `a`. Where `b` has the key of a parameter of `a`, the result
/// has the parameter of `b` in its place; every other parameter of `a` stays
/// as it is.
pub proof fn law_update_keeps_keys(a: Seq<ParameterView>, b: Seq<ParameterView>)
    requires
        unique_keys(a),
        unique_keys(b),
    ensures
        keys(updated(a, b)) == keys(a),
        key_set(updated(a, b)) == key_set(a),
        forall|i: int|
            0 <= i < a.len() && !has_key(b, (#[trigger] a[i]).key()) ==> updated(a, b)[i] == a[i],
        forall|i: int|
            0 <= i < a.len() && has_key(b, (#[trigger] a[i]).key()) ==> lookup(b, a[i].key())
                == Some(updated(a, b)[i]),
{
    lemma_updated(a, b);
    assert(keys(updated(a, b)) =~= keys(a));
    assert(key_set(updated(a, b)) =~= key_set(a));
}

/// A merge is the union. The result has the keys of `a` and the keys of `b`,
/// and no others; a key of `b` has the parameter of `b`, every other key the
/// parameter of `a`. As maps: the result is the map of `a` overridden by that
/// of `b`.
pub proof fn law_merge_is_union(a: Seq<ParameterView>, b: Seq<ParameterView>)
    requires
        unique_keys(a),
        unique_keys(b),
    ensures
        unique_keys(merged(a, b)),
        key_set(merged(a, b)) == key_set(a).union(key_set(b)),
        forall|key: Seq<char>|
            has_key(b, key) ==> #[trigger] lookup(merged(a, b), key) == lookup(b, key),
        forall|key: Seq<char>|
            !has_key(b, key) ==> #[trigger] lookup(merged(a, b), key) == lookup(a, key),
        as_map(merged(a, b)) == as_map(a).union_prefer_right(as_map(b)),
{
    lemma_merged(a, b);
    let m = merged(a, b);
    assert forall|key: Seq<char>| #[trigger]
        lookup(m, key) == if has_key(b, key) {
            lookup(b, key)
        } else {
            lookup(a, key)
        } by {
        lemma_last_with_key(b, key);
    }
    assert(key_set(m) =~= key_set(a).union(key_set(b)));
    assert(as_map(m) =~= as_map(a).union_prefer_right(as_map(b))) by {
        assert forall|key: Seq<char>| #[trigger] as_map(m).dom().contains(key) implies as_map(
            m,
        )[key] == as_map(a).union_prefer_right(as_map(b))[key] by {
            assert(lookup(m, key) == if has_key(b, key) {
                lookup(b, key)
            } else {
                lookup(a, key)
            });
        }
    }
}

/// A collection without its own keys is empty.
pub proof fn law_subtract_self(a: Seq<ParameterView>)
    requires
        unique_keys(a),
    ensures
        subtracted(a, a) == Seq::<ParameterView>::empty(),
{
    lemma_filter_none(a, key_not_in(a));
}

/// A collection without the keys of the empty collection is itself.
pub proof fn law_subtract_nothing(a: Seq<ParameterView>)
    ensures
        subtracted(a, Seq::empty()) == a,
{
    lemma_filter_all(a, key_not_in(Seq::empty()));
}

/// Subtracting what was merged in gives what subtracting it from the
/// collection alone gives: the same keys, each with the same parameter.
pub proof fn law_subtract_after_merge(a: Seq<ParameterView>, b: Seq<ParameterView>)
    requires
        unique_keys(a),
        unique_keys(b),
    ensures
        as_map(subtracted(merged(a, b), b)) == as_map(subtracted(a, b)),
{
    lemma_merged(a, b);
    lemma_subtracted(merged(a, b), b);
    lemma_subtracted(a, b);
    assert forall|key: Seq<char>|
        lookup(subtracted(merged(a, b), b), key) == lookup(subtracted(a, b), key) by {
        lemma_last_with_key(b, key);
        assert(lookup(merged(a, b), key) == match crate::algebra::last_with_key(b, key) {
            Some(p) => Some(p),
            None => lookup(a, key),
        });
    }
    lemma_same_lookup(subtracted(merged(a, b), b), subtracted(a, b));
}

/// Subtracting what was merged in gives the collection back as it was, order
/// included, where the two have no key in common.
pub proof fn law_subtract_restores(a: Seq<ParameterView>, b: Seq<ParameterView>)
    requires
        unique_keys(a),
        unique_keys(b),
        key_set(a).disjoint(key_set(b)),
    ensures
        subtracted(merged(a, b), b) == a,
    decreases b.len(),
{
    if b.len() == 0 {
        lemma_filter_all(a, key_not_in(b));
    } else {
        let front = b.drop_last();
        let last = b.last();
        let m = merged(a, front);
        lemma_put_last(b);
        lemma_put(front, last);
        lemma_merged(a, front);
        assert(key_set(a).disjoint(key_set(front))) by {
            assert forall|key: Seq<char>| !(key_set(a).contains(key) && key_set(front).contains(
                key,
            )) by {
                if has_key(front, key) {
                    assert(has_key(put(front, last), key));
                    assert(key_set(b).contains(key));
                }
            }
        }
        law_subtract_restores(a, front);
        // The last parameter of `b` has a key that is new to what was merged.
        assert(!has_key(m, last.key())) by {
            assert(has_key(put(front, last), last.key()));
            assert(key_set(b).contains(last.key()));
            assert(!key_set(a).contains(last.key()));
        }
        assert(merged(a, b) == m.push(last));
        // It goes again, and so does all that went before.
        reveal(Seq::filter);
        assert(m.push(last).drop_last() =~= m);
        assert(has_key(b, last.key())) by {
            assert(has_key(put(front, last), last.key()));
        }
        assert(m.push(last).filter(key_not_in(b)) == m.filter(key_not_in(b)));
        assert forall|i: int| 0 <= i < m.len() implies key_not_in(b)(#[trigger] m[i])
            == key_not_in(front)(m[i]) by {
            assert(has_key(m, m[i].key()));
            assert(has_key(put(front, last), m[i].key()) <==> (has_key(front, m[i].key())
                || m[i].key() == last.key()));
        }
        lemma_filter_agree(m, key_not_in(b), key_not_in(front));
    }
}

/// Every collection is loosely equal to itself.
pub proof fn law_loosely_equal_reflexive(a: Seq<ParameterView>)
    requires
        unique_keys(a),
    ensures
        loosely_equal(a, a),
{
    assert forall|i: int| 0 <= i < a.len() implies (#[trigger] a[i]).loosely_equals(
        a[position(a, a[i].key())],
    ) by {
        lemma_position(a, a[i].key(), i);
    }
}

/// A selection that selects nothing gives nothing, and the converse.
pub proof fn lemma_filter_map_empty<B>(s: Seq<ParameterView>, f: spec_fn(ParameterView) -> Option<B>)
    ensures
        s.filter_map(f).len() == 0 <==> forall|i: int| 0 <= i < s.len() ==> f(#[trigger] s[i]) is None,
    decreases s.len(),
{
    if s.len() > 0 {
        let front = s.drop_last();
        lemma_filter_map_empty(front, f);
        if forall|i: int| 0 <= i < s.len() ==> f(#[trigger] s[i]) is None {
            assert forall|i: int| 0 <= i < front.len() implies f(#[trigger] front[i]) is None by {
                assert(front[i] == s[i]);
            }
            assert(f(s[s.len() - 1]) is None);
        }
        if s.filter_map(f).len() == 0 {
            assert forall|i: int| 0 <= i < s.len() implies f(#[trigger] s[i]) is None by {
                if i < front.len() {
                    assert(front[i] == s[i]);
                }
            }
        }
    }
}

/// There is no loose difference between two collections exactly if they are
/// loosely equal.
pub proof fn law_no_difference_is_loose_equality(a: Seq<ParameterView>, b: Seq<ParameterView>)
    requires
        unique_keys(a),
        unique_keys(b),
    ensures
        loose_difference(a, b) is None <==> loosely_equal(a, b),
{
    lemma_filter_map_empty(a, only_here(b));
    lemma_filter_map_empty(a, unequal_pair(b));
    lemma_filter_map_empty(b, only_here(a));
    let parts = difference_parts(a, b);
    if loose_difference(a, b) is None {
        assert forall|key: Seq<char>| has_key(a, key) == has_key(b, key) by {
            if has_key(a, key) {
                lemma_has_key(a, key);
                assert(only_here(b)(a[position(a, key)]) is None);
            }
            if has_key(b, key) {
                lemma_has_key(b, key);
                assert(only_here(a)(b[position(b, key)]) is None);
            }
        }
        assert(key_set(a) =~= key_set(b));
        assert forall|i: int| 0 <= i < a.len() implies (#[trigger] a[i]).loosely_equals(
            b[position(b, a[i].key())],
        ) by {
            assert(only_here(b)(a[i]) is None);
            assert(unequal_pair(b)(a[i]) is None);
        }
    }
    if loosely_equal(a, b) {
        assert forall|i: int| 0 <= i < a.len() implies only_here(b)(#[trigger] a[i]) is None by {
            assert(key_set(a).contains(a[i].key()));
            assert(key_set(b).contains(a[i].key()));
        }
        assert forall|i: int| 0 <= i < b.len() implies only_here(a)(#[trigger] b[i]) is None by {
            assert(key_set(b).contains(b[i].key()));
            assert(key_set(a).contains(b[i].key()));
        }
        assert forall|i: int| 0 <= i < a.len() implies unequal_pair(b)(#[trigger] a[i]) is None by {
            assert(a[i].loosely_equals(counterpart(b, a[i])));
        }
    }
}

/// There is no loose difference between a collection and itself.
pub proof fn law_no_difference_from_self(a: Seq<ParameterView>)
    requires
        unique_keys(a),
    ensures
        loose_difference(a, a) is None,
{
    law_loosely_equal_reflexive(a);
    law_no_difference_is_loose_equality(a, a);
}

/// Where there is a loose difference, every parameter of the left collection
/// is in exactly one of the parts `left`, `equal` and `unequal`, and every
/// parameter of the right collection that has no counterpart is in `right`.
pub proof fn law_difference_covers(a: Seq<ParameterView>, b: Seq<ParameterView>)
    ensures
        difference_parts(a, b).left.len() + difference_parts(a, b).equal.len() + difference_parts(
            a,
            b,
        ).unequal.len() == a.len(),
        difference_parts(a, b).right.len() <= b.len(),
{
    lemma_selection_length(b, only_here(a));
    lemma_difference_counts(a, b);
}

/// A selection is no longer than what it selects from.
proof fn lemma_selection_length<B>(s: Seq<ParameterView>, f: spec_fn(ParameterView) -> Option<B>)
    ensures
        s.filter_map(f).len() <= s.len(),
    decreases s.len(),
{
    if s.len() > 0 {
        lemma_selection_length(s.drop_last(), f);
    }
}

/// The three parts taken from the left collection hold as many parameters as
/// the left collection.
proof fn lemma_difference_counts(a: Seq<ParameterView>, b: Seq<ParameterView>)
    ensures
        a.filter_map(only_here(b)).len() + a.filter_map(equal_one(b)).len() + a.filter_map(
            unequal_pair(b),
        ).len() == a.len(),
    decreases a.len(),
{
    if a.len() > 0 {
        lemma_difference_counts(a.drop_last(), b);
    }
}

} // verus!
