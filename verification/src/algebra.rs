//! The mathematics of parameter collections.
//!
//! A collection is modelled as the sequence of its parameters, in the order of
//! the collection, in which no key occurs twice. The functions here say what
//! each operation of [`crate::parameter::Parameters`] computes, and the lemmas
//! say what these functions mean for the keys and the values of a collection.

use vstd::prelude::*;

use crate::parameter::ParameterView;

verus! {

/// Whether some parameter of `s` has the key.
pub open spec fn has_key(s: Seq<ParameterView>, key: Seq<char>) -> bool {
    exists|i: int| 0 <= i < s.len() && (#[trigger] s[i]).key() == key
}

/// The position of a parameter of `s` with the key, where there is one.
pub open spec fn position(s: Seq<ParameterView>, key: Seq<char>) -> int {
    choose|i: int| 0 <= i < s.len() && (#[trigger] s[i]).key() == key
}

/// No two parameters of `s` have the same key.
pub open spec fn unique_keys(s: Seq<ParameterView>) -> bool {
    forall|i: int, j: int|
        0 <= i < s.len() && 0 <= j < s.len() && i != j ==> (#[trigger] s[i]).key() != (
        #[trigger] s[j]).key()
}

/// The parameter of `s` with the key, if there is one.
pub open spec fn lookup(s: Seq<ParameterView>, key: Seq<char>) -> Option<ParameterView> {
    if has_key(s, key) {
        Some(s[position(s, key)])
    } else {
        None
    }
}

/// The keys of `s`, as a set.
pub open spec fn key_set(s: Seq<ParameterView>) -> Set<Seq<char>> {
    Set::new(|key: Seq<char>| has_key(s, key))
}

/// The keys of `s`, in the order of `s`.
pub open spec fn keys(s: Seq<ParameterView>) -> Seq<Seq<char>> {
    Seq::new(s.len(), |i: int| s[i].key())
}

/// The collection as a map from each key to its parameter, without the order.
/// Two collections are equal when their maps are.
pub open spec fn as_map(s: Seq<ParameterView>) -> Map<Seq<char>, ParameterView> {
    Map::new(|key: Seq<char>| has_key(s, key), |key: Seq<char>| s[position(s, key)])
}

/// The last parameter of `s` with the key, if there is one.
pub open spec fn last_with_key(s: Seq<ParameterView>, key: Seq<char>) -> Option<ParameterView>
    decreases s.len(),
{
    if s.len() == 0 {
        None
    } else if s.last().key() == key {
        Some(s.last())
    } else {
        last_with_key(s.drop_last(), key)
    }
}

/// Insert one parameter: it takes the place of the parameter that has its key,
/// or comes last if none has.
pub open spec fn put(s: Seq<ParameterView>, p: ParameterView) -> Seq<ParameterView> {
    if has_key(s, p.key()) {
        s.update(position(s, p.key()), p)
    } else {
        s.push(p)
    }
}

/// Merge: insert the parameters of `b` into `a`, one after the other.
pub open spec fn merged(a: Seq<ParameterView>, b: Seq<ParameterView>) -> Seq<ParameterView>
    decreases b.len(),
{
    if b.len() == 0 {
        a
    } else {
        put(merged(a, b.drop_last()), b.last())
    }
}

/// The collection made of a list of parameters: where a key occurs more than
/// once, it keeps the place of its first occurrence and the parameter of its last.
pub open spec fn collect(items: Seq<ParameterView>) -> Seq<ParameterView> {
    merged(Seq::empty(), items)
}

/// Update: each parameter of `a` whose key `b` has is replaced by the parameter
/// of `b`; nothing is added and nothing moves.
pub open spec fn updated(a: Seq<ParameterView>, b: Seq<ParameterView>) -> Seq<ParameterView> {
    Seq::new(
        a.len(),
        |i: int|
            match lookup(b, a[i].key()) {
                Some(p) => p,
                None => a[i],
            },
    )
}

/// The default that `d` has for a parameter: the parameter itself if it has a
/// value or if `d` has no value for its key, else the key with the value of `d`.
pub open spec fn default_for(p: ParameterView, d: Seq<ParameterView>) -> ParameterView {
    match lookup(d, p.key()) {
        Some(ParameterView::WithValue { value, .. }) => p.with_default_value(value),
        _ => p,
    }
}

/// Apply defaults: each parameter of `a` without a value takes the value that
/// `d` has for its key, if any; nothing is added and nothing moves.
pub open spec fn with_defaults(a: Seq<ParameterView>, d: Seq<ParameterView>) -> Seq<
    ParameterView,
> {
    Seq::new(a.len(), |i: int| default_for(a[i], d))
}

/// Selects the parameters whose key `b` does not have.
pub open spec fn key_not_in(b: Seq<ParameterView>) -> spec_fn(ParameterView) -> bool {
    |p: ParameterView| !has_key(b, p.key())
}

/// Subtract: the parameters of `a` whose key `b` does not have, whatever the
/// value there, in the order of `a`.
pub open spec fn subtracted(a: Seq<ParameterView>, b: Seq<ParameterView>) -> Seq<ParameterView> {
    a.filter(key_not_in(b))
}

/// Every parameter as one that keeps the previous value.
pub open spec fn as_previous_values(a: Seq<ParameterView>) -> Seq<ParameterView> {
    Seq::new(a.len(), |i: int| a[i].into_previous_value())
}

/// Loose equality of `a` with `b`: the two have the same keys, and each
/// parameter of `a` is loosely equal to the parameter of `b` with its key.
pub open spec fn loosely_equal(a: Seq<ParameterView>, b: Seq<ParameterView>) -> bool {
    &&& key_set(a) == key_set(b)
    &&& forall|i: int|
        0 <= i < a.len() ==> (#[trigger] a[i]).loosely_equals(b[position(b, a[i].key())])
}

/// The parameter of `b` with the key of `p`, where there is one.
pub open spec fn counterpart(b: Seq<ParameterView>, p: ParameterView) -> ParameterView {
    b[position(b, p.key())]
}

/// Selects the parameters whose key `b` does not have.
pub open spec fn only_here(b: Seq<ParameterView>) -> spec_fn(ParameterView) -> Option<
    ParameterView,
> {
    |p: ParameterView|
        if has_key(b, p.key()) {
            None
        } else {
            Some(p)
        }
}

/// Selects the parameters whose key `b` has with a parameter that is not
/// loosely equal, each with that parameter of `b`.
pub open spec fn unequal_pair(b: Seq<ParameterView>) -> spec_fn(ParameterView) -> Option<
    (ParameterView, ParameterView),
> {
    |p: ParameterView|
        if has_key(b, p.key()) && !p.loosely_equals(counterpart(b, p)) {
            Some((p, counterpart(b, p)))
        } else {
            None
        }
}

/// Selects the parameters whose key `b` has with a parameter that is loosely
/// equal. Of the two, the one with a value is taken if only one has a value.
pub open spec fn equal_one(b: Seq<ParameterView>) -> spec_fn(ParameterView) -> Option<
    ParameterView,
> {
    |p: ParameterView|
        if has_key(b, p.key()) && p.loosely_equals(counterpart(b, p)) {
            if p is WithValue {
                Some(p)
            } else {
                Some(counterpart(b, p))
            }
        } else {
            None
        }
}

/// The differences between two collections, in four parts.
pub struct DifferenceView {
    /// The parameters whose key only the left collection has.
    pub left: Seq<ParameterView>,
    /// The parameters that are loosely equal in the two collections.
    pub equal: Seq<ParameterView>,
    /// The parameters, left and right, that are not loosely equal.
    pub unequal: Seq<(ParameterView, ParameterView)>,
    /// The parameters whose key only the right collection has.
    pub right: Seq<ParameterView>,
}

/// The four parts into which the keys of `a` and `b` fall, each in the order
/// of the collection it is taken from.
pub open spec fn difference_parts(a: Seq<ParameterView>, b: Seq<ParameterView>) -> DifferenceView {
    DifferenceView {
        left: a.filter_map(only_here(b)),
        equal: a.filter_map(equal_one(b)),
        unequal: a.filter_map(unequal_pair(b)),
        right: b.filter_map(only_here(a)),
    }
}

/// The loose difference between `a` and `b`: nothing if no key is on one side
/// only and no two parameters are unequal, else the four parts.
pub open spec fn loose_difference(a: Seq<ParameterView>, b: Seq<ParameterView>) -> Option<
    DifferenceView,
> {
    let parts = difference_parts(a, b);
    if parts.left.len() == 0 && parts.unequal.len() == 0 && parts.right.len() == 0 {
        None
    } else {
        Some(parts)
    }
}

/// A position with the key is the position of the key.
pub proof fn lemma_position(s: Seq<ParameterView>, key: Seq<char>, i: int)
    requires
        unique_keys(s),
        0 <= i < s.len(),
        s[i].key() == key,
    ensures
        has_key(s, key),
        position(s, key) == i,
        lookup(s, key) == Some(s[i]),
{
    let p = position(s, key);
    assert(0 <= p < s.len() && s[p].key() == key);
}

/// The position of a key that `s` has is within `s` and holds the key.
pub proof fn lemma_has_key(s: Seq<ParameterView>, key: Seq<char>)
    requires
        has_key(s, key),
    ensures
        0 <= position(s, key) < s.len(),
        s[position(s, key)].key() == key,
        lookup(s, key) == Some(s[position(s, key)]),
{
}

/// What `put` does to the keys and to the parameter of each key.
pub proof fn lemma_put(s: Seq<ParameterView>, p: ParameterView)
    requires
        unique_keys(s),
    ensures
        unique_keys(put(s, p)),
        forall|key: Seq<char>| #[trigger]
            has_key(put(s, p), key) <==> (has_key(s, key) || key == p.key()),
        forall|key: Seq<char>| #[trigger]
            lookup(put(s, p), key) == if key == p.key() {
                Some(p)
            } else {
                lookup(s, key)
            },
{
    let t = put(s, p);
    if has_key(s, p.key()) {
        let at = position(s, p.key());
        assert forall|i: int| 0 <= i < t.len() implies (#[trigger] t[i]).key() == s[i].key() by {}
        assert(unique_keys(t)) by {
            assert forall|i: int, j: int|
                0 <= i < t.len() && 0 <= j < t.len() && i != j implies (#[trigger] t[i]).key() != (
            #[trigger] t[j]).key() by {
                assert(s[i].key() != s[j].key());
            }
        }
        assert forall|key: Seq<char>| #[trigger]
            has_key(t, key) <==> (has_key(s, key) || key == p.key()) by {
            if has_key(t, key) {
                let i = position(t, key);
                assert(s[i].key() == key);
            }
            if has_key(s, key) {
                let i = position(s, key);
                assert(t[i].key() == key);
            }
        }
        assert forall|key: Seq<char>| #[trigger]
            lookup(t, key) == if key == p.key() {
                Some(p)
            } else {
                lookup(s, key)
            } by {
            if key == p.key() {
                lemma_position(t, key, at);
            } else if has_key(s, key) {
                let i = position(s, key);
                assert(t[i].key() == key);
                lemma_position(t, key, i);
            }
        }
    } else {
        assert forall|i: int| 0 <= i < s.len() implies (#[trigger] t[i]) == s[i] by {}
        assert(t[s.len() as int] == p);
        assert(unique_keys(t)) by {
            assert forall|i: int, j: int|
                0 <= i < t.len() && 0 <= j < t.len() && i != j implies (#[trigger] t[i]).key() != (
            #[trigger] t[j]).key() by {
                if i < s.len() && j < s.len() {
                    assert(s[i].key() != s[j].key());
                } else if i < s.len() {
                    assert(s[i].key() != p.key());
                } else {
                    assert(s[j].key() != p.key());
                }
            }
        }
        assert forall|key: Seq<char>| #[trigger]
            has_key(t, key) <==> (has_key(s, key) || key == p.key()) by {
            if has_key(t, key) {
                let i = position(t, key);
                if i < s.len() {
                    assert(s[i].key() == key);
                }
            }
            if has_key(s, key) {
                let i = position(s, key);
                assert(t[i].key() == key);
            }
            if key == p.key() {
                assert(t[s.len() as int].key() == key);
            }
        }
        assert forall|key: Seq<char>| #[trigger]
            lookup(t, key) == if key == p.key() {
                Some(p)
            } else {
                lookup(s, key)
            } by {
            if key == p.key() {
                lemma_position(t, key, s.len() as int);
            } else if has_key(s, key) {
                let i = position(s, key);
                assert(t[i].key() == key);
                lemma_position(t, key, i);
            }
        }
    }
}

/// A collection is its own beginning with its last parameter put in.
pub proof fn lemma_put_last(s: Seq<ParameterView>)
    requires
        unique_keys(s),
        s.len() > 0,
    ensures
        unique_keys(s.drop_last()),
        !has_key(s.drop_last(), s.last().key()),
        put(s.drop_last(), s.last()) == s,
{
    let t = s.drop_last();
    assert forall|i: int, j: int|
        0 <= i < t.len() && 0 <= j < t.len() && i != j implies (#[trigger] t[i]).key() != (
    #[trigger] t[j]).key() by {
        assert(s[i].key() != s[j].key());
    }
    if has_key(t, s.last().key()) {
        let i = position(t, s.last().key());
        assert(s[i].key() == s[s.len() - 1].key());
    }
    assert(t.push(s.last()) =~= s);
}

/// In a collection, the last parameter with a key is the parameter with the key.
pub proof fn lemma_last_with_key(s: Seq<ParameterView>, key: Seq<char>)
    requires
        unique_keys(s),
    ensures
        last_with_key(s, key) == lookup(s, key),
    decreases s.len(),
{
    if s.len() > 0 {
        lemma_put_last(s);
        lemma_put(s.drop_last(), s.last());
        lemma_last_with_key(s.drop_last(), key);
    }
}

/// The last parameter with a key, where there is one, is a parameter with the key.
pub proof fn lemma_last_with_key_has(s: Seq<ParameterView>, key: Seq<char>)
    ensures
        last_with_key(s, key) is Some <==> has_key(s, key),
        last_with_key(s, key) matches Some(p) ==> p.key() == key && s.contains(p),
    decreases s.len(),
{
    if s.len() > 0 {
        let t = s.drop_last();
        lemma_last_with_key_has(t, key);
        if s.last().key() == key {
            assert(s[s.len() - 1].key() == key);
            assert(s[s.len() - 1] == s.last());
        } else {
            if has_key(s, key) {
                let i = position(s, key);
                assert(t[i].key() == key);
            }
            if has_key(t, key) {
                let i = position(t, key);
                assert(s[i].key() == key);
            }
            if let Some(p) = last_with_key(t, key) {
                let i = choose|i: int| 0 <= i < t.len() && t[i] == p;
                assert(s[i] == p);
            }
        }
    }
}

/// What a merge means: the result is a collection with the keys of both, and
/// each key has the last parameter that `b` has for it, or else the one of `a`.
pub proof fn lemma_merged(a: Seq<ParameterView>, b: Seq<ParameterView>)
    requires
        unique_keys(a),
    ensures
        unique_keys(merged(a, b)),
        forall|key: Seq<char>| #[trigger]
            has_key(merged(a, b), key) <==> (has_key(a, key) || has_key(b, key)),
        forall|key: Seq<char>| #[trigger]
            lookup(merged(a, b), key) == match last_with_key(b, key) {
                Some(p) => Some(p),
                None => lookup(a, key),
            },
    decreases b.len(),
{
    if b.len() > 0 {
        let front = b.drop_last();
        lemma_merged(a, front);
        lemma_put(merged(a, front), b.last());
        assert forall|key: Seq<char>| #[trigger]
            has_key(merged(a, b), key) <==> (has_key(a, key) || has_key(b, key)) by {
            lemma_last_with_key_has(b, key);
            lemma_last_with_key_has(front, key);
            assert(has_key(merged(a, front), key) <==> (has_key(a, key) || has_key(front, key)));
        }
        assert forall|key: Seq<char>| #[trigger]
            lookup(merged(a, b), key) == match last_with_key(b, key) {
                Some(p) => Some(p),
                None => lookup(a, key),
            } by {
            assert(lookup(merged(a, front), key) == match last_with_key(front, key) {
                Some(p) => Some(p),
                None => lookup(a, key),
            });
        }
    } else {
        assert forall|key: Seq<char>| !has_key(b, key) by {}
    }
}

/// A list in which no key occurs twice is the collection made of it.
pub proof fn lemma_collect_unique(items: Seq<ParameterView>)
    requires
        unique_keys(items),
    ensures
        collect(items) == items,
    decreases items.len(),
{
    if items.len() > 0 {
        lemma_put_last(items);
        lemma_collect_unique(items.drop_last());
    } else {
        assert(items =~= Seq::empty());
    }
}

/// Merging the beginning of `b` up to a position, and then the parameter at
/// that position, is merging the beginning of `b` up to the next position.
pub proof fn lemma_merged_step(a: Seq<ParameterView>, b: Seq<ParameterView>, j: int)
    requires
        0 <= j < b.len(),
    ensures
        merged(a, b.take(j + 1)) == put(merged(a, b.take(j)), b[j]),
        b.take(b.len() as int) == b,
{
    assert(b.take(j + 1).drop_last() =~= b.take(j));
    assert(b.take(b.len() as int) =~= b);
}

/// An update keeps the keys in their places, and so the collection a collection.
pub proof fn lemma_updated(a: Seq<ParameterView>, b: Seq<ParameterView>)
    requires
        unique_keys(a),
    ensures
        updated(a, b).len() == a.len(),
        forall|i: int| 0 <= i < a.len() ==> (#[trigger] updated(a, b)[i]).key() == a[i].key(),
        unique_keys(updated(a, b)),
        forall|key: Seq<char>| #[trigger] has_key(updated(a, b), key) <==> has_key(a, key),
        forall|key: Seq<char>| #[trigger]
            lookup(updated(a, b), key) == if has_key(a, key) && has_key(b, key) {
                lookup(b, key)
            } else {
                lookup(a, key)
            },
{
    let u = updated(a, b);
    assert forall|i: int| 0 <= i < a.len() implies (#[trigger] u[i]).key() == a[i].key() by {
        if has_key(b, a[i].key()) {
            lemma_has_key(b, a[i].key());
        }
    }
    assert forall|i: int, j: int|
        0 <= i < u.len() && 0 <= j < u.len() && i != j implies (#[trigger] u[i]).key() != (
    #[trigger] u[j]).key() by {
        assert(a[i].key() != a[j].key());
    }
    assert forall|key: Seq<char>| #[trigger] has_key(u, key) <==> has_key(a, key) by {
        if has_key(u, key) {
            let i = position(u, key);
            assert(a[i].key() == key);
        }
        if has_key(a, key) {
            let i = position(a, key);
            assert(u[i].key() == key);
        }
    }
    assert forall|key: Seq<char>| #[trigger]
        lookup(u, key) == if has_key(a, key) && has_key(b, key) {
            lookup(b, key)
        } else {
            lookup(a, key)
        } by {
        if has_key(a, key) {
            let i = position(a, key);
            assert(u[i].key() == key);
            lemma_position(u, key, i);
        }
    }
}

/// Updating with the beginning of `b` up to a position, and then replacing by
/// the parameter at that position, is updating with the beginning of `b` up to
/// the next position.
pub proof fn lemma_updated_step(a: Seq<ParameterView>, b: Seq<ParameterView>, j: int)
    requires
        unique_keys(a),
        unique_keys(b),
        0 <= j < b.len(),
    ensures
        has_key(a, b[j].key()) ==> updated(a, b.take(j + 1)) == updated(a, b.take(j)).update(
            position(a, b[j].key()),
            b[j],
        ),
        !has_key(a, b[j].key()) ==> updated(a, b.take(j + 1)) == updated(a, b.take(j)),
{
    let front = b.take(j);
    let next = b.take(j + 1);
    assert(next.drop_last() =~= front);
    assert(next.last() == b[j]);
    assert(unique_keys(next)) by {
        assert forall|i: int, k: int|
            0 <= i < next.len() && 0 <= k < next.len() && i != k implies (#[trigger] next[i]).key()
            != (#[trigger] next[k]).key() by {
            assert(b[i].key() != b[k].key());
        }
    }
    lemma_put_last(next);
    lemma_put(front, b[j]);
    assert forall|key: Seq<char>|
        lookup(next, key) == if key == b[j].key() {
            Some(b[j])
        } else {
            lookup(front, key)
        } by {
        assert(lookup(put(front, b[j]), key) == if key == b[j].key() {
            Some(b[j])
        } else {
            lookup(front, key)
        });
    }
    if has_key(a, b[j].key()) {
        let at = position(a, b[j].key());
        assert forall|i: int| 0 <= i < a.len() implies #[trigger] updated(a, next)[i] == updated(
            a,
            front,
        ).update(at, b[j])[i] by {
            if i != at {
                assert(a[i].key() != a[at].key());
            }
        }
        assert(updated(a, next) =~= updated(a, front).update(at, b[j]));
    } else {
        assert forall|i: int| 0 <= i < a.len() implies #[trigger] updated(a, next)[i] == updated(
            a,
            front,
        )[i] by {
            assert(a[i].key() != b[j].key());
        }
        assert(updated(a, next) =~= updated(a, front));
    }
}

/// Updating with nothing changes nothing.
pub proof fn lemma_updated_empty(a: Seq<ParameterView>, b: Seq<ParameterView>)
    requires
        b.len() == 0,
    ensures
        updated(a, b) == a,
{
    assert forall|i: int| 0 <= i < a.len() implies #[trigger] updated(a, b)[i] == a[i] by {
        assert(!has_key(b, a[i].key()));
    }
    assert(updated(a, b) =~= a);
}

/// Applying defaults keeps the keys in their places, and so the collection a
/// collection.
pub proof fn lemma_with_defaults(a: Seq<ParameterView>, d: Seq<ParameterView>)
    requires
        unique_keys(a),
    ensures
        with_defaults(a, d).len() == a.len(),
        forall|i: int| 0 <= i < a.len() ==> (#[trigger] with_defaults(a, d)[i]).key() == a[i].key(),
        unique_keys(with_defaults(a, d)),
        forall|key: Seq<char>| #[trigger] has_key(with_defaults(a, d), key) <==> has_key(a, key),
        forall|key: Seq<char>|
            has_key(a, key) ==> #[trigger] lookup(with_defaults(a, d), key) == Some(
                default_for(a[position(a, key)], d),
            ),
{
    let u = with_defaults(a, d);
    assert forall|i: int| 0 <= i < a.len() implies (#[trigger] u[i]).key() == a[i].key() by {}
    assert forall|i: int, j: int|
        0 <= i < u.len() && 0 <= j < u.len() && i != j implies (#[trigger] u[i]).key() != (
    #[trigger] u[j]).key() by {
        assert(a[i].key() != a[j].key());
    }
    assert forall|key: Seq<char>| #[trigger] has_key(u, key) <==> has_key(a, key) by {
        if has_key(u, key) {
            let i = position(u, key);
            assert(a[i].key() == key);
        }
        if has_key(a, key) {
            let i = position(a, key);
            assert(u[i].key() == key);
        }
    }
    assert forall|key: Seq<char>| has_key(a, key) implies #[trigger] lookup(u, key) == Some(
        default_for(a[position(a, key)], d),
    ) by {
        let i = position(a, key);
        assert(u[i].key() == key);
        lemma_position(u, key, i);
    }
}

/// Applying the defaults of the beginning of `d` up to a position, and then
/// the default at that position, is applying the defaults of the beginning of
/// `d` up to the next position.
pub proof fn lemma_with_defaults_step(a: Seq<ParameterView>, d: Seq<ParameterView>, j: int)
    requires
        unique_keys(a),
        unique_keys(d),
        0 <= j < d.len(),
    ensures
        has_key(a, d[j].key()) && d[j] is WithValue ==> with_defaults(a, d.take(j + 1))
            == with_defaults(a, d.take(j)).update(
            position(a, d[j].key()),
            a[position(a, d[j].key())].with_default_value(d[j]->WithValue_value),
        ),
        !(has_key(a, d[j].key()) && d[j] is WithValue) ==> with_defaults(a, d.take(j + 1))
            == with_defaults(a, d.take(j)),
        has_key(a, d[j].key()) ==> with_defaults(a, d.take(j))[position(a, d[j].key())]
            == a[position(a, d[j].key())],
{
    let front = d.take(j);
    let next = d.take(j + 1);
    assert(next.drop_last() =~= front);
    assert(next.last() == d[j]);
    assert(unique_keys(next)) by {
        assert forall|i: int, k: int|
            0 <= i < next.len() && 0 <= k < next.len() && i != k implies (#[trigger] next[i]).key()
            != (#[trigger] next[k]).key() by {
            assert(d[i].key() != d[k].key());
        }
    }
    lemma_put_last(next);
    lemma_put(front, d[j]);
    assert forall|key: Seq<char>|
        lookup(next, key) == if key == d[j].key() {
            Some(d[j])
        } else {
            lookup(front, key)
        } by {
        assert(lookup(put(front, d[j]), key) == if key == d[j].key() {
            Some(d[j])
        } else {
            lookup(front, key)
        });
    }
    assert(lookup(front, d[j].key()) is None);
    if has_key(a, d[j].key()) {
        let at = position(a, d[j].key());
        assert(with_defaults(a, front)[at] == a[at]);
        if d[j] is WithValue {
            let replaced = a[at].with_default_value(d[j]->WithValue_value);
            assert forall|i: int| 0 <= i < a.len() implies #[trigger] with_defaults(a, next)[i]
                == with_defaults(a, front).update(at, replaced)[i] by {
                if i != at {
                    assert(a[i].key() != a[at].key());
                }
            }
            assert(with_defaults(a, next) =~= with_defaults(a, front).update(at, replaced));
        } else {
            assert forall|i: int| 0 <= i < a.len() implies #[trigger] with_defaults(a, next)[i]
                == with_defaults(a, front)[i] by {
                if i != at {
                    assert(a[i].key() != a[at].key());
                }
            }
            assert(with_defaults(a, next) =~= with_defaults(a, front));
        }
    } else {
        assert forall|i: int| 0 <= i < a.len() implies #[trigger] with_defaults(a, next)[i]
            == with_defaults(a, front)[i] by {
            assert(a[i].key() != d[j].key());
        }
        assert(with_defaults(a, next) =~= with_defaults(a, front));
    }
}

/// Applying no defaults changes nothing.
pub proof fn lemma_with_defaults_empty(a: Seq<ParameterView>, d: Seq<ParameterView>)
    requires
        d.len() == 0,
    ensures
        with_defaults(a, d) == a,
{
    assert forall|i: int| 0 <= i < a.len() implies #[trigger] with_defaults(a, d)[i] == a[i] by {
        assert(!has_key(d, a[i].key()));
    }
    assert(with_defaults(a, d) =~= a);
}

/// Two collections in which every key has the same parameter, or none, are
/// equal as maps.
pub proof fn lemma_same_lookup(a: Seq<ParameterView>, b: Seq<ParameterView>)
    requires
        forall|key: Seq<char>| lookup(a, key) == lookup(b, key),
    ensures
        as_map(a) == as_map(b),
        key_set(a) == key_set(b),
{
    assert forall|key: Seq<char>| has_key(a, key) == has_key(b, key) by {
        assert(lookup(a, key) == lookup(b, key));
    }
    assert forall|key: Seq<char>| has_key(a, key) implies a[position(a, key)] == b[position(
        b,
        key,
    )] by {
        assert(lookup(a, key) == lookup(b, key));
    }
    assert(as_map(a) =~= as_map(b));
    assert(key_set(a) =~= key_set(b));
}

/// Two collections that are equal as maps have the same parameter, or none,
/// for every key.
pub proof fn lemma_same_map(a: Seq<ParameterView>, b: Seq<ParameterView>)
    requires
        as_map(a) == as_map(b),
    ensures
        key_set(a) == key_set(b),
        forall|key: Seq<char>| #[trigger] lookup(a, key) == lookup(b, key),
{
    assert forall|key: Seq<char>| #[trigger] lookup(a, key) == lookup(b, key) by {
        assert(as_map(a).dom().contains(key) == has_key(a, key));
        assert(as_map(b).dom().contains(key) == has_key(b, key));
        if has_key(a, key) {
            assert(as_map(a)[key] == a[position(a, key)]);
            assert(as_map(b)[key] == b[position(b, key)]);
        }
    }
    assert forall|key: Seq<char>| has_key(a, key) == has_key(b, key) by {
        assert(lookup(a, key) == lookup(b, key));
    }
    assert(key_set(a) =~= key_set(b));
}

/// A collection has as many keys as parameters.
pub proof fn lemma_key_count(s: Seq<ParameterView>)
    requires
        unique_keys(s),
    ensures
        key_set(s).finite(),
        key_set(s).len() == s.len(),
    decreases s.len(),
{
    if s.len() == 0 {
        assert(key_set(s) =~= Set::empty());
    } else {
        let front = s.drop_last();
        lemma_put_last(s);
        lemma_put(front, s.last());
        lemma_key_count(front);
        assert(key_set(s) =~= key_set(front).insert(s.last().key())) by {
            assert forall|key: Seq<char>|
                key_set(s).contains(key) <==> key_set(front).insert(s.last().key()).contains(
                    key,
                ) by {
                assert(has_key(put(front, s.last()), key) <==> (has_key(front, key) || key
                    == s.last().key()));
            }
        }
    }
}

/// The keys of a collection, in order, are its keys as a set, each once.
pub proof fn lemma_keys(s: Seq<ParameterView>)
    requires
        unique_keys(s),
    ensures
        keys(s).no_duplicates(),
        forall|key: Seq<char>| #[trigger] keys(s).contains(key) <==> has_key(s, key),
        forall|key: Seq<char>| #[trigger]
            keys(s).to_multiset().count(key) == if has_key(s, key) {
                1nat
            } else {
                0nat
            },
{
    let ks = keys(s);
    assert forall|i: int, j: int| 0 <= i < ks.len() && 0 <= j < ks.len() && i != j implies ks[i]
        != ks[j] by {
        assert(s[i].key() != s[j].key());
    }
    assert forall|key: Seq<char>| #[trigger] ks.contains(key) <==> has_key(s, key) by {
        if ks.contains(key) {
            let i = choose|i: int| 0 <= i < ks.len() && ks[i] == key;
            assert(s[i].key() == key);
        }
        if has_key(s, key) {
            let i = position(s, key);
            assert(ks[i] == key);
        }
    }
    ks.lemma_multiset_has_no_duplicates();
    assert forall|key: Seq<char>| #[trigger]
        ks.to_multiset().count(key) == if has_key(s, key) {
            1nat
        } else {
            0nat
        } by {
        vstd::seq_lib::to_multiset_contains(ks, key);
        assert(ks.contains(key) <==> has_key(s, key));
        if ks.to_multiset().count(key) > 0 {
            assert(ks.to_multiset().contains(key));
        }
    }
}

/// Two collections have the same keys exactly if their lists of keys hold the
/// same keys equally often.
pub proof fn lemma_keys_multiset(a: Seq<ParameterView>, b: Seq<ParameterView>)
    requires
        unique_keys(a),
        unique_keys(b),
    ensures
        keys(a).to_multiset() == keys(b).to_multiset() <==> key_set(a) == key_set(b),
{
    lemma_keys(a);
    lemma_keys(b);
    if keys(a).to_multiset() == keys(b).to_multiset() {
        assert forall|key: Seq<char>| has_key(a, key) == has_key(b, key) by {
            assert(keys(a).to_multiset().count(key) == keys(b).to_multiset().count(key));
        }
        assert(key_set(a) =~= key_set(b));
    }
    if key_set(a) == key_set(b) {
        assert forall|key: Seq<char>|
            keys(a).to_multiset().count(key) == keys(b).to_multiset().count(key) by {
            assert(key_set(a).contains(key) == has_key(a, key));
            assert(key_set(b).contains(key) == has_key(b, key));
        }
        assert(keys(a).to_multiset() =~= keys(b).to_multiset());
    }
}

/// Selecting from the beginning of `s` up to a position, and then deciding on
/// the parameter at that position, is selecting from the beginning of `s` up
/// to the next position.
pub proof fn lemma_filter_step(s: Seq<ParameterView>, pred: spec_fn(ParameterView) -> bool, i: int)
    requires
        0 <= i < s.len(),
    ensures
        s.take(i + 1).filter(pred) == if pred(s[i]) {
            s.take(i).filter(pred).push(s[i])
        } else {
            s.take(i).filter(pred)
        },
{
    reveal(Seq::filter);
    assert(s.take(i + 1).drop_last() =~= s.take(i));
}

/// Selecting from the empty beginning of `s` gives nothing, and the whole of
/// `s` is its beginning up to its length.
pub proof fn lemma_filter_ends(s: Seq<ParameterView>, pred: spec_fn(ParameterView) -> bool)
    ensures
        s.take(0).filter(pred) == Seq::<ParameterView>::empty(),
        s.take(s.len() as int) == s,
{
    reveal(Seq::filter);
    assert(s.take(0).filter(pred) =~= Seq::<ParameterView>::empty());
    assert(s.take(s.len() as int) =~= s);
}

/// A selection from a collection is a collection. It has the keys of the
/// parameters selected, each with its parameter.
pub proof fn lemma_filter(s: Seq<ParameterView>, pred: spec_fn(ParameterView) -> bool)
    requires
        unique_keys(s),
    ensures
        unique_keys(s.filter(pred)),
        forall|key: Seq<char>| #[trigger]
            lookup(s.filter(pred), key) == if has_key(s, key) && pred(s[position(s, key)]) {
                lookup(s, key)
            } else {
                None
            },
        forall|key: Seq<char>| #[trigger]
            has_key(s.filter(pred), key) <==> has_key(s, key) && pred(s[position(s, key)]),
    decreases s.len(),
{
    reveal(Seq::filter);
    let selected = s.filter(pred);
    if s.len() > 0 {
        let front = s.drop_last();
        lemma_put_last(s);
        lemma_put(front, s.last());
        lemma_filter(front, pred);
        let rest = front.filter(pred);
        assert forall|key: Seq<char>| #[trigger] lookup(s, key) == if key == s.last().key() {
            Some(s.last())
        } else {
            lookup(front, key)
        } by {
            assert(lookup(put(front, s.last()), key) == if key == s.last().key() {
                Some(s.last())
            } else {
                lookup(front, key)
            });
        }
        assert(lookup(rest, s.last().key()) is None) by {
            assert(lookup(front, s.last().key()) is None);
        }
        if pred(s.last()) {
            assert(!has_key(rest, s.last().key()));
            assert(selected == put(rest, s.last()));
            lemma_put(rest, s.last());
        }
        assert forall|key: Seq<char>| #[trigger]
            lookup(selected, key) == if has_key(s, key) && pred(s[position(s, key)]) {
                lookup(s, key)
            } else {
                None
            } by {
            assert(lookup(s, key) == if key == s.last().key() {
                Some(s.last())
            } else {
                lookup(front, key)
            });
            if pred(s.last()) {
                assert(lookup(put(rest, s.last()), key) == if key == s.last().key() {
                    Some(s.last())
                } else {
                    lookup(rest, key)
                });
            }
        }
        assert forall|key: Seq<char>| #[trigger]
            has_key(selected, key) <==> has_key(s, key) && pred(s[position(s, key)]) by {
            assert(lookup(selected, key) == if has_key(s, key) && pred(s[position(s, key)]) {
                lookup(s, key)
            } else {
                None
            });
        }
    } else {
        assert forall|key: Seq<char>| !has_key(selected, key) by {}
    }
}

/// What a subtraction means: the result is a collection with the keys of `a`
/// that `b` does not have, each with the parameter that it has in `a`.
pub proof fn lemma_subtracted(a: Seq<ParameterView>, b: Seq<ParameterView>)
    requires
        unique_keys(a),
    ensures
        unique_keys(subtracted(a, b)),
        forall|key: Seq<char>| #[trigger]
            has_key(subtracted(a, b), key) <==> (has_key(a, key) && !has_key(b, key)),
        forall|key: Seq<char>| #[trigger]
            lookup(subtracted(a, b), key) == if has_key(b, key) {
                None
            } else {
                lookup(a, key)
            },
        subtracted(a, b).len() <= a.len(),
{
    lemma_filter(a, key_not_in(b));
    a.lemma_filter_len(key_not_in(b));
    assert forall|key: Seq<char>| #[trigger]
        lookup(subtracted(a, b), key) == if has_key(b, key) {
            None
        } else {
            lookup(a, key)
        } by {
        if has_key(a, key) {
            lemma_has_key(a, key);
        }
    }
    assert forall|key: Seq<char>| #[trigger]
        has_key(subtracted(a, b), key) <==> (has_key(a, key) && !has_key(b, key)) by {
        if has_key(a, key) {
            lemma_has_key(a, key);
        }
    }
}

/// A selection that every parameter passes is the whole.
pub proof fn lemma_filter_all(s: Seq<ParameterView>, pred: spec_fn(ParameterView) -> bool)
    requires
        forall|i: int| 0 <= i < s.len() ==> pred(#[trigger] s[i]),
    ensures
        s.filter(pred) == s,
    decreases s.len(),
{
    reveal(Seq::filter);
    if s.len() > 0 {
        let front = s.drop_last();
        assert forall|i: int| 0 <= i < front.len() implies pred(#[trigger] front[i]) by {
            assert(front[i] == s[i]);
        }
        lemma_filter_all(front, pred);
        assert(pred(s[s.len() - 1]));
        assert(front.push(s.last()) =~= s);
    }
}

/// A selection that no parameter passes is empty.
pub proof fn lemma_filter_none(s: Seq<ParameterView>, pred: spec_fn(ParameterView) -> bool)
    requires
        forall|i: int| 0 <= i < s.len() ==> !pred(#[trigger] s[i]),
    ensures
        s.filter(pred) == Seq::<ParameterView>::empty(),
    decreases s.len(),
{
    reveal(Seq::filter);
    if s.len() > 0 {
        let front = s.drop_last();
        assert forall|i: int| 0 <= i < front.len() implies !pred(#[trigger] front[i]) by {
            assert(front[i] == s[i]);
        }
        lemma_filter_none(front, pred);
        assert(!pred(s[s.len() - 1]));
    } else {
        assert(s.filter(pred) =~= Seq::<ParameterView>::empty());
    }
}

/// Two selections that agree on every parameter select the same.
pub proof fn lemma_filter_agree(
    s: Seq<ParameterView>,
    one: spec_fn(ParameterView) -> bool,
    other: spec_fn(ParameterView) -> bool,
)
    requires
        forall|i: int| 0 <= i < s.len() ==> one(#[trigger] s[i]) == other(s[i]),
    ensures
        s.filter(one) == s.filter(other),
    decreases s.len(),
{
    reveal(Seq::filter);
    if s.len() > 0 {
        let front = s.drop_last();
        assert forall|i: int| 0 <= i < front.len() implies one(#[trigger] front[i]) == other(
            front[i],
        ) by {
            assert(front[i] == s[i]);
        }
        lemma_filter_agree(front, one, other);
        assert(one(s[s.len() - 1]) == other(s[s.len() - 1]));
    }
}

} // verus!
