//! Collections of stack or template parameters, with their merge algebra.

use indexmap::IndexMap;
use vstd::prelude::*;

use crate::algebra::{
    lemma_collect_unique, lemma_filter, lemma_filter_ends, lemma_filter_step,
    as_map, as_previous_values, collect, counterpart, equal_one, has_key,
    key_set, keys, lemma_has_key, lemma_key_count, lemma_keys_multiset, lemma_merged_step,
    lemma_position, lemma_same_lookup, lemma_same_map, loose_difference, loosely_equal,
    only_here, unequal_pair, DifferenceView,
    lemma_put, lemma_put_last, key_not_in,
    lemma_updated, lemma_updated_empty, lemma_updated_step, lemma_with_defaults,
    lemma_with_defaults_empty, lemma_with_defaults_step, lookup, merged, position, put,
    subtracted, unique_keys, updated, with_defaults,
};
use crate::ordered_map::{
    map_entries, map_get_index, map_get_index_of, map_insert, map_into_entries, map_len, map_new,
    map_shift_remove_index,
};
use crate::change_set::{cfn_views, to_cfn};
use crate::parameter::{CfnParameter, Parameter, ParameterView};
use crate::text::{lemma_text_order_total, sorted, text_order, texts};
use vstd::seq_lib::lemma_sorted_unique;
use vstd::std_specs::cmp::PartialEqSpecImpl;
use vstd::std_specs::ops::SubSpecImpl;

verus! {

/// The parameters that the entries of a map hold, in the order of the map.
pub open spec fn entry_values(entries: Seq<(Seq<char>, ParameterView)>) -> Seq<ParameterView> {
    Seq::new(entries.len(), |i: int| entries[i].1)
}

/// Every entry stands under the key of its parameter, and no key occurs twice.
pub open spec fn keyed(entries: Seq<(Seq<char>, ParameterView)>) -> bool {
    &&& forall|i: int| 0 <= i < entries.len() ==> (#[trigger] entries[i]).0 == entries[i].1.key()
    &&& unique_keys(entry_values(entries))
}

/// The mathematical values of a list of parameters.
pub open spec fn views(parameters: Seq<Parameter>) -> Seq<ParameterView> {
    Seq::new(parameters.len(), |i: int| parameters[i]@)
}

/// The mathematical value of an optional reference to a parameter.
pub open spec fn view_of(parameter: Option<&Parameter>) -> Option<ParameterView> {
    match parameter {
        Some(p) => Some(p@),
        None => None,
    }
}

/// A collection holding stack or template parameters: an insertion-ordered
/// mapping from each key to the parameter with that key.
///
/// Its view is the sequence of its parameters, in which no key occurs twice.
#[derive(Debug)]
pub struct Parameters(pub(crate) IndexMap<String, Parameter>);

impl View for Parameters {
    type V = Seq<ParameterView>;

    closed spec fn view(&self) -> Seq<ParameterView> {
        entry_values(map_entries(self.0))
    }
}

/// Put a parameter into a map, under the key given, which is its own.
fn insert_entry(map: &mut IndexMap<String, Parameter>, key: String, parameter: Parameter)
    requires
        keyed(map_entries(*old(map))),
        key@ == parameter@.key(),
    ensures
        keyed(map_entries(*final(map))),
        entry_values(map_entries(*final(map))) == put(
            entry_values(map_entries(*old(map))),
            parameter@,
        ),
{
    let ghost before = map_entries(*map);
    let ghost added = parameter@;
    let previous = map_insert(map, key, parameter);
    proof {
        let after = map_entries(*map);
        lemma_put(entry_values(before), added);
        match previous {
            Some(replaced) => {
                let i = choose|i: int|
                    0 <= i < before.len() && (#[trigger] before[i]) == (added.key(), replaced@)
                        && after == before.update(i, (added.key(), added));
                assert(entry_values(before)[i].key() == added.key());
                lemma_position(entry_values(before), added.key(), i);
                assert(entry_values(after) =~= put(entry_values(before), added));
            },
            None => {
                if has_key(entry_values(before), added.key()) {
                    let i = position(entry_values(before), added.key());
                    assert(entry_values(before)[i].key() == added.key());
                    assert(before[i].0 == added.key());
                }
                assert(entry_values(after) =~= put(entry_values(before), added));
            },
        }
        assert forall|i: int| 0 <= i < after.len() implies (#[trigger] after[i]).0
            == after[i].1.key() by {
            if i < before.len() {
                assert(before[i].0 == before[i].1.key());
            }
        }
    }
}

/// Put a parameter into a map, under its key.
fn insert_parameter(map: &mut IndexMap<String, Parameter>, parameter: Parameter)
    requires
        keyed(map_entries(*old(map))),
    ensures
        keyed(map_entries(*final(map))),
        entry_values(map_entries(*final(map))) == put(
            entry_values(map_entries(*old(map))),
            parameter@,
        ),
{
    let key = parameter.key().to_owned();
    insert_entry(map, key, parameter);
}

/// The position of a key in a map, if the map has the key.
fn find_key(map: &IndexMap<String, Parameter>, key: &str) -> (res: Option<usize>)
    requires
        keyed(map_entries(*map)),
    ensures
        match res {
            Some(index) => has_key(entry_values(map_entries(*map)), key@) && index == position(
                entry_values(map_entries(*map)),
                key@,
            ) && index < map_entries(*map).len(),
            None => !has_key(entry_values(map_entries(*map)), key@),
        },
{
    let found = map_get_index_of(map, key);
    proof {
        let entries = map_entries(*map);
        let values = entry_values(entries);
        match found {
            Some(index) => {
                assert(entries[index as int].0 == entries[index as int].1.key());
                assert(values[index as int].key() == key@);
                lemma_position(values, key@, index as int);
            },
            None => {
                if has_key(values, key@) {
                    let i = position(values, key@);
                    assert(values[i].key() == key@);
                    assert(entries[i].0 == entries[i].1.key());
                }
            },
        }
    }
    found
}

/// Conversion into [`Parameters`].
pub trait IntoParameters: Sized {
    /// The parameters, in order, of the collection that the value converts into.
    spec fn parameters(self) -> Seq<ParameterView>;

    /// Create [`Parameters`] from a value.
    fn into_parameters(self) -> (res: Parameters)
        ensures
            res@ == self.parameters(),
    ;
}

impl IntoParameters for Parameters {
    open spec fn parameters(self) -> Seq<ParameterView> {
        self@
    }

    fn into_parameters(self) -> (res: Parameters) {
        self
    }
}

impl IntoParameters for &Parameters {
    open spec fn parameters(self) -> Seq<ParameterView> {
        self@
    }

    fn into_parameters(self) -> (res: Parameters) {
        self.clone()
    }
}

impl IntoParameters for Vec<Parameter> {
    open spec fn parameters(self) -> Seq<ParameterView> {
        collect(views(self@))
    }

    fn into_parameters(self) -> (res: Parameters) {
        Parameters::new(self)
    }
}

impl IntoParameters for &Vec<Parameter> {
    open spec fn parameters(self) -> Seq<ParameterView> {
        collect(views(self@))
    }

    fn into_parameters(self) -> (res: Parameters) {
        Parameters::new(self.clone())
    }
}

impl Parameters {
    #[verifier::type_invariant]
    spec fn well_formed(&self) -> bool {
        keyed(map_entries(self.0))
    }

    /// Create the collection from a list of parameters. Where a key occurs
    /// more than once, the last parameter with it stays, in the place of the
    /// first.
    pub fn new(parameters: Vec<Parameter>) -> (res: Self)
        ensures
            res@ == collect(views(parameters@)),
            unique_keys(res@),
    {
        let mut map = map_new();
        let ghost items = parameters@;
        assert(entry_values(map_entries(map)) =~= merged(Seq::empty(), views(items).take(0)));
        for parameter in it: parameters
            invariant
                it.seq() == items,
                keyed(map_entries(map)),
                entry_values(map_entries(map)) == merged(
                    Seq::empty(),
                    views(items).take(it.index()),
                ),
        {
            proof {
                lemma_merged_step(Seq::empty(), views(items), it.index());
            }
            insert_parameter(&mut map, parameter);
        }
        proof {
            assert(views(items).take(items.len() as int) =~= views(items));
        }
        Parameters(map)
    }

    /// The number of parameters. No two of them have the same key.
    pub fn len(&self) -> (res: usize)
        ensures
            res == self@.len(),
            unique_keys(self@),
    {
        proof {
            use_type_invariant(self);
        }
        map_len(&self.0)
    }

    /// Whether the collection holds no parameter.
    pub fn is_empty(&self) -> (res: bool)
        ensures
            res == (self@.len() == 0),
    {
        map_len(&self.0) == 0
    }

    /// The parameter at a position of the order, if the position is below the
    /// length.
    pub fn get_index(&self, index: usize) -> (res: Option<&Parameter>)
        ensures
            view_of(res) == if index < self@.len() {
                Some(self@[index as int])
            } else {
                None
            },
            unique_keys(self@),
    {
        proof {
            use_type_invariant(self);
        }
        match map_get_index(&self.0, index) {
            Some((_, parameter)) => Some(parameter),
            None => None,
        }
    }

    /// The position of the parameter with the key, if there is one.
    pub fn get_index_of(&self, key: &str) -> (res: Option<usize>)
        ensures
            match res {
                Some(index) => has_key(self@, key@) && index == crate::algebra::position(
                    self@,
                    key@,
                ) && index < self@.len(),
                None => !has_key(self@, key@),
            },
    {
        proof {
            use_type_invariant(self);
        }
        find_key(&self.0, key)
    }

    /// The parameter with the key, if there is one.
    pub fn get(&self, key: &str) -> (res: Option<&Parameter>)
        ensures
            view_of(res) == lookup(self@, key@),
    {
        match self.get_index_of(key) {
            Some(index) => self.get_index(index),
            None => None,
        }
    }

    /// Whether a parameter has the key.
    pub fn contains_key(&self, key: &str) -> (res: bool)
        ensures
            res == has_key(self@, key@),
    {
        self.get_index_of(key).is_some()
    }

    /// Put one parameter into the collection: it takes the place of the
    /// parameter that has its key, or comes last if none has.
    pub fn insert(&mut self, parameter: Parameter)
        ensures
            final(self)@ == put(old(self)@, parameter@),
            unique_keys(final(self)@),
    {
        let mut map = self.take_map();
        insert_parameter(&mut map, parameter);
        *self = Parameters(map);
    }

    /// The entries of a collection, each key with its parameter.
    fn into_entries(self) -> (entries: Vec<(String, Parameter)>)
        ensures
            unique_keys(self@),
            entries.len() == self@.len(),
            forall|i: int|
                0 <= i < entries.len() ==> (#[trigger] entries[i]).1@ == self@[i] && entries[i].0@
                    == self@[i].key(),
    {
        proof {
            use_type_invariant(&self);
        }
        let ghost held = map_entries(self.0);
        let entries = map_into_entries(self.0);
        proof {
            assert forall|i: int| 0 <= i < entries.len() implies (#[trigger] entries[i]).1@
                == entry_values(held)[i] && entries[i].0@ == entry_values(held)[i].key() by {
                assert((entries[i].0@, entries[i].1@) == held[i]);
                assert(held[i].0 == held[i].1.key());
            }
        }
        entries
    }

    /// Update all parameters in the current collection with the ones also
    /// available in the other collection.
    ///
    /// This can be used to override parameters, while avoiding to add new ones
    /// that the other collection might have defined.
    pub fn update<P: IntoParameters>(&mut self, other: P)
        ensures
            final(self)@ == updated(old(self)@, other.parameters()),
            unique_keys(final(self)@),
    {
        let other = other.into_parameters();
        let ghost a = self@;
        let ghost b = other@;
        let mut map = self.take_map();
        let entries = other.into_entries();
        let ghost given = entries@;
        proof {
            lemma_updated_empty(a, b.take(0));
        }
        for entry in it: entries
            invariant
                it.seq() == given,
                given.len() == b.len(),
                forall|i: int|
                    0 <= i < given.len() ==> (#[trigger] given[i]).1@ == b[i] && given[i].0@
                        == b[i].key(),
                unique_keys(a),
                unique_keys(b),
                keyed(map_entries(map)),
                entry_values(map_entries(map)) == updated(a, b.take(it.index())),
        {
            let ghost j = it.index();
            let (key, value) = entry;
            proof {
                assert(given[j].1@ == b[j]);
                lemma_updated(a, b.take(j));
                lemma_updated_step(a, b, j);
                if has_key(a, b[j].key()) {
                    let at = position(a, b[j].key());
                    lemma_has_key(a, b[j].key());
                    assert(updated(a, b.take(j))[at].key() == a[at].key());
                    lemma_position(updated(a, b.take(j)), b[j].key(), at);
                }
            }
            if find_key(&map, key.as_str()).is_some() {
                insert_entry(&mut map, key, value);
            }
        }
        proof {
            assert(b.take(b.len() as int) =~= b);
            lemma_updated(a, b);
        }
        *self = Parameters(map);
    }

    /// Return a new collection with all parameters in the current collection
    /// overriden by the ones also available in the other collection.
    ///
    /// In contrast to `update`, this does not mutate the existing collection,
    /// but rather returns a new copy.
    pub fn updated<P: IntoParameters>(&self, other: P) -> (res: Parameters)
        ensures
            res@ == updated(self@, other.parameters()),
            unique_keys(res@),
    {
        let mut this = self.clone();
        this.update(other);
        this
    }

    /// Add or update all parameters in the other collection to the current
    /// collection.
    ///
    /// This can be used to override parameters, but in contrast to `update` it
    /// will also add new parameters, which might not be what you want.
    pub fn merge<P: IntoParameters>(&mut self, other: P)
        ensures
            final(self)@ == merged(old(self)@, other.parameters()),
            unique_keys(final(self)@),
    {
        let other = other.into_parameters();
        let ghost a = self@;
        let ghost b = other@;
        let mut map = self.take_map();
        let entries = other.into_entries();
        let ghost given = entries@;
        assert(b.take(0).len() == 0);
        for entry in it: entries
            invariant
                it.seq() == given,
                given.len() == b.len(),
                forall|i: int|
                    0 <= i < given.len() ==> (#[trigger] given[i]).1@ == b[i] && given[i].0@
                        == b[i].key(),
                keyed(map_entries(map)),
                entry_values(map_entries(map)) == merged(a, b.take(it.index())),
        {
            let ghost j = it.index();
            let (key, value) = entry;
            proof {
                assert(given[j].1@ == b[j]);
                lemma_merged_step(a, b, j);
            }
            insert_entry(&mut map, key, value);
        }
        proof {
            assert(b.take(b.len() as int) =~= b);
        }
        *self = Parameters(map);
    }

    /// Return a new collection with all parameters in the current collection,
    /// adding or updating all parameters from the other collection.
    ///
    /// In contrast to `merge`, this does not mutate the existing collection,
    /// but rather returns a new copy.
    pub fn merged<P: IntoParameters>(&self, other: P) -> (res: Parameters)
        ensures
            res@ == merged(self@, other.parameters()),
            unique_keys(res@),
    {
        let mut this = self.clone();
        this.merge(other);
        this
    }

    /// Set values for all parameters in the current collection based on the
    /// provided defaults, without modifying any pre-existing values or adding
    /// parameters that did not exist.
    pub fn apply_defaults<P: IntoParameters>(&mut self, defaults: P)
        ensures
            final(self)@ == with_defaults(old(self)@, defaults.parameters()),
            unique_keys(final(self)@),
    {
        let defaults = defaults.into_parameters();
        let ghost a = self@;
        let ghost d = defaults@;
        let mut map = self.take_map();
        let entries = defaults.into_entries();
        let ghost given = entries@;
        proof {
            lemma_with_defaults_empty(a, d.take(0));
        }
        for entry in it: entries
            invariant
                it.seq() == given,
                given.len() == d.len(),
                forall|i: int|
                    0 <= i < given.len() ==> (#[trigger] given[i]).1@ == d[i] && given[i].0@
                        == d[i].key(),
                unique_keys(a),
                unique_keys(d),
                keyed(map_entries(map)),
                entry_values(map_entries(map)) == with_defaults(a, d.take(it.index())),
        {
            let ghost j = it.index();
            let (key, parameter) = entry;
            proof {
                assert(given[j].1@ == d[j]);
                lemma_with_defaults(a, d.take(j));
                lemma_with_defaults_step(a, d, j);
                if has_key(a, d[j].key()) {
                    let at = position(a, d[j].key());
                    lemma_has_key(a, d[j].key());
                    assert(with_defaults(a, d.take(j))[at].key() == a[at].key());
                    lemma_position(with_defaults(a, d.take(j)), d[j].key(), at);
                }
            }
            if let Parameter::WithValue { value, .. } = parameter {
                if let Some(index) = find_key(&map, key.as_str()) {
                    if let Some((_, current)) = map_get_index(&map, index) {
                        let replacement = current.with_default_value(value);
                        insert_entry(&mut map, key, replacement);
                    }
                }
            }
        }
        proof {
            assert(d.take(d.len() as int) =~= d);
            lemma_with_defaults(a, d);
        }
        *self = Parameters(map);
    }

    /// Set values for all parameters in the current collection based on the
    /// provided defaults, without modifying any pre-existing values or adding
    /// parameters that did not exist.
    ///
    /// In contrast to `apply_defaults`, this does not mutate the existing
    /// collection, but rather returns a new copy.
    pub fn with_defaults<P: IntoParameters>(&self, defaults: P) -> (res: Parameters)
        ensures
            res@ == with_defaults(self@, defaults.parameters()),
            unique_keys(res@),
    {
        let mut this = self.clone();
        this.apply_defaults(defaults);
        this
    }

    /// Remove every key that the other collection has, whatever its value
    /// there. The parameters that stay keep their order.
    pub fn subtract(self, rhs: &Parameters) -> (res: Parameters)
        ensures
            res@ == subtracted(self@, rhs@),
            unique_keys(res@),
    {
        proof {
            use_type_invariant(&self);
        }
        let ghost a = self@;
        let ghost keep = key_not_in(rhs@);
        let mut map = self.0;
        // The parameters before `index` stay; `done` counts those looked at.
        let mut index: usize = 0;
        let ghost mut done: int = 0;
        proof {
            lemma_filter_ends(a, keep);
            assert(a.skip(0) =~= a);
            assert(entry_values(map_entries(map)) =~= a.take(0).filter(keep) + a.skip(0));
        }
        while index < map_len(&map)
            invariant
                keep == key_not_in(rhs@),
                unique_keys(a),
                0 <= done <= a.len(),
                keyed(map_entries(map)),
                index == a.take(done).filter(keep).len(),
                entry_values(map_entries(map)) == a.take(done).filter(keep) + a.skip(done),
            decreases map_entries(map).len() - index,
        {
            let ghost before = map_entries(map);
            proof {
                assert(done < a.len());
                assert(entry_values(before)[index as int] == a.skip(done)[0]);
                lemma_filter_step(a, keep, done);
                assert(a.skip(done + 1) =~= a.skip(done).drop_first());
            }
            let found = match map_get_index(&map, index) {
                Some((_, parameter)) => rhs.contains_key(parameter.key()),
                None => false,
            };
            if found {
                map_shift_remove_index(&mut map, index);
                proof {
                    let after = map_entries(map);
                    assert(after == before.remove(index as int));
                    assert(entry_values(after) =~= entry_values(before).remove(index as int));
                    assert(entry_values(after) =~= a.take(done + 1).filter(keep) + a.skip(
                        done + 1,
                    ));
                    assert forall|i: int| 0 <= i < after.len() implies (#[trigger] after[i]).0
                        == after[i].1.key() by {
                        if i < index {
                            assert(before[i].0 == before[i].1.key());
                        } else {
                            assert(before[i + 1].0 == before[i + 1].1.key());
                        }
                    }
                    assert forall|i: int, j: int|
                        0 <= i < after.len() && 0 <= j < after.len() && i != j implies (
                    #[trigger] entry_values(after)[i]).key() != (#[trigger] entry_values(
                        after,
                    )[j]).key() by {
                        let si = if i < index {
                            i
                        } else {
                            i + 1
                        };
                        let sj = if j < index {
                            j
                        } else {
                            j + 1
                        };
                        assert(entry_values(before)[si].key() != entry_values(before)[sj].key());
                    }
                    done = done + 1;
                }
            } else {
                proof {
                    assert(entry_values(before) =~= a.take(done + 1).filter(keep) + a.skip(
                        done + 1,
                    ));
                    done = done + 1;
                }
                index = index + 1;
            }
        }
        proof {
            // Nothing is left to look at.
            assert(done == a.len()) by {
                a.take(done).lemma_filter_len(keep);
                assert(entry_values(map_entries(map)).len() == index + a.skip(done).len());
            }
            lemma_filter_ends(a, keep);
            assert(a.skip(done) =~= Seq::<ParameterView>::empty());
            assert(entry_values(map_entries(map)) =~= a.filter(keep));
        }
        Parameters(map)
    }

    /// Every parameter of the collection as one that keeps the previous
    /// value, in the same order.
    pub fn as_previous_values(&self) -> (res: Parameters)
        ensures
            res@ == as_previous_values(self@),
            unique_keys(res@),
    {
        proof {
            use_type_invariant(self);
        }
        let mut map = map_new();
        let len = self.len();
        let ghost target = as_previous_values(self@);
        assert(entry_values(map_entries(map)) =~= target.take(0));
        assert(unique_keys(target)) by {
            assert forall|i: int, j: int|
                0 <= i < target.len() && 0 <= j < target.len() && i != j implies (
            #[trigger] target[i]).key() != (#[trigger] target[j]).key() by {
                assert(self@[i].key() != self@[j].key());
            }
        }
        for index in 0..len
            invariant
                len == self@.len(),
                target == as_previous_values(self@),
                unique_keys(target),
                keyed(map_entries(map)),
                entry_values(map_entries(map)) == target.take(index as int),
        {
            if let Some(parameter) = self.get_index(index) {
                proof {
                    let next = target.take(index + 1);
                    assert(next.drop_last() =~= target.take(index as int));
                    assert forall|i: int, j: int|
                        0 <= i < next.len() && 0 <= j < next.len() && i != j implies (
                    #[trigger] next[i]).key() != (#[trigger] next[j]).key() by {
                        assert(target[i].key() != target[j].key());
                    }
                    lemma_put_last(next);
                }
                insert_parameter(&mut map, parameter.clone().into_previous_value());
            }
        }
        proof {
            assert(target.take(len as int) =~= target);
        }
        Parameters(map)
    }

    /// The keys of the collection, in order.
    pub fn keys(&self) -> (res: Vec<&String>)
        ensures
            texts(res@) == keys(self@),
    {
        proof {
            use_type_invariant(self);
        }
        let mut res: Vec<&String> = Vec::new();
        let len = map_len(&self.0);
        for index in 0..len
            invariant
                len == map_entries(self.0).len(),
                keyed(map_entries(self.0)),
                res@.len() == index,
                forall|i: int| 0 <= i < index ==> (#[trigger] res@[i])@ == self@[i].key(),
        {
            if let Some((key, _)) = map_get_index(&self.0, index) {
                proof {
                    assert(map_entries(self.0)[index as int].0 == map_entries(
                        self.0,
                    )[index as int].1.key());
                }
                res.push(key);
            }
        }
        proof {
            assert(texts(res@) =~= keys(self@));
        }
        res
    }

    /// The parameters of the collection, in order.
    pub fn values(&self) -> (res: Vec<&Parameter>)
        ensures
            ref_views(res@) == self@,
    {
        let mut res: Vec<&Parameter> = Vec::new();
        let len = self.len();
        for index in 0..len
            invariant
                len == self@.len(),
                res@.len() == index,
                forall|i: int| 0 <= i < index ==> (#[trigger] res@[i])@ == self@[i],
        {
            if let Some(parameter) = self.get_index(index) {
                res.push(parameter);
            }
        }
        proof {
            assert(ref_views(res@) =~= self@);
        }
        res
    }

    /// Whether the two collections have the same keys, in whatever order.
    pub fn same_keys(&self, other: &Parameters) -> (res: bool)
        ensures
            res == (key_set(self@) == key_set(other@)),
    {
        proof {
            use_type_invariant(self);
            use_type_invariant(other);
            lemma_keys_multiset(self@, other@);
            lemma_text_order_total();
        }
        let mine = sorted(self.keys());
        let theirs = sorted(other.keys());
        proof {
            vstd::seq_lib::to_multiset_len(texts(mine@));
            vstd::seq_lib::to_multiset_len(texts(theirs@));
            if key_set(self@) == key_set(other@) {
                lemma_sorted_unique(texts(mine@), texts(theirs@), text_order());
            }
        }
        if mine.len() != theirs.len() {
            return false;
        }
        let len = mine.len();
        for index in 0..len
            invariant
                len == mine@.len(),
                len == theirs@.len(),
                key_set(self@) == key_set(other@) ==> texts(mine@) == texts(theirs@),
                forall|i: int| 0 <= i < index ==> (#[trigger] mine@[i])@ == theirs@[i]@,
        {
            let same = *mine[index] == *theirs[index];
            if !same {
                proof {
                    assert(texts(mine@)[index as int] != texts(theirs@)[index as int]);
                }
                return false;
            }
        }
        proof {
            assert(texts(mine@) =~= texts(theirs@));
        }
        true
    }

    /// Check if the other parameters are loosely equal to self.
    ///
    /// Loose equality defines that when a parameter is present with a value in
    /// the current set of parameters, the parameter is equal in the other set
    /// if it either has the same value, or if it is defined as `PreviousValue`.
    pub fn loosely_equal(&self, other: &Parameters) -> (res: bool)
        ensures
            res == loosely_equal(self@, other@),
    {
        proof {
            use_type_invariant(self);
            use_type_invariant(other);
            lemma_key_count(self@);
            lemma_key_count(other@);
        }
        // A first check for the length allows a quick exit.
        if self.len() != other.len() {
            return false;
        }
        // Neither collection may have a key that the other does not have.
        if !self.same_keys(other) {
            return false;
        }
        let len = self.len();
        for index in 0..len
            invariant
                len == self@.len(),
                key_set(self@) == key_set(other@),
                forall|i: int|
                    0 <= i < index ==> (#[trigger] self@[i]).loosely_equals(
                        counterpart(other@, self@[i]),
                    ),
        {
            if let Some(parameter) = self.get_index(index) {
                proof {
                    assert(key_set(self@).contains(parameter@.key())) by {
                        assert(self@[index as int].key() == parameter@.key());
                    }
                    assert(has_key(other@, parameter@.key()));
                }
                match other.get(parameter.key()) {
                    Some(other_parameter) => {
                        let same = *parameter == *other_parameter;
                        if !(other_parameter.is_previous_value() || same) {
                            return false;
                        }
                    },
                    None => {
                        return false;
                    },
                }
            }
        }
        true
    }

    /// Calculate the loose difference between this set of parameters and
    /// another set of parameters.
    ///
    /// Returns `None` if there are no differences, otherwise the parameters
    /// only available in this set (`left`), the parameters that exist in both
    /// sets and are loosely equal (`equal`) or not (`unequal`), and the
    /// parameters only available in the other set (`right`).
    pub fn loose_difference<'a>(&'a self, other: &'a Parameters) -> (res: Option<
        ParametersDifference<'a>,
    >)
        ensures
            match res {
                Some(difference) => loose_difference(self@, other@) == Some(difference@),
                None => loose_difference(self@, other@) is None,
            },
    {
        let mut left: Vec<&'a Parameter> = Vec::new();
        let mut equal: Vec<&'a Parameter> = Vec::new();
        let mut unequal: Vec<(&'a Parameter, &'a Parameter)> = Vec::new();
        let mut right: Vec<&'a Parameter> = Vec::new();
        let ghost a = self@;
        let ghost b = other@;

        // Parameters of `self`: only there, or in both and loosely equal or not.
        let len = self.len();
        assert(a.take(0).len() == 0);
        for index in 0..len
            invariant
                len == a.len(),
                a == self@,
                b == other@,
                ref_views(left@) == a.take(index as int).filter_map(only_here(b)),
                ref_views(equal@) == a.take(index as int).filter_map(equal_one(b)),
                pair_views(unequal@) == a.take(index as int).filter_map(unequal_pair(b)),
        {
            if let Some(parameter) = self.get_index(index) {
                proof {
                    a.lemma_filter_map_take_succ(only_here(b), index as int);
                    a.lemma_filter_map_take_succ(equal_one(b), index as int);
                    a.lemma_filter_map_take_succ(unequal_pair(b), index as int);
                }
                let ghost before_left = ref_views(left@);
                let ghost before_equal = ref_views(equal@);
                let ghost before_unequal = pair_views(unequal@);
                match other.get(parameter.key()) {
                    None => {
                        left.push(parameter);
                        proof {
                            assert(ref_views(left@) =~= before_left + seq![parameter@]);
                        }
                    },
                    Some(other_parameter) => {
                        let same = *parameter == *other_parameter;
                        if other_parameter.is_previous_value() || same {
                            // When either parameter has a value, the parameter
                            // in `equal` has the value.
                            if parameter.is_previous_value() {
                                equal.push(other_parameter);
                                proof {
                                    assert(ref_views(equal@) =~= before_equal + seq![
                                        other_parameter@,
                                    ]);
                                }
                            } else {
                                equal.push(parameter);
                                proof {
                                    assert(ref_views(equal@) =~= before_equal + seq![parameter@]);
                                }
                            }
                        } else {
                            unequal.push((parameter, other_parameter));
                            proof {
                                assert(pair_views(unequal@) =~= before_unequal + seq![
                                    (parameter@, other_parameter@),
                                ]);
                            }
                        }
                    },
                }
                proof {
                    assert(ref_views(left@) =~= a.take(index + 1).filter_map(only_here(b)));
                    assert(ref_views(equal@) =~= a.take(index + 1).filter_map(equal_one(b)));
                    assert(pair_views(unequal@) =~= a.take(index + 1).filter_map(
                        unequal_pair(b),
                    ));
                }
            }
        }
        proof {
            assert(a.take(len as int) =~= a);
        }

        // Parameters of `other` that `self` does not have.
        let other_len = other.len();
        assert(b.take(0).len() == 0);
        for index in 0..other_len
            invariant
                other_len == b.len(),
                a == self@,
                b == other@,
                ref_views(right@) == b.take(index as int).filter_map(only_here(a)),
        {
            if let Some(parameter) = other.get_index(index) {
                proof {
                    b.lemma_filter_map_take_succ(only_here(a), index as int);
                }
                let ghost before_right = ref_views(right@);
                if !self.contains_key(parameter.key()) {
                    right.push(parameter);
                    proof {
                        assert(ref_views(right@) =~= before_right + seq![parameter@]);
                    }
                }
                proof {
                    assert(ref_views(right@) =~= b.take(index + 1).filter_map(only_here(a)));
                }
            }
        }
        proof {
            assert(b.take(other_len as int) =~= b);
        }

        // Should there be no differences, return `None`.
        if left.is_empty() && unequal.is_empty() && right.is_empty() {
            None
        } else {
            Some(ParametersDifference { left, equal, unequal, right })
        }
    }

    /// The parameters that have a value, in the same order.
    pub fn with_values_only(&self) -> (res: Parameters)
        ensures
            res@ == self@.filter(has_value()),
            unique_keys(res@),
    {
        let mut selected: Vec<Parameter> = Vec::new();
        let len = self.len();
        proof {
            lemma_filter_ends(self@, has_value());
        }
        for index in 0..len
            invariant
                len == self@.len(),
                views(selected@) == self@.take(index as int).filter(has_value()),
        {
            if let Some(parameter) = self.get_index(index) {
                proof {
                    lemma_filter_step(self@, has_value(), index as int);
                }
                let ghost before = views(selected@);
                if !parameter.is_previous_value() {
                    selected.push(parameter.clone());
                    proof {
                        assert(views(selected@) =~= before.push(parameter@));
                    }
                }
            }
        }
        proof {
            lemma_filter_ends(self@, has_value());
            lemma_filter(self@, has_value());
            lemma_collect_unique(self@.filter(has_value()));
        }
        Parameters::new(selected)
    }

    /// The parameters whose key the other collection has too, in the same
    /// order.
    pub fn restricted_to(&self, other: &Parameters) -> (res: Parameters)
        ensures
            res@ == self@.filter(key_in(other@)),
            unique_keys(res@),
    {
        let mut selected: Vec<Parameter> = Vec::new();
        let len = self.len();
        proof {
            lemma_filter_ends(self@, key_in(other@));
        }
        for index in 0..len
            invariant
                len == self@.len(),
                views(selected@) == self@.take(index as int).filter(key_in(other@)),
        {
            if let Some(parameter) = self.get_index(index) {
                proof {
                    lemma_filter_step(self@, key_in(other@), index as int);
                }
                let ghost before = views(selected@);
                if other.contains_key(parameter.key()) {
                    selected.push(parameter.clone());
                    proof {
                        assert(views(selected@) =~= before.push(parameter@));
                    }
                }
            }
        }
        proof {
            lemma_filter_ends(self@, key_in(other@));
            lemma_filter(self@, key_in(other@));
            lemma_collect_unique(self@.filter(key_in(other@)));
        }
        Parameters::new(selected)
    }

    /// The keys of the parameters that have no value, in order.
    pub fn keys_without_value(&self) -> (res: Vec<&String>)
        ensures
            texts(res@) == keys(self@.filter(has_no_value())),
    {
        proof {
            use_type_invariant(self);
        }
        let mut selected: Vec<&String> = Vec::new();
        let len = map_len(&self.0);
        proof {
            lemma_filter_ends(self@, has_no_value());
            assert(texts(selected@) =~= keys(self@.take(0).filter(has_no_value())));
        }
        for index in 0..len
            invariant
                len == self@.len(),
                keyed(map_entries(self.0)),
                texts(selected@) == keys(self@.take(index as int).filter(has_no_value())),
        {
            if let Some((key, parameter)) = map_get_index(&self.0, index) {
                proof {
                    lemma_filter_step(self@, has_no_value(), index as int);
                    assert(map_entries(self.0)[index as int].0 == map_entries(
                        self.0,
                    )[index as int].1.key());
                }
                let ghost before = texts(selected@);
                if parameter.is_previous_value() {
                    selected.push(key);
                    proof {
                        assert(texts(selected@) =~= before.push(parameter@.key()));
                        assert(keys(
                            self@.take(index as int).filter(has_no_value()).push(parameter@),
                        ) =~= keys(self@.take(index as int).filter(has_no_value())).push(
                            parameter@.key(),
                        ));
                    }
                }
            }
        }
        proof {
            lemma_filter_ends(self@, has_no_value());
        }
        selected
    }

    /// The parameters in the shape of the CloudFormation API, in order.
    pub fn to_cfn(&self) -> (res: Vec<CfnParameter>)
        ensures
            cfn_views(res@) == to_cfn(self@),
    {
        let mut res: Vec<CfnParameter> = Vec::new();
        let len = self.len();
        for index in 0..len
            invariant
                len == self@.len(),
                res@.len() == index,
                forall|i: int| 0 <= i < index ==> (#[trigger] res@[i])@ == self@[i].to_cfn(),
        {
            if let Some(parameter) = self.get_index(index) {
                res.push(CfnParameter::from(parameter));
            }
        }
        proof {
            assert(cfn_views(res@) =~= to_cfn(self@));
        }
        res
    }

    /// Take the map out of the collection, which is left empty.
    fn take_map(&mut self) -> (map: IndexMap<String, Parameter>)
        ensures
            keyed(map_entries(map)),
            entry_values(map_entries(map)) == old(self)@,
    {
        proof {
            use_type_invariant(&*self);
        }
        let mut taken = Parameters(map_new());
        std::mem::swap(self, &mut taken);
        taken.0
    }
}

impl Clone for Parameters {
    fn clone(&self) -> (res: Self)
        ensures
            res@ == self@,
    {
        proof {
            use_type_invariant(self);
        }
        let mut map = map_new();
        let len = self.len();
        assert(entry_values(map_entries(map)) =~= self@.take(0));
        for index in 0..len
            invariant
                len == self@.len(),
                unique_keys(self@),
                keyed(map_entries(map)),
                entry_values(map_entries(map)) == self@.take(index as int),
        {
            if let Some(parameter) = self.get_index(index) {
                proof {
                    let next = self@.take(index + 1);
                    assert(next.drop_last() =~= self@.take(index as int));
                    assert forall|i: int, j: int|
                        0 <= i < next.len() && 0 <= j < next.len() && i != j implies (
                    #[trigger] next[i]).key() != (#[trigger] next[j]).key() by {
                        assert(self@[i].key() != self@[j].key());
                    }
                    lemma_put_last(next);
                }
                insert_parameter(&mut map, parameter.clone());
            }
        }
        proof {
            assert(self@.take(len as int) =~= self@);
        }
        Parameters(map)
    }
}

/// Selects the parameters that have a value.
pub open spec fn has_value() -> spec_fn(ParameterView) -> bool {
    |p: ParameterView| !p.is_previous_value()
}

/// Selects the parameters that have no value.
pub open spec fn has_no_value() -> spec_fn(ParameterView) -> bool {
    |p: ParameterView| p.is_previous_value()
}

/// Selects the parameters whose key `other` has.
pub open spec fn key_in(other: Seq<ParameterView>) -> spec_fn(ParameterView) -> bool {
    |p: ParameterView| has_key(other, p.key())
}

/// The mathematical values of a list of references to parameters.
pub open spec fn ref_views(parameters: Seq<&Parameter>) -> Seq<ParameterView> {
    Seq::new(parameters.len(), |i: int| parameters[i]@)
}

/// The mathematical values of a list of pairs of references to parameters.
pub open spec fn pair_views(pairs: Seq<(&Parameter, &Parameter)>) -> Seq<
    (ParameterView, ParameterView),
> {
    Seq::new(pairs.len(), |i: int| (pairs[i].0@, pairs[i].1@))
}

/// Struct to track the differences between two sets of [`Parameters`].
#[derive(Debug)]
pub struct ParametersDifference<'a> {
    /// Parameters that are only available in the *left* parameter set
    pub left: Vec<&'a Parameter>,
    /// Parameters that are equal across the two parameter sets
    pub equal: Vec<&'a Parameter>,
    /// Parameters that are unequal across the two parameter sets
    pub unequal: Vec<(&'a Parameter, &'a Parameter)>,
    /// Parameters that are only available in the *right* parameter set
    pub right: Vec<&'a Parameter>,
}

impl<'a> View for ParametersDifference<'a> {
    type V = DifferenceView;

    open spec fn view(&self) -> DifferenceView {
        DifferenceView {
            left: ref_views(self.left@),
            equal: ref_views(self.equal@),
            unequal: pair_views(self.unequal@),
            right: ref_views(self.right@),
        }
    }
}

impl PartialEq for Parameters {
    /// Two collections are equal when they hold the same parameters, in
    /// whatever order.
    fn eq(&self, other: &Self) -> (res: bool) {
        proof {
            use_type_invariant(self);
            use_type_invariant(other);
            lemma_key_count(self@);
            lemma_key_count(other@);
            if as_map(self@) == as_map(other@) {
                lemma_same_map(self@, other@);
            }
        }
        if self.len() != other.len() {
            return false;
        }
        let len = self.len();
        for index in 0..len
            invariant
                len == self@.len(),
                unique_keys(self@),
                unique_keys(other@),
                as_map(self@) == as_map(other@) ==> forall|key: Seq<char>| #[trigger]
                    lookup(self@, key) == lookup(other@, key),
                forall|i: int|
                    0 <= i < index ==> lookup(other@, (#[trigger] self@[i]).key()) == Some(
                        self@[i],
                    ),
        {
            if let Some(parameter) = self.get_index(index) {
                proof {
                    lemma_position(self@, parameter@.key(), index as int);
                    assert(lookup(self@, parameter@.key()) == Some(parameter@));
                }
                match other.get(parameter.key()) {
                    Some(other_parameter) => {
                        let same = *parameter == *other_parameter;
                        if !same {
                            return false;
                        }
                    },
                    None => {
                        return false;
                    },
                }
            }
        }
        proof {
            // Every key of `self` is a key of `other`, and there are as many.
            assert(key_set(self@).subset_of(key_set(other@))) by {
                assert forall|key: Seq<char>| key_set(self@).contains(key) implies key_set(
                    other@,
                ).contains(key) by {
                    let i = position(self@, key);
                    assert(lookup(other@, self@[i].key()) == Some(self@[i]));
                }
            }
            vstd::set_lib::lemma_subset_equality(key_set(self@), key_set(other@));
            assert forall|key: Seq<char>| lookup(self@, key) == lookup(other@, key) by {
                assert(key_set(self@).contains(key) == has_key(self@, key));
                assert(key_set(other@).contains(key) == has_key(other@, key));
                if has_key(self@, key) {
                    let i = position(self@, key);
                    assert(lookup(other@, self@[i].key()) == Some(self@[i]));
                }
            }
            lemma_same_lookup(self@, other@);
        }
        true
    }
}

impl PartialEqSpecImpl for Parameters {
    open spec fn obeys_eq_spec() -> bool {
        true
    }

    open spec fn eq_spec(&self, other: &Self) -> bool {
        as_map(self@) == as_map(other@)
    }
}

impl Eq for Parameters {

}

impl std::ops::Sub<&Parameters> for Parameters {
    type Output = Parameters;

    fn sub(self, rhs: &Parameters) -> (res: Parameters)
        ensures
            res@ == subtracted(self@, rhs@),
    {
        self.subtract(rhs)
    }
}

impl SubSpecImpl<&Parameters> for Parameters {
    open spec fn obeys_sub_spec() -> bool {
        false
    }

    open spec fn sub_req(self, rhs: &Parameters) -> bool {
        true
    }

    open spec fn sub_spec(self, rhs: &Parameters) -> Parameters {
        self
    }
}

impl From<Vec<Parameter>> for Parameters {
    fn from(parameters: Vec<Parameter>) -> (res: Parameters)
        ensures
            res@ == collect(views(parameters@)),
    {
        Parameters::new(parameters)
    }
}

impl vstd::std_specs::convert::FromSpecImpl<Vec<Parameter>> for Parameters {
    open spec fn obeys_from_spec() -> bool {
        false
    }

    open spec fn from_spec(parameters: Vec<Parameter>) -> Parameters {
        arbitrary()
    }
}

impl From<&Vec<Parameter>> for Parameters {
    fn from(parameters: &Vec<Parameter>) -> (res: Parameters)
        ensures
            res@ == collect(views(parameters@)),
    {
        Parameters::new(parameters.clone())
    }
}

impl vstd::std_specs::convert::FromSpecImpl<&Vec<Parameter>> for Parameters {
    open spec fn obeys_from_spec() -> bool {
        false
    }

    open spec fn from_spec(parameters: &Vec<Parameter>) -> Parameters {
        arbitrary()
    }
}

impl From<Vec<&Parameter>> for Parameters {
    fn from(parameters: Vec<&Parameter>) -> (res: Parameters)
        ensures
            res@ == collect(ref_views(parameters@)),
    {
        let mut owned: Vec<Parameter> = Vec::new();
        let len = parameters.len();
        for index in 0..len
            invariant
                len == parameters@.len(),
                owned@.len() == index,
                forall|i: int| 0 <= i < index ==> (#[trigger] owned@[i])@ == parameters@[i]@,
        {
            owned.push(parameters[index].clone());
        }
        proof {
            assert(views(owned@) =~= ref_views(parameters@));
        }
        Parameters::new(owned)
    }
}

impl vstd::std_specs::convert::FromSpecImpl<Vec<&Parameter>> for Parameters {
    open spec fn obeys_from_spec() -> bool {
        false
    }

    open spec fn from_spec(parameters: Vec<&Parameter>) -> Parameters {
        arbitrary()
    }
}

} // verus!
