//! Insertion-ordered sets and maps whose keys are compared by what they stand for.
use vstd::prelude::*;

verus! {

/// Keys that can be told apart by their views.
pub trait SameKey: View {
    /// Whether both keys stand for the same thing.
    fn same(&self, other: &Self) -> (same: bool)
        ensures
            same == (self@ == other@),
    ;
}

impl SameKey for u64 {
    fn same(&self, other: &u64) -> (same: bool) {
        *self == *other
    }
}

impl SameKey for i32 {
    fn same(&self, other: &i32) -> (same: bool) {
        *self == *other
    }
}

/// Some key of the sequence stands for `model`.
pub open spec fn has_key<K: View>(keys: Seq<K>, model: K::V) -> bool {
    exists|i: int| 0 <= i < keys.len() && (#[trigger] keys[i])@ == model
}

/// Where the sequence holds the key that stands for `model`.
pub open spec fn index_of<K: View>(keys: Seq<K>, model: K::V) -> int {
    choose|i: int| 0 <= i < keys.len() && (#[trigger] keys[i])@ == model
}

/// No two keys of the sequence stand for the same thing.
pub open spec fn distinct<K: View>(keys: Seq<K>) -> bool {
    forall|i: int, j: int|
        0 <= i < j < keys.len() ==> (#[trigger] keys[i])@ != (#[trigger] keys[j])@
}

/// What the keys of the sequence stand for.
pub open spec fn models<K: View>(keys: Seq<K>) -> Set<K::V> {
    Set::new(|model: K::V| has_key(keys, model))
}

/// Distinct keys are as many as the things they stand for.
pub proof fn lemma_models_len<K: View>(keys: Seq<K>)
    requires
        distinct(keys),
    ensures
        models(keys).finite(),
        models(keys).len() == keys.len(),
    decreases keys.len(),
{
    if keys.len() == 0 {
        assert(models(keys) =~= Set::<K::V>::empty());
    } else {
        let shorter = keys.drop_last();
        let last = keys.last()@;
        lemma_models_len(shorter);
        assert forall|model: K::V| has_key(keys, model) == (has_key(shorter, model) || model
            == last) by {
            if has_key(shorter, model) {
                let i = index_of(shorter, model);
                assert(keys[i]@ == model);
            }
            if model == last {
                assert(keys[keys.len() - 1]@ == model);
            }
            if has_key(keys, model) && model != last {
                let i = index_of(keys, model);
                assert(shorter[i]@ == model);
            }
        }
        assert(models(keys) =~= models(shorter).insert(last));
        if has_key(shorter, last) {
            let i = index_of(shorter, last);
            assert(keys[i]@ == keys[keys.len() - 1]@);
        }
    }
}

/// The position of a key among others.
pub fn position<K: SameKey>(keys: &Vec<K>, key: &K) -> (found: Option<usize>)
    ensures
        match found {
            Some(i) => i < keys@.len() && keys@[i as int]@ == key@,
            None => !has_key(keys@, key@),
        },
{
    let mut i: usize = 0;
    while i < keys.len()
        invariant
            i <= keys@.len(),
            forall|j: int| 0 <= j < i ==> (#[trigger] keys@[j])@ != key@,
        decreases keys@.len() - i,
    {
        if keys[i].same(key) {
            return Some(i);
        }
        i += 1;
    }
    None
}

/// A set that keeps its items in the order in which they came.
#[derive(Debug)]
pub struct VecSet<K> {
    pub items: Vec<K>,
}

impl<K: View> View for VecSet<K> {
    type V = Set<K::V>;

    open spec fn view(&self) -> Set<K::V> {
        models(self.items@)
    }
}

impl<K: View> VecSet<K> {
    /// No item is held twice.
    pub open spec fn wf(self) -> bool {
        distinct(self.items@)
    }
}

impl<K: SameKey> VecSet<K> {
    pub fn new() -> (set: VecSet<K>)
        ensures
            set.wf(),
            set@ == Set::<K::V>::empty(),
            set.items@.len() == 0,
    {
        let set = VecSet { items: Vec::new() };
        assert(set@ =~= Set::<K::V>::empty());
        set
    }

    /// A set of one item.
    pub fn of(item: K) -> (set: VecSet<K>)
        ensures
            set.wf(),
            set@ == Set::<K::V>::empty().insert(item@),
            set.items@ == seq![item],
    {
        let mut set: VecSet<K> = VecSet::new();
        set.insert(item);
        assert(set.items@ =~= seq![item]);
        set
    }

    pub fn contains(&self, item: &K) -> (held: bool)
        ensures
            held == self@.contains(item@),
    {
        match position(&self.items, item) {
            Some(i) => {
                assert(self.items@[i as int]@ == item@);
                true
            },
            None => false,
        }
    }

    pub fn len(&self) -> (len: usize)
        requires
            self.wf(),
        ensures
            len == self@.len(),
            self@.finite(),
            len == self.items@.len(),
    {
        proof {
            lemma_models_len(self.items@);
        }
        self.items.len()
    }

    /// Adds an item at the end, unless it is held already.
    pub fn insert(&mut self, item: K) -> (added: bool)
        requires
            old(self).wf(),
        ensures
            final(self).wf(),
            final(self)@ == old(self)@.insert(item@),
            added == !old(self)@.contains(item@),
            added ==> final(self).items@ == old(self).items@.push(item),
            !added ==> final(self).items@ == old(self).items@,
    {
        if self.contains(&item) {
            assert(self@ =~= old(self)@.insert(item@));
            return false;
        }
        self.items.push(item);
        proof {
            let before = old(self).items@;
            let after = self.items@;
            assert forall|model: K::V| has_key(after, model) == (has_key(before, model) || model
                == item@) by {
                if has_key(before, model) {
                    let i = index_of(before, model);
                    assert(after[i]@ == model);
                }
                if model == item@ {
                    assert(after[before.len() as int]@ == model);
                }
                if has_key(after, model) && model != item@ {
                    let i = index_of(after, model);
                    assert(before[i]@ == model);
                }
            }
            assert(self@ =~= old(self)@.insert(item@));
            assert forall|i: int, j: int| 0 <= i < j < after.len() implies (#[trigger] after[i])@
                != (#[trigger] after[j])@ by {
                if j == before.len() {
                    assert(before[i]@ != item@);
                }
            }
        }
        true
    }

    /// Removes an item, if it is held.
    pub fn remove(&mut self, item: &K) -> (removed: bool)
        requires
            old(self).wf(),
        ensures
            final(self).wf(),
            final(self)@ == old(self)@.remove(item@),
            removed == old(self)@.contains(item@),
    {
        match position(&self.items, item) {
            Some(at) => {
                let ghost before = self.items@;
                self.items.remove(at);
                proof {
                    lemma_remove_key(before, at as int);
                    assert(self@ =~= old(self)@.remove(item@));
                    assert(before[at as int]@ == item@);
                }
                true
            },
            None => {
                assert(self@ =~= old(self)@.remove(item@));
                false
            },
        }
    }
}

/// Taking one key out of distinct keys takes out what it stands for, and nothing else.
pub proof fn lemma_remove_key<K: View>(keys: Seq<K>, at: int)
    requires
        distinct(keys),
        0 <= at < keys.len(),
    ensures
        distinct(keys.remove(at)),
        forall|model: K::V|
            has_key(keys.remove(at), model) <==> has_key(keys, model) && model != keys[at]@,
{
    let after = keys.remove(at);
    assert forall|i: int, j: int| 0 <= i < j < after.len() implies (#[trigger] after[i])@ != (
    #[trigger] after[j])@ by {
        let from_i = if i < at { i } else { i + 1 };
        let from_j = if j < at { j } else { j + 1 };
        assert(after[i] == keys[from_i]);
        assert(after[j] == keys[from_j]);
    }
    assert forall|model: K::V|
        has_key(after, model) <==> has_key(keys, model) && model != keys[at]@ by {
        if has_key(after, model) {
            let i = index_of(after, model);
            let from = if i < at { i } else { i + 1 };
            assert(keys[from]@ == model);
            assert(from != at);
        }
        if has_key(keys, model) && model != keys[at]@ {
            let i = index_of(keys, model);
            let to = if i < at { i } else { i - 1 };
            assert(after[to]@ == model);
        }
    }
}

/// A map that keeps its entries in the order in which their keys came.
#[derive(Debug)]
pub struct VecMap<K, V> {
    pub keys: Vec<K>,
    pub values: Vec<V>,
}

impl<K: View, V> View for VecMap<K, V> {
    type V = Map<K::V, V>;

    open spec fn view(&self) -> Map<K::V, V> {
        Map::new(
            |model: K::V| has_key(self.keys@, model),
            |model: K::V| self.values@[index_of(self.keys@, model)],
        )
    }
}

impl<K: View, V> VecMap<K, V> {
    /// Every key has one value and no key is held twice.
    pub open spec fn wf(self) -> bool {
        &&& self.keys@.len() == self.values@.len()
        &&& distinct(self.keys@)
    }

    /// The entry at a position is the entry of its key.
    pub proof fn lemma_entry(self, at: int)
        requires
            self.wf(),
            0 <= at < self.keys@.len(),
        ensures
            self@.contains_key(self.keys@[at]@),
            self@[self.keys@[at]@] == self.values@[at],
    {
        let model = self.keys@[at]@;
        assert(has_key(self.keys@, model));
        let i = index_of(self.keys@, model);
        assert(self.keys@[i]@ == self.keys@[at]@);
    }

    /// Every entry stands at some position.
    pub proof fn lemma_position(self, model: K::V) -> (at: int)
        requires
            self.wf(),
            self@.contains_key(model),
        ensures
            0 <= at < self.keys@.len(),
            self.keys@[at]@ == model,
            self.values@[at] == self@[model],
    {
        let at = index_of(self.keys@, model);
        self.lemma_entry(at);
        at
    }
}

impl<K: SameKey, V> VecMap<K, V> {
    pub fn new() -> (map: VecMap<K, V>)
        ensures
            map.wf(),
            map@ == Map::<K::V, V>::empty(),
            map.keys@.len() == 0,
    {
        let map = VecMap { keys: Vec::new(), values: Vec::new() };
        assert(map@ =~= Map::<K::V, V>::empty());
        map
    }

    pub fn len(&self) -> (len: usize)
        requires
            self.wf(),
        ensures
            len == self@.len(),
            self@.dom().finite(),
            len == self.keys@.len(),
    {
        proof {
            lemma_models_len(self.keys@);
            assert(self@.dom() =~= models(self.keys@));
        }
        self.keys.len()
    }

    pub fn contains_key(&self, key: &K) -> (held: bool)
        ensures
            held == self@.contains_key(key@),
    {
        match position(&self.keys, key) {
            Some(i) => {
                assert(self.keys@[i as int]@ == key@);
                true
            },
            None => false,
        }
    }

    pub fn get(&self, key: &K) -> (found: Option<&V>)
        requires
            self.wf(),
        ensures
            match found {
                Some(value) => self@.contains_key(key@) && *value == self@[key@],
                None => !self@.contains_key(key@),
            },
    {
        match position(&self.keys, key) {
            Some(at) => {
                proof {
                    self.lemma_entry(at as int);
                }
                Some(&self.values[at])
            },
            None => None,
        }
    }

    /// Sets the value of a key: a new key goes to the end, a known one keeps its place.
    pub fn insert(&mut self, key: K, value: V)
        requires
            old(self).wf(),
        ensures
            final(self).wf(),
            final(self)@ == old(self)@.insert(key@, value),
            old(self)@.contains_key(key@) ==> final(self).keys@ == old(self).keys@,
            !old(self)@.contains_key(key@) ==> final(self).keys@ == old(self).keys@.push(key)
                && final(self).values@ == old(self).values@.push(value),
    {
        match position(&self.keys, &key) {
            Some(at) => {
                assert(self.keys@[at as int]@ == key@);
                self.values[at] = value;
                proof {
                    assert forall|model: K::V| self@.contains_key(model) implies #[trigger] self@[model]
                        == old(self)@.insert(key@, value)[model] by {
                        let i = self.lemma_position(model);
                        old(self).lemma_entry(i);
                    }
                    assert(self@ =~= old(self)@.insert(key@, value));
                }
            },
            None => {
                self.keys.push(key);
                self.values.push(value);
                proof {
                    let before = old(self).keys@;
                    let after = self.keys@;
                    assert forall|i: int, j: int| 0 <= i < j < after.len() implies (
                    #[trigger] after[i])@ != (#[trigger] after[j])@ by {
                        if j == before.len() {
                            assert(before[i]@ != key@);
                        }
                    }
                    assert forall|model: K::V|
                        has_key(after, model) == (has_key(before, model) || model == key@) by {
                        if has_key(before, model) {
                            let i = index_of(before, model);
                            assert(after[i]@ == model);
                        }
                        if model == key@ {
                            assert(after[before.len() as int]@ == model);
                        }
                        if has_key(after, model) && model != key@ {
                            let i = index_of(after, model);
                            assert(before[i]@ == model);
                        }
                    }
                    assert forall|model: K::V| self@.contains_key(model) implies #[trigger] self@[model]
                        == old(self)@.insert(key@, value)[model] by {
                        let i = self.lemma_position(model);
                        if i < before.len() {
                            old(self).lemma_entry(i);
                        }
                    }
                    assert(self@ =~= old(self)@.insert(key@, value));
                }
            },
        }
    }

    /// Removes a key and gives back its value.
    pub fn remove(&mut self, key: &K) -> (removed: Option<V>)
        requires
            old(self).wf(),
        ensures
            final(self).wf(),
            final(self)@ == old(self)@.remove(key@),
            match removed {
                Some(value) => old(self)@.contains_key(key@) && value == old(self)@[key@],
                None => !old(self)@.contains_key(key@),
            },
    {
        match position(&self.keys, key) {
            Some(at) => {
                let ghost before = *self;
                self.keys.remove(at);
                let value = self.values.remove(at);
                proof {
                    before.lemma_entry(at as int);
                    lemma_remove_key(before.keys@, at as int);
                    assert forall|model: K::V| self@.contains_key(model) implies #[trigger] self@[model]
                        == before@[model] by {
                        let i = self.lemma_position(model);
                        let from = if i < at { i } else { i + 1 };
                        before.lemma_entry(from);
                    }
                    assert(self@ =~= before@.remove(key@));
                }
                Some(value)
            },
            None => {
                assert(self@ =~= old(self)@.remove(key@));
                None
            },
        }
    }

    /// Removes the entry at a position.
    pub fn remove_at(&mut self, at: usize)
        requires
            old(self).wf(),
            at < old(self).keys@.len(),
        ensures
            final(self).wf(),
            final(self).keys@ == old(self).keys@.remove(at as int),
            final(self).values@ == old(self).values@.remove(at as int),
            final(self)@ == old(self)@.remove(old(self).keys@[at as int]@),
    {
        let ghost before = *self;
        self.keys.remove(at);
        self.values.remove(at);
        proof {
            lemma_remove_key(before.keys@, at as int);
            assert forall|model: K::V| self@.contains_key(model) implies #[trigger] self@[model]
                == before@[model] by {
                let i = self.lemma_position(model);
                let from = if i < at { i } else { i + 1 };
                before.lemma_entry(from);
            }
            assert(self@ =~= before@.remove(before.keys@[at as int]@));
        }
    }

}

/// Changing the value at a position changes the entry of its key and no other.
pub proof fn lemma_update_value<K: View, V>(map: VecMap<K, V>, at: int)
    requires
        map.wf(),
        0 <= at < map.keys@.len(),
    ensures
        forall|next: VecMap<K, V>, value: V|
            next.keys@ == map.keys@ && #[trigger] next.values@ == #[trigger] map.values@.update(
                at,
                value,
            ) ==> next.wf() && next@ == map@.insert(map.keys@[at]@, value),
{
    assert forall|next: VecMap<K, V>, value: V|
        next.keys@ == map.keys@ && #[trigger] next.values@ == #[trigger] map.values@.update(
            at,
            value,
        ) implies next.wf() && next@ == map@.insert(map.keys@[at]@, value) by {
        let model = map.keys@[at]@;
        assert forall|other: K::V| next@.contains_key(other) implies #[trigger] next@[other]
            == map@.insert(model, value)[other] by {
            let i = next.lemma_position(other);
            map.lemma_entry(i);
        }
        map.lemma_entry(at);
        assert(next@ =~= map@.insert(model, value));
    }
}

} // verus!
