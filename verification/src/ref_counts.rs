//! How many owners a client has for each of its subscriptions.
use vstd::prelude::*;
use crate::collections::{has_key, lemma_update_value, position, VecMap};
use crate::protocol::{arg_models, ArgModel, KeyModel, SubscriptionArg, SubscriptionKey};

verus! {

/// Owners by subscription. A subscription without owners is not listed.
pub struct RefCounts {
    pub counts: VecMap<SubscriptionKey, usize>,
}

/// What several keys stand for.
pub open spec fn key_models(keys: Seq<SubscriptionKey>) -> Seq<KeyModel> {
    Seq::new(keys.len(), |i: int| keys[i]@)
}

/// The keys that an argument stands for, one per identifier.
pub open spec fn arg_keys(arg: ArgModel) -> Seq<KeyModel> {
    Seq::new(arg.id.len(), |i: int| arg.key(i))
}

/// How often a key occurs.
pub open spec fn occurrences(keys: Seq<KeyModel>, key: KeyModel) -> nat
    decreases keys.len(),
{
    if keys.len() == 0 {
        0
    } else {
        occurrences(keys.drop_last(), key) + if keys.last() == key {
            1nat
        } else {
            0nat
        }
    }
}

/// One argument for each key.
pub open spec fn key_args(keys: Seq<KeyModel>) -> Seq<ArgModel> {
    Seq::new(keys.len(), |i: int| keys[i].arg())
}

/// What is held after keys were acquired or released one after the other.
pub open spec fn held_after(before: nat, times: nat, release: bool) -> nat {
    if !release {
        before + times
    } else if times <= before {
        (before - times) as nat
    } else {
        0
    }
}

impl RefCounts {
    /// Every subscription that is listed has owners.
    pub open spec fn wf(self) -> bool {
        &&& self.counts.wf()
        &&& forall|key: KeyModel| #[trigger]
            self.counts@.contains_key(key) ==> self.counts@[key] > 0
    }

    /// The owners of a subscription.
    pub open spec fn count(self, key: KeyModel) -> nat {
        if self.counts@.contains_key(key) {
            self.counts@[key] as nat
        } else {
            0
        }
    }

    /// No count grows beyond what can be counted if the keys are acquired.
    pub open spec fn has_room(self, keys: Seq<KeyModel>) -> bool {
        forall|key: KeyModel| #[trigger]
            self.count(key) + occurrences(keys, key) <= usize::MAX
    }

    /// The keys that get their first owner when they are acquired one after the other.
    pub open spec fn newly_held(self, keys: Seq<KeyModel>) -> Seq<KeyModel>
        decreases keys.len(),
    {
        if keys.len() == 0 {
            Seq::empty()
        } else {
            let before = self.newly_held(keys.drop_last());
            if self.count(keys.last()) + occurrences(keys.drop_last(), keys.last()) == 0 {
                before.push(keys.last())
            } else {
                before
            }
        }
    }

    /// The keys that lose their last owner when they are released one after the other.
    pub open spec fn newly_free(self, keys: Seq<KeyModel>) -> Seq<KeyModel>
        decreases keys.len(),
    {
        if keys.len() == 0 {
            Seq::empty()
        } else {
            let before = self.newly_free(keys.drop_last());
            if self.count(keys.last()) > 0 && self.count(keys.last()) == occurrences(
                keys,
                keys.last(),
            ) {
                before.push(keys.last())
            } else {
                before
            }
        }
    }

    /// The keys that have exactly `owners` owners.
    pub open spec fn with_owners(self, keys: Seq<KeyModel>, owners: nat) -> Seq<KeyModel>
        decreases keys.len(),
    {
        if keys.len() == 0 {
            Seq::empty()
        } else {
            let before = self.with_owners(keys.drop_last(), owners);
            if self.count(keys.last()) == owners {
                before.push(keys.last())
            } else {
                before
            }
        }
    }

    pub fn new() -> (counts: RefCounts)
        ensures
            counts.wf(),
            forall|key: KeyModel| #[trigger] counts.count(key) == 0,
    {
        RefCounts { counts: VecMap::new() }
    }

    /// The owners of a subscription.
    pub fn get(&self, key: &SubscriptionKey) -> (count: usize)
        requires
            self.wf(),
        ensures
            count == self.count(key@),
    {
        match self.counts.get(key) {
            Some(count) => *count,
            None => 0,
        }
    }

    /// One owner more.
    pub fn acquire_one(&mut self, key: &SubscriptionKey)
        requires
            old(self).wf(),
            old(self).count(key@) < usize::MAX,
        ensures
            final(self).wf(),
            forall|other: KeyModel| #[trigger]
                final(self).count(other) == old(self).count(other) + if other == key@ {
                    1nat
                } else {
                    0nat
                },
    {
        let ghost before = self.counts;
        match position(&self.counts.keys, key) {
            Some(at) => {
                proof {
                    before.lemma_entry(at as int);
                    lemma_update_value(before, at as int);
                }
                let next: usize = self.counts.values[at] + 1;
                self.counts.values[at] = next;
                proof {
                    assert(self.counts.values@ =~= before.values@.update(at as int, next));
                    assert(self.counts@ == before@.insert(key@, next));
                }
            },
            None => {
                self.counts.insert(key.clone(), 1);
            },
        }
    }

    /// One owner less; whether it was the last.
    pub fn release_one(&mut self, key: &SubscriptionKey) -> (last: bool)
        requires
            old(self).wf(),
        ensures
            final(self).wf(),
            last == (old(self).count(key@) == 1),
            forall|other: KeyModel| #[trigger]
                final(self).count(other) == if other == key@ && old(self).count(key@) > 0 {
                    (old(self).count(other) - 1) as nat
                } else {
                    old(self).count(other)
                },
    {
        let ghost before = self.counts;
        match position(&self.counts.keys, key) {
            None => false,
            Some(at) => {
                proof {
                    before.lemma_entry(at as int);
                    lemma_update_value(before, at as int);
                    assert(before@.contains_key(key@));
                }
                if self.counts.values[at] == 1 {
                    self.counts.remove_at(at);
                    proof {
                        assert forall|other: KeyModel| #[trigger]
                            self.counts@.contains_key(other) implies self.counts@[other] > 0 by {
                            assert(before@.contains_key(other));
                        }
                    }
                    true
                } else {
                    let next: usize = self.counts.values[at] - 1;
                    self.counts.values[at] = next;
                    proof {
                        assert(self.counts.values@ =~= before.values@.update(at as int, next));
                        assert(self.counts@ == before@.insert(key@, next));
                    }
                    false
                }
            },
        }
    }

    /// One owner more for each key, in order; the keys that have got their first.
    pub fn acquire_all(&mut self, keys: &Vec<SubscriptionKey>) -> (first: Vec<SubscriptionArg>)
        requires
            old(self).wf(),
            old(self).has_room(key_models(keys@)),
        ensures
            final(self).wf(),
            forall|key: KeyModel| #[trigger]
                final(self).count(key) == old(self).count(key) + occurrences(
                    key_models(keys@),
                    key,
                ),
            arg_models(first@) == key_args(old(self).newly_held(key_models(keys@))),
    {
        let mut first: Vec<SubscriptionArg> = Vec::new();
        let ghost all = key_models(keys@);
        let mut i: usize = 0;
        proof {
            assert(all.take(0) =~= Seq::<KeyModel>::empty());
            assert(arg_models(first@) =~= key_args(old(self).newly_held(all.take(0))));
        }
        while i < keys.len()
            invariant
                all == key_models(keys@),
                i <= keys@.len(),
                self.wf(),
                old(self).has_room(all),
                forall|key: KeyModel| #[trigger]
                    self.count(key) == old(self).count(key) + occurrences(all.take(i as int), key),
                arg_models(first@) == key_args(old(self).newly_held(all.take(i as int))),
            decreases keys@.len() - i,
        {
            let ghost earlier = *self;
            let ghost fewer = all.take(i as int);
            let ghost listed = first@;
            proof {
                assert(all.take(i + 1).drop_last() =~= fewer);
                assert(all.take(i + 1).last() == keys@[i as int]@);
                lemma_occurrences_grow(all, i + 1, keys@[i as int]@);
                assert(old(self).count(keys@[i as int]@) + occurrences(all, keys@[i as int]@)
                    <= usize::MAX);
            }
            if self.get(&keys[i]) == 0 {
                first.push(keys[i].as_arg());
                assert(arg_models(first@) =~= arg_models(listed).push(keys@[i as int]@.arg()));
            }
            self.acquire_one(&keys[i]);
            proof {
                assert(arg_models(first@) =~= key_args(
                    old(self).newly_held(all.take(i + 1)),
                ));
                assert forall|key: KeyModel| #[trigger]
                    self.count(key) == old(self).count(key) + occurrences(
                        all.take(i + 1),
                        key,
                    ) by {
                    assert(earlier.count(key) == old(self).count(key) + occurrences(fewer, key));
                }
            }
            i += 1;
        }
        assert(all.take(i as int) =~= all);
        first
    }

    /// One owner less for each key, in order; the keys that have lost their last.
    pub fn release_all(&mut self, keys: &Vec<SubscriptionKey>) -> (last: Vec<SubscriptionArg>)
        requires
            old(self).wf(),
        ensures
            final(self).wf(),
            forall|key: KeyModel| #[trigger]
                final(self).count(key) == held_after(
                    old(self).count(key),
                    occurrences(key_models(keys@), key),
                    true,
                ),
            arg_models(last@) == key_args(old(self).newly_free(key_models(keys@))),
    {
        let mut last: Vec<SubscriptionArg> = Vec::new();
        let ghost all = key_models(keys@);
        let mut i: usize = 0;
        proof {
            assert(all.take(0) =~= Seq::<KeyModel>::empty());
            assert(arg_models(last@) =~= key_args(old(self).newly_free(all.take(0))));
        }
        while i < keys.len()
            invariant
                all == key_models(keys@),
                i <= keys@.len(),
                self.wf(),
                forall|key: KeyModel| #[trigger]
                    self.count(key) == held_after(
                        old(self).count(key),
                        occurrences(all.take(i as int), key),
                        true,
                    ),
                arg_models(last@) == key_args(old(self).newly_free(all.take(i as int))),
            decreases keys@.len() - i,
        {
            let ghost earlier = *self;
            let ghost fewer = all.take(i as int);
            let ghost listed = last@;
            proof {
                assert(all.take(i + 1).drop_last() =~= fewer);
                assert(all.take(i + 1).last() == keys@[i as int]@);
            }
            if self.release_one(&keys[i]) {
                last.push(keys[i].as_arg());
                assert(arg_models(last@) =~= arg_models(listed).push(keys@[i as int]@.arg()));
            }
            proof {
                assert(earlier.count(keys@[i as int]@) == held_after(
                    old(self).count(keys@[i as int]@),
                    occurrences(fewer, keys@[i as int]@),
                    true,
                ));
                assert(arg_models(last@) =~= key_args(old(self).newly_free(all.take(i + 1))));
                assert forall|key: KeyModel| #[trigger]
                    self.count(key) == held_after(
                        old(self).count(key),
                        occurrences(all.take(i + 1), key),
                        true,
                    ) by {
                    assert(earlier.count(key) == held_after(
                        old(self).count(key),
                        occurrences(fewer, key),
                        true,
                    ));
                }
            }
            i += 1;
        }
        assert(all.take(i as int) =~= all);
        last
    }

    /// Those of the keys that have exactly `owners` owners.
    pub fn select(&self, keys: &Vec<SubscriptionKey>, owners: usize) -> (selected: Vec<
        SubscriptionArg,
    >)
        requires
            self.wf(),
        ensures
            arg_models(selected@) == key_args(
                self.with_owners(key_models(keys@), owners as nat),
            ),
    {
        let mut selected: Vec<SubscriptionArg> = Vec::new();
        let ghost all = key_models(keys@);
        let mut i: usize = 0;
        proof {
            assert(all.take(0) =~= Seq::<KeyModel>::empty());
            assert(arg_models(selected@) =~= key_args(
                self.with_owners(all.take(0), owners as nat),
            ));
        }
        while i < keys.len()
            invariant
                all == key_models(keys@),
                self.wf(),
                i <= keys@.len(),
                arg_models(selected@) == key_args(
                    self.with_owners(all.take(i as int), owners as nat),
                ),
            decreases keys@.len() - i,
        {
            let ghost listed = selected@;
            proof {
                assert(all.take(i + 1).drop_last() =~= all.take(i as int));
                assert(all.take(i + 1).last() == keys@[i as int]@);
            }
            if self.get(&keys[i]) == owners {
                selected.push(keys[i].as_arg());
                assert(arg_models(selected@) =~= arg_models(listed).push(keys@[i as int]@.arg()));
            }
            assert(arg_models(selected@) =~= key_args(
                self.with_owners(all.take(i + 1), owners as nat),
            ));
            i += 1;
        }
        assert(all.take(i as int) =~= all);
        selected
    }

    /// One argument for every subscription that has owners.
    pub fn all_args(&self) -> (args: Vec<SubscriptionArg>)
        requires
            self.wf(),
        ensures
            arg_models(args@) == key_args(key_models(self.counts.keys@)),
    {
        let keys: &Vec<SubscriptionKey> = &self.counts.keys;
        let mut args: Vec<SubscriptionArg> = Vec::new();
        let mut i: usize = 0;
        while i < keys.len()
            invariant
                i <= keys@.len(),
                args@.len() == i,
                forall|j: int| 0 <= j < i ==> (#[trigger] args@[j])@ == keys@[j]@.arg(),
            decreases keys@.len() - i,
        {
            args.push(keys[i].as_arg());
            i += 1;
        }
        assert(arg_models(args@) =~= key_args(key_models(keys@)));
        args
    }

    /// The subscriptions that have owners, each once.
    pub fn all_keys(&self) -> (keys: Vec<SubscriptionKey>)
        requires
            self.wf(),
        ensures
            keys@ == self.counts.keys@,
    {
        let mut keys: Vec<SubscriptionKey> = Vec::new();
        let mut i: usize = 0;
        while i < self.counts.keys.len()
            invariant
                i <= self.counts.keys@.len(),
                keys@ == self.counts.keys@.take(i as int),
            decreases self.counts.keys@.len() - i,
        {
            keys.push(self.counts.keys[i].clone());
            assert(keys@ =~= self.counts.keys@.take(i + 1));
            i += 1;
        }
        assert(self.counts.keys@.take(i as int) =~= self.counts.keys@);
        keys
    }

    /// The same owners of the same subscriptions.
    pub fn duplicate(&self) -> (copy: RefCounts)
        requires
            self.wf(),
        ensures
            copy.wf(),
            copy.counts.keys@ == self.counts.keys@,
            forall|key: KeyModel| #[trigger] copy.count(key) == self.count(key),
    {
        let keys: Vec<SubscriptionKey> = self.all_keys();
        let mut values: Vec<usize> = Vec::new();
        let mut i: usize = 0;
        while i < self.counts.values.len()
            invariant
                i <= self.counts.values@.len(),
                values@ == self.counts.values@.take(i as int),
            decreases self.counts.values@.len() - i,
        {
            values.push(self.counts.values[i]);
            assert(values@ =~= self.counts.values@.take(i + 1));
            i += 1;
        }
        assert(values@ =~= self.counts.values@);
        let copy = RefCounts { counts: VecMap { keys, values } };
        proof {
            assert(copy.counts@ =~= self.counts@);
            assert forall|key: KeyModel| #[trigger] copy.count(key) == self.count(key) by {
                assert(copy.counts@.contains_key(key) == self.counts@.contains_key(key));
            }
        }
        copy
    }
}

/// A key occurs at most as often in the first keys as in all.
pub proof fn lemma_occurrences_grow(keys: Seq<KeyModel>, many: int, key: KeyModel)
    requires
        0 <= many <= keys.len(),
    ensures
        occurrences(keys.take(many), key) <= occurrences(keys, key),
    decreases keys.len(),
{
    if many == keys.len() {
        assert(keys.take(many) =~= keys);
    } else {
        lemma_occurrences_grow(keys.drop_last(), many, key);
        assert(keys.drop_last().take(many) =~= keys.take(many));
    }
}

/// A key is among the keys exactly if it occurs.
pub proof fn lemma_occurs(keys: Seq<KeyModel>, key: KeyModel)
    ensures
        keys.contains(key) <==> occurrences(keys, key) > 0,
    decreases keys.len(),
{
    if keys.len() > 0 {
        let fewer = keys.drop_last();
        lemma_occurs(fewer, key);
        if keys.contains(key) {
            let i = choose|i: int| 0 <= i < keys.len() && keys[i] == key;
            if i < fewer.len() {
                assert(fewer[i] == key);
            }
        }
        if fewer.contains(key) {
            let i = choose|i: int| 0 <= i < fewer.len() && fewer[i] == key;
            assert(keys[i] == key);
        }
    }
}

/// Every listed subscription has owners, and every subscription with owners is listed once.
pub proof fn law_listed_subscriptions_have_owners(counts: RefCounts, key: KeyModel)
    requires
        counts.wf(),
    ensures
        has_key(counts.counts.keys@, key) <==> counts.count(key) > 0,
        crate::collections::distinct(counts.counts.keys@),
{
    assert(counts.counts@.contains_key(key) == has_key(counts.counts.keys@, key));
}

/// Releasing as many owners as were acquired leaves as many as before.
pub proof fn law_release_undoes_acquire(before: nat, times: nat)
    ensures
        held_after(held_after(before, times, false), times, true) == before,
{
}

/// A key is asked for exactly where it had no owner and is acquired.
pub proof fn law_only_first_owners_subscribe(
    counts: RefCounts,
    keys: Seq<KeyModel>,
    key: KeyModel,
)
    ensures
        counts.newly_held(keys).contains(key) <==> counts.count(key) == 0 && keys.contains(key),
        occurrences(counts.newly_held(keys), key) <= 1,
    decreases keys.len(),
{
    if keys.len() > 0 {
        let fewer = keys.drop_last();
        let before = counts.newly_held(fewer);
        law_only_first_owners_subscribe(counts, fewer, key);
        lemma_occurs(keys, key);
        lemma_occurs(fewer, key);
        lemma_occurs(before, key);
        lemma_occurs(counts.newly_held(keys), key);
        if counts.count(keys.last()) + occurrences(fewer, keys.last()) == 0 {
            assert(counts.newly_held(keys).drop_last() =~= before);
        }
    } else {
        lemma_occurs(counts.newly_held(keys), key);
    }
}

/// A key is given up exactly where all its owners let it go.
pub proof fn law_only_last_owners_unsubscribe(
    counts: RefCounts,
    keys: Seq<KeyModel>,
    key: KeyModel,
)
    ensures
        counts.newly_free(keys).contains(key) <==> 0 < counts.count(key) <= occurrences(keys, key),
        occurrences(counts.newly_free(keys), key) <= 1,
    decreases keys.len(),
{
    if keys.len() > 0 {
        let fewer = keys.drop_last();
        let before = counts.newly_free(fewer);
        law_only_last_owners_unsubscribe(counts, fewer, key);
        lemma_occurs(before, key);
        lemma_occurs(counts.newly_free(keys), key);
        if counts.count(keys.last()) > 0 && counts.count(keys.last()) == occurrences(
            keys,
            keys.last(),
        ) {
            assert(counts.newly_free(keys).drop_last() =~= before);
        }
    } else {
        lemma_occurs(counts.newly_free(keys), key);
    }
}

} // verus!
