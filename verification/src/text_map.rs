//! Maps keyed by strings.
use vstd::prelude::*;

use crate::key_set::{locate, KeySet};
use crate::text;

verus! {

/// A map from strings to values, kept in ascending order of its keys.
pub struct TextMap<V> {
    keys: Vec<String>,
    values: Vec<V>,
}

impl<V> View for TextMap<V> {
    type V = Map<Seq<char>, V>;

    closed spec fn view(&self) -> Map<Seq<char>, V> {
        let all = text::views(self.keys@);
        Map::new(|k: Seq<char>| all.contains(k), |k: Seq<char>| self.values@[all.index_of(k)])
    }
}

/// In an ascending list each entry stands at its own position.
proof fn lemma_index(all: Seq<Seq<char>>, i: int)
    requires
        text::ascending(all),
        0 <= i < all.len(),
    ensures
        all.contains(all[i]),
        all.index_of(all[i]) == i,
{
    let j = all.index_of(all[i]);
    text::lemma_before_irreflexive(all[i]);
    if j < i {
        assert(text::before(all[j], all[i]));
    } else if i < j {
        assert(text::before(all[i], all[j]));
    }
}

impl<V> TextMap<V> {
    #[verifier::type_invariant]
    spec fn inv(self) -> bool {
        &&& self.keys@.len() == self.values@.len()
        &&& text::ascending(text::views(self.keys@))
    }

    /// The empty map.
    pub fn new() -> (r: TextMap<V>)
        ensures
            r@ == Map::<Seq<char>, V>::empty(),
    {
        let r = TextMap { keys: Vec::new(), values: Vec::new() };
        assert(r@ =~= Map::<Seq<char>, V>::empty());
        r
    }

    /// Maps `key` to `value`, in place of what it was mapped to before.
    pub fn insert(self, key: String, value: V) -> (r: TextMap<V>)
        ensures
            r@ == self@.insert(key@, value),
    {
        proof {
            use_type_invariant(&self);
        }
        let ghost old_map = self@;
        let ghost all = text::views(self.keys@);
        let TextMap { keys, values } = self;
        let mut keys = keys;
        let mut values = values;
        let ghost old_values = values@;
        let (at, found) = locate(&keys, key.as_str());
        if found {
            values.set(at, value);
            proof {
                assert forall|k: Seq<char>| all.contains(k) implies all.index_of(k) != at || k
                    == key@ by {}
                lemma_index(all, at as int);
            }
            let r = TextMap { keys, values };
            assert(r@ =~= old_map.insert(key@, value));
            r
        } else {
            proof {
                text::lemma_insert(all, at as int, key@);
                assert(text::views(keys@.insert(at as int, key)) =~= all.insert(at as int, key@));
            }
            keys.insert(at, key);
            values.insert(at, value);
            let r = TextMap { keys, values };
            proof {
                let new = text::views(r.keys@);
                assert(new == all.insert(at as int, key@));
                assert forall|k: Seq<char>| #[trigger] new.contains(k) implies old_map.insert(
                    key@,
                    value,
                ).contains_key(k) && r@[k] == old_map.insert(key@, value)[k] by {
                    assert(new.to_set().contains(k));
                    let i = new.index_of(k);
                    if i < at {
                        lemma_index(all, i);
                        text::lemma_before_irreflexive(k);
                        assert(all[i] == k);
                    } else if i > at {
                        lemma_index(all, i - 1);
                        text::lemma_before_irreflexive(k);
                        assert(all[i - 1] == k);
                    }
                }
                assert forall|k: Seq<char>| old_map.insert(key@, value).contains_key(
                    k,
                ) implies #[trigger] new.contains(k) by {
                    if k == key@ {
                        assert(new[at as int] == k);
                    } else {
                        assert(all.to_set().contains(k));
                        assert(new.to_set().contains(k));
                    }
                }
                assert(r@ =~= old_map.insert(key@, value));
            }
            r
        }
    }

    /// What `key` is mapped to.
    pub fn get(&self, key: &str) -> (r: Option<&V>)
        ensures
            r is Some <==> self@.contains_key(key@),
            r is Some ==> *r->0 == self@[key@],
    {
        proof {
            use_type_invariant(self);
        }
        let ghost all = text::views(self.keys@);
        let (at, found) = locate(&self.keys, key);
        if found {
            proof {
                lemma_index(all, at as int);
            }
            Some(&self.values[at])
        } else {
            proof {
                if all.contains(key@) {
                    let i = all.index_of(key@);
                    text::lemma_before_irreflexive(key@);
                }
            }
            None
        }
    }

    /// The keys of the map.
    pub fn keys(&self) -> (r: KeySet)
        ensures
            r@ == self@.dom(),
    {
        let ghost all = text::views(self.keys@);
        let mut r = KeySet::new();
        let mut i: usize = 0;
        assert(r@ =~= all.take(0).to_set());
        while i < self.keys.len()
            invariant
                all == text::views(self.keys@),
                i <= all.len(),
                r@ == all.take(i as int).to_set(),
            decreases all.len() - i,
        {
            assert(all.take(i + 1) =~= all.take(i as int).push(all[i as int]));
            proof {
                text::lemma_push_to_set(all.take(i as int), all[i as int]);
            }
            r.insert(self.keys[i].clone());
            i = i + 1;
        }
        assert(all.take(i as int) =~= all);
        assert(r@ =~= self@.dom());
        r
    }
}

} // verus!
