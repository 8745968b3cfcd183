//! Ordered sets of strings.
use vstd::prelude::*;

use crate::text;
use crate::text::{rank, Rank};

verus! {

/// A set of strings, walked in ascending order.
#[derive(Debug)]
pub struct KeySet {
    keys: Vec<String>,
}

impl View for KeySet {
    type V = Set<Seq<char>>;

    closed spec fn view(&self) -> Set<Seq<char>> {
        text::views(self.keys@).to_set()
    }
}

/// Looks `key` up in an ascending list: where it is or belongs, and whether it is there.
pub(crate) fn locate(keys: &Vec<String>, key: &str) -> (r: (usize, bool))
    requires
        text::ascending(text::views(keys@)),
    ensures
        r.0 <= keys@.len(),
        r.1 ==> r.0 < keys@.len() && text::views(keys@)[r.0 as int] == key@,
        !r.1 ==> forall|i: int|
            0 <= i < r.0 ==> text::before(#[trigger] text::views(keys@)[i], key@),
        !r.1 ==> forall|i: int|
            r.0 <= i < keys@.len() ==> text::before(key@, #[trigger] text::views(keys@)[i]),
{
    let ghost all = text::views(keys@);
    let mut low: usize = 0;
    let mut high: usize = keys.len();
    while low < high
        invariant
            all == text::views(keys@),
            text::ascending(all),
            low <= high <= keys@.len(),
            forall|i: int| 0 <= i < low ==> text::before(#[trigger] all[i], key@),
            forall|i: int| high <= i < all.len() ==> text::before(key@, #[trigger] all[i]),
        decreases high - low,
    {
        let mid: usize = low + (high - low) / 2;
        assert(all[mid as int] == keys@[mid as int]@);
        match rank(keys[mid].as_str(), key) {
            Rank::Same => {
                return (mid, true);
            },
            Rank::Before => {
                assert forall|i: int| 0 <= i < mid + 1 implies text::before(
                    #[trigger] all[i],
                    key@,
                ) by {
                    if i < mid {
                        text::lemma_before_transitive(all[i], all[mid as int], key@);
                    }
                }
                low = mid + 1;
            },
            Rank::After => {
                assert forall|i: int| mid <= i < all.len() implies text::before(
                    key@,
                    #[trigger] all[i],
                ) by {
                    if i > mid {
                        text::lemma_before_transitive(key@, all[mid as int], all[i]);
                    }
                }
                high = mid;
            },
        }
    }
    (low, false)
}

impl KeySet {
    #[verifier::type_invariant]
    spec fn inv(self) -> bool {
        text::ascending(text::views(self.keys@))
    }

    /// The empty set.
    pub fn new() -> (r: KeySet)
        ensures
            r@ == Set::<Seq<char>>::empty(),
    {
        let r = KeySet { keys: Vec::new() };
        assert(r@ =~= Set::<Seq<char>>::empty());
        r
    }

    /// Adds `key`.
    pub fn insert(&mut self, key: String)
        ensures
            final(self)@ == old(self)@.insert(key@),
    {
        proof {
            use_type_invariant(&*self);
        }
        let mut keys: Vec<String> = Vec::new();
        std::mem::swap(&mut keys, &mut self.keys);
        let ghost all = text::views(keys@);
        let (at, found) = locate(&keys, key.as_str());
        if found {
            assert(all.to_set().contains(all[at as int]));
            assert(all.to_set() =~= all.to_set().insert(key@));
        } else {
            proof {
                text::lemma_insert(all, at as int, key@);
                assert(text::views(keys@.insert(at as int, key)) =~= all.insert(at as int, key@));
            }
            keys.insert(at, key);
        }
        self.keys = keys;
    }

    /// Whether `key` is in the set.
    pub fn contains(&self, key: &str) -> (r: bool)
        ensures
            r == self@.contains(key@),
    {
        proof {
            use_type_invariant(self);
        }
        let (at, found) = locate(&self.keys, key);
        proof {
            let all = text::views(self.keys@);
            if found {
                assert(all.contains(all[at as int]));
            } else if all.contains(key@) {
                let i = all.index_of(key@);
                text::lemma_before_irreflexive(key@);
            }
        }
        found
    }

    /// How many keys there are.
    pub fn len(&self) -> (n: usize)
        ensures
            n == text::sorted(self@).len(),
            n == self@.len(),
            self@.finite(),
    {
        proof {
            use_type_invariant(self);
            let all = text::views(self.keys@);
            text::lemma_sorted(all);
            assert(all.no_duplicates()) by {
                assert forall|i: int, j: int| 0 <= i < all.len() && 0 <= j < all.len() && i
                    != j implies all[i] != all[j] by {
                    text::lemma_before_irreflexive(all[i]);
                    if i < j {
                        assert(text::before(all[i], all[j]));
                    } else {
                        assert(text::before(all[j], all[i]));
                    }
                }
            }
            all.unique_seq_to_set();
        }
        self.keys.len()
    }

    /// Whether the set is empty.
    pub fn is_empty(&self) -> (r: bool)
        ensures
            r == (self@ == Set::<Seq<char>>::empty()),
    {
        proof {
            let all = text::views(self.keys@);
            if all.len() > 0 {
                assert(self@.contains(all[0]));
            } else {
                assert(self@ =~= Set::<Seq<char>>::empty());
            }
        }
        self.keys.len() == 0
    }

    /// The key at position `i` in ascending order.
    pub fn get(&self, i: usize) -> (key: &String)
        requires
            i < text::sorted(self@).len(),
        ensures
            key@ == text::sorted(self@)[i as int],
            self@.contains(key@),
    {
        proof {
            use_type_invariant(self);
            let all = text::views(self.keys@);
            text::lemma_sorted(all);
            assert(all.contains(all[i as int]));
        }
        &self.keys[i]
    }

    /// The keys that are not in `other`.
    pub fn minus(&self, other: &KeySet) -> (r: KeySet)
        ensures
            r@ == self@.difference(other@),
    {
        let ghost all = text::views(self.keys@);
        let mut r = KeySet::new();
        let mut i: usize = 0;
        while i < self.keys.len()
            invariant
                all == text::views(self.keys@),
                i <= all.len(),
                r@ == all.take(i as int).to_set().difference(other@),
            decreases all.len() - i,
        {
            assert(all.take(i + 1) =~= all.take(i as int).push(all[i as int]));
            proof {
                text::lemma_push_to_set(all.take(i as int), all[i as int]);
            }
            if !other.contains(self.keys[i].as_str()) {
                r.insert(self.keys[i].clone());
            }
            assert(r@ =~= all.take(i + 1).to_set().difference(other@));
            i = i + 1;
        }
        assert(all.take(i as int) =~= all);
        r
    }

    /// The keys other than `key`.
    pub fn without(&self, key: &str) -> (r: KeySet)
        ensures
            r@ == self@.remove(key@),
    {
        let mut other = KeySet::new();
        other.insert(key.to_string());
        let r = self.minus(&other);
        assert(r@ =~= self@.remove(key@));
        r
    }

    /// Adds every key of `other`.
    pub fn extend(&mut self, other: &KeySet)
        ensures
            final(self)@ == old(self)@.union(other@),
    {
        let ghost all = text::views(other.keys@);
        let ghost start = self@;
        let mut i: usize = 0;
        assert(start =~= start.union(all.take(0).to_set()));
        while i < other.keys.len()
            invariant
                all == text::views(other.keys@),
                i <= all.len(),
                self@ == start.union(all.take(i as int).to_set()),
            decreases all.len() - i,
        {
            assert(all.take(i + 1) =~= all.take(i as int).push(all[i as int]));
            proof {
                text::lemma_push_to_set(all.take(i as int), all[i as int]);
            }
            self.insert(other.keys[i].clone());
            assert(self@ =~= start.union(all.take(i + 1).to_set()));
            i = i + 1;
        }
        assert(all.take(i as int) =~= all);
    }

    /// The set of the entries of `list`.
    pub fn from_list(list: &Vec<&'static str>) -> (r: KeySet)
        ensures
            r@ == text::slice_views(list@).to_set(),
    {
        let ghost all = text::slice_views(list@);
        let mut r = KeySet::new();
        let mut i: usize = 0;
        assert(r@ =~= all.take(0).to_set());
        while i < list.len()
            invariant
                all == text::slice_views(list@),
                i <= all.len(),
                r@ == all.take(i as int).to_set(),
            decreases all.len() - i,
        {
            assert(all.take(i + 1) =~= all.take(i as int).push(all[i as int]));
            proof {
                text::lemma_push_to_set(all.take(i as int), all[i as int]);
            }
            r.insert(list[i].to_string());
            i = i + 1;
        }
        assert(all.take(i as int) =~= all);
        r
    }
}

impl Clone for KeySet {
    fn clone(&self) -> (r: KeySet)
        ensures
            r@ == self@,
    {
        let mut r = KeySet::new();
        r.extend(self);
        assert(r@ =~= self@);
        r
    }
}

} // verus!
