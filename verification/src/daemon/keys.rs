//! Sorted lists of keys, each key once.
use crate::text::{before, comes_before, same_text, texts};
use vstd::prelude::*;

verus! {

/// Whether keys are in order, each once.
pub open spec fn sorted(keys: Seq<Seq<char>>) -> bool {
    forall|i: int, j: int|
        0 <= i < j < keys.len() ==> before(#[trigger] keys[i], #[trigger] keys[j])
}

/// How many keys stand in front of `key`.
pub open spec fn slot(keys: Seq<Seq<char>>, key: Seq<char>) -> int
    decreases keys.len(),
{
    if keys.len() > 0 && before(keys[0], key) {
        1 + slot(keys.drop_first(), key)
    } else {
        0
    }
}

/// The keys with `key` in its place.
pub open spec fn insert_key(keys: Seq<Seq<char>>, key: Seq<char>) -> Seq<Seq<char>> {
    keys.insert(slot(keys, key), key)
}

/// The keys without `key`.
pub open spec fn drop_key(keys: Seq<Seq<char>>, key: Seq<char>) -> Seq<Seq<char>> {
    keys.remove(keys.index_of(key))
}

/// A list of keys in order, each once.
#[derive(Debug)]
pub struct SortedKeys {
    keys: Vec<String>,
}

impl View for SortedKeys {
    type V = Seq<Seq<char>>;

    closed spec fn view(&self) -> Seq<Seq<char>> {
        texts(self.keys@)
    }
}

impl SortedKeys {
    #[verifier::type_invariant]
    spec fn in_order(&self) -> bool {
        sorted(texts(self.keys@))
    }

    /// No keys.
    pub fn new() -> (keys: Self)
        ensures
            keys@ == Seq::<Seq<char>>::empty(),
    {
        let keys = SortedKeys { keys: Vec::new() };
        assert(keys@ =~= Seq::empty());
        keys
    }

    /// The keys, in order.
    pub fn as_vec(&self) -> (keys: &Vec<String>)
        ensures
            texts(keys@) == self@,
            sorted(self@),
    {
        proof {
            use_type_invariant(self);
        }
        &self.keys
    }

    /// The place of `key`, and whether it is there.
    fn find(&self, key: &str) -> (found: (usize, bool))
        ensures
            found.0 == slot(self@, key@),
            found.0 <= self@.len(),
            found.1 == self@.contains(key@),
            found.1 ==> found.0 == self@.index_of(key@),
    {
        proof {
            use_type_invariant(self);
        }
        let ghost all = self@;
        let mut i: usize = 0;
        assert(all.skip(0) =~= all);
        while i < self.keys.len() && comes_before(self.keys[i].as_str(), key)
            invariant
                i <= self.keys.len(),
                all == texts(self.keys@),
                slot(all, key@) == i + slot(all.skip(i as int), key@),
            decreases self.keys.len() - i,
        {
            assert(all.skip(i as int).drop_first() =~= all.skip(i + 1));
            i += 1;
        }
        let there = i < self.keys.len() && same_text(self.keys[i].as_str(), key);
        proof {
            sorted_keys_are_found(all, key@);
        }
        (i, there)
    }

    /// Whether `key` is there.
    pub fn contains(&self, key: &str) -> (there: bool)
        ensures
            there == self@.contains(key@),
    {
        self.find(key).1
    }

    /// Puts `key` in its place, unless it is there.
    pub fn insert(&mut self, key: &str) -> (new: bool)
        ensures
            new == !old(self)@.contains(key@),
            final(self)@ == if new {
                insert_key(old(self)@, key@)
            } else {
                old(self)@
            },
            sorted(final(self)@),
    {
        proof {
            use_type_invariant(&*self);
        }
        let (place, there) = self.find(key);
        if there {
            return false;
        }
        let ghost before = self@;
        let mut keys: Vec<String> = Vec::new();
        std::mem::swap(&mut self.keys, &mut keys);
        keys.insert(place, key.to_string());
        proof {
            assert(texts(keys@) =~= insert_key(before, key@));
            sorted_keys_stay_sorted(before, key@);
        }
        self.keys = keys;
        true
    }

    /// Takes `key` out, if it is there.
    pub fn remove(&mut self, key: &str) -> (there: bool)
        ensures
            there == old(self)@.contains(key@),
            final(self)@ == if there {
                drop_key(old(self)@, key@)
            } else {
                old(self)@
            },
            sorted(final(self)@),
    {
        proof {
            use_type_invariant(&*self);
        }
        let (place, there) = self.find(key);
        if !there {
            return false;
        }
        let ghost before = self@;
        let mut keys: Vec<String> = Vec::new();
        std::mem::swap(&mut self.keys, &mut keys);
        keys.remove(place);
        proof {
            assert(texts(keys@) =~= drop_key(before, key@));
            sorted_keys_stay_sorted(before, key@);
        }
        self.keys = keys;
        true
    }
}

pub(crate) proof fn lemma_irreflexive(a: Seq<char>)
    ensures
        !before(a, a),
    decreases a.len(),
{
    if a.len() > 0 {
        lemma_irreflexive(a.drop_first());
    }
}

proof fn lemma_transitive(a: Seq<char>, b: Seq<char>, c: Seq<char>)
    requires
        before(a, b),
        before(b, c),
    ensures
        before(a, c),
    decreases a.len(),
{
    if a.len() > 0 && b.len() > 0 && c.len() > 0 && a[0] == b[0] && b[0] == c[0] {
        lemma_transitive(a.drop_first(), b.drop_first(), c.drop_first());
    }
}

proof fn lemma_total(a: Seq<char>, b: Seq<char>)
    requires
        !before(a, b),
        !before(b, a),
    ensures
        a == b,
    decreases a.len(),
{
    if a.len() > 0 && b.len() > 0 {
        lemma_total(a.drop_first(), b.drop_first());
        assert(a =~= seq![a[0]] + a.drop_first());
        assert(b =~= seq![b[0]] + b.drop_first());
    } else {
        assert(a =~= b);
    }
}

proof fn lemma_slot(keys: Seq<Seq<char>>, key: Seq<char>)
    requires
        sorted(keys),
    ensures
        0 <= slot(keys, key) <= keys.len(),
        forall|i: int| 0 <= i < slot(keys, key) ==> before(#[trigger] keys[i], key),
        forall|i: int| slot(keys, key) <= i < keys.len() ==> !before(#[trigger] keys[i], key),
    decreases keys.len(),
{
    if keys.len() > 0 {
        let rest = keys.drop_first();
        assert forall|i: int, j: int| 0 <= i < j < rest.len() implies before(
            #[trigger] rest[i],
            #[trigger] rest[j],
        ) by {
            assert(rest[i] == keys[i + 1] && rest[j] == keys[j + 1]);
        }
        if before(keys[0], key) {
            lemma_slot(rest, key);
            assert forall|i: int| 0 <= i < slot(keys, key) implies before(
                #[trigger] keys[i],
                key,
            ) by {
                if i > 0 {
                    assert(rest[i - 1] == keys[i]);
                }
            }
            assert forall|i: int| slot(keys, key) <= i < keys.len() implies !before(
                #[trigger] keys[i],
                key,
            ) by {
                assert(rest[i - 1] == keys[i]);
            }
        } else {
            assert forall|i: int| 0 <= i < keys.len() implies !before(#[trigger] keys[i], key) by {
                if before(keys[i], key) && i > 0 {
                    assert(before(keys[0], keys[i]));
                    lemma_transitive(keys[0], keys[i], key);
                }
            }
        }
    }
}

/// In a sorted list a key that is there at all stands behind exactly those that come before it.
pub proof fn sorted_keys_are_found(keys: Seq<Seq<char>>, key: Seq<char>)
    requires
        sorted(keys),
    ensures
        0 <= slot(keys, key) <= keys.len(),
        keys.contains(key) <==> slot(keys, key) < keys.len() && keys[slot(keys, key)] == key,
        keys.contains(key) ==> keys.index_of(key) == slot(keys, key),
{
    lemma_slot(keys, key);
    if keys.contains(key) {
        let i = keys.index_of(key);
        lemma_irreflexive(key);
        let s = slot(keys, key);
        assert(s <= i);
        assert(!before(keys[s], key));
        if s < i {
            assert(before(keys[s], keys[i]));
        }
    }
}

/// Inserting a key that is not there and dropping one that is keep the list sorted, and change
/// what it holds by that key alone.
pub proof fn sorted_keys_stay_sorted(keys: Seq<Seq<char>>, key: Seq<char>)
    requires
        sorted(keys),
    ensures
        !keys.contains(key) ==> sorted(insert_key(keys, key)) && insert_key(keys, key).to_set()
            == keys.to_set().insert(key),
        keys.contains(key) ==> sorted(drop_key(keys, key)) && drop_key(keys, key).to_set()
            == keys.to_set().remove(key),
{
    lemma_slot(keys, key);
    sorted_keys_are_found(keys, key);
    let s = slot(keys, key);
    if !keys.contains(key) {
        let after = insert_key(keys, key);
        assert forall|i: int, j: int| 0 <= i < j < after.len() implies before(
            #[trigger] after[i],
            #[trigger] after[j],
        ) by {
            let a = if i < s {
                i
            } else {
                i - 1
            };
            let b = if j < s {
                j
            } else {
                j - 1
            };
            if i == s {
                assert(after[j] == keys[b]);
                assert(!before(keys[b], key));
                if !before(key, keys[b]) {
                    lemma_total(key, keys[b]);
                    assert(keys.contains(key));
                }
            } else if j == s {
                assert(after[i] == keys[a]);
            } else {
                assert(after[i] == keys[a] && after[j] == keys[b]);
            }
        }
        assert forall|k: Seq<char>| after.to_set().contains(k) <==> #[trigger] keys.to_set().insert(
            key,
        ).contains(k) by {
            if after.contains(k) {
                let i = after.index_of(k);
                if i < s {
                    assert(keys[i] == k);
                } else if i > s {
                    assert(keys[i - 1] == k);
                }
            }
            if keys.contains(k) {
                let i = keys.index_of(k);
                if i < s {
                    assert(after[i] == k);
                } else {
                    assert(after[i + 1] == k);
                }
            }
            if k == key {
                assert(after[s] == k);
            }
        }
        assert(after.to_set() =~= keys.to_set().insert(key));
    } else {
        let after = drop_key(keys, key);
        assert forall|i: int, j: int| 0 <= i < j < after.len() implies before(
            #[trigger] after[i],
            #[trigger] after[j],
        ) by {
            let a = if i < s {
                i
            } else {
                i + 1
            };
            let b = if j < s {
                j
            } else {
                j + 1
            };
            assert(after[i] == keys[a] && after[j] == keys[b]);
        }
        assert forall|k: Seq<char>| after.to_set().contains(k) <==> #[trigger] keys.to_set().remove(
            key,
        ).contains(k) by {
            if after.contains(k) {
                let i = after.index_of(k);
                let a = if i < s {
                    i
                } else {
                    i + 1
                };
                assert(keys[a] == k);
                lemma_irreflexive(key);
                if k == key {
                    assert(before(keys[a], keys[s]) || before(keys[s], keys[a]));
                }
            }
            if keys.contains(k) && k != key {
                let i = keys.index_of(k);
                if i < s {
                    assert(after[i] == k);
                } else {
                    assert(after[i - 1] == k);
                }
            }
        }
        assert(after.to_set() =~= keys.to_set().remove(key));
    }
}

} // verus!
