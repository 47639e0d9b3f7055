//! A map from strings to strings: the values that tests hand on to each
//! other, and a request's headers.
use vstd::prelude::*;

verus! {

/// A map from strings to strings, one value per key.
pub struct StringMap {
    keys: Vec<String>,
    values: Vec<String>,
}

/// The texts of a list of strings.
pub open spec fn texts(v: Seq<String>) -> Seq<Seq<char>> {
    v.map_values(|s: String| s@)
}

/// The position of `k` among `keys` (meaningful when it occurs).
pub open spec fn key_position(keys: Seq<Seq<char>>, k: Seq<char>) -> int {
    choose|i: int| 0 <= i < keys.len() && keys[i] == k
}

/// In a list without duplicates, the position of an element is where it stands.
pub proof fn lemma_key_position(keys: Seq<Seq<char>>, i: int)
    requires
        keys.no_duplicates(),
        0 <= i < keys.len(),
    ensures
        key_position(keys, keys[i]) == i,
{
    assert(keys.contains(keys[i]));
}

impl StringMap {
    #[verifier::type_invariant]
    spec fn inv(self) -> bool {
        &&& self.keys@.len() == self.values@.len()
        &&& texts(self.keys@).no_duplicates()
    }

    /// The keys, in the order they were first inserted.
    pub closed spec fn key_texts(&self) -> Seq<Seq<char>> {
        texts(self.keys@)
    }

    /// The values, position for position with the keys.
    pub closed spec fn value_texts(&self) -> Seq<Seq<char>> {
        texts(self.values@)
    }
}

impl View for StringMap {
    type V = Map<Seq<char>, Seq<char>>;

    closed spec fn view(&self) -> Map<Seq<char>, Seq<char>> {
        Map::new(
            |k: Seq<char>| texts(self.keys@).contains(k),
            |k: Seq<char>| texts(self.values@)[key_position(texts(self.keys@), k)],
        )
    }
}

impl StringMap {
    /// An empty map.
    pub fn new() -> (res: Self)
        ensures
            res@ == Map::<Seq<char>, Seq<char>>::empty(),
            res.key_texts().len() == 0,
    {
        let res = StringMap { keys: Vec::new(), values: Vec::new() };
        assert(res@ =~= Map::<Seq<char>, Seq<char>>::empty());
        res
    }

    /// The number of keys.
    pub fn len(&self) -> (res: usize)
        ensures
            res == self.key_texts().len(),
            res == self.value_texts().len(),
            self.key_texts().no_duplicates(),
            forall|k: Seq<char>| self@.contains_key(k) <==> self.key_texts().contains(k),
    {
        proof { use_type_invariant(self); }
        self.keys.len()
    }

    /// The key and value at position `i`.
    pub fn entry(&self, i: usize) -> (res: (&String, &String))
        requires
            i < self.key_texts().len(),
        ensures
            res.0@ == self.key_texts()[i as int],
            res.1@ == self.value_texts()[i as int],
            self@.contains_key(res.0@),
            self@[res.0@] == res.1@,
    {
        proof {
            use_type_invariant(self);
            lemma_key_position(texts(self.keys@), i as int);
            assert(texts(self.keys@).contains(texts(self.keys@)[i as int]));
        }
        (&self.keys[i], &self.values[i])
    }

    fn position(&self, key: &String) -> (res: Option<usize>)
        ensures
            res is Some <==> self.key_texts().contains(key@),
            res matches Some(i) ==> i < self.key_texts().len() && self.key_texts()[i as int] == key@,
    {
        proof { use_type_invariant(self); }
        let mut i: usize = 0;
        while i < self.keys.len()
            invariant
                i <= self.keys@.len(),
                forall|j: int| 0 <= j < i ==> #[trigger] texts(self.keys@)[j] != key@,
            decreases self.keys@.len() - i,
        {
            if self.keys[i] == *key {
                assert(texts(self.keys@)[i as int] == key@);
                return Some(i);
            }
            i = i + 1;
        }
        None
    }

    /// The value at `key`, if any.
    pub fn get(&self, key: &String) -> (res: Option<String>)
        ensures
            res is Some <==> self@.contains_key(key@),
            res matches Some(v) ==> v@ == self@[key@],
    {
        match self.position(key) {
            Some(i) => {
                proof {
                    use_type_invariant(self);
                    lemma_key_position(texts(self.keys@), i as int);
                    assert(texts(self.keys@).contains(key@));
                }
                Some(self.values[i].clone())
            },
            None => None,
        }
    }

    /// Set `key` to `value`, in place of any value it had.
    pub fn insert(&mut self, key: String, value: String)
        ensures
            final(self)@ == old(self)@.insert(key@, value@),
    {
        proof { use_type_invariant(&*self); }
        let ghost old_keys = texts(self.keys@);
        let ghost old_vals = texts(self.values@);
        let ghost k = key@;
        let ghost v = value@;
        let pos = self.position(&key);
        let mut whole = StringMap::new();
        std::mem::swap(&mut whole, self);
        let StringMap { keys, mut values } = whole;
        match pos {
            Some(i) => {
                values.set(i, value);
                proof {
                    let ks = texts(keys@);
                    let vs = texts(values@);
                    assert(ks =~= old_keys);
                    assert(vs =~= old_vals.update(i as int, v));
                }
                *self = StringMap { keys, values };
                proof {
                    let ks = texts(self.keys@);
                    let vs = texts(self.values@);
                    assert(ks =~= old_keys);
                    assert(vs =~= old_vals.update(i as int, v));
                    assert forall|q: Seq<char>| #[trigger] old_keys.contains(q)
                        implies key_position(ks, q) == key_position(old_keys, q) by {
                        let a = key_position(ks, q);
                        let b = key_position(old_keys, q);
                        if a != b {
                            assert(old_keys[a] == old_keys[b]);
                        }
                    }
                    assert(self@ =~= old(self)@.insert(k, v));
                }
            },
            None => {
                let mut keys = keys;
                keys.push(key);
                values.push(value);
                proof {
                    let ks = texts(keys@);
                    assert(ks =~= old_keys.push(k));
                    assert(texts(values@) =~= old_vals.push(v));
                    assert forall|a: int, b: int| 0 <= a < ks.len() && 0 <= b < ks.len() && a != b
                        implies ks[a] != ks[b] by {
                        if a < old_keys.len() && b < old_keys.len() {
                            assert(old_keys[a] != old_keys[b]);
                        } else if a < old_keys.len() {
                            assert(old_keys.contains(old_keys[a]));
                        } else {
                            assert(old_keys.contains(old_keys[b]));
                        }
                    }
                }
                *self = StringMap { keys, values };
                proof {
                    let ks = texts(self.keys@);
                    let vs = texts(self.values@);
                    assert(ks[old_keys.len() as int] == k);
                    assert forall|q: Seq<char>| #[trigger] old_keys.contains(q)
                        implies key_position(ks, q) == key_position(old_keys, q) by {
                        let b = key_position(old_keys, q);
                        assert(ks[b] == q);
                        let a = key_position(ks, q);
                        if a != b {
                            assert(ks[a] == ks[b]);
                        }
                    }
                    assert(ks.contains(k));
                    assert(key_position(ks, k) == old_keys.len()) by {
                        let a = key_position(ks, k);
                        if a != old_keys.len() as int {
                            assert(old_keys.contains(k));
                        }
                    }
                    assert forall|q: Seq<char>| ks.contains(q) <==> (old_keys.contains(q) || q == k) by {
                        if ks.contains(q) && q != k {
                            let a = choose|a: int| 0 <= a < ks.len() && ks[a] == q;
                            assert(a < old_keys.len());
                            assert(old_keys[a] == q);
                        }
                        if old_keys.contains(q) {
                            let b = choose|b: int| 0 <= b < old_keys.len() && old_keys[b] == q;
                            assert(ks[b] == q);
                        }
                    }
                    assert(self@ =~= old(self)@.insert(k, v));
                }
            },
        }
    }
}

} // verus!
