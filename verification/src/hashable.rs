//! A name-to-value map backed by a vector of pairs with pairwise-distinct
//! keys, viewed as a `Map<Seq<char>, V>`.
use vstd::map::*;
use vstd::prelude::*;

verus! {

pub open spec fn assoc_view<V>(s: Seq<(String, V)>) -> Map<Seq<char>, V>
    decreases s.len(),
{
    if s.len() == 0 {
        Map::empty()
    } else {
        assoc_view(s.drop_last()).insert(s.last().0@, s.last().1)
    }
}

pub open spec fn keys_distinct<V>(s: Seq<(String, V)>) -> bool {
    forall|i: int, j: int| 0 <= i < j < s.len() ==> (#[trigger] s[i]).0@ != (#[trigger] s[j]).0@
}

proof fn lemma_assoc_contains<V>(s: Seq<(String, V)>, k: Seq<char>)
    ensures
        assoc_view(s).contains_key(k) <==> exists|j: int| 0 <= j < s.len() && (#[trigger] s[j]).0@ == k,
    decreases s.len(),
{
    if s.len() > 0 {
        lemma_assoc_contains(s.drop_last(), k);
        if s.last().0@ == k {
            assert(s[s.len() - 1].0@ == k);
        } else {
            if exists|j: int| 0 <= j < s.len() && (#[trigger] s[j]).0@ == k {
                let j = choose|j: int| 0 <= j < s.len() && (#[trigger] s[j]).0@ == k;
                assert(s.drop_last()[j] == s[j]);
            }
        }
    }
}

proof fn lemma_assoc_finite<V>(s: Seq<(String, V)>)
    ensures
        assoc_view(s).dom().finite(),
    decreases s.len(),
{
    if s.len() > 0 {
        lemma_assoc_finite(s.drop_last());
    }
}

proof fn lemma_assoc_len<V>(s: Seq<(String, V)>)
    requires
        keys_distinct(s),
    ensures
        assoc_view(s).dom().finite(),
        assoc_view(s).dom().len() == s.len(),
    decreases s.len(),
{
    lemma_assoc_finite(s);
    if s.len() > 0 {
        assert(keys_distinct(s.drop_last())) by {
            assert(forall|i: int, j: int|
                0 <= i < j < s.len() - 1 ==> (#[trigger] s.drop_last()[i]).0@ != (
                #[trigger] s.drop_last()[j]).0@) by {
                assert(forall|i: int| 0 <= i < s.len() - 1 ==> s.drop_last()[i] == s[i]);
            }
        }
        lemma_assoc_len(s.drop_last());
        lemma_assoc_contains(s.drop_last(), s.last().0@);
        assert(forall|j: int| 0 <= j < s.len() - 1 ==> (#[trigger] s.drop_last()[j]).0@ != s.last().0@)
            by {
            assert(forall|j: int| 0 <= j < s.len() - 1 ==> s.drop_last()[j] == s[j]);
        }
        assert(!assoc_view(s.drop_last()).contains_key(s.last().0@));
    }
}

/// Entries at or past position i, none of which carries key k, do not decide
/// whether k is in the map nor what it maps to.
proof fn lemma_assoc_skip_tail<V>(s: Seq<(String, V)>, i: int, k: Seq<char>)
    requires
        0 <= i <= s.len(),
        forall|j: int| i <= j < s.len() ==> (#[trigger] s[j]).0@ != k,
    ensures
        assoc_view(s).contains_key(k) <==> assoc_view(s.take(i)).contains_key(k),
        assoc_view(s).contains_key(k) ==> assoc_view(s)[k] == assoc_view(s.take(i))[k],
    decreases s.len() - i,
{
    if i < s.len() {
        lemma_assoc_skip_tail(s.take(s.len() - 1), i, k);
        assert(s.take(s.len() - 1) == s.drop_last());
        assert(s.take(s.len() - 1).take(i) == s.take(i));
        assert(s.last().0@ != k);
    } else {
        assert(s.take(i) == s);
    }
}

pub struct HashableMap<V> {
    pairs: Vec<(String, V)>,
}

impl<V> View for HashableMap<V> {
    type V = Map<Seq<char>, V>;

    closed spec fn view(&self) -> Map<Seq<char>, V> {
        assoc_view(self.pairs@)
    }
}

impl<V> HashableMap<V> {
    /// Well-formedness: no key occurs twice. Every constructor establishes it
    /// and every mutation preserves it.
    pub closed spec fn wf(self) -> bool {
        keys_distinct(self.pairs@)
    }

    pub fn new() -> (r: Self)
        ensures
            r@ == Map::<Seq<char>, V>::empty(),
            r.wf(),
    {
        HashableMap { pairs: Vec::new() }
    }

    /// The position of the entry that carries the key, if there is one.
    fn find(&self, key: &String) -> (r: Option<usize>)
        ensures
            match r {
                Some(i) => i < self.pairs@.len() && self.pairs@[i as int].0@ == key@
                    && self@.contains_key(key@) && self@[key@] == self.pairs@[i as int].1,
                None => !self@.contains_key(key@),
            },
    {
        let mut i: usize = self.pairs.len();
        while i > 0
            invariant
                i <= self.pairs@.len(),
                forall|j: int| i <= j < self.pairs@.len() ==> (#[trigger] self.pairs@[j]).0@ != key@,
            decreases i,
        {
            i = i - 1;
            if self.pairs[i].0.eq(key) {
                proof {
                    lemma_assoc_skip_tail(self.pairs@, i + 1, key@);
                    assert(self.pairs@.take(i + 1).drop_last() == self.pairs@.take(i as int));
                    assert(self.pairs@.take(i + 1).last() == self.pairs@[i as int]);
                    assert(assoc_view(self.pairs@.take(i + 1)) == assoc_view(
                        self.pairs@.take(i as int),
                    ).insert(self.pairs@[i as int].0@, self.pairs@[i as int].1));
                }
                return Some(i);
            }
        }
        proof {
            lemma_assoc_contains(self.pairs@, key@);
        }
        None
    }

    pub fn contains_key(&self, key: &String) -> (r: bool)
        ensures
            r == self@.contains_key(key@),
    {
        match self.find(key) {
            Some(_) => true,
            None => false,
        }
    }

    pub fn get<'a>(&'a self, key: &String) -> (r: Option<&'a V>)
        ensures
            match r {
                Some(v) => self@.contains_key(key@) && *v == self@[key@],
                None => !self@.contains_key(key@),
            },
    {
        match self.find(key) {
            Some(i) => Some(&self.pairs[i].1),
            None => None,
        }
    }

    pub fn insert(&mut self, key: String, value: V) -> (r: Option<V>)
        requires
            old(self).wf(),
        ensures
            final(self)@ == old(self)@.insert(key@, value),
            final(self).wf(),
            (match r {
                Some(v) => old(self)@.contains_key(key@) && v == old(self)@[key@],
                None => !old(self)@.contains_key(key@),
            }),
    {
        let found = self.find(&key);
        match found {
            Some(i) => {
                proof {
                    lemma_assoc_remove(self.pairs@, i as int, key@);
                }
                let prev = self.pairs.remove(i);
                proof {
                    let t = self.pairs@.push((key, value));
                    assert(t.drop_last() == self.pairs@);
                    assert(t.last() == (key, value));
                    assert(keys_distinct(t)) by {
                        lemma_assoc_contains(self.pairs@, key@);
                        assert(forall|a: int|
                            0 <= a < self.pairs@.len() ==> (#[trigger] t[a]) == self.pairs@[a]);
                    }
                    assert_maps_equal!(
                        old(self)@.remove(key@).insert(key@, value),
                        old(self)@.insert(key@, value),
                    );
                }
                self.pairs.push((key, value));
                return Some(prev.1);
            },
            None => {
                proof {
                    let t = self.pairs@.push((key, value));
                    assert(t.drop_last() == self.pairs@);
                    assert(t.last() == (key, value));
                    lemma_assoc_contains(self.pairs@, key@);
                    assert(forall|a: int| 0 <= a < self.pairs@.len() ==> t[a] == self.pairs@[a]);
                    assert(keys_distinct(t)) by {
                        assert(forall|a: int|
                            0 <= a < self.pairs@.len() ==> (#[trigger] t[a]).0@ != key@);
                    }
                }
                self.pairs.push((key, value));
                None
            },
        }
    }

    pub fn remove(&mut self, key: &String) -> (r: Option<V>)
        requires
            old(self).wf(),
        ensures
            final(self)@ == old(self)@.remove(key@),
            final(self).wf(),
            match r {
                Some(v) => old(self)@.contains_key(key@) && v == old(self)@[key@],
                None => !old(self)@.contains_key(key@),
            },
    {
        let found = self.find(key);
        match found {
            Some(i) => {
                proof {
                    lemma_assoc_remove(self.pairs@, i as int, key@);
                }
                let v = self.pairs.remove(i);
                Some(v.1)
            },
            None => {
                proof {
                    assert_maps_equal!(self@.remove(key@), self@);
                }
                None
            },
        }
    }

    pub fn len(&self) -> (r: usize)
        requires
            self.wf(),
        ensures
            self@.dom().finite(),
            r == self@.dom().len(),
    {
        proof {
            lemma_assoc_len(self.pairs@);
        }
        self.pairs.len()
    }

    pub fn is_empty(&self) -> (r: bool)
        requires
            self.wf(),
        ensures
            r == (self@ == Map::<Seq<char>, V>::empty()),
    {
        proof {
            lemma_assoc_len(self.pairs@);
            if self.pairs@.len() == 0 {
                assert(self@ == Map::<Seq<char>, V>::empty());
            } else {
                lemma_assoc_contains(self.pairs@, self.pairs@.last().0@);
                assert(self@.contains_key(self.pairs@.last().0@));
            }
        }
        self.pairs.is_empty()
    }
}

/// Removing the one entry that carries key k removes that key and nothing
/// else.
proof fn lemma_assoc_remove<V>(s: Seq<(String, V)>, i: int, k: Seq<char>)
    requires
        keys_distinct(s),
        0 <= i < s.len(),
        s[i].0@ == k,
    ensures
        assoc_view(s.remove(i)) == assoc_view(s).remove(k),
        keys_distinct(s.remove(i)),
    decreases s.len(),
{
    let t = s.remove(i);
    assert(keys_distinct(t)) by {
        assert(forall|a: int| 0 <= a < i ==> t[a] == s[a]);
        assert(forall|a: int| i <= a < t.len() ==> t[a] == s[a + 1]);
    }
    if i == s.len() - 1 {
        assert(t == s.drop_last());
        lemma_assoc_contains(s.drop_last(), k);
        assert(forall|j: int| 0 <= j < s.len() - 1 ==> (#[trigger] s.drop_last()[j]).0@ != k) by {
            assert(forall|j: int| 0 <= j < s.len() - 1 ==> s.drop_last()[j] == s[j]);
        }
        assert(!assoc_view(s.drop_last()).contains_key(k));
        assert_maps_equal!(
            assoc_view(s.drop_last()),
            assoc_view(s.drop_last()).insert(k, s.last().1).remove(k),
        );
    } else {
        assert(keys_distinct(s.drop_last())) by {
            assert(forall|a: int| 0 <= a < s.len() - 1 ==> s.drop_last()[a] == s[a]);
        }
        assert(s.drop_last()[i] == s[i]);
        lemma_assoc_remove(s.drop_last(), i, k);
        assert(t.drop_last() == s.drop_last().remove(i));
        assert(t.last() == s.last());
        assert(assoc_view(t) == assoc_view(s.drop_last()).remove(k).insert(
            s.last().0@,
            s.last().1,
        ));
        assert(s.last().0@ != k);
        assert_maps_equal!(
            assoc_view(s.drop_last()).remove(k).insert(s.last().0@, s.last().1),
            assoc_view(s.drop_last()).insert(s.last().0@, s.last().1).remove(k),
        );
    }
}

} // verus!
