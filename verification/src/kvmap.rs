//! A key-value store keyed by `u32`, backed by a vector of pairs with unique
//! keys. Each registry of the pallet is one such store; its mathematical view
//! is a finite `Map` from key to the value's view.

use vstd::prelude::*;

verus! {

/// The finite map denoted by a sequence of key-value pairs: later pairs win.
pub closed spec fn map_of<V: View>(s: Seq<(u32, V)>) -> Map<u32, V::V>
    decreases s.len(),
{
    if s.len() == 0 {
        Map::empty()
    } else {
        map_of(s.drop_last()).insert(s.last().0, s.last().1@)
    }
}

/// A key-value store keyed by entity id.
pub struct KvMap<V> {
    pairs: Vec<(u32, V)>,
}

impl<V: View> View for KvMap<V> {
    type V = Map<u32, V::V>;

    closed spec fn view(&self) -> Map<u32, V::V> {
        map_of(self.pairs@)
    }
}

spec fn unique_keys<V: View>(s: Seq<(u32, V)>) -> bool {
    forall|i: int, j: int|
        0 <= i < j < s.len() ==> (#[trigger] s[i]).0 != (#[trigger] s[j]).0
}

proof fn lemma_map_of_dom<V: View>(s: Seq<(u32, V)>)
    ensures
        forall|k: u32|
            #[trigger] map_of(s).dom().contains(k) <==> exists|i: int|
                0 <= i < s.len() && (#[trigger] s[i]).0 == k,
    decreases s.len(),
{
    if s.len() > 0 {
        lemma_map_of_dom(s.drop_last());
        assert forall|k: u32| #[trigger] map_of(s).dom().contains(k) implies exists|i: int|
            0 <= i < s.len() && (#[trigger] s[i]).0 == k by {
            if k == s.last().0 {
                assert(s[s.len() - 1].0 == k);
            } else {
                assert(map_of(s.drop_last()).dom().contains(k));
                let i = choose|i: int|
                    0 <= i < s.drop_last().len() && (#[trigger] s.drop_last()[i]).0 == k;
                assert(s.drop_last()[i] == s[i]);
                assert(s[i].0 == k);
            }
        }
        assert forall|k: u32|
            (exists|i: int| 0 <= i < s.len() && (#[trigger] s[i]).0 == k) implies map_of(
            s,
        ).dom().contains(k) by {
            let i = choose|i: int| 0 <= i < s.len() && (#[trigger] s[i]).0 == k;
            if i < s.len() - 1 {
                assert(s.drop_last()[i] == s[i]);
                assert(s.drop_last()[i].0 == k);
                assert(map_of(s.drop_last()).dom().contains(k));
                assert(map_of(s) == map_of(s.drop_last()).insert(s.last().0, s.last().1@));
            } else {
                assert(s.last().0 == k);
            }
        }
    }
}

proof fn lemma_map_of_index<V: View>(s: Seq<(u32, V)>, i: int)
    requires
        unique_keys(s),
        0 <= i < s.len(),
    ensures
        map_of(s).dom().contains(s[i].0),
        map_of(s)[s[i].0] == s[i].1@,
    decreases s.len(),
{
    if i == s.len() - 1 {
        assert(map_of(s) == map_of(s.drop_last()).insert(s.last().0, s.last().1@));
    } else {
        assert(unique_keys(s.drop_last()));
        assert(s.drop_last()[i] == s[i]);
        lemma_map_of_index(s.drop_last(), i);
        assert(s[i].0 != s.last().0);
    }
}

proof fn lemma_map_of_len<V: View>(s: Seq<(u32, V)>)
    requires
        unique_keys(s),
    ensures
        map_of(s).dom().finite(),
        map_of(s).dom().len() == s.len(),
    decreases s.len(),
{
    if s.len() > 0 {
        assert(unique_keys(s.drop_last()));
        lemma_map_of_len(s.drop_last());
        lemma_map_of_dom(s.drop_last());
        assert(!map_of(s.drop_last()).dom().contains(s.last().0));
    }
}

proof fn lemma_map_of_update<V: View>(s: Seq<(u32, V)>, i: int, v: V)
    requires
        unique_keys(s),
        0 <= i < s.len(),
    ensures
        map_of(s.update(i, (s[i].0, v))) == map_of(s).insert(s[i].0, v@),
    decreases s.len(),
{
    let k = s[i].0;
    let t = s.update(i, (k, v));
    if i == s.len() - 1 {
        assert(t.drop_last() =~= s.drop_last());
        assert(map_of(t) == map_of(s.drop_last()).insert(k, v@));
        assert(map_of(s.drop_last()).insert(k, s.last().1@).insert(k, v@) =~= map_of(
            s.drop_last(),
        ).insert(k, v@));
    } else {
        assert(unique_keys(s.drop_last()));
        assert(t.drop_last() =~= s.drop_last().update(i, (k, v)));
        assert(s.drop_last()[i] == s[i]);
        lemma_map_of_update(s.drop_last(), i, v);
        assert(t.last() == s.last());
        assert(map_of(t) == map_of(s.drop_last()).insert(k, v@).insert(s.last().0, s.last().1@));
        assert(k != s.last().0);
        assert(map_of(s.drop_last()).insert(k, v@).insert(s.last().0, s.last().1@) =~= map_of(
            s.drop_last(),
        ).insert(s.last().0, s.last().1@).insert(k, v@));
    }
}

impl<V: View> KvMap<V> {
    /// The keys of the store are pairwise distinct.
    pub closed spec fn wf(&self) -> bool {
        unique_keys(self.pairs@)
    }

    /// An empty store.
    pub fn new() -> (r: Self)
        ensures
            r.wf(),
            r@ == Map::<u32, V::V>::empty(),
    {
        KvMap { pairs: Vec::new() }
    }

    /// The number of keys present.
    #[verifier::loop_isolation(false)]
    pub fn len(&self) -> (n: usize)
        requires
            self.wf(),
        ensures
            n == self@.dom().len(),
    {
        proof {
            lemma_map_of_len(self.pairs@);
        }
        self.pairs.len()
    }

    /// Whether `k` is present.
    #[verifier::loop_isolation(false)]
    pub fn contains_key(&self, k: u32) -> (b: bool)
        requires
            self.wf(),
        ensures
            b == self@.dom().contains(k),
    {
        proof {
            lemma_map_of_dom(self.pairs@);
        }
        let n = self.pairs.len();
        let mut i: usize = 0;
        while i < n
            invariant
                n == self.pairs@.len(),
                0 <= i <= n,
                forall|j: int| 0 <= j < i ==> (#[trigger] self.pairs@[j]).0 != k,
            decreases n - i,
        {
            if self.pairs[i].0 == k {
                proof {
                    assert(self.pairs@[i as int].0 == k);
                    assert(exists|j: int|
                        0 <= j < self.pairs@.len() && (#[trigger] self.pairs@[j]).0 == k);
                    assert(map_of(self.pairs@).dom().contains(k));
                }
                return true;
            }
            i = i + 1;
        }
        false
    }

    /// The value stored under `k`, if any.
    #[verifier::loop_isolation(false)]
    pub fn get(&self, k: u32) -> (r: Option<&V>)
        requires
            self.wf(),
        ensures
            match r {
                Some(v) => self@.dom().contains(k) && v@ == self@[k],
                None => !self@.dom().contains(k),
            },
    {
        proof {
            lemma_map_of_dom(self.pairs@);
        }
        let n = self.pairs.len();
        let mut i: usize = 0;
        while i < n
            invariant
                self.wf(),
                n == self.pairs@.len(),
                0 <= i <= n,
                forall|j: int| 0 <= j < i ==> (#[trigger] self.pairs@[j]).0 != k,
            decreases n - i,
        {
            if self.pairs[i].0 == k {
                proof {
                    lemma_map_of_index(self.pairs@, i as int);
                }
                return Some(&self.pairs[i].1);
            }
            i = i + 1;
        }
        None
    }

    /// Stores `v` under `k`, replacing any earlier value.
    #[verifier::loop_isolation(false)]
    pub fn insert(&mut self, k: u32, v: V)
        requires
            old(self).wf(),
        ensures
            final(self).wf(),
            final(self)@ == old(self)@.insert(k, v@),
    {
        let n = self.pairs.len();
        let mut i: usize = 0;
        while i < n
            invariant
                self.wf(),
                *self == *old(self),
                n == self.pairs@.len(),
                0 <= i <= n,
                forall|j: int| 0 <= j < i ==> (#[trigger] self.pairs@[j]).0 != k,
            decreases n - i,
        {
            if self.pairs[i].0 == k {
                proof {
                    lemma_map_of_update(self.pairs@, i as int, v);
                }
                self.pairs.set(i, (k, v));
                return ;
            }
            i = i + 1;
        }
        proof {
            lemma_map_of_dom(self.pairs@);
            assert(self.pairs@.push((k, v)).drop_last() =~= self.pairs@);
        }
        self.pairs.push((k, v));
    }

    /// The keys present, each exactly once.
    #[verifier::loop_isolation(false)]
    pub fn keys(&self) -> (ks: Vec<u32>)
        requires
            self.wf(),
        ensures
            ks@.no_duplicates(),
            ks@.len() == self@.dom().len(),
            forall|k: u32| #[trigger] ks@.contains(k) <==> self@.dom().contains(k),
    {
        proof {
            lemma_map_of_dom(self.pairs@);
            lemma_map_of_len(self.pairs@);
        }
        let n = self.pairs.len();
        let mut ks: Vec<u32> = Vec::new();
        let mut i: usize = 0;
        while i < n
            invariant
                self.wf(),
                n == self.pairs@.len(),
                0 <= i <= n,
                ks@.len() == i,
                forall|j: int| 0 <= j < i ==> ks@[j] == (#[trigger] self.pairs@[j]).0,
            decreases n - i,
        {
            ks.push(self.pairs[i].0);
            i = i + 1;
        }
        proof {
            assert forall|k: u32| #[trigger] ks@.contains(k) implies self@.dom().contains(k) by {
                let j = choose|j: int| 0 <= j < ks@.len() && ks@[j] == k;
                assert(self.pairs@[j].0 == k);
            }
            assert forall|k: u32| self@.dom().contains(k) implies ks@.contains(k) by {
                let j = choose|j: int| 0 <= j < self.pairs@.len() && (#[trigger] self.pairs@[j]).0 == k;
                assert(ks@[j] == k);
            }
            assert forall|i1: int, j1: int| 0 <= i1 < j1 < ks@.len() implies ks@[i1] != ks@[j1] by {
                assert(self.pairs@[i1].0 != self.pairs@[j1].0);
            }
            assert(ks@.no_duplicates());
        }
        ks
    }
}

} // verus!
