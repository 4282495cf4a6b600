//! A map keyed by ticker symbol, backed by a vector of pairs with unique
//! keys. Its view is the mathematical `Map` from character sequences to the
//! stored values.

use vstd::prelude::*;
use crate::common::Ticker;

verus! {

/// The map a sequence of key-value pairs denotes; later pairs shadow earlier
/// ones, and a well-formed map has no two pairs with the same key.
pub open spec fn assoc_view<V>(s: Seq<(Ticker, V)>) -> Map<Seq<char>, V>
    decreases s.len(),
{
    if s.len() == 0 {
        Map::empty()
    } else {
        assoc_view(s.drop_last()).insert(s.last().0@, s.last().1)
    }
}

/// No two pairs share a key.
pub open spec fn assoc_wf<V>(s: Seq<(Ticker, V)>) -> bool {
    forall|i: int, j: int| 0 <= i < j < s.len() ==> s[i].0@ != s[j].0@
}

proof fn lemma_assoc_contains<V>(s: Seq<(Ticker, V)>, k: Seq<char>)
    ensures
        assoc_view(s).contains_key(k) <==> exists|i: int| 0 <= i < s.len() && s[i].0@ == k,
    decreases s.len(),
{
    if s.len() > 0 {
        lemma_assoc_contains(s.drop_last(), k);
        if assoc_view(s).contains_key(k) {
            if s.last().0@ != k {
                let i = choose|i: int| 0 <= i < s.drop_last().len() && s.drop_last()[i].0@ == k;
                assert(s[i].0@ == k);
            }
        }
        if exists|i: int| 0 <= i < s.len() && s[i].0@ == k {
            let i = choose|i: int| 0 <= i < s.len() && s[i].0@ == k;
            if i < s.len() - 1 {
                assert(s.drop_last()[i].0@ == k);
            }
        }
    }
}

proof fn lemma_assoc_get<V>(s: Seq<(Ticker, V)>, i: int)
    requires
        assoc_wf(s),
        0 <= i < s.len(),
    ensures
        assoc_view(s).contains_key(s[i].0@),
        assoc_view(s)[s[i].0@] == s[i].1,
    decreases s.len(),
{
    if i < s.len() - 1 {
        lemma_assoc_get(s.drop_last(), i);
        assert(s.drop_last()[i] == s[i]);
        assert(s.last().0@ != s[i].0@);
    }
}

proof fn lemma_assoc_remove<V>(s: Seq<(Ticker, V)>, i: int)
    requires
        assoc_wf(s),
        0 <= i < s.len(),
    ensures
        assoc_view(s.remove(i)) == assoc_view(s).remove(s[i].0@),
        assoc_wf(s.remove(i)),
    decreases s.len(),
{
    lemma_assoc_contains(s, s[i].0@);
    assert forall|a: int, b: int| 0 <= a < b < s.remove(i).len() implies s.remove(i)[a].0@
        != s.remove(i)[b].0@ by {
        assert(s.remove(i)[a] == (if a < i {
            s[a]
        } else {
            s[a + 1]
        }));
        assert(s.remove(i)[b] == (if b < i {
            s[b]
        } else {
            s[b + 1]
        }));
    }
    if i == s.len() - 1 {
        assert(s.remove(i) =~= s.drop_last());
        lemma_assoc_contains(s.drop_last(), s[i].0@);
        assert(assoc_view(s.drop_last()) =~= assoc_view(s).remove(s[i].0@));
    } else {
        lemma_assoc_remove(s.drop_last(), i);
        assert(s.remove(i).drop_last() =~= s.drop_last().remove(i));
        assert(s.remove(i).last() == s.last());
        assert(assoc_view(s.remove(i)) =~= assoc_view(s).remove(s[i].0@));
    }
}

/// A map from tickers to values of type `V`.
pub struct TickerMap<V> {
    pairs: Vec<(Ticker, V)>,
}

impl<V> View for TickerMap<V> {
    type V = Map<Seq<char>, V>;

    closed spec fn view(&self) -> Map<Seq<char>, V> {
        assoc_view(self.pairs@)
    }
}

impl<V> TickerMap<V> {
    /// Keys are unique; every operation preserves this.
    pub closed spec fn wf(self) -> bool {
        assoc_wf(self.pairs@)
    }

    pub fn new() -> (r: TickerMap<V>)
        ensures
            r.wf(),
            r@ == Map::<Seq<char>, V>::empty(),
    {
        let r = TickerMap { pairs: Vec::new() };
        proof {
            assert(r@ =~= Map::<Seq<char>, V>::empty());
        }
        r
    }

    /// Index of the pair holding `k`, if one does.
    fn find(&self, k: &Ticker) -> (r: Option<usize>)
        requires
            self.wf(),
        ensures
            match r {
                Some(i) => i < self.pairs@.len() && self.pairs@[i as int].0@ == k@,
                None => !self@.contains_key(k@),
            },
    {
        let mut i: usize = 0;
        loop
            invariant
                self.wf(),
                0 <= i <= self.pairs@.len(),
                forall|j: int| 0 <= j < i ==> self.pairs@[j].0@ != k@,
            ensures
                (i < self.pairs@.len() && self.pairs@[i as int].0@ == k@) || (i
                    == self.pairs@.len() && forall|j: int|
                    0 <= j < i ==> self.pairs@[j].0@ != k@),
            decreases self.pairs@.len() - i,
        {
            if i == self.pairs.len() {
                break;
            }
            if self.pairs[i].0 == *k {
                break;
            }
            i = i + 1;
        }
        if i < self.pairs.len() {
            Some(i)
        } else {
            proof {
                lemma_assoc_contains(self.pairs@, k@);
            }
            None
        }
    }

    pub fn contains(&self, k: &Ticker) -> (r: bool)
        requires
            self.wf(),
        ensures
            r == self@.contains_key(k@),
    {
        let f = self.find(k);
        proof {
            lemma_assoc_contains(self.pairs@, k@);
        }
        match f {
            Some(_) => true,
            None => false,
        }
    }

    /// Borrow the value under `k`.
    pub fn get(&self, k: &Ticker) -> (r: Option<&V>)
        requires
            self.wf(),
        ensures
            match r {
                Some(v) => self@.contains_key(k@) && *v == self@[k@],
                None => !self@.contains_key(k@),
            },
    {
        match self.find(k) {
            Some(i) => {
                proof {
                    lemma_assoc_get(self.pairs@, i as int);
                }
                Some(&self.pairs[i].1)
            },
            None => None,
        }
    }

    /// Remove and return the value under `k`.
    pub fn take(&mut self, k: &Ticker) -> (r: Option<V>)
        requires
            old(self).wf(),
        ensures
            final(self).wf(),
            match r {
                Some(v) => old(self)@.contains_key(k@) && v == old(self)@[k@] && final(self)@
                    == old(self)@.remove(k@),
                None => !old(self)@.contains_key(k@) && final(self)@ == old(self)@,
            },
    {
        match self.find(k) {
            Some(i) => {
                proof {
                    lemma_assoc_get(self.pairs@, i as int);
                    lemma_assoc_remove(self.pairs@, i as int);
                }
                let p = self.pairs.remove(i);
                Some(p.1)
            },
            None => None,
        }
    }

    /// Bind `k` to `v`, replacing any earlier binding.
    pub fn insert(&mut self, k: Ticker, v: V)
        requires
            old(self).wf(),
        ensures
            final(self).wf(),
            final(self)@ == old(self)@.insert(k@, v),
    {
        let ghost pre = self.pairs@;
        match self.find(&k) {
            Some(i) => {
                proof {
                    lemma_assoc_remove(self.pairs@, i as int);
                }
                self.pairs.remove(i);
            },
            None => {
            },
        }
        let ghost mid = self.pairs@;
        let ghost kv = k@;
        self.pairs.push((k, v));
        proof {
            assert(self.pairs@.drop_last() =~= mid);
            assert(!assoc_view(mid).contains_key(kv));
            assert forall|a: int, b: int|
                0 <= a < b < self.pairs@.len() implies self.pairs@[a].0@ != self.pairs@[b].0@ by {
                if b < self.pairs@.len() - 1 {
                    assert(self.pairs@[a] == mid[a] && self.pairs@[b] == mid[b]);
                } else {
                    assert(self.pairs@[a] == mid[a]);
                    lemma_assoc_get(mid, a);
                    assert(self.pairs@[b].0@ == kv);
                }
            }
            assert(self@ =~= old(self)@.insert(kv, v));
        }
    }
}

} // verus!
