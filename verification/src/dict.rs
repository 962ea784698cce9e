//! An unordered mapping with unique keys, held as a list of pairs and viewed
//! as a `Map` from key views to value views. Attribute and style maps of a
//! tree node are instances of it.

use crate::values::ViewEq;
use vstd::prelude::*;

verus! {

/// A mapping from keys to values in which insertion order is irrelevant and
/// keys are unique. Its view is the `Map` from key views to value views.
pub struct Dict<K, T> {
    pairs: Vec<(K, T)>,
}

impl<K: ViewEq, T: ViewEq> Dict<K, T> {
    /// The map described by a list of pairs; a later entry overrides an
    /// earlier one with the same key view.
    pub closed spec fn map_of(s: Seq<(K, T)>) -> Map<K::V, T::V>
        decreases s.len(),
    {
        if s.len() == 0 {
            Map::empty()
        } else {
            Self::map_of(s.drop_last()).insert(s.last().0@, s.last().1@)
        }
    }

    spec fn keys_unique(s: Seq<(K, T)>) -> bool {
        forall|i: int, j: int| 0 <= i < j < s.len() ==> s[i].0@ != s[j].0@
    }

    /// Well-formed: no two entries share a key view.
    pub closed spec fn wf(&self) -> bool {
        Self::keys_unique(self.pairs@)
    }

    proof fn lemma_map_of_contains(s: Seq<(K, T)>, kv: K::V)
        ensures
            Self::map_of(s).contains_key(kv) <==> (exists|i: int|
                0 <= i < s.len() && s[i].0@ == kv),
        decreases s.len(),
    {
        if s.len() == 0 {
        } else {
            Self::lemma_map_of_contains(s.drop_last(), kv);
            if s.last().0@ == kv {
                assert(s[s.len() - 1].0@ == kv);
            } else {
                if exists|i: int| 0 <= i < s.len() && s[i].0@ == kv {
                    let i = choose|i: int| 0 <= i < s.len() && s[i].0@ == kv;
                    assert(s.drop_last()[i].0@ == kv);
                }
                if exists|i: int| 0 <= i < s.drop_last().len() && s.drop_last()[i].0@ == kv {
                    let i = choose|i: int|
                        0 <= i < s.drop_last().len() && s.drop_last()[i].0@ == kv;
                    assert(s[i].0@ == kv);
                }
            }
        }
    }

    proof fn lemma_map_of_get(s: Seq<(K, T)>, i: int)
        requires
            Self::keys_unique(s),
            0 <= i < s.len(),
        ensures
            Self::map_of(s).contains_key(s[i].0@),
            Self::map_of(s)[s[i].0@] == s[i].1@,
        decreases s.len(),
    {
        if i == s.len() - 1 {
        } else {
            assert(s.drop_last()[i] == s[i]);
            Self::lemma_map_of_get(s.drop_last(), i);
            assert(s.last().0@ != s[i].0@);
        }
    }

    proof fn lemma_map_of_update(s: Seq<(K, T)>, i: int, k: K, v: T)
        requires
            Self::keys_unique(s),
            0 <= i < s.len(),
            s[i].0@ == k@,
        ensures
            Self::map_of(s.update(i, (k, v))) == Self::map_of(s).insert(k@, v@),
            Self::keys_unique(s.update(i, (k, v))),
        decreases s.len(),
    {
        let s2 = s.update(i, (k, v));
        assert forall|a: int, b: int| 0 <= a < b < s2.len() implies s2[a].0@ != s2[b].0@ by {
            assert(s2[a].0@ == if a == i { k@ } else { s[a].0@ });
            assert(s2[b].0@ == if b == i { k@ } else { s[b].0@ });
        };
        if i == s.len() - 1 {
            assert(s2.drop_last() =~= s.drop_last());
            assert(Self::map_of(s2) =~= Self::map_of(s).insert(k@, v@));
        } else {
            assert(s2.drop_last() =~= s.drop_last().update(i, (k, v)));
            Self::lemma_map_of_update(s.drop_last(), i, k, v);
            assert(s2.last() == s.last());
            assert(s.last().0@ != s[i].0@);
            assert(Self::map_of(s2) =~= Self::map_of(s).insert(k@, v@));
        }
    }

    proof fn lemma_map_of_pointwise(a: Seq<(K, T)>, b: Seq<(K, T)>)
        requires
            a.len() == b.len(),
            forall|j: int|
                0 <= j < a.len() ==> (#[trigger] a[j]).0@ == b[j].0@ && a[j].1@ == b[j].1@,
        ensures
            Self::map_of(a) == Self::map_of(b),
            Self::keys_unique(a) <==> Self::keys_unique(b),
        decreases a.len(),
    {
        if a.len() == 0 {
            assert(Self::map_of(a) =~= Self::map_of(b));
        } else {
            Self::lemma_map_of_pointwise(a.drop_last(), b.drop_last());
            assert(a[a.len() - 1].0@ == b[a.len() - 1].0@ && a[a.len() - 1].1@ == b[a.len()
                - 1].1@);
            assert(Self::map_of(a) =~= Self::map_of(b));
            assert forall|i: int, j: int|
                0 <= i < j < a.len() && a[i].0@ != a[j].0@ implies b[i].0@ != b[j].0@ by {}
            assert forall|i: int, j: int|
                0 <= i < j < b.len() && b[i].0@ != b[j].0@ implies a[i].0@ != a[j].0@ by {}
        }
    }

    /// The empty mapping.
    pub fn empty() -> (d: Self)
        ensures
            d@ == Map::<K::V, T::V>::empty(),
            d.wf(),
    {
        Dict { pairs: Vec::new() }
    }

    fn idx_of(&self, k: &K) -> (r: Option<usize>)
        ensures
            match r {
                Option::Some(i) => i < self.pairs@.len() && self.pairs@[i as int].0@ == k@,
                Option::None => forall|j: int|
                    0 <= j < self.pairs@.len() ==> #[trigger] self.pairs@[j].0@ != k@,
            },
    {
        let mut i: usize = 0;
        while i < self.pairs.len()
            invariant
                i <= self.pairs@.len(),
                forall|j: int| 0 <= j < i ==> #[trigger] self.pairs@[j].0@ != k@,
            decreases self.pairs@.len() - i,
        {
            if self.pairs[i].0.view_eq(k) {
                return Option::Some(i);
            }
            i = i + 1;
        }
        Option::None
    }

    /// Looks the key up; the result is the value the view maps its view to.
    pub fn get(&self, k: &K) -> (r: Option<&T>)
        requires
            self.wf(),
        ensures
            match r {
                Option::Some(v) => self@.contains_key(k@) && v@ == self@[k@],
                Option::None => !self@.contains_key(k@),
            },
    {
        proof {
            Self::lemma_map_of_contains(self.pairs@, k@);
        }
        match self.idx_of(k) {
            Option::Some(i) => {
                proof {
                    Self::lemma_map_of_get(self.pairs@, i as int);
                }
                Option::Some(&self.pairs[i].1)
            },
            Option::None => Option::None,
        }
    }

    /// Inserts or overwrites: last write wins.
    pub fn insert(&mut self, k: K, v: T)
        requires
            old(self).wf(),
        ensures
            final(self).wf(),
            final(self)@ == old(self)@.insert(k@, v@),
    {
        let ghost s = self.pairs@;
        match self.idx_of(&k) {
            Option::Some(i) => {
                proof {
                    Self::lemma_map_of_update(s, i as int, k, v);
                }
                self.pairs.set(i, (k, v));
            },
            Option::None => {
                self.pairs.push((k, v));
                proof {
                    assert(self.pairs@.drop_last() =~= s);
                    assert forall|a: int, b: int|
                        0 <= a < b < self.pairs@.len() implies self.pairs@[a].0@
                        != self.pairs@[b].0@ by {
                        if b < s.len() as int {
                            assert(self.pairs@[a] == s[a] && self.pairs@[b] == s[b]);
                        } else {
                            assert(self.pairs@[a] == s[a]);
                        }
                    };
                }
            },
        }
    }

    /// Copies the mapping; the copy has the same view.
    pub fn dup(&self) -> (r: Self)
        ensures
            r@ == self@,
            self.wf() ==> r.wf(),
    {
        let mut out: Vec<(K, T)> = Vec::new();
        let mut i: usize = 0;
        while i < self.pairs.len()
            invariant
                i <= self.pairs@.len(),
                out@.len() == i,
                forall|j: int|
                    0 <= j < i ==> #[trigger] out@[j].0@ == self.pairs@[j].0@ && out@[j].1@
                        == self.pairs@[j].1@,
            decreases self.pairs@.len() - i,
        {
            let p = &self.pairs[i];
            out.push((p.0.dup(), p.1.dup()));
            i = i + 1;
        }
        let r = Dict { pairs: out };
        proof {
            Self::lemma_map_of_pointwise(self.pairs@, r.pairs@);
        }
        r
    }

    /// Decides equality of the views: the two describe the same mapping.
    pub fn dict_eq(&self, other: &Self) -> (r: bool)
        requires
            self.wf(),
            other.wf(),
        ensures
            r == (self@ == other@),
    {
        let mut i: usize = 0;
        while i < self.pairs.len()
            invariant
                self.wf(),
                other.wf(),
                i <= self.pairs@.len(),
                forall|j: int|
                    0 <= j < i ==> other@.contains_key(#[trigger] self.pairs@[j].0@)
                        && other@[self.pairs@[j].0@] == self.pairs@[j].1@,
            decreases self.pairs@.len() - i,
        {
            proof {
                Self::lemma_map_of_get(self.pairs@, i as int);
            }
            let p = &self.pairs[i];
            match other.get(&p.0) {
                Option::Some(v) => {
                    if !p.1.view_eq(v) {
                        return false;
                    }
                },
                Option::None => {
                    return false;
                },
            }
            i = i + 1;
        }
        let mut j: usize = 0;
        while j < other.pairs.len()
            invariant
                self.wf(),
                other.wf(),
                j <= other.pairs@.len(),
                forall|j2: int|
                    0 <= j2 < self.pairs@.len() ==> other@.contains_key(
                        #[trigger] self.pairs@[j2].0@,
                    ) && other@[self.pairs@[j2].0@] == self.pairs@[j2].1@,
                forall|j2: int|
                    0 <= j2 < j ==> self@.contains_key(#[trigger] other.pairs@[j2].0@),
            decreases other.pairs@.len() - j,
        {
            proof {
                Self::lemma_map_of_get(other.pairs@, j as int);
            }
            let p = &other.pairs[j];
            if self.get(&p.0).is_none() {
                return false;
            }
            j = j + 1;
        }
        proof {
            assert forall|kv: K::V|
                self@.dom().contains(kv) == other@.dom().contains(kv) by {
                Self::lemma_map_of_contains(self.pairs@, kv);
                Self::lemma_map_of_contains(other.pairs@, kv);
                if self@.dom().contains(kv) {
                    let jj = choose|jj: int|
                        0 <= jj < self.pairs@.len() && self.pairs@[jj].0@ == kv;
                    assert(other@.contains_key(self.pairs@[jj].0@));
                }
                if other@.dom().contains(kv) {
                    let jj = choose|jj: int|
                        0 <= jj < other.pairs@.len() && other.pairs@[jj].0@ == kv;
                    assert(self@.contains_key(other.pairs@[jj].0@));
                }
            };
            assert(self@.dom() =~= other@.dom());
            assert forall|kv: K::V| self@.dom().contains(kv) implies self@[kv]
                == other@[kv] by {
                Self::lemma_map_of_contains(self.pairs@, kv);
                let jj = choose|jj: int|
                    0 <= jj < self.pairs@.len() && self.pairs@[jj].0@ == kv;
                Self::lemma_map_of_get(self.pairs@, jj);
            };
            assert(self@ =~= other@);
        }
        true
    }
}

impl<K: ViewEq, T: ViewEq> View for Dict<K, T> {
    type V = Map<<K as View>::V, <T as View>::V>;

    closed spec fn view(&self) -> Map<<K as View>::V, <T as View>::V> {
        Self::map_of(self.pairs@)
    }
}

} // verus!
