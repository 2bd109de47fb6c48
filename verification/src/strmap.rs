//! A map from strings to values, kept as a vector of entries.  A later
//! insertion of the same key wins, as a hash map's would; lookups scan from
//! the newest entry.  Two mathematical views are kept: one with the values
//! as they are, one with the values taken to their deep views, for entries
//! whose values are themselves containers.

use vstd::prelude::*;
use crate::text::str_eq;

verus! {

pub struct StrMap<T> {
    entries: Vec<(String, T)>,
}

/// The map denoted by a sequence of entries, later entries winning.
pub open spec fn spec_entries_map<T>(es: Seq<(String, T)>) -> Map<Seq<char>, T>
    decreases es.len(),
{
    if es.len() == 0 {
        Map::<Seq<char>, T>::empty()
    } else {
        spec_entries_map(es.drop_last()).insert(es.last().0@, es.last().1)
    }
}

/// The same map with every value taken to its deep view.
pub open spec fn spec_entries_dmap<T: DeepView>(es: Seq<(String, T)>) -> Map<Seq<char>, T::V>
    decreases es.len(),
{
    if es.len() == 0 {
        Map::<Seq<char>, T::V>::empty()
    } else {
        spec_entries_dmap(es.drop_last()).insert(es.last().0@, es.last().1.deep_view())
    }
}

/// Entries at or after `i` leave the key `k` alone: both views agree with
/// the ones built from the first `i` entries on `k`.
proof fn lemma_entries_skip_unmatched<T: DeepView>(es: Seq<(String, T)>, i: int, k: Seq<char>)
    requires
        0 <= i <= es.len(),
        forall|j: int| i <= j < es.len() ==> (#[trigger] es[j]).0@ != k,
    ensures
        spec_entries_map(es).contains_key(k) == spec_entries_map(es.take(i)).contains_key(k),
        spec_entries_map(es).contains_key(k) ==> spec_entries_map(es)[k] == spec_entries_map(
            es.take(i),
        )[k],
        spec_entries_dmap(es).contains_key(k) == spec_entries_dmap(es.take(i)).contains_key(k),
        spec_entries_dmap(es).contains_key(k) ==> spec_entries_dmap(es)[k] == spec_entries_dmap(
            es.take(i),
        )[k],
    decreases es.len() - i,
{
    if i == es.len() {
        assert(es.take(i) =~= es);
    } else {
        lemma_entries_skip_unmatched(es, i + 1, k);
        assert(es.take(i + 1).drop_last() =~= es.take(i));
        assert(es.take(i + 1).last() == es[i]);
    }
}

impl<T: DeepView> StrMap<T> {
    pub closed spec fn view(&self) -> Map<Seq<char>, T> {
        spec_entries_map(self.entries@)
    }

    /// The map with deep-viewed values.
    pub closed spec fn dview(&self) -> Map<Seq<char>, T::V> {
        spec_entries_dmap(self.entries@)
    }

    pub fn new() -> (r: Self)
        ensures
            r@ == Map::<Seq<char>, T>::empty(),
            r.dview() == Map::<Seq<char>, T::V>::empty(),
    {
        StrMap { entries: Vec::new() }
    }

    /// Binds `key` to `value`, replacing any earlier binding.
    pub fn insert(&mut self, key: String, value: T)
        ensures
            final(self)@ == old(self)@.insert(key@, value),
            final(self).dview() == old(self).dview().insert(key@, value.deep_view()),
    {
        let ghost old_entries = self.entries@;
        self.entries.push((key, value));
        proof {
            assert(self.entries@.drop_last() =~= old_entries);
        }
    }

    /// The value bound to `key`, if any.
    #[verifier::loop_isolation(false)]
    pub fn get(&self, key: &str) -> (r: Option<&T>)
        ensures
            match r {
                Some(v) => self@.contains_key(key@) && *v == self@[key@]
                    && self.dview().contains_key(key@) && v.deep_view() == self.dview()[key@],
                None => !self@.contains_key(key@) && !self.dview().contains_key(key@),
            },
    {
        let n = self.entries.len();
        let mut i: usize = n;
        while i > 0
            invariant
                0 <= i <= n,
                n == self.entries@.len(),
                forall|j: int| i <= j < n ==> (#[trigger] self.entries@[j]).0@ != key@,
            decreases i,
        {
            let e: &(String, T) = &self.entries[i - 1];
            if str_eq(e.0.as_str(), key) {
                proof {
                    lemma_entries_skip_unmatched(self.entries@, i as int, key@);
                    assert(self.entries@.take(i as int).drop_last() =~= self.entries@.take(i - 1));
                    assert(self.entries@.take(i as int).last() == self.entries@[i - 1]);
                }
                return Some(&e.1);
            }
            i = i - 1;
        }
        proof {
            lemma_entries_skip_unmatched(self.entries@, 0, key@);
            assert(self.entries@.take(0) =~= Seq::<(String, T)>::empty());
        }
        None
    }

    /// Whether `key` is bound.
    pub fn contains_key(&self, key: &str) -> (r: bool)
        ensures
            r == self@.contains_key(key@),
            r == self.dview().contains_key(key@),
    {
        match self.get(key) {
            Some(_) => true,
            None => false,
        }
    }

    pub fn len(&self) -> usize {
        self.entries.len()
    }
}

} // verus!
