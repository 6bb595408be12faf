//! Participant map: peer identifier to display name, keys unique.
//!
//! The map is kept as a list of entries whose keys are pairwise
//! distinct; its abstract value is the `Map` the entry list denotes.

use vstd::prelude::*;

verus! {

/// The keys of `s` are pairwise distinct.
pub open spec fn unique_keys(s: Seq<(String, String)>) -> bool {
    forall|i: int, j: int| 0 <= i < j < s.len() ==> (#[trigger] s[i]).0@ != (#[trigger] s[j]).0@
}

/// The map an entry list denotes, later entries taking precedence.
pub open spec fn map_of(s: Seq<(String, String)>) -> Map<Seq<char>, Seq<char>>
    decreases s.len(),
{
    if s.len() == 0 {
        Map::empty()
    } else {
        map_of(s.drop_last()).insert(s.last().0@, s.last().1@)
    }
}

/// A key is in the denoted map exactly when some entry carries it.
pub proof fn lemma_map_of_dom(s: Seq<(String, String)>)
    ensures
        forall|k: Seq<char>|
            #[trigger] map_of(s).dom().contains(k) ==> (exists|i: int|
                0 <= i < s.len() && (#[trigger] s[i]).0@ == k),
        forall|i: int| 0 <= i < s.len() ==> map_of(s).dom().contains((#[trigger] s[i]).0@),
    decreases s.len(),
{
    if s.len() == 0 {
    } else {
        let d = s.drop_last();
        lemma_map_of_dom(d);
        assert forall|k: Seq<char>| #[trigger] map_of(s).dom().contains(k) implies (exists|i: int|
            0 <= i < s.len() && (#[trigger] s[i]).0@ == k) by {
            if k == s.last().0@ {
                assert((s[s.len() - 1]).0@ == k);
            } else {
                assert(map_of(s) == map_of(d).insert(s.last().0@, s.last().1@));
                assert(map_of(d).dom().contains(k));
                let i = choose|i: int| 0 <= i < d.len() && (#[trigger] d[i]).0@ == k;
                assert(s[i] == d[i]);
                assert((s[i]).0@ == k);
            }
        }
        assert forall|i: int| 0 <= i < s.len() implies map_of(s).dom().contains(
            (#[trigger] s[i]).0@,
        ) by {
            if i < s.len() - 1 {
                assert(d[i] == s[i]);
                assert(map_of(d).dom().contains(s[i].0@));
            }
        }
    }
}

/// With unique keys, the denoted map sends each entry's key to that
/// entry's name.
pub proof fn lemma_map_of_value(s: Seq<(String, String)>, i: int)
    requires
        unique_keys(s),
        0 <= i < s.len(),
    ensures
        map_of(s).dom().contains(s[i].0@),
        map_of(s)[s[i].0@] == s[i].1@,
    decreases s.len(),
{
    let d = s.drop_last();
    if i == s.len() - 1 {
    } else {
        assert(unique_keys(d)) by {
            assert(forall|p: int, q: int|
                0 <= p < q < d.len() ==> (#[trigger] d[p]).0@ != (#[trigger] d[q]).0@)
        }
        assert(d[i] == s[i]);
        lemma_map_of_value(d, i);
        assert(s[i].0@ != s.last().0@);
    }
}

/// With unique keys, removing the entry that carries a key removes
/// exactly that key from the denoted map, and keeps the keys unique.
pub proof fn lemma_map_of_remove(s: Seq<(String, String)>, i: int)
    requires
        unique_keys(s),
        0 <= i < s.len(),
    ensures
        unique_keys(s.remove(i)),
        map_of(s.remove(i)) == map_of(s).remove(s[i].0@),
    decreases s.len(),
{
    let k = s[i].0@;
    let d = s.drop_last();
    assert(unique_keys(d)) by {
        assert(forall|p: int, q: int|
            0 <= p < q < d.len() ==> (#[trigger] d[p]).0@ != (#[trigger] d[q]).0@)
    }
    assert(unique_keys(s.remove(i))) by {
        assert(forall|p: int, q: int|
            0 <= p < q < s.remove(i).len() ==> (#[trigger] s.remove(i)[p]).0@ != (#[trigger] s.remove(
                i,
            )[q]).0@)
    }
    if i == s.len() - 1 {
        assert(s.remove(i) =~= d);
        lemma_map_of_dom(d);
        assert(!map_of(d).dom().contains(k));
        assert(map_of(s).remove(k) =~= map_of(d));
    } else {
        lemma_map_of_remove(d, i);
        assert(s.remove(i).drop_last() =~= d.remove(i));
        assert(s.remove(i).last() == s.last());
        assert(s.last().0@ != k);
        assert(map_of(s.remove(i)) == map_of(d.remove(i)).insert(s.last().0@, s.last().1@));
        assert(map_of(d).remove(k).insert(s.last().0@, s.last().1@) =~= map_of(d).insert(
            s.last().0@,
            s.last().1@,
        ).remove(k));
    }
}

/// Mapping from peer identifier to chosen display name, keys unique.
pub struct Participants {
    entries: Vec<(String, String)>,
}

impl View for Participants {
    type V = Map<Seq<char>, Seq<char>>;

    closed spec fn view(&self) -> Map<Seq<char>, Seq<char>> {
        map_of(self.entries@)
    }
}

impl Participants {
    /// Well-formedness: no two entries carry the same key.
    pub closed spec fn wf(self) -> bool {
        unique_keys(self.entries@)
    }

    /// An empty map.
    pub fn new() -> (r: Self)
        ensures
            r.wf(),
            r@ == Map::<Seq<char>, Seq<char>>::empty(),
    {
        Participants { entries: Vec::new() }
    }

    /// Whether `id` has an entry.
    pub fn contains_key(&self, id: &String) -> (r: bool)
        requires
            self.wf(),
        ensures
            r == self@.dom().contains(id@),
    {
        let n = self.entries.len();
        let mut i: usize = 0;
        while i < n
            invariant
                n == self.entries@.len(),
                i <= n,
                forall|p: int| 0 <= p < i ==> (#[trigger] self.entries@[p]).0@ != id@,
            decreases n - i,
        {
            if self.entries[i].0 == *id {
                proof {
                    lemma_map_of_dom(self.entries@);
                }
                return true;
            }
            i = i + 1;
        }
        proof {
            lemma_map_of_dom(self.entries@);
        }
        false
    }

    /// The display name entered for `id`, if any.
    pub fn get(&self, id: &String) -> (r: Option<&String>)
        requires
            self.wf(),
        ensures
            match r {
                Some(name) => self@.dom().contains(id@) && name@ == self@[id@],
                None => !self@.dom().contains(id@),
            },
    {
        let n = self.entries.len();
        let mut i: usize = 0;
        while i < n
            invariant
                self.wf(),
                n == self.entries@.len(),
                i <= n,
                forall|p: int| 0 <= p < i ==> (#[trigger] self.entries@[p]).0@ != id@,
            decreases n - i,
        {
            if self.entries[i].0 == *id {
                proof {
                    lemma_map_of_value(self.entries@, i as int);
                }
                return Some(&self.entries[i].1);
            }
            i = i + 1;
        }
        proof {
            lemma_map_of_dom(self.entries@);
        }
        None
    }

    /// First-writer-wins insertion: adds the entry only when `id` has
    /// none yet, and reports whether it did.
    pub fn insert(&mut self, id: String, name: String) -> (added: bool)
        requires
            old(self).wf(),
        ensures
            final(self).wf(),
            added == !old(self)@.dom().contains(id@),
            final(self)@ == if added {
                old(self)@.insert(id@, name@)
            } else {
                old(self)@
            },
    {
        if self.contains_key(&id) {
            false
        } else {
            proof {
                lemma_map_of_dom(self.entries@);
            }
            let ghost before = self.entries@;
            self.entries.push((id, name));
            proof {
                assert(self.entries@.drop_last() =~= before);
                assert forall|p: int, q: int|
                    0 <= p < q < self.entries@.len() implies (#[trigger] self.entries@[p]).0@
                    != (#[trigger] self.entries@[q]).0@ by {
                    if q < self.entries@.len() - 1 {
                        assert(before[p] == self.entries@[p] && before[q] == self.entries@[q]);
                    } else {
                        assert(before[p] == self.entries@[p]);
                    }
                }
            }
            true
        }
    }

    /// Removes the entry for `id`, handing back its display name.
    pub fn remove(&mut self, id: &String) -> (r: Option<String>)
        requires
            old(self).wf(),
        ensures
            final(self).wf(),
            final(self)@ == old(self)@.remove(id@),
            match r {
                Some(name) => old(self)@.dom().contains(id@) && name@ == old(self)@[id@],
                None => !old(self)@.dom().contains(id@),
            },
    {
        let n = self.entries.len();
        let mut i: usize = 0;
        while i < n
            invariant
                self.wf(),
                self == old(self),
                n == self.entries@.len(),
                i <= n,
                forall|p: int| 0 <= p < i ==> (#[trigger] self.entries@[p]).0@ != id@,
            decreases n - i,
        {
            if self.entries[i].0 == *id {
                proof {
                    lemma_map_of_value(self.entries@, i as int);
                    lemma_map_of_remove(self.entries@, i as int);
                }
                let pair = self.entries.remove(i);
                return Some(pair.1);
            }
            i = i + 1;
        }
        proof {
            lemma_map_of_dom(self.entries@);
            assert(self@.remove(id@) =~= self@);
        }
        None
    }

    /// The entries, for iteration; their keys are unique and they denote
    /// this map.
    pub fn pairs(&self) -> (r: &Vec<(String, String)>)
        requires
            self.wf(),
        ensures
            unique_keys(r@),
            map_of(r@) == self@,
    {
        &self.entries
    }

    /// The entries, consumed; their keys are unique and they denote this
    /// map.
    pub fn into_entries(self) -> (r: Vec<(String, String)>)
        requires
            self.wf(),
        ensures
            unique_keys(r@),
            map_of(r@) == self@,
    {
        self.entries
    }
}

} // verus!
