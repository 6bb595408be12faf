//! Bounded history log: a fixed-capacity circular buffer that overwrites
//! its oldest slot once full.
//!
//! The buffer keeps a ghost record of every item ever pushed. Its
//! well-formedness ties each occupied slot to the push that last wrote
//! it, which is how the log is shown to hold exactly the most recent
//! pushes once it has wrapped.

use vstd::prelude::*;
use vstd::arithmetic::div_mod::{
    lemma_fundamental_div_mod, lemma_fundamental_div_mod_converse_div,
    lemma_fundamental_div_mod_converse_mod, lemma_div_pos_is_pos,
    lemma_mod_division_less_than_divisor,
};

verus! {

/// Capacity of the history log.
pub const HISTORY_SIZE: usize = 32;

/// Fixed-capacity circular buffer of optional slots with a write cursor;
/// pushing to a full buffer overwrites the slot the cursor points at.
pub struct History<T> {
    data: Vec<Option<T>>,
    pointer: usize,
    count: usize,
    log: Ghost<Seq<T>>,
}

impl<T> History<T> {
    /// The capacity, as a mathematical integer.
    pub open spec fn capacity() -> int {
        HISTORY_SIZE as int
    }

    /// The index, among the first `n` pushes, of the push that last wrote
    /// slot `j` (meaningful for `0 <= j < min(n, capacity)`).
    pub open spec fn last_write(n: int, j: int) -> int {
        j + Self::capacity() * ((n - 1 - j) / Self::capacity())
    }

    /// Every item ever pushed, oldest first.
    pub closed spec fn pushes(self) -> Seq<T> {
        self.log@
    }

    /// The number of occupied slots: `min(pushes, capacity)`.
    pub open spec fn spec_len(self) -> int {
        if self.pushes().len() <= HISTORY_SIZE {
            self.pushes().len() as int
        } else {
            Self::capacity()
        }
    }

    /// The item occupying slot `j` (meaningful for `0 <= j < spec_len`).
    pub open spec fn spec_at(self, j: int) -> T {
        self.pushes()[Self::last_write(self.pushes().len() as int, j)]
    }

    /// The occupied items, in slot order.
    pub open spec fn visible(self) -> Seq<T> {
        Seq::new(self.spec_len() as nat, |j: int| self.spec_at(j))
    }

    /// Well-formedness: the cursor is the push count modulo the capacity,
    /// the occupied slots are exactly the first `spec_len` ones, and each
    /// holds the push that last wrote it.
    pub closed spec fn wf(self) -> bool {
        &&& self.data@.len() == HISTORY_SIZE
        &&& self.pointer as int == self.pushes().len() as int % Self::capacity()
        &&& self.count as int == self.spec_len()
        &&& (forall|j: int| 0 <= j < self.spec_len() ==> self.data@[j] == Some(self.spec_at(j)))
        &&& (forall|j: int| self.spec_len() <= j < HISTORY_SIZE ==> self.data@[j] is None)
    }

    /// Bounds for `last_write`: the push that last wrote an occupied slot
    /// is one of the `capacity` most recent pushes.
    proof fn lemma_last_write_bounds(n: int, j: int)
        requires
            0 <= j,
            j < n,
            j < Self::capacity(),
        ensures
            0 <= Self::last_write(n, j),
            Self::last_write(n, j) < n,
            n - Self::capacity() <= Self::last_write(n, j),
    {
        let c = Self::capacity();
        lemma_fundamental_div_mod(n - 1 - j, c);
        lemma_div_pos_is_pos(n - 1 - j, c);
        lemma_mod_division_less_than_divisor(n - 1 - j, c);
        let m = (n - 1 - j) / c;
        let r = (n - 1 - j) % c;
        assert(c * m == n - 1 - j - r);
        assert(Self::last_write(n, j) == n - 1 - r);
    }

    /// A fresh log: all slots empty, cursor at the start.
    pub fn new() -> (r: Self)
        ensures
            r.wf(),
            r.pushes() == Seq::<T>::empty(),
    {
        let mut data: Vec<Option<T>> = Vec::new();
        let mut i: usize = 0;
        while i < HISTORY_SIZE
            invariant
                i <= HISTORY_SIZE,
                data@.len() == i,
                forall|j: int| 0 <= j < i ==> data@[j] is None,
            decreases HISTORY_SIZE - i,
        {
            data.push(None);
            i = i + 1;
        }
        proof {
            vstd::arithmetic::div_mod::lemma_small_mod(0nat, HISTORY_SIZE as nat);
        }
        History { data, pointer: 0, count: 0, log: Ghost(Seq::empty()) }
    }

    /// Stores `item` in the slot under the cursor, overwriting any prior
    /// occupant, then advances the cursor by one modulo the capacity.
    /// Never blocks, never fails.
    pub fn push(&mut self, item: T)
        requires
            old(self).wf(),
        ensures
            final(self).wf(),
            final(self).pushes() == old(self).pushes().push(item),
    {
        let ghost it = item;
        let ghost old_log = self.log@;
        let ghost n = old_log.len() as int;
        let ghost c = Self::capacity();
        let ghost p = self.pointer as int;

        self.data.set(self.pointer, Some(item));
        if self.pointer + 1 == HISTORY_SIZE {
            self.pointer = 0;
        } else {
            self.pointer = self.pointer + 1;
        }
        if self.count < HISTORY_SIZE {
            self.count = self.count + 1;
        }
        self.log = Ghost(old_log.push(it));

        proof {
            lemma_fundamental_div_mod(n, c);
            let q = n / c;
            // The new cursor is (n + 1) % capacity.
            if p == c - 1 {
                lemma_fundamental_div_mod_converse_mod(n + 1, c, q + 1, 0);
            } else {
                lemma_fundamental_div_mod_converse_mod(n + 1, c, q, p + 1);
            }
            // The written slot now holds push n.
            lemma_fundamental_div_mod_converse_div(n - p, c, q, 0);
            assert(Self::last_write(n + 1, p) == n);
            // Every other occupied slot is untouched: its last writer among
            // the first n + 1 pushes is its last writer among the first n.
            assert forall|j: int| 0 <= j < self.spec_len() && j != p implies self.data@[j]
                == Some(self.spec_at(j)) by {
                lemma_fundamental_div_mod(n - 1 - j, c);
                lemma_mod_division_less_than_divisor(n - 1 - j, c);
                let m = (n - 1 - j) / c;
                let r = (n - 1 - j) % c;
                if r == c - 1 {
                    // Then n - j would be a multiple of the capacity, putting
                    // j under the cursor, which this case excludes.
                    lemma_fundamental_div_mod_converse_mod(n - j, c, m + 1, 0);
                    if p > j {
                        lemma_fundamental_div_mod_converse_mod(n - j, c, q, p - j);
                    } else {
                        lemma_fundamental_div_mod_converse_mod(n - j, c, q - 1, c + p - j);
                    }
                    assert(false);
                }
                lemma_fundamental_div_mod_converse_div(n - j, c, m, r + 1);
                assert(Self::last_write(n + 1, j) == Self::last_write(n, j));
                Self::lemma_last_write_bounds(n, j);
            }
        }
    }

    /// The item at `index` if that slot is occupied, else nothing.
    /// `index` must be below the capacity.
    pub fn get(&self, index: usize) -> (r: Option<&T>)
        requires
            self.wf(),
            index < HISTORY_SIZE,
        ensures
            match r {
                Some(t) => index < self.spec_len() && *t == self.spec_at(index as int),
                None => index >= self.spec_len(),
            },
    {
        match &self.data[index] {
            Some(t) => Some(t),
            None => None,
        }
    }

    /// How many slots are occupied: the number of pushes observed, which
    /// stops growing once the buffer is full.
    pub fn get_count(&self) -> (r: usize)
        requires
            self.wf(),
        ensures
            r as int == self.spec_len(),
    {
        self.count
    }

    /// Rebuilds a log by pushing `items` in order onto a fresh buffer.
    pub fn from_items(items: Vec<T>) -> (r: Self)
        ensures
            r.wf(),
            r.pushes() == items@,
    {
        let ghost orig = items@;
        let mut items = items;
        let mut h = Self::new();
        while items.len() > 0
            invariant
                h.wf(),
                items@.len() <= orig.len(),
                h.pushes() == orig.take(orig.len() - items@.len()),
                items@ == orig.skip(orig.len() - items@.len()),
            decreases items@.len(),
        {
            let ghost i = orig.len() - items@.len();
            let m = items.remove(0);
            proof {
                assert(m == orig[i as int]);
            }
            h.push(m);
            proof {
                assert(h.pushes() =~= orig.take(i + 1));
                assert(items@ =~= orig.skip(i + 1));
            }
        }
        proof {
            assert(h.pushes() =~= orig);
        }
        h
    }

    /// Once at least `capacity` pushes have been observed, the buffer
    /// holds exactly the `capacity` most recent pushes: push `k` of the
    /// most recent ones sits in slot `k % capacity`, and every occupied
    /// slot `j` holds the push `last_write(.., j)`, which is one of the
    /// most recent ones - so every earlier item is irretrievable.
    pub proof fn lemma_holds_most_recent(self)
        requires
            self.wf(),
            self.pushes().len() >= HISTORY_SIZE,
        ensures
            self.spec_len() == Self::capacity(),
            forall|k: int|
                self.pushes().len() - Self::capacity() <= k < self.pushes().len()
                    ==> self.spec_at(k % Self::capacity()) == self.pushes()[k],
            forall|j: int|
                0 <= j < Self::capacity()
                    ==> self.pushes().len() - Self::capacity() <= #[trigger] Self::last_write(
                    self.pushes().len() as int,
                    j,
                ) < self.pushes().len(),
    {
        let c = Self::capacity();
        let n = self.pushes().len() as int;
        assert forall|k: int| n - c <= k < n implies self.spec_at(k % c) == self.pushes()[k] by {
            lemma_fundamental_div_mod(k, c);
            lemma_mod_division_less_than_divisor(k, c);
            let j = k % c;
            let m = k / c;
            // n - 1 - j == c * m + (n - 1 - k), with the remainder in range.
            lemma_fundamental_div_mod_converse_div(n - 1 - j, c, m, n - 1 - k);
            assert(Self::last_write(n, j) == k);
        }
        assert forall|j: int| 0 <= j < c implies n - c <= #[trigger] Self::last_write(n, j)
            < n by {
            Self::lemma_last_write_bounds(n, j);
        }
    }
}

impl<T: Clone> History<T> {
    /// The occupied items in slot order, cloned out of their slots. Once
    /// the buffer has wrapped, slot order is no longer chronological
    /// order; `lemma_holds_most_recent` states which pushes the slots
    /// hold.
    pub fn get_all(&self) -> (r: Vec<T>)
        requires
            self.wf(),
        ensures
            r@.len() == self.spec_len(),
            forall|j: int| 0 <= j < r@.len() ==> cloned::<T>(self.spec_at(j), r@[j]),
    {
        let mut r: Vec<T> = Vec::new();
        let mut i: usize = 0;
        while i < self.count
            invariant
                self.wf(),
                i <= self.count,
                self.count as int == self.spec_len(),
                r@.len() == i,
                forall|j: int| 0 <= j < i ==> cloned::<T>(self.spec_at(j), r@[j]),
            decreases self.count - i,
        {
            match &self.data[i] {
                Some(t) => {
                    r.push(t.clone());
                },
                None => {
                    proof {
                        assert(false);
                    }
                },
            }
            i = i + 1;
        }
        r
    }
}

} // verus!
