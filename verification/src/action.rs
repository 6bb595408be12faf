//! Semantic actions, the keys bound to them, and the table of enabled
//! actions that is validated for binding conflicts when it is built.

use vstd::prelude::*;
use crate::inputs::Key;

verus! {

/// A user-triggered action.
#[derive(Clone, Copy, Debug, PartialEq, Eq, Structural)]
pub enum Action {
    Quit,
    Send,
}

impl Action {
    /// The fixed, deterministic enumeration order over all actions.
    pub open spec fn spec_all() -> Seq<Action> {
        seq![Action::Quit, Action::Send]
    }

    /// The keys declared for this action, in their declared order.
    pub open spec fn spec_keys(self) -> Seq<Key> {
        match self {
            Action::Quit => seq![Key::Ctrl('c'), Key::Char('q')],
            Action::Send => seq![Key::Enter],
        }
    }

    /// The printable name of this action.
    pub open spec fn spec_name(self) -> Seq<char> {
        match self {
            Action::Quit => "Quit"@,
            Action::Send => "Send"@,
        }
    }

    /// Every action occurs in the fixed enumeration order.
    pub proof fn lemma_enumeration_complete(a: Action)
        ensures
            Action::spec_all().contains(a),
    {
        match a {
            Action::Quit => assert(Action::spec_all()[0] == a),
            Action::Send => assert(Action::spec_all()[1] == a),
        }
    }

    /// All actions, in the fixed enumeration order.
    pub fn iterator() -> (r: Vec<Action>)
        ensures
            r@ == Action::spec_all(),
    {
        let mut v: Vec<Action> = Vec::new();
        v.push(Action::Quit);
        v.push(Action::Send);
        proof {
            assert(v@ =~= Action::spec_all());
        }
        v
    }

    /// The keys that trigger this action.
    pub fn keys(&self) -> (r: Vec<Key>)
        ensures
            r@ == self.spec_keys(),
    {
        let mut v: Vec<Key> = Vec::new();
        match self {
            Action::Quit => {
                v.push(Key::Ctrl('c'));
                v.push(Key::Char('q'));
            },
            Action::Send => {
                v.push(Key::Enter);
            },
        }
        proof {
            assert(v@ =~= self.spec_keys());
        }
        v
    }

    /// The printable name of this action.
    pub fn name(&self) -> (r: String)
        ensures
            r@ == self.spec_name(),
    {
        match self {
            Action::Quit => "Quit".to_owned(),
            Action::Send => "Send".to_owned(),
        }
    }
}

/// Two actions claim at least one key in common.
pub open spec fn shares_key(a: Action, b: Action) -> bool {
    exists|k: Key| a.spec_keys().contains(k) && b.spec_keys().contains(k)
}

/// No two entries of the list claim a key in common.
pub open spec fn conflict_free(s: Seq<Action>) -> bool {
    forall|i: int, j: int| 0 <= i < j < s.len() ==> !shares_key(s[i], s[j])
}

/// The conflict report produced when two enabled actions claim the same
/// key: it names both actions and the shared key.
#[derive(Clone, Copy, Debug, PartialEq, Eq, Structural)]
pub struct BindingConflict {
    pub key: Key,
    pub first: Action,
    pub second: Action,
}

/// The set of enabled actions. A table built by [`Actions::new`] never
/// holds two enabled actions that share a key.
#[derive(Debug, Clone)]
pub struct Actions(Vec<Action>);

/// Whether `ks` holds `k`.
fn key_list_contains(ks: &Vec<Key>, k: Key) -> (r: bool)
    ensures
        r == ks@.contains(k),
{
    let mut i: usize = 0;
    while i < ks.len()
        invariant
            i <= ks@.len(),
            forall|p: int| 0 <= p < i ==> ks@[p] != k,
        decreases ks@.len() - i,
    {
        if ks[i] == k {
            return true;
        }
        i = i + 1;
    }
    false
}

/// Looks for a key that `a` and `b` both claim.
fn find_shared_key(a: Action, b: Action) -> (r: Option<Key>)
    ensures
        match r {
            Some(k) => a.spec_keys().contains(k) && b.spec_keys().contains(k),
            None => !shares_key(a, b),
        },
{
    let a_keys = a.keys();
    let b_keys = b.keys();
    let mut i: usize = 0;
    while i < a_keys.len()
        invariant
            i <= a_keys@.len(),
            a_keys@ == a.spec_keys(),
            b_keys@ == b.spec_keys(),
            forall|p: int| 0 <= p < i ==> !b.spec_keys().contains(a_keys@[p]),
        decreases a_keys@.len() - i,
    {
        if key_list_contains(&b_keys, a_keys[i]) {
            return Some(a_keys[i]);
        }
        i = i + 1;
    }
    None
}

impl Actions {
    /// The enabled actions, as the table's abstract content.
    pub closed spec fn enabled(self) -> Seq<Action> {
        self.0@
    }

    /// Builds the table of enabled actions. Construction fails with a
    /// conflict report naming both actions and the shared key whenever
    /// two entries of `actions` claim the same key; the table is built
    /// exactly when no two entries do.
    pub fn new(actions: Vec<Action>) -> (r: Result<Actions, BindingConflict>)
        ensures
            match r {
                Ok(t) => t.enabled() == actions@ && conflict_free(actions@),
                Err(e) => {
                    &&& !conflict_free(actions@)
                    &&& e.first.spec_keys().contains(e.key)
                    &&& e.second.spec_keys().contains(e.key)
                    &&& (exists|i: int, j: int|
                        0 <= i < j < actions@.len() && actions@[i] == e.first && actions@[j]
                            == e.second)
                },
            },
    {
        let n = actions.len();
        let mut i: usize = 0;
        while i < n
            invariant
                n == actions@.len(),
                i <= n,
                forall|p: int, q: int| 0 <= p < q < n && p < i ==> !shares_key(actions@[p], actions@[q]),
            decreases n - i,
        {
            let mut j: usize = i + 1;
            while j < n
                invariant
                    n == actions@.len(),
                    i < j,
                    i < n,
                    j <= n,
                    forall|p: int, q: int| 0 <= p < q < n && p < i ==> !shares_key(actions@[p], actions@[q]),
                    forall|q: int| i < q < j ==> !shares_key(actions@[i as int], actions@[q]),
                decreases n - j,
            {
                match find_shared_key(actions[i], actions[j]) {
                    Some(k) => {
                        let e = BindingConflict { key: k, first: actions[i], second: actions[j] };
                        proof {
                            let ii = i as int;
                            let jj = j as int;
                            assert(actions@[ii].spec_keys().contains(k)
                                && actions@[jj].spec_keys().contains(k));
                            assert(shares_key(actions@[ii], actions@[jj]));
                            assert(!conflict_free(actions@));
                            assert(0 <= ii < jj < actions@.len() && actions@[ii] == e.first
                                && actions@[jj] == e.second);
                        }
                        return Err(e);
                    },
                    None => {},
                }
                j = j + 1;
            }
            i = i + 1;
        }
        Ok(Actions(actions))
    }

    /// Whether `a` is enabled in this table.
    fn is_enabled(&self, a: Action) -> (r: bool)
        ensures
            r == self.enabled().contains(a),
    {
        let mut i: usize = 0;
        while i < self.0.len()
            invariant
                i <= self.0@.len(),
                forall|p: int| 0 <= p < i ==> self.0@[p] != a,
            decreases self.0@.len() - i,
        {
            if self.0[i] == a {
                return true;
            }
            i = i + 1;
        }
        false
    }

    /// Returns the first enabled action, in the fixed enumeration order,
    /// whose key set contains `key`, and nothing when no enabled action
    /// claims `key`.
    pub fn find(&self, key: Key) -> (r: Option<Action>)
        ensures
            match r {
                Some(a) => {
                    &&& self.enabled().contains(a)
                    &&& a.spec_keys().contains(key)
                    &&& (exists|i: int|
                        {
                            &&& 0 <= i < Action::spec_all().len()
                            &&& Action::spec_all()[i] == a
                            &&& (forall|j: int|
                                0 <= j < i ==> !(self.enabled().contains(
                                    #[trigger] Action::spec_all()[j],
                                ) && Action::spec_all()[j].spec_keys().contains(key)))
                        })
                },
                None => forall|a: Action|
                    self.enabled().contains(a) ==> !a.spec_keys().contains(key),
            },
    {
        let order = Action::iterator();
        let mut idx: usize = 0;
        while idx < order.len()
            invariant
                order@ == Action::spec_all(),
                idx <= order@.len(),
                forall|j: int|
                    0 <= j < idx ==> !(self.enabled().contains(#[trigger] order@[j])
                        && order@[j].spec_keys().contains(key)),
            decreases order@.len() - idx,
        {
            let a = order[idx];
            let ks = a.keys();
            if self.is_enabled(a) && key_list_contains(&ks, key) {
                return Some(a);
            }
            idx = idx + 1;
        }
        proof {
            assert forall|a: Action| self.enabled().contains(a) implies !a.spec_keys().contains(
                key,
            ) by {
                Action::lemma_enumeration_complete(a);
                let i = choose|i: int|
                    0 <= i < Action::spec_all().len() && Action::spec_all()[i] == a;
                assert(!(self.enabled().contains(Action::spec_all()[i])
                    && Action::spec_all()[i].spec_keys().contains(key)));
            }
        }
        None
    }

    /// The enabled actions, in the order they were given.
    pub fn actions(&self) -> (r: &Vec<Action>)
        ensures
            r@ == self.enabled(),
    {
        &self.0
    }
}

impl Default for Actions {
    /// An empty table: no actions enabled.
    fn default() -> (r: Self)
        ensures
            r.enabled() == Seq::<Action>::empty(),
    {
        Actions(Vec::new())
    }
}

} // verus!
