use vstd::prelude::*;

use crate::time::Time;

verus! {

/// Identifies one snapshot of extracted state: the extractor's index and the
/// time at which it was captured.
#[derive(Debug, Clone, Copy, PartialEq, Eq)]
pub struct SnapshotKey {
    pub index: usize,
    pub time: Time,
}

/// The snapshots that a result of evaluation depends on, as a list without
/// duplicates. The newest addition stands first.
#[derive(Debug, PartialEq, Eq)]
pub enum State {
    Empty,
    Entry(SnapshotKey, Box<State>),
}

impl State {
    /// Whether `key` is among the snapshots.
    pub open spec fn has(self, key: SnapshotKey) -> bool
        decreases self,
    {
        match self {
            State::Empty => false,
            State::Entry(k, rest) => k == key || rest.has(key),
        }
    }

    /// The snapshots, as a set.
    pub open spec fn keys(self) -> Set<SnapshotKey>
        decreases self,
    {
        match self {
            State::Empty => Set::empty(),
            State::Entry(k, rest) => rest.keys().insert(k),
        }
    }

    /// The number of entries.
    pub open spec fn size(self) -> nat
        decreases self,
    {
        match self {
            State::Empty => 0,
            State::Entry(_, rest) => 1 + rest.size(),
        }
    }

    /// No entry occurs twice.
    pub open spec fn unique(self) -> bool
        decreases self,
    {
        match self {
            State::Empty => true,
            State::Entry(k, rest) => !rest.has(k) && rest.unique(),
        }
    }

    /// `self` with `key` added, unless it is there already.
    pub open spec fn with_key(self, key: SnapshotKey) -> State {
        if self.has(key) {
            self
        } else {
            State::Entry(key, Box::new(self))
        }
    }

    /// `self` with every snapshot of `other` added, in the order in which
    /// `other` lists them.
    pub open spec fn merged(self, other: State) -> State
        decreases other,
    {
        match other {
            State::Empty => self,
            State::Entry(k, rest) => self.with_key(k).merged(*rest),
        }
    }

    pub proof fn lemma_has_keys(self, key: SnapshotKey)
        ensures
            self.has(key) == self.keys().contains(key),
        decreases self,
    {
        match self {
            State::Empty => {},
            State::Entry(k, rest) => {
                rest.lemma_has_keys(key);
            },
        }
    }

    /// Merging gives the union of the two sets of snapshots, and keeps the
    /// entries unique.
    pub proof fn lemma_merged(self, other: State)
        ensures
            self.merged(other).keys() == self.keys().union(other.keys()),
            self.unique() ==> self.merged(other).unique(),
        decreases other,
    {
        match other {
            State::Empty => {
                assert(self.keys().union(Set::empty()) =~= self.keys());
            },
            State::Entry(k, rest) => {
                let s = self.with_key(k);
                self.lemma_has_keys(k);
                s.lemma_merged(*rest);
                if self.has(k) {
                    assert(self.keys().contains(k));
                } else {
                    assert(s.keys() == self.keys().insert(k));
                }
                assert(self.keys().union(other.keys()) =~= s.keys().union(rest.keys()));
            },
        }
    }

    /// The state without any snapshot.
    pub fn new() -> (r: State)
        ensures
            r == State::Empty,
    {
        State::Empty
    }

    /// The state of a single snapshot.
    pub fn singleton(key: SnapshotKey) -> (r: State)
        ensures
            r == State::Entry(key, Box::new(State::Empty)),
            r.keys() == Set::empty().insert(key),
    {
        assert(State::Empty.keys() == Set::<SnapshotKey>::empty());
        State::Entry(key, Box::new(State::Empty))
    }

    /// Whether there are no snapshots.
    pub fn is_empty(&self) -> (r: bool)
        ensures
            r == (*self == State::Empty),
            r == (self.keys() == Set::<SnapshotKey>::empty()),
    {
        match self {
            State::Empty => true,
            State::Entry(k, rest) => {
                assert(self.keys().contains(*k));
                false
            },
        }
    }

    /// Whether `key` is among the snapshots.
    pub fn contains(&self, key: SnapshotKey) -> (r: bool)
        ensures
            r == self.has(key),
        decreases self,
    {
        match self {
            State::Empty => false,
            State::Entry(k, rest) => {
                if k.index == key.index && k.time.0 == key.time.0 {
                    true
                } else {
                    rest.contains(key)
                }
            },
        }
    }

    /// An equal copy.
    pub fn duplicate(&self) -> (r: State)
        ensures
            r == *self,
        decreases self,
    {
        match self {
            State::Empty => State::Empty,
            State::Entry(k, rest) => State::Entry(*k, Box::new(rest.duplicate())),
        }
    }

    /// The snapshots of both states together.
    pub fn merge(&self, other: &State) -> (r: State)
        ensures
            r == self.merged(*other),
            r.keys() == self.keys().union(other.keys()),
        decreases other,
    {
        proof {
            self.lemma_merged(*other);
        }
        match other {
            State::Empty => self.duplicate(),
            State::Entry(k, rest) => {
                let with_key = if self.contains(*k) {
                    self.duplicate()
                } else {
                    State::Entry(*k, Box::new(self.duplicate()))
                };
                with_key.merge(rest)
            },
        }
    }

    /// The snapshots in list order.
    pub open spec fn key_seq(self) -> Seq<SnapshotKey>
        decreases self,
    {
        match self {
            State::Empty => Seq::empty(),
            State::Entry(k, rest) => seq![k] + rest.key_seq(),
        }
    }

    pub proof fn lemma_key_seq(self)
        ensures
            self.key_seq().len() == self.size(),
            forall|k: SnapshotKey| self.key_seq().contains(k) <==> self.has(k),
        decreases self,
    {
        match self {
            State::Empty => {},
            State::Entry(k, rest) => {
                rest.lemma_key_seq();
                let ks = self.key_seq();
                assert(ks =~= seq![k] + rest.key_seq());
                assert forall|x: SnapshotKey| ks.contains(x) implies self.has(x) by {
                    let i = choose|i: int| 0 <= i < ks.len() && ks[i] == x;
                    if i > 0 {
                        assert(rest.key_seq()[i - 1] == x);
                        assert(rest.key_seq().contains(x));
                        assert(rest.has(x));
                    } else {
                        assert(x == k);
                    }
                }
                assert forall|x: SnapshotKey| self.has(x) implies ks.contains(x) by {
                    if x == k {
                        assert(ks[0] == x);
                    } else {
                        assert(rest.has(x));
                        assert(rest.key_seq().contains(x));
                        let i = choose|i: int| 0 <= i < rest.key_seq().len() && rest.key_seq()[i] == x;
                        assert(ks[i + 1] == x);
                    }
                }
            },
        }
    }

    /// The snapshots in list order, newest addition first.
    pub fn key_list(&self) -> (r: Vec<SnapshotKey>)
        ensures
            r@ == self.key_seq(),
        decreases self,
    {
        match self {
            State::Empty => Vec::new(),
            State::Entry(k, rest) => {
                let mut r = rest.key_list();
                r.insert(0, *k);
                assert(r@ =~= seq![*k] + rest.key_seq());
                r
            },
        }
    }
}

impl Clone for State {
    fn clone(&self) -> (r: State)
        ensures
            r == *self,
    {
        self.duplicate()
    }
}

} // verus!
