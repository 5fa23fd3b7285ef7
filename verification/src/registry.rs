//! A model of the host runtime's window registry: windows looked up by
//! name, closed, and shown. Every close or show operation is recorded
//! as an attempt, so contracts can speak about which attempts were made
//! and in what order.

use vstd::prelude::*;

verus! {

/// What an operation against the registry tried to do to a window.
#[derive(Clone, Copy, PartialEq, Eq, Structural, Debug)]
pub enum AttemptKind {
    /// A close attempt: the window, if present, leaves the registry.
    Close,
    /// A show attempt: the window, if present, becomes visible.
    Show,
}

/// A record of one operation against the registry: what was attempted,
/// and against which window name. An attempt is recorded whether or not
/// the named window was present.
pub struct Attempt {
    /// The kind of operation attempted.
    pub kind: AttemptKind,
    /// The window name the operation was aimed at.
    pub target: String,
}

impl Attempt {
    /// The attempt is a close aimed at the window named `n`.
    pub open spec fn is_close_of(self, n: Seq<char>) -> bool {
        self.kind == AttemptKind::Close && self.target@ == n
    }

    /// The attempt is a show aimed at the window named `n`.
    pub open spec fn is_show_of(self, n: Seq<char>) -> bool {
        self.kind == AttemptKind::Show && self.target@ == n
    }
}

/// One window known to the registry: its name and whether it is
/// currently visible.
pub struct Window {
    /// The name the window is looked up by.
    pub name: String,
    /// Whether the window is currently visible.
    pub visible: bool,
}

/// The window registry: windows keyed by name, each either visible or
/// hidden, together with the log of every close and show attempt made
/// against the registry.
pub struct Registry {
    /// The windows the registry currently holds.
    pub windows: Vec<Window>,
    /// Every close and show attempt made so far, oldest first.
    pub attempts: Vec<Attempt>,
}

impl Registry {
    /// A window named `n` is present.
    pub open spec fn has_window(self, n: Seq<char>) -> bool {
        exists|i: int| 0 <= i < self.windows@.len() && self.windows@[i].name@ == n
    }

    /// The index of the window named `n`, when one is present.
    pub open spec fn index_of(self, n: Seq<char>) -> int {
        choose|i: int| 0 <= i < self.windows@.len() && self.windows@[i].name@ == n
    }

    /// Window names are unique, so lookup by name is unambiguous.
    pub open spec fn wf(self) -> bool {
        forall|i: int, j: int|
            0 <= i < j < self.windows@.len() ==> self.windows@[i].name@ != self.windows@[j].name@
    }
}

impl View for Registry {
    type V = Map<Seq<char>, bool>;

    /// The registry as a map from window name to visibility.
    open spec fn view(&self) -> Map<Seq<char>, bool> {
        Map::new(
            |n: Seq<char>| self.has_window(n),
            |n: Seq<char>| self.windows@[self.index_of(n)].visible,
        )
    }
}

impl Registry {
    /// In a well-formed registry every index holding the name `n` is
    /// the one `index_of` picks.
    proof fn lemma_index_unique(self, n: Seq<char>, i: int)
        requires
            self.wf(),
            0 <= i < self.windows@.len(),
            self.windows@[i].name@ == n,
        ensures
            self.index_of(n) == i,
    {
        let j = self.index_of(n);
        assert(0 <= j < self.windows@.len() && self.windows@[j].name@ == n);
    }

    /// An empty registry: no windows, no attempts yet.
    pub fn new() -> (r: Registry)
        ensures
            r.wf(),
            r@ == Map::<Seq<char>, bool>::empty(),
            r.attempts@ == Seq::<Attempt>::empty(),
    {
        let r = Registry { windows: Vec::new(), attempts: Vec::new() };
        proof {
            assert(r@ =~= Map::<Seq<char>, bool>::empty());
        }
        r
    }

    /// The index of the window named `name`, or `None` when no window
    /// has that name.
    fn find_index(&self, name: &String) -> (r: Option<usize>)
        ensures
            r is Some <==> self.has_window(name@),
            r is Some ==> 0 <= r->0 < self.windows@.len() && self.windows@[r->0 as int].name@
                == name@,
    {
        let n = self.windows.len();
        let mut i: usize = 0;
        while i < n
            invariant
                0 <= i <= n,
                n == self.windows@.len(),
                forall|j: int| 0 <= j < i ==> self.windows@[j].name@ != name@,
            decreases n - i,
        {
            if self.windows[i].name == *name {
                return Some(i);
            }
            i = i + 1;
        }
        None
    }

    /// Whether a window named `name` is present.
    pub fn contains_window(&self, name: &String) -> (present: bool)
        ensures
            present == self@.dom().contains(name@),
    {
        self.find_index(name).is_some()
    }

    /// The visibility of the window named `name`: `None` when no such
    /// window is present.
    pub fn window_visible(&self, name: &String) -> (v: Option<bool>)
        requires
            self.wf(),
        ensures
            v is Some <==> self@.dom().contains(name@),
            v is Some ==> v->0 == self@[name@],
    {
        match self.find_index(name) {
            Some(i) => {
                proof {
                    self.lemma_index_unique(name@, i as int);
                }
                Some(self.windows[i].visible)
            },
            None => None,
        }
    }

    /// Register a window. Rejected (and the registry left unchanged)
    /// when a window of that name is already present, so names stay
    /// unique. Registration is not a close or show operation, so the
    /// attempt log is unchanged.
    pub fn add_window(&mut self, name: String, visible: bool) -> (added: bool)
        requires
            old(self).wf(),
        ensures
            final(self).wf(),
            added == !old(self)@.dom().contains(name@),
            added ==> final(self)@ == old(self)@.insert(name@, visible),
            !added ==> final(self)@ == old(self)@,
            final(self).attempts@ == old(self).attempts@,
    {
        if self.find_index(&name).is_some() {
            return false;
        }
        let ghost pre = *self;
        self.windows.push(Window { name, visible });
        proof {
            let n = pre.windows@.len() as int;
            assert forall|m: Seq<char>| self.has_window(m) implies (pre.has_window(m) || m
                == self.windows@[n].name@) by {
                let i = choose|i: int|
                    0 <= i < self.windows@.len() && self.windows@[i].name@ == m;
                if i < n {
                    assert(pre.windows@[i].name@ == m);
                }
            }
            assert forall|m: Seq<char>| (pre.has_window(m) || m
                == self.windows@[n].name@) implies self.has_window(m) by {
                if pre.has_window(m) {
                    let i = choose|i: int| 0 <= i < n && pre.windows@[i].name@ == m;
                    assert(self.windows@[i].name@ == m);
                } else {
                    assert(self.windows@[n].name@ == m);
                }
            }
            assert forall|i: int, j: int|
                0 <= i < j < self.windows@.len() implies self.windows@[i].name@
                != self.windows@[j].name@ by {
                if j < n {
                    assert(pre.windows@[i].name@ != pre.windows@[j].name@);
                } else {
                    assert(!pre.has_window(self.windows@[j].name@));
                    assert(pre.windows@[i].name@ == self.windows@[i].name@);
                }
            }
            assert forall|m: Seq<char>| #[trigger] self@.dom().contains(m) implies self@[m]
                == pre@.insert(self.windows@[n].name@, self.windows@[n].visible)[m] by {
                if m == self.windows@[n].name@ {
                    self.lemma_index_unique(m, n);
                } else {
                    let i = self.index_of(m);
                    assert(self.windows@[i].name@ == m);
                    assert(i < n);
                    assert(pre.windows@[i].name@ == m);
                    pre.lemma_index_unique(m, i);
                }
            }
            assert(self@ =~= pre@.insert(self.windows@[n].name@, self.windows@[n].visible));
        }
        true
    }

    /// A close attempt against the window named `name`: the window, if
    /// present, leaves the registry; if absent, nothing happens. Either
    /// way exactly one close attempt is recorded.
    pub fn close_window(&mut self, name: &String) -> (was_present: bool)
        requires
            old(self).wf(),
        ensures
            final(self).wf(),
            was_present == old(self)@.dom().contains(name@),
            final(self)@ == old(self)@.remove(name@),
            final(self).attempts@.len() == old(self).attempts@.len() + 1,
            final(self).attempts@.drop_last() == old(self).attempts@,
            final(self).attempts@.last().is_close_of(name@),
    {
        let ghost pre = *self;
        let found = self.find_index(name);
        if let Some(i) = found {
            self.windows.remove(i);
            proof {
                self.lemma_close_removes(pre, name@, i as int);
            }
        } else {
            proof {
                assert(self@ =~= pre@.remove(name@));
            }
        }
        self.attempts.push(Attempt { kind: AttemptKind::Close, target: name.clone() });
        proof {
            assert(self.attempts@.drop_last() =~= pre.attempts@);
        }
        found.is_some()
    }

    /// Removing the window at the index where `n` sits takes exactly
    /// the key `n` out of the registry's map and keeps every other
    /// window, its name and its visibility.
    proof fn lemma_close_removes(self, pre: Registry, n: Seq<char>, i: int)
        requires
            pre.wf(),
            0 <= i < pre.windows@.len(),
            pre.windows@[i].name@ == n,
            self.windows@ == pre.windows@.remove(i),
        ensures
            self.wf(),
            self@ == pre@.remove(n),
    {
        let ws = pre.windows@;
        assert forall|a: int, b: int|
            0 <= a < b < self.windows@.len() implies self.windows@[a].name@
            != self.windows@[b].name@ by {
            let a0 = if a < i { a } else { a + 1 };
            let b0 = if b < i { b } else { b + 1 };
            assert(self.windows@[a] == ws[a0]);
            assert(self.windows@[b] == ws[b0]);
        }
        assert forall|m: Seq<char>| self.has_window(m) implies (pre.has_window(m) && m != n) by {
            let a = choose|a: int| 0 <= a < self.windows@.len() && self.windows@[a].name@ == m;
            let a0 = if a < i { a } else { a + 1 };
            assert(ws[a0].name@ == m);
            if m == n {
                pre.lemma_index_unique(n, a0);
                pre.lemma_index_unique(n, i);
            }
        }
        assert forall|m: Seq<char>| pre.has_window(m) && m != n implies self.has_window(m) by {
            let a0 = choose|a0: int| 0 <= a0 < ws.len() && ws[a0].name@ == m;
            if a0 < i {
                assert(self.windows@[a0].name@ == m);
            } else {
                assert(a0 != i);
                assert(self.windows@[a0 - 1].name@ == m);
            }
        }
        assert forall|m: Seq<char>| #[trigger] self@.dom().contains(m) implies self@[m]
            == pre@.remove(n)[m] by {
            let a = self.index_of(m);
            assert(self.windows@[a].name@ == m);
            let a0 = if a < i { a } else { a + 1 };
            assert(self.windows@[a] == ws[a0]);
            pre.lemma_index_unique(m, a0);
        }
        assert(self@ =~= pre@.remove(n));
    }

    /// A show attempt against the window named `name`: the window, if
    /// present, becomes visible; if absent, nothing happens and the
    /// attempt fails. Either way exactly one show attempt is recorded.
    pub fn show_window(&mut self, name: &String) -> (was_present: bool)
        requires
            old(self).wf(),
        ensures
            final(self).wf(),
            was_present == old(self)@.dom().contains(name@),
            was_present ==> final(self)@ == old(self)@.insert(name@, true),
            !was_present ==> final(self)@ == old(self)@,
            final(self).attempts@.len() == old(self).attempts@.len() + 1,
            final(self).attempts@.drop_last() == old(self).attempts@,
            final(self).attempts@.last().is_show_of(name@),
    {
        let ghost pre = *self;
        let found = self.find_index(name);
        if let Some(i) = found {
            self.windows[i].visible = true;
            proof {
                self.lemma_show_updates(pre, name@, i as int);
            }
        }
        self.attempts.push(Attempt { kind: AttemptKind::Show, target: name.clone() });
        proof {
            assert(self.attempts@.drop_last() =~= pre.attempts@);
        }
        found.is_some()
    }

    /// Making the window at the index where `n` sits visible sets
    /// exactly the key `n` to visible in the registry's map and keeps
    /// every other window, its name and its visibility.
    proof fn lemma_show_updates(self, pre: Registry, n: Seq<char>, i: int)
        requires
            pre.wf(),
            0 <= i < pre.windows@.len(),
            pre.windows@[i].name@ == n,
            self.windows@ == pre.windows@.update(
                i,
                Window { name: pre.windows@[i].name, visible: true },
            ),
        ensures
            self.wf(),
            self@ == pre@.insert(n, true),
    {
        assert(forall|a: int|
            0 <= a < self.windows@.len() ==> self.windows@[a].name@ == pre.windows@[a].name@);
        assert forall|m: Seq<char>| self.has_window(m) <==> pre.has_window(m) by {
            if self.has_window(m) {
                let a = choose|a: int|
                    0 <= a < self.windows@.len() && self.windows@[a].name@ == m;
                assert(pre.windows@[a].name@ == m);
            }
            if pre.has_window(m) {
                let a = choose|a: int| 0 <= a < pre.windows@.len() && pre.windows@[a].name@ == m;
                assert(self.windows@[a].name@ == m);
            }
        }
        assert forall|m: Seq<char>| #[trigger] self@.dom().contains(m) implies self@[m]
            == pre@.insert(n, true)[m] by {
            let a = self.index_of(m);
            assert(self.windows@[a].name@ == m);
            pre.lemma_index_unique(m, a);
            if m == n {
                pre.lemma_index_unique(n, i);
            }
        }
        assert(self@ =~= pre@.insert(n, true));
    }

    /// Decide well-formedness at run time: whether every window name is
    /// unique. Unverified callers guard the operations that require a
    /// well-formed registry with this check.
    pub fn check_well_formed(&self) -> (b: bool)
        ensures
            b == self.wf(),
    {
        let n = self.windows.len();
        let mut i: usize = 0;
        while i < n
            invariant
                i <= n,
                n == self.windows@.len(),
                forall|a: int, b: int|
                    0 <= a < b < i ==> self.windows@[a].name@ != self.windows@[b].name@,
            decreases n - i,
        {
            let mut j: usize = 0;
            while j < i
                invariant
                    j <= i < n,
                    n == self.windows@.len(),
                    forall|a: int| 0 <= a < j ==> self.windows@[a].name@ != self.windows@[i as int].name@,
                decreases i - j,
            {
                if self.windows[j].name == self.windows[i].name {
                    return false;
                }
                j = j + 1;
            }
            i = i + 1;
        }
        true
    }

    /// How many close and show attempts have been made so far.
    pub fn attempt_count(&self) -> (n: usize)
        ensures
            n == self.attempts@.len(),
    {
        self.attempts.len()
    }

    /// The `i`-th attempt made against the registry, oldest first.
    pub fn attempt_at(&self, i: usize) -> (a: &Attempt)
        requires
            i < self.attempts@.len(),
        ensures
            *a == self.attempts@[i as int],
    {
        &self.attempts[i]
    }
}

} // verus!
