//! Key maps: a tree of key sequences, each complete sequence bound to an
//! action.

use vstd::prelude::*;

use crate::action::Action;
use crate::event::KeyEvent;

verus! {

/// What the runtime does once a bound key sequence completes.
#[derive(Debug, Clone, Copy, PartialEq, Eq, Structural)]
pub enum TerminationBehavior {
    /// Execute the bound action at once.
    Immediate,
    /// Defer the bound action to a later cycle.
    Delayed(),
}

/// Errors raised while editing a key map.
#[derive(Debug, Clone, Copy, PartialEq, Eq, Structural)]
pub enum KeymapError {
    /// An empty key sequence cannot be bound.
    EmptyKey,
}

/// One node of a key map. Each edge to a child is labelled with a key
/// event; a node reached by a complete bound sequence carries the action to
/// execute.
#[derive(Debug)]
pub struct KeyTreeNode {
    /// A human-readable description of this binding, if any.
    pub desc: Option<String>,
    /// The children, each behind the key event that leads to it. No two
    /// children share a key event.
    pub children: Vec<(KeyEvent, KeyTreeNode)>,
    /// The action bound to the sequence ending here, if any, with its
    /// termination behavior.
    pub action: Option<(Action, TerminationBehavior)>,
}


/// Following a suffix of `q` in place is the same as following the suffix
/// from its own start.
proof fn lemma_lookup_from_skip(n: KeyTreeNode, q: Seq<KeyEvent>, p: int, d: int)
    requires
        0 <= p,
        0 <= d,
        p + d <= q.len(),
    ensures
        n.lookup_from(q, p + d) == n.lookup_from(q.skip(p), d),
    decreases q.len() - p - d,
{
    if p + d < q.len() {
        assert(q.skip(p)[d] == q[p + d]);
        let ci = n.child_index(q[p + d]);
        if ci >= 0 {
            lemma_lookup_from_skip(n.children@[ci].1, q, p, d + 1);
        }
    }
}

/// Children with the same keys at the same positions resolve every key to
/// the same index.
proof fn lemma_child_index_eq(pre: KeyTreeNode, post: KeyTreeNode, k2: KeyEvent)
    requires
        pre.wf(),
        post.children@.len() == pre.children@.len(),
        forall|i: int|
            0 <= i < pre.children@.len() ==> (#[trigger] post.children@[i]).0
                == pre.children@[i].0,
    ensures
        post.child_index(k2) == pre.child_index(k2),
{
    if exists|i: int| 0 <= i < pre.children@.len() && (#[trigger] pre.children@[i]).0 == k2 {
        let a = pre.child_index(k2);
        assert(0 <= a < pre.children@.len() && pre.children@[a].0 == k2);
        assert(post.children@[a].0 == k2);
        let b = post.child_index(k2);
        assert(0 <= b < post.children@.len() && post.children@[b].0 == k2);
        assert(pre.children@[b].0 == k2);
        if a != b {
            assert(false);
        }
    } else {
        if exists|i: int| 0 <= i < post.children@.len() && (#[trigger] post.children@[i]).0 == k2 {
            let b = post.child_index(k2);
            assert(pre.children@[b].0 == k2);
            assert(false);
        }
    }
}

/// Appending a child behind a fresh key leaves every other key's index
/// unchanged.
proof fn lemma_child_index_push(pre: KeyTreeNode, post: KeyTreeNode, k: KeyEvent, k2: KeyEvent)
    requires
        pre.wf(),
        post.children@.len() == pre.children@.len() + 1,
        forall|i: int|
            0 <= i < pre.children@.len() ==> (#[trigger] post.children@[i]) == pre.children@[i],
        post.children@.last().0 == k,
        k2 != k,
    ensures
        post.child_index(k2) == pre.child_index(k2),
{
    if exists|i: int| 0 <= i < pre.children@.len() && (#[trigger] pre.children@[i]).0 == k2 {
        let a = pre.child_index(k2);
        assert(0 <= a < pre.children@.len() && pre.children@[a].0 == k2);
        assert(post.children@[a].0 == k2);
        let b = post.child_index(k2);
        assert(0 <= b < post.children@.len() && post.children@[b].0 == k2);
        assert(b < pre.children@.len());
        assert(pre.children@[b].0 == k2);
        if a != b {
            assert(false);
        }
    } else {
        if exists|i: int| 0 <= i < post.children@.len() && (#[trigger] post.children@[i]).0 == k2 {
            let b = post.child_index(k2);
            assert(0 <= b < post.children@.len() && post.children@[b].0 == k2);
            assert(b < pre.children@.len());
            assert(false);
        }
    }
}

/// A lookup whose first step lands on the same child in both trees gives
/// the same result in both.
proof fn lemma_lookup_same_first_child(pre: KeyTreeNode, post: KeyTreeNode, q: Seq<KeyEvent>)
    requires
        q.len() >= 1,
        post.child_index(q[0]) == pre.child_index(q[0]),
        pre.child_index(q[0]) >= 0 ==> 0 <= pre.child_index(q[0]) < pre.children@.len() && 0
            <= pre.child_index(q[0]) < post.children@.len() && post.children@[pre.child_index(
            q[0],
        )].1 == pre.children@[pre.child_index(q[0])].1,
    ensures
        post.lookup(q) == pre.lookup(q),
{
    let ci = pre.child_index(q[0]);
    if ci >= 0 {
        assert(post.lookup(q) == post.children@[ci].1.lookup_from(q, 1));
        assert(pre.lookup(q) == pre.children@[ci].1.lookup_from(q, 1));
    }
}

impl KeyTreeNode {
    /// A key map is well formed when no node has two children behind the
    /// same key event.
    pub open spec fn wf(self) -> bool
        decreases self,
    {
        &&& forall|i: int, j: int|
            0 <= i < j < self.children@.len() ==> (#[trigger] self.children@[i]).0 != (
            #[trigger] self.children@[j]).0
        &&& forall|i: int|
            0 <= i < self.children@.len() ==> (#[trigger] self.children@[i]).1.wf()
    }

    /// The index of the child behind key `k`, or -1 if there is none.
    pub open spec fn child_index(self, k: KeyEvent) -> int {
        if exists|i: int| 0 <= i < self.children@.len() && (#[trigger] self.children@[i]).0 == k {
            choose|i: int| 0 <= i < self.children@.len() && (#[trigger] self.children@[i]).0 == k
        } else {
            -1
        }
    }

    /// The node reached by following `keys` from position `i`, if every key
    /// on the way has a child.
    pub open spec fn lookup_from(self, keys: Seq<KeyEvent>, i: int) -> Option<KeyTreeNode>
        decreases keys.len() - i,
    {
        if i < 0 || i >= keys.len() {
            Some(self)
        } else if self.child_index(keys[i]) >= 0 {
            self.children@[self.child_index(keys[i])].1.lookup_from(keys, i + 1)
        } else {
            None
        }
    }

    /// The node reached by following the whole sequence `keys`.
    pub open spec fn lookup(self, keys: Seq<KeyEvent>) -> Option<KeyTreeNode> {
        self.lookup_from(keys, 0)
    }

    /// An empty key map: no children, no binding.
    pub fn new() -> (r: KeyTreeNode)
        ensures
            r.wf(),
            r.children@.len() == 0,
            r.action is None,
            r.desc is None,
    {
        KeyTreeNode { desc: None, children: Vec::new(), action: None }
    }

    /// A leaf bound to `value`, executed immediately.
    pub fn from_action(value: Action) -> (r: KeyTreeNode)
        ensures
            r.wf(),
            r.children@.len() == 0,
            r.action == Some((value, TerminationBehavior::Immediate)),
    {
        KeyTreeNode { desc: None, children: Vec::new(), action: Some((value, TerminationBehavior::Immediate)) }
    }

    /// Finds the child behind key `k`.
    fn find_child(&self, k: KeyEvent) -> (r: Option<usize>)
        requires
            self.wf(),
        ensures
            match r {
                Some(i) => self.child_index(k) == i && 0 <= i < self.children@.len()
                    && self.children@[i as int].0 == k,
                None => self.child_index(k) == -1,
            },
    {
        let mut i: usize = 0;
        while i < self.children.len()
            invariant
                self.wf(),
                0 <= i <= self.children@.len(),
                forall|j: int| 0 <= j < i ==> (#[trigger] self.children@[j]).0 != k,
            decreases self.children@.len() - i,
        {
            if self.children[i].0 == k {
                proof {
                    assert(self.children@[i as int].0 == k);
                    let ci = self.child_index(k);
                    assert(0 <= ci < self.children@.len() && self.children@[ci].0 == k);
                    if ci != i {
                        assert((self.children@[ci]).0 == (self.children@[i as int]).0);
                        assert(false);
                    }
                }
                return Some(i);
            }
            i = i + 1;
        }
        None
    }

    /// The node reached by following the whole key sequence, or `None` if
    /// some key on the way is unbound.
    pub fn get_action(&self, keys: &Vec<KeyEvent>) -> (r: Option<&KeyTreeNode>)
        requires
            self.wf(),
        ensures
            match r {
                Some(n) => self.lookup(keys@) == Some(*n),
                None => self.lookup(keys@) is None,
            },
    {
        self.get_action_from(keys, 0)
    }

    /// Follows `keys` from position `i`.
    fn get_action_from(&self, keys: &Vec<KeyEvent>, i: usize) -> (r: Option<&KeyTreeNode>)
        requires
            self.wf(),
            i <= keys@.len(),
        ensures
            match r {
                Some(n) => self.lookup_from(keys@, i as int) == Some(*n),
                None => self.lookup_from(keys@, i as int) is None,
            },
        decreases keys@.len() - i,
    {
        if i == keys.len() {
            Some(self)
        } else {
            match self.find_child(keys[i]) {
                Some(c) => {
                    let child = &self.children[c].1;
                    child.get_action_from(keys, i + 1)
                },
                None => None,
            }
        }
    }

    /// Binds the key sequence `key` to `value`, to be executed immediately
    /// on completion.
    ///
    /// An empty sequence is refused. Binding a sequence of length one
    /// replaces any existing child behind that key outright, bindings below
    /// it included; binding a longer sequence extends the existing subtree.
    /// Children behind other keys are untouched.
    pub fn add_map(&mut self, key: &Vec<KeyEvent>, value: Action) -> (r: Result<
        (),
        KeymapError,
    >)
        requires
            old(self).wf(),
        ensures
            final(self).wf(),
            r is Err <==> key@.len() == 0,
            r matches Err(e) ==> e == KeymapError::EmptyKey && *final(self) == *old(self),
            r is Ok ==> {
                &&& final(self).lookup(key@) matches Some(n) && n.action == Some(
                    (value, TerminationBehavior::Immediate),
                )
                &&& final(self).action == old(self).action
                &&& final(self).desc == old(self).desc
            },
            forall|q: Seq<KeyEvent>, j: int|
                0 <= j < q.len() && j < key@.len() && #[trigger] q[j] != key@[j]
                    ==> #[trigger] final(self).lookup(q) == old(self).lookup(q),
    {
        if key.len() == 0 {
            return Err(KeymapError::EmptyKey);
        }
        self.add_map_from(key, 0, value);
        Ok(())
    }

    /// Binds the suffix of `key` starting at `i` under this node.
    fn add_map_from(&mut self, key: &Vec<KeyEvent>, i: usize, value: Action)
        requires
            old(self).wf(),
            i < key@.len(),
        ensures
            final(self).wf(),
            final(self).lookup_from(key@, i as int) matches Some(n) && n.action == Some(
                (value, TerminationBehavior::Immediate),
            ),
            final(self).action == old(self).action,
            final(self).desc == old(self).desc,
            forall|q: Seq<KeyEvent>, j: int|
                0 <= j < q.len() && i + j < key@.len() && #[trigger] q[j] != key@[i + j]
                    ==> #[trigger] final(self).lookup(q) == old(self).lookup(q),
        decreases key@.len() - i,
    {
        let k = key[i];
        let existing = self.find_child(k);
        if i == key.len() - 1 {
            let node = KeyTreeNode::from_action(value);
            match existing {
                Some(c) => {
                    let slot = &mut self.children[c];
                    slot.1 = node;
                    proof {
                        assert(self.child_index(k) == c);
                        assert(self.children@[c as int].1.lookup_from(key@, i as int + 1)
                            == Some(self.children@[c as int].1));
                        assert(self.lookup_from(key@, i as int) == self.children@[
                            c as int].1.lookup_from(key@, i as int + 1));
                        assert forall|q: Seq<KeyEvent>, j: int|
                            0 <= j < q.len() && i + j < key@.len() && #[trigger] q[j] != key@[i
                                + j] implies #[trigger] self.lookup(q) == old(self).lookup(q) by {
                            lemma_child_index_eq(*old(self), *self, q[0]);
                            let ci = old(self).child_index(q[0]);
                            if ci >= 0 {
                                assert(old(self).children@[ci].0 == q[0]);
                                assert(ci != c);
                                assert(self.children@[ci].1 == old(self).children@[ci].1);
                            }
                            lemma_lookup_same_first_child(*old(self), *self, q);
                        }
                    }
                },
                None => {
                    let ghost prev = self.children@;
                    self.children.push((k, node));
                    proof {
                        let n = self.children@.len() - 1;
                        assert(self.children@[n].0 == k);
                        assert(forall|j: int|
                            0 <= j < n ==> (#[trigger] self.children@[j]) == prev[j]);
                        assert(self.child_index(k) == n);
                        assert(self.children@[n].1.lookup_from(key@, i as int + 1)
                            == Some(self.children@[n].1));
                        assert forall|q: Seq<KeyEvent>, j: int|
                            0 <= j < q.len() && i + j < key@.len() && #[trigger] q[j] != key@[i
                                + j] implies #[trigger] self.lookup(q) == old(self).lookup(q) by {
                            lemma_child_index_push(*old(self), *self, k, q[0]);
                            let ci = old(self).child_index(q[0]);
                            if ci >= 0 {
                                assert(old(self).children@[ci].0 == q[0]);
                                assert(self.children@[ci].1 == old(self).children@[ci].1);
                            }
                            lemma_lookup_same_first_child(*old(self), *self, q);
                        }
                    }
                },
            }
        } else {
            match existing {
                Some(c) => {
                    let slot = &mut self.children[c];
                    let child = &mut slot.1;
                    let ghost pre_child = old(self).children@[c as int].1;
                    child.add_map_from(key, i + 1, value);
                    proof {
                        assert(self.child_index(k) == c);
                        assert forall|q: Seq<KeyEvent>, j: int|
                            0 <= j < q.len() && i + j < key@.len() && #[trigger] q[j] != key@[i
                                + j] implies #[trigger] self.lookup(q) == old(self).lookup(q) by {
                            lemma_child_index_eq(*old(self), *self, q[0]);
                            let ci = old(self).child_index(q[0]);
                            if q[0] != k {
                                if ci >= 0 {
                                    assert(old(self).children@[ci].0 == q[0]);
                                    assert(ci != c);
                                    assert(self.children@[ci].1 == old(self).children@[ci].1);
                                }
                                lemma_lookup_same_first_child(*old(self), *self, q);
                            } else {
                                assert(j >= 1);
                                assert(ci == c);
                                let post_child = self.children@[c as int].1;
                                let q1 = q.skip(1);
                                assert(q1[j - 1] == q[j]);
                                assert(key@[(i + 1) + (j - 1)] == key@[i + j]);
                                assert(post_child.lookup(q1) == pre_child.lookup(q1));
                                lemma_lookup_from_skip(post_child, q, 1, 0);
                                lemma_lookup_from_skip(pre_child, q, 1, 0);
                                assert(self.lookup(q) == post_child.lookup_from(q, 1));
                                assert(old(self).lookup(q) == pre_child.lookup_from(q, 1));
                            }
                        }
                    }
                },
                None => {
                    let mut node = KeyTreeNode::new();
                    let ghost fresh = node;
                    node.add_map_from(key, i + 1, value);
                    let ghost prev = self.children@;
                    self.children.push((k, node));
                    proof {
                        let n = self.children@.len() - 1;
                        assert(self.children@[n].0 == k);
                        assert(forall|j: int|
                            0 <= j < n ==> (#[trigger] self.children@[j]) == prev[j]);
                        assert(self.child_index(k) == n);
                        assert forall|q: Seq<KeyEvent>, j: int|
                            0 <= j < q.len() && i + j < key@.len() && #[trigger] q[j] != key@[i
                                + j] implies #[trigger] self.lookup(q) == old(self).lookup(q) by {
                            if q[0] != k {
                                lemma_child_index_push(*old(self), *self, k, q[0]);
                                let ci = old(self).child_index(q[0]);
                                if ci >= 0 {
                                    assert(old(self).children@[ci].0 == q[0]);
                                    assert(self.children@[ci].1 == old(self).children@[ci].1);
                                }
                                lemma_lookup_same_first_child(*old(self), *self, q);
                            } else {
                                assert(j >= 1);
                                // the key was unbound before, so the old lookup dead-ends
                                assert(old(self).child_index(q[0]) == -1);
                                assert(old(self).lookup(q) is None);
                                // and the new subtree holds nothing off the bound path
                                let post_child = self.children@[n].1;
                                let q1 = q.skip(1);
                                assert(q1[j - 1] == q[j]);
                                assert(key@[(i + 1) + (j - 1)] == key@[i + j]);
                                assert(post_child.lookup(q1) == fresh.lookup(q1));
                                assert(fresh.child_index(q1[0]) == -1);
                                assert(fresh.lookup(q1) is None);
                                lemma_lookup_from_skip(post_child, q, 1, 0);
                                assert(self.lookup(q) == post_child.lookup_from(q, 1));
                            }
                        }
                    }
                },
            }
        }
    }
}

} // verus!
