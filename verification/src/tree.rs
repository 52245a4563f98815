//! A snapshot of an accessibility tree.
//!
//! The nodes are held in one vector. A node's parent always stands before
//! it, so parent links cannot form a cycle and every walk is finite.

use vstd::prelude::*;
use crate::element::{ElementView, UIElement};

verus! {

/// One node of a snapshot: an element and its links.
pub struct UiNode {
    pub element: UIElement,
    pub parent: Option<usize>,
    pub children: Vec<usize>,
}

/// The mathematical value of a [`UiNode`].
pub ghost struct NodeView {
    pub element: ElementView,
    pub parent: Option<usize>,
    pub children: Seq<usize>,
}

impl View for UiNode {
    type V = NodeView;

    open spec fn view(&self) -> NodeView {
        NodeView { element: self.element@, parent: self.parent, children: self.children@ }
    }
}

/// The mathematical value of a [`UiTree`]: its nodes by index.
pub ghost struct TreeView {
    pub nodes: Seq<NodeView>,
}

impl TreeView {
    /// The number of nodes.
    pub open spec fn len(self) -> nat {
        self.nodes.len()
    }

    /// The `k`-th child of node `i`.
    pub open spec fn child(self, i: int, k: int) -> usize {
        self.nodes[i].children[k]
    }

    /// The number of children of node `i`.
    pub open spec fn arity(self, i: int) -> nat {
        self.nodes[i].children.len()
    }

    /// The parent of node `i`, if it has one.
    pub open spec fn parent(self, i: int) -> Option<usize> {
        self.nodes[i].parent
    }

    /// Node 0 is the root; every other node has a parent that stands before
    /// it; the children of a node are exactly the nodes that name it as their
    /// parent, in increasing order.
    pub open spec fn wf(self) -> bool {
        &&& 1 <= self.len() <= usize::MAX
        &&& self.parent(0) is None
        &&& forall|j: int|
            1 <= j < self.len() ==> (#[trigger] self.parent(j)) is Some && self.parent(j).unwrap()
                < j
        &&& forall|i: int, k: int|
            0 <= i < self.len() && 0 <= k < self.arity(i) ==> i < (#[trigger] self.child(i, k))
                < self.len() && self.parent(self.child(i, k) as int) == Some(i as usize)
        &&& forall|i: int, k1: int, k2: int|
            0 <= i < self.len() && 0 <= k1 < k2 < self.arity(i) ==> (#[trigger] self.child(i, k1))
                < (#[trigger] self.child(i, k2))
        &&& forall|j: int|
            1 <= j < self.len() ==> self.nodes[(#[trigger] self.parent(j)).unwrap() as int].children.contains(
                j as usize,
            )
    }

    /// The depth-first pre-order of the subtrees of the children of node `i`
    /// from its `k`-th child on.
    pub open spec fn walk(self, i: int, k: int) -> Seq<usize>
        decreases self.len() - i, self.arity(i) - k,
        when self.wf() && 0 <= i < self.len() && 0 <= k
    {
        if k >= self.arity(i) {
            Seq::empty()
        } else {
            let c = self.child(i, k);
            seq![c] + self.walk(c as int, 0) + self.walk(i, k + 1)
        }
    }

    /// The depth-first pre-order of the subtree rooted at node `i`: the node
    /// itself, then the subtree of each child in turn.
    pub open spec fn preorder(self, i: int) -> Seq<usize> {
        seq![i as usize] + self.walk(i, 0)
    }

    /// The walk from the `k`-th child on is the subtree of that child, then
    /// the walk from the next child on.
    pub proof fn lemma_walk_step(self, i: int, k: int)
        requires
            self.wf(),
            0 <= i < self.len(),
            0 <= k < self.arity(i),
        ensures
            self.walk(i, k) == self.preorder(self.child(i, k) as int) + self.walk(i, k + 1),
            i < self.child(i, k) < self.len(),
    {
    }

    /// A walk past the last child is empty.
    pub proof fn lemma_walk_end(self, i: int, k: int)
        requires
            self.wf(),
            0 <= i < self.len(),
            k >= self.arity(i),
            0 <= k,
        ensures
            self.walk(i, k) == Seq::<usize>::empty(),
    {
    }

    /// Every index of a walk lies below the walked node and inside the tree.
    pub proof fn lemma_walk_bounds(self, i: int, k: int)
        requires
            self.wf(),
            0 <= i < self.len(),
            0 <= k,
        ensures
            forall|x: int|
                0 <= x < self.walk(i, k).len() ==> i < (#[trigger] self.walk(i, k)[x]) < self.len(),
        decreases self.len() - i, self.arity(i) - k,
    {
        if k < self.arity(i) {
            let c = self.child(i, k);
            self.lemma_walk_bounds(c as int, 0);
            self.lemma_walk_bounds(i, k + 1);
            let head = seq![c] + self.walk(c as int, 0);
            let tail = self.walk(i, k + 1);
            assert(self.walk(i, k) == head + tail);
            assert forall|x: int| 0 <= x < self.walk(i, k).len() implies i < (
            #[trigger] self.walk(i, k)[x]) < self.len() by {
                if x == 0 {
                    assert(self.walk(i, k)[x] == c);
                } else if x < head.len() {
                    assert(self.walk(i, k)[x] == self.walk(c as int, 0)[x - 1]);
                } else {
                    assert(self.walk(i, k)[x] == tail[x - head.len()]);
                }
            }
        }
    }

    /// Every index of a subtree's pre-order lies inside the tree, at or after
    /// the subtree's root.
    pub proof fn lemma_preorder_bounds(self, i: int)
        requires
            self.wf(),
            0 <= i < self.len(),
        ensures
            self.preorder(i).len() >= 1,
            self.preorder(i)[0] == i,
            forall|x: int|
                0 <= x < self.preorder(i).len() ==> i <= (#[trigger] self.preorder(i)[x])
                    < self.len(),
    {
        self.lemma_walk_bounds(i, 0);
        assert forall|x: int| 0 <= x < self.preorder(i).len() implies i <= (
        #[trigger] self.preorder(i)[x]) < self.len() by {
            if x > 0 {
                assert(self.preorder(i)[x] == self.walk(i, 0)[x - 1]);
            }
        }
    }
}

impl TreeView {
    /// A walk that starts at or before the `k`-th child passes that child.
    pub proof fn lemma_walk_has_child(self, i: int, from: int, k: int)
        requires
            self.wf(),
            0 <= i < self.len(),
            0 <= from <= k < self.arity(i),
        ensures
            self.walk(i, from).contains(self.child(i, k)),
        decreases k - from,
    {
        let w = self.walk(i, from);
        let c = self.child(i, from);
        let head = seq![c] + self.walk(c as int, 0);
        let tail = self.walk(i, from + 1);
        assert(w == head + tail);
        if from == k {
            assert(w[0] == c);
        } else {
            self.lemma_walk_has_child(i, from + 1, k);
            let q = choose|q: int| 0 <= q < tail.len() && tail[q] == self.child(i, k);
            assert(w[head.len() + q] == tail[q]);
        }
    }

    /// A walk that passes a node passes the node's whole subtree.
    pub proof fn lemma_walk_closed(self, i: int, k: int, x: usize)
        requires
            self.wf(),
            0 <= i < self.len(),
            0 <= k,
            self.walk(i, k).contains(x),
        ensures
            forall|y: usize| self.preorder(x as int).contains(y) ==> self.walk(i, k).contains(y),
        decreases self.len() - i, self.arity(i) - k,
    {
        let w = self.walk(i, k);
        if k < self.arity(i) {
            let c = self.child(i, k);
            let sub = self.walk(c as int, 0);
            let head = seq![c] + sub;
            let tail = self.walk(i, k + 1);
            assert(w == head + tail);
            let at = choose|at: int| 0 <= at < w.len() && w[at] == x;
            if at == 0 {
                assert(x == c);
                assert forall|y: usize| self.preorder(x as int).contains(y) implies w.contains(
                    y,
                ) by {
                    let q = choose|q: int| 0 <= q < head.len() && head[q] == y;
                    assert(w[q] == y);
                }
            } else if at < head.len() {
                assert(sub[at - 1] == x);
                self.lemma_walk_closed(c as int, 0, x);
                assert forall|y: usize| self.preorder(x as int).contains(y) implies w.contains(
                    y,
                ) by {
                    assert(sub.contains(y));
                    let q = choose|q: int| 0 <= q < sub.len() && sub[q] == y;
                    assert(w[q + 1] == y);
                }
            } else {
                assert(tail[at - head.len()] == x);
                self.lemma_walk_closed(i, k + 1, x);
                assert forall|y: usize| self.preorder(x as int).contains(y) implies w.contains(
                    y,
                ) by {
                    assert(tail.contains(y));
                    let q = choose|q: int| 0 <= q < tail.len() && tail[q] == y;
                    assert(w[head.len() + q] == y);
                }
            }
        }
    }

    /// The pre-order of a subtree holds the whole subtree of each node that
    /// it holds.
    pub proof fn lemma_preorder_closed(self, i: int, x: usize)
        requires
            self.wf(),
            0 <= i < self.len(),
            self.preorder(i).contains(x),
        ensures
            forall|y: usize| self.preorder(x as int).contains(y) ==> self.preorder(i).contains(y),
    {
        let p = self.preorder(i);
        let w = self.walk(i, 0);
        let at = choose|at: int| 0 <= at < p.len() && p[at] == x;
        if at > 0 {
            assert(w[at - 1] == x);
            self.lemma_walk_closed(i, 0, x);
            assert forall|y: usize| self.preorder(x as int).contains(y) implies p.contains(y) by {
                let q = choose|q: int| 0 <= q < w.len() && w[q] == y;
                assert(p[q + 1] == y);
            }
        }
    }

    /// The pre-order of the whole tree passes every node.
    pub proof fn lemma_preorder_complete(self, j: int)
        requires
            self.wf(),
            0 <= j < self.len(),
        ensures
            self.preorder(0).contains(j as usize),
        decreases j,
    {
        if j == 0 {
            assert(self.preorder(0)[0] == 0usize);
        } else {
            let p = self.parent(j).unwrap();
            self.lemma_preorder_complete(p as int);
            let kids = self.nodes[p as int].children;
            assert(kids.contains(j as usize));
            let k = choose|k: int| 0 <= k < kids.len() && kids[k] == j as usize;
            assert(self.child(p as int, k) == j as usize);
            self.lemma_walk_has_child(p as int, 0, k);
            let w = self.walk(p as int, 0);
            let q = choose|q: int| 0 <= q < w.len() && w[q] == j as usize;
            assert(self.preorder(p as int)[q + 1] == j as usize);
            self.lemma_preorder_closed(0, p);
        }
    }
}

impl TreeView {
    /// Whether node `a` lies on the way from node `y` up to the root, `y`
    /// itself included.
    pub open spec fn is_ancestor(self, a: int, y: int) -> bool
        decreases y,
        when self.wf() && 0 <= y < self.len()
    {
        y == a || (y > 0 && self.is_ancestor(a, self.parent(y).unwrap() as int))
    }

    /// An ancestor stands at or before its descendant.
    pub proof fn lemma_ancestor_before(self, a: int, y: int)
        requires
            self.wf(),
            0 <= y < self.len(),
            self.is_ancestor(a, y),
        ensures
            a <= y,
        decreases y,
    {
        if y != a {
            self.lemma_ancestor_before(a, self.parent(y).unwrap() as int);
        }
    }

    /// An ancestor of an ancestor is an ancestor.
    pub proof fn lemma_ancestor_transitive(self, a: int, b: int, y: int)
        requires
            self.wf(),
            0 <= b < self.len(),
            0 <= y < self.len(),
            self.is_ancestor(a, b),
            self.is_ancestor(b, y),
        ensures
            self.is_ancestor(a, y),
        decreases y,
    {
        if y != b {
            self.lemma_ancestor_transitive(a, b, self.parent(y).unwrap() as int);
        }
    }

    /// No node descends from two children of one node.
    pub proof fn lemma_siblings_apart(self, i: int, c1: int, c2: int, y: int)
        requires
            self.wf(),
            0 <= i < self.len(),
            0 < c1 < self.len(),
            0 < c2 < self.len(),
            c1 != c2,
            self.parent(c1) == Some(i as usize),
            self.parent(c2) == Some(i as usize),
            0 <= y < self.len(),
            self.is_ancestor(c1, y),
        ensures
            !self.is_ancestor(c2, y),
        decreases y,
    {
        if self.is_ancestor(c2, y) {
            if y == c1 {
                self.lemma_ancestor_before(c2, i);
            } else if y == c2 {
                self.lemma_ancestor_before(c1, i);
            } else {
                self.lemma_siblings_apart(i, c1, c2, self.parent(y).unwrap() as int);
            }
        }
    }

    /// Every node of a walk descends from one of the children that the walk
    /// starts from; the lemma returns which.
    pub proof fn lemma_walk_branch(self, i: int, k: int, x: int) -> (kk: int)
        requires
            self.wf(),
            0 <= i < self.len(),
            0 <= k,
            0 <= x < self.walk(i, k).len(),
        ensures
            k <= kk < self.arity(i),
            self.is_ancestor(self.child(i, kk) as int, self.walk(i, k)[x] as int),
        decreases self.len() - i, self.arity(i) - k,
    {
        let c = self.child(i, k);
        let sub = self.walk(c as int, 0);
        let head = seq![c] + sub;
        let tail = self.walk(i, k + 1);
        assert(self.walk(i, k) == head + tail);
        if x == 0 {
            assert(self.walk(i, k)[x] == c);
            k
        } else if x < head.len() {
            assert(self.walk(i, k)[x] == sub[x - 1]);
            self.lemma_walk_bounds(c as int, 0);
            let below = self.lemma_walk_branch(c as int, 0, x - 1);
            let g = self.child(c as int, below);
            assert(self.parent(g as int) == Some(c));
            assert(self.is_ancestor(c as int, c as int));
            assert(self.is_ancestor(c as int, g as int));
            self.lemma_ancestor_transitive(c as int, g as int, sub[x - 1] as int);
            k
        } else {
            assert(self.walk(i, k)[x] == tail[x - head.len()]);
            self.lemma_walk_branch(i, k + 1, x - head.len())
        }
    }

    /// A walk passes no node twice.
    pub proof fn lemma_walk_distinct(self, i: int, k: int, x1: int, x2: int)
        requires
            self.wf(),
            0 <= i < self.len(),
            0 <= k,
            0 <= x1 < x2 < self.walk(i, k).len(),
        ensures
            self.walk(i, k)[x1] != self.walk(i, k)[x2],
        decreases self.len() - i, self.arity(i) - k,
    {
        let w = self.walk(i, k);
        let c = self.child(i, k);
        let sub = self.walk(c as int, 0);
        let head = seq![c] + sub;
        let tail = self.walk(i, k + 1);
        assert(w == head + tail);
        self.lemma_walk_bounds(c as int, 0);
        self.lemma_walk_bounds(i, k + 1);
        if x2 < head.len() {
            assert(w[x2] == sub[x2 - 1]);
            if x1 == 0 {
                assert(w[x1] == c);
            } else {
                assert(w[x1] == sub[x1 - 1]);
                self.lemma_walk_distinct(c as int, 0, x1 - 1, x2 - 1);
            }
        } else {
            let y2 = tail[x2 - head.len()];
            assert(w[x2] == y2);
            let far = self.lemma_walk_branch(i, k + 1, x2 - head.len());
            let d = self.child(i, far);
            assert(self.child(i, k) < self.child(i, far));
            if x1 == 0 {
                assert(w[x1] == c);
                if c == y2 {
                    self.lemma_ancestor_before(d as int, c as int);
                }
            } else if x1 < head.len() {
                let y1 = sub[x1 - 1];
                assert(w[x1] == y1);
                let near = self.lemma_walk_branch(i, k, x1);
                assert(near == k) by {
                    if near != k {
                        let e = self.child(i, near);
                        assert(self.child(i, k) < self.child(i, near));
                        let below = self.lemma_walk_branch(c as int, 0, x1 - 1);
                        let g = self.child(c as int, below);
                        assert(self.is_ancestor(c as int, c as int));
                        assert(self.is_ancestor(c as int, g as int));
                        self.lemma_ancestor_transitive(c as int, g as int, y1 as int);
                        self.lemma_siblings_apart(i, c as int, e as int, y1 as int);
                    }
                }
                if y1 == y2 {
                    self.lemma_siblings_apart(i, c as int, d as int, y1 as int);
                }
            } else {
                assert(w[x1] == tail[x1 - head.len()]);
                self.lemma_walk_distinct(i, k + 1, x1 - head.len(), x2 - head.len());
            }
        }
    }

    /// The pre-order of a subtree passes no node twice.
    pub proof fn lemma_preorder_distinct(self, i: int)
        requires
            self.wf(),
            0 <= i < self.len(),
        ensures
            self.preorder(i).no_duplicates(),
    {
        let p = self.preorder(i);
        let w = self.walk(i, 0);
        self.lemma_walk_bounds(i, 0);
        assert forall|x1: int, x2: int| 0 <= x1 < p.len() && 0 <= x2 < p.len() && x1 != x2 implies p[x1]
            != p[x2] by {
            let lo = if x1 < x2 {
                x1
            } else {
                x2
            };
            let hi = if x1 < x2 {
                x2
            } else {
                x1
            };
            assert(p[hi] == w[hi - 1]);
            if lo == 0 {
                assert(p[lo] == i as usize);
            } else {
                assert(p[lo] == w[lo - 1]);
                self.lemma_walk_distinct(i, 0, lo - 1, hi - 1);
            }
        }
    }
}

/// A snapshot of an accessibility tree, rooted at node 0.
pub struct UiTree {
    nodes: Vec<UiNode>,
}

/// The value of a vector of nodes.
pub open spec fn nodes_view(nodes: Seq<UiNode>) -> TreeView {
    TreeView { nodes: Seq::new(nodes.len(), |i: int| nodes[i]@) }
}

/// Adds a node under `parent` at the end of `nodes`.
fn append_node(nodes: &mut Vec<UiNode>, parent: usize, element: UIElement)
    requires
        nodes_view(old(nodes)@).wf(),
        parent < old(nodes)@.len(),
        old(nodes)@.len() < usize::MAX,
    ensures
        nodes_view(final(nodes)@).wf(),
        nodes_view(final(nodes)@) == nodes_view(old(nodes)@).with_child(parent as int, element@),
{
    let index = nodes.len();
    let ghost before = nodes_view(nodes@);
    let ghost e = element@;
    nodes[parent].children.push(index);
    nodes.push(UiNode { element, parent: Some(parent), children: Vec::new() });
    proof {
        let after = nodes_view(nodes@);
        assert(after.nodes =~= before.with_child(parent as int, e).nodes);
        before.lemma_with_child_wf(parent as int, e);
    }
}

impl TreeView {
    /// The tree with one more node, added at the end as the last child of
    /// node `p`.
    pub open spec fn with_child(self, p: int, e: ElementView) -> TreeView {
        let index = self.len() as usize;
        let grown = NodeView {
            element: self.nodes[p].element,
            parent: self.nodes[p].parent,
            children: self.nodes[p].children.push(index),
        };
        let added = NodeView { element: e, parent: Some(p as usize), children: Seq::empty() };
        TreeView { nodes: self.nodes.update(p, grown).push(added) }
    }

    /// Adding a child keeps the tree well formed.
    pub proof fn lemma_with_child_wf(self, p: int, e: ElementView)
        requires
            self.wf(),
            0 <= p < self.len(),
            self.len() < usize::MAX,
        ensures
            self.with_child(p, e).wf(),
    {
        let t = self.with_child(p, e);
        let n = self.len() as int;
        assert(t.len() == n + 1);
        assert forall|j: int| 1 <= j < t.len() implies (#[trigger] t.parent(j)) is Some
            && t.parent(j).unwrap() < j by {
            if j < n {
                assert(t.parent(j) == self.parent(j));
            }
        }
        assert forall|i: int, k: int| 0 <= i < t.len() && 0 <= k < t.arity(i) implies i < (
        #[trigger] t.child(i, k)) < t.len() && t.parent(t.child(i, k) as int) == Some(
            i as usize,
        ) by {
            if i == p && k == self.arity(p) {
                assert(t.child(i, k) == n);
            } else {
                assert(t.child(i, k) == self.child(i, k));
                assert(self.child(i, k) < n);
                assert(t.parent(self.child(i, k) as int) == self.parent(self.child(i, k) as int));
            }
        }
        assert forall|i: int, k1: int, k2: int|
            0 <= i < t.len() && 0 <= k1 < k2 < t.arity(i) implies (#[trigger] t.child(i, k1)) < (
        #[trigger] t.child(i, k2)) by {
            if i == p && k2 == self.arity(p) {
                assert(t.child(i, k1) == self.child(i, k1));
                assert(t.child(i, k2) == n);
            } else {
                assert(t.child(i, k1) == self.child(i, k1));
                assert(t.child(i, k2) == self.child(i, k2));
            }
        }
        assert forall|j: int| 1 <= j < t.len() implies t.nodes[(#[trigger] t.parent(j)).unwrap() as int].children.contains(
        j as usize) by {
            if j == n {
                assert(t.nodes[p].children[self.arity(p) as int] == n as usize);
            } else {
                assert(t.parent(j) == self.parent(j));
                let q = self.parent(j).unwrap() as int;
                assert(self.nodes[q].children.contains(j as usize));
                let k = choose|k: int|
                    0 <= k < self.nodes[q].children.len() && self.nodes[q].children[k] == j as usize;
                assert(t.nodes[q].children[k] == j as usize);
            }
        }
    }
}

impl View for UiTree {
    type V = TreeView;

    closed spec fn view(&self) -> TreeView {
        nodes_view(self.nodes@)
    }
}

impl UiTree {
    #[verifier::type_invariant]
    spec fn inv(self) -> bool {
        nodes_view(self.nodes@).wf()
    }

    /// A tree of one node, the root.
    pub fn new(root: UIElement) -> (t: UiTree)
        ensures
            t@.len() == 1,
            t@.nodes[0] == (NodeView { element: root@, parent: None, children: Seq::empty() }),
    {
        let mut nodes: Vec<UiNode> = Vec::new();
        nodes.push(UiNode { element: root, parent: None, children: Vec::new() });
        proof {
            let t = nodes_view(nodes@);
            assert(t.nodes[0].children =~= Seq::<usize>::empty());
            assert(t.arity(0) == 0);
        }
        UiTree { nodes }
    }

    /// Adds `element` as the last child of node `parent`. Returns the grown
    /// tree and the new node's index, which is the number of nodes before
    /// the call. Where `parent` is no node of the tree, or no further index
    /// is left, returns the tree as it was and `None`.
    pub fn add_child(self, parent: usize, element: UIElement) -> (r: (UiTree, Option<usize>))
        ensures
            r.1 is Some <==> parent < self@.len() && self@.len() < usize::MAX,
            r.1 is Some ==> r.1.unwrap() == self@.len() && r.0@ == self@.with_child(
                parent as int,
                element@,
            ),
            r.1 is None ==> r.0@ == self@,
    {
        let index = self.nodes.len();
        if parent >= index || index == usize::MAX {
            return (self, None);
        }
        proof {
            use_type_invariant(&self);
        }
        let mut nodes = self.nodes;
        append_node(&mut nodes, parent, element);
        (UiTree { nodes }, Some(index))
    }

    /// The number of nodes. Every snapshot is well formed, and a caller
    /// learns so here.
    pub fn len(&self) -> (n: usize)
        ensures
            n == self@.len(),
            self@.wf(),
    {
        proof {
            use_type_invariant(self);
        }
        self.nodes.len()
    }

    /// The element at node `i`.
    pub fn element(&self, i: usize) -> (e: &UIElement)
        requires
            i < self@.len(),
        ensures
            e@ == self@.nodes[i as int].element,
    {
        &self.nodes[i].element
    }

    /// The element at node `i`, or `None` where the tree has no such node.
    pub fn get(&self, i: usize) -> (e: Option<&UIElement>)
        ensures
            e is Some <==> i < self@.len(),
            e is Some ==> e.unwrap()@ == self@.nodes[i as int].element,
    {
        if i < self.nodes.len() {
            Some(&self.nodes[i].element)
        } else {
            None
        }
    }

    /// The children of node `i`, in the order in which they were added.
    pub fn children(&self, i: usize) -> (c: &Vec<usize>)
        requires
            i < self@.len(),
        ensures
            c@ == self@.nodes[i as int].children,
    {
        &self.nodes[i].children
    }

    /// The parent of node `i`; the root has none.
    pub fn parent(&self, i: usize) -> (p: Option<usize>)
        requires
            i < self@.len(),
        ensures
            p == self@.parent(i as int),
    {
        self.nodes[i].parent
    }
}

} // verus!
