//! An arena-backed tree of values.
//!
//! Nodes live in one growing arena owned by the [`Tree`]; a [`Node`] is a
//! plain index handle into it. Removing a node detaches it from its
//! parent's child list (the node's slot stays allocated, as the handles
//! into the arena stay valid); the root cannot be detached.

use core::marker::PhantomData;
use vstd::prelude::*;

verus! {

/// Specification-level state of one node.
#[verifier::ext_equal]
pub ghost struct NodeModel<T> {
    /// The value stored at this node.
    pub data: T,
    /// The parent's index; `None` only for the root.
    pub parent: Option<int>,
    /// Indices of the children, in insertion order.
    pub children: Seq<int>,
}

struct TreeNodeData<T> {
    data: T,
    parent: Option<usize>,
    children: Vec<usize>,
}

impl<T> TreeNodeData<T> {
    closed spec fn model(self) -> NodeModel<T> {
        NodeModel {
            data: self.data,
            parent: match self.parent {
                Some(p) => Some(p as int),
                None => None,
            },
            children: self.children@.map_values(|c: usize| c as int),
        }
    }
}

/// A tree of values of type `T`, stored in an arena.
pub struct Tree<T> {
    nodes: Vec<TreeNodeData<T>>,
}

impl<T> View for Tree<T> {
    type V = Seq<NodeModel<T>>;

    closed spec fn view(&self) -> Seq<NodeModel<T>> {
        self.nodes@.map_values(|n: TreeNodeData<T>| n.model())
    }
}

/// Every parent and child index names a node of the arena.
pub open spec fn tree_wf<T>(nodes: Seq<NodeModel<T>>) -> bool {
    &&& forall|n: int|
        0 <= n < nodes.len() ==> match (#[trigger] nodes[n]).parent {
            Some(p) => 0 <= p < nodes.len(),
            None => true,
        }
    &&& forall|n: int, k: int|
        0 <= n < nodes.len() && 0 <= k < nodes[n].children.len() ==> 0 <= #[trigger] nodes[n].children[k]
            < nodes.len()
}

/// The index of the first occurrence of `x` in `s`, if any.
pub open spec fn spec_find_index(s: Seq<int>, x: int) -> Option<int>
    decreases s.len(),
{
    if s.len() == 0 {
        None
    } else if s[0] == x {
        Some(0)
    } else {
        match spec_find_index(s.drop_first(), x) {
            Some(i) => Some(i + 1),
            None => None,
        }
    }
}

/// A found index is in range and holds `x`, and nothing before it does; a
/// miss means `x` does not occur.
pub proof fn lemma_find_index_characterizes(s: Seq<int>, x: int)
    ensures
        match spec_find_index(s, x) {
            Some(i) => 0 <= i < s.len() && s[i] == x && forall|j: int|
                0 <= j < i ==> s[j] != x,
            None => forall|j: int| 0 <= j < s.len() ==> s[j] != x,
        },
    decreases s.len(),
{
    if s.len() > 0 && s[0] != x {
        lemma_find_index_characterizes(s.drop_first(), x);
        match spec_find_index(s.drop_first(), x) {
            Some(i) => {
                assert(s.drop_first()[i] == s[i + 1]);
                assert forall|j: int| 0 <= j < i + 1 implies s[j] != x by {
                    if j > 0 {
                        assert(s.drop_first()[j - 1] == s[j]);
                    }
                }
            },
            None => {
                assert forall|j: int| 0 <= j < s.len() implies s[j] != x by {
                    if j > 0 {
                        assert(s.drop_first()[j - 1] == s[j]);
                    }
                }
            },
        }
    }
}

/// A child list with the first occurrence of `x` removed, if it occurs.
pub open spec fn spec_detach(s: Seq<int>, x: int) -> Seq<int> {
    match spec_find_index(s, x) {
        Some(i) => s.remove(i),
        None => s,
    }
}

impl<T> Tree<T> {
    /// A tree holding only a root with the given value.
    pub fn new(root: T) -> (t: Tree<T>)
        ensures
            tree_wf(t@),
            t@.len() == 1,
            t@[0].data == root,
            t@[0].parent is None,
            t@[0].children.len() == 0,
    {
        let mut nodes = Vec::new();
        nodes.push(TreeNodeData { data: root, parent: None, children: Vec::new() });
        let t = Tree { nodes };
        proof {
            assert(t@[0].children =~= Seq::<int>::empty());
            assert(t@.len() == 1);
        }
        t
    }

    /// The handle of the root node.
    pub fn root(&self) -> (n: Node<T>)
        ensures
            n.index() == 0,
    {
        Node { idx: 0, fake: PhantomData }
    }
}

/// A handle to one node of a [`Tree`]: a plain index into the arena.
pub struct Node<T> {
    idx: usize,
    fake: PhantomData<T>,
}

impl<T> Clone for Node<T> {
    /// A clone names the same node.
    fn clone(&self) -> (r: Self)
        ensures
            r.index() == self.index(),
    {
        Node { idx: self.idx, fake: PhantomData }
    }
}

impl<T> Node<T> {
    /// Which arena slot this handle names.
    pub closed spec fn index(&self) -> int {
        self.idx as int
    }

    /// The value stored at this node.
    pub fn get<'a>(&self, tree: &'a Tree<T>) -> (r: &'a T)
        requires
            0 <= self.index() < tree@.len(),
        ensures
            *r == tree@[self.index()].data,
    {
        &tree.nodes[self.idx].data
    }

    /// Append a child holding `data` under this node. The new node goes
    /// to the end of the arena and of this node's child list.
    pub fn add(&self, tree: &mut Tree<T>, data: T) -> (n: Node<T>)
        requires
            tree_wf(old(tree)@),
            0 <= self.index() < old(tree)@.len(),
        ensures
            tree_wf(final(tree)@),
            n.index() == old(tree)@.len(),
            final(tree)@ == old(tree)@.update(
                self.index(),
                NodeModel {
                    children: old(tree)@[self.index()].children.push(old(tree)@.len() as int),
                    ..old(tree)@[self.index()]
                },
            ).push(
                NodeModel { data, parent: Some(self.index()), children: Seq::empty() },
            ),
    {
        let id = tree.nodes.len();
        tree.nodes.push(
            TreeNodeData { data, parent: Some(self.idx), children: Vec::new() },
        );
        tree.nodes[self.idx].children.push(id);
        proof {
            let m1 = old(tree)@.update(
                self.index(),
                NodeModel {
                    children: old(tree)@[self.index()].children.push(old(tree)@.len() as int),
                    ..old(tree)@[self.index()]
                },
            ).push(NodeModel { data, parent: Some(self.index()), children: Seq::empty() });
            assert(tree@ =~~= m1);
            assert forall|u: int, k: int|
                0 <= u < tree@.len() && 0 <= k < tree@[u].children.len() implies 0
                <= #[trigger] tree@[u].children[k] < tree@.len() by {
                if u != self.index() {
                    assert(tree@[u] == old(tree)@[u] || tree@[u].children.len() == 0);
                }
            }
        }
        Node { idx: id, fake: PhantomData }
    }

    /// A cursor over this node's children.
    pub fn iter(&self) -> (r: NodeIter<T>)
        ensures
            r.node_index() == self.index(),
            r.position() == 0,
    {
        NodeIter { pos: 0, node: Node { idx: self.idx, fake: PhantomData } }
    }

    /// Detach this node from its parent's child list. Detaching the root
    /// (or a node already detached) changes nothing; the slot itself
    /// stays, so handles into the arena stay valid.
    pub fn remove(&self, tree: &mut Tree<T>)
        requires
            tree_wf(old(tree)@),
            0 <= self.index() < old(tree)@.len(),
        ensures
            tree_wf(final(tree)@),
            final(tree)@ == (match old(tree)@[self.index()].parent {
                Some(p) => old(tree)@.update(
                    p,
                    NodeModel {
                        children: spec_detach(old(tree)@[p].children, self.index()),
                        ..old(tree)@[p]
                    },
                ),
                None => old(tree)@,
            }),
    {
        let parent: Option<usize> = tree.nodes[self.idx].parent;
        match parent {
            None => {},
            Some(p) => {
                let ghost kids = old(tree)@[p as int].children;
                let n_kids = tree.nodes[p].children.len();
                proof {
                    assert(kids.len() == n_kids);
                    lemma_find_index_characterizes(kids, self.index());
                }
                let mut i: usize = 0;
                let mut found = false;
                while i < tree.nodes[p].children.len() && !found
                    invariant
                        tree == old(tree),
                        tree_wf(tree@),
                        0 <= p < tree@.len(),
                        0 <= self.index() < tree@.len(),
                        kids == tree@[p as int].children,
                        kids.len() == n_kids,
                        0 <= i <= kids.len(),
                        !found ==> forall|j: int| 0 <= j < i ==> kids[j] != self.index(),
                        found ==> i < kids.len() && kids[i as int] == self.index()
                            && spec_find_index(kids, self.index()) == Some(i as int),
                    decreases kids.len() - i, (if found { 0int } else { 1int }),
                {
                    if tree.nodes[p].children[i] == self.idx {
                        found = true;
                        proof {
                            lemma_find_index_characterizes(kids, self.index());
                            match spec_find_index(kids, self.index()) {
                                Some(w) => {
                                    if w < i as int {
                                        assert(kids[w] != self.index());
                                    }
                                    if w > i as int {
                                        assert(kids[i as int] != self.index());
                                    }
                                },
                                None => {
                                    assert(kids[i as int] != self.index());
                                },
                            }
                        }
                    } else {
                        i += 1;
                    }
                }
                if found {
                    tree.nodes[p].children.remove(i);
                    proof {
                        let m1 = old(tree)@.update(
                            p as int,
                            NodeModel {
                                children: spec_detach(
                                    old(tree)@[p as int].children,
                                    self.index(),
                                ),
                                ..old(tree)@[p as int]
                            },
                        );
                        assert(tree@[p as int].children =~= kids.remove(i as int));
                        assert(tree@ =~~= m1);
                        assert forall|u: int, k: int|
                            0 <= u < tree@.len() && 0 <= k < tree@[u].children.len() implies 0
                            <= #[trigger] tree@[u].children[k] < tree@.len() by {
                            if u == p as int {
                                assert(tree@[u].children[k] == kids.remove(i as int)[k]);
                                if k < i as int {
                                    assert(kids.remove(i as int)[k] == kids[k]);
                                } else {
                                    assert(kids.remove(i as int)[k] == kids[k + 1]);
                                }
                            } else {
                                assert(tree@[u] == old(tree)@[u]);
                            }
                        }
                    }
                } else {
                    proof {
                        match spec_find_index(kids, self.index()) {
                            Some(w) => {
                                assert(kids[w] != self.index());
                            },
                            None => {},
                        }
                        assert(tree@ =~~= old(tree)@.update(
                            p as int,
                            NodeModel {
                                children: spec_detach(
                                    old(tree)@[p as int].children,
                                    self.index(),
                                ),
                                ..old(tree)@[p as int]
                            },
                        ));
                    }
                }
            },
        }
    }
}

/// A cursor handing out the children of one node, in order.
pub struct NodeIter<T> {
    pos: usize,
    node: Node<T>,
}

impl<T> NodeIter<T> {
    /// Which node's children this cursor walks.
    pub closed spec fn node_index(&self) -> int {
        self.node.index()
    }

    /// How many children have been handed out.
    pub closed spec fn position(&self) -> int {
        self.pos as int
    }

    /// The next child handle, or `None` when every child has been seen.
    pub fn next(&mut self, tree: &Tree<T>) -> (r: Option<Node<T>>)
        requires
            0 <= old(self).node_index() < tree@.len(),
        ensures
            final(self).node_index() == old(self).node_index(),
            ({
                let kids = tree@[old(self).node_index()].children;
                if old(self).position() < kids.len() {
                    &&& r is Some
                    &&& r->Some_0.index() == kids[old(self).position()]
                    &&& final(self).position() == old(self).position() + 1
                } else {
                    &&& r is None
                    &&& final(self).position() == old(self).position()
                }
            }),
    {
        if self.pos < tree.nodes[self.node.idx].children.len() {
            let child = tree.nodes[self.node.idx].children[self.pos];
            self.pos += 1;
            Some(Node { idx: child, fake: PhantomData })
        } else {
            None
        }
    }
}

} // verus!
