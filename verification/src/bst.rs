//! An unbalanced binary search tree over integer values.
//!
//! The tree is abstracted as the set of values it holds. The search
//! ordering — every value in a left subtree is smaller than its node's
//! value, every value in a right subtree larger — is the well-formedness
//! invariant, so a value never appears in two nodes.

use vstd::prelude::*;

verus! {

pub struct TreeNode {
    pub value: i64,
    pub left: Option<Box<TreeNode>>,
    pub right: Option<Box<TreeNode>>,
}

pub struct BinarySearchTree {
    pub root: Option<Box<TreeNode>>,
}

/// The values held by the subtree rooted at `node_opt`.
pub open spec fn opt_set(node_opt: Option<Box<TreeNode>>) -> Set<i64>
    decreases node_opt,
{
    match node_opt {
        None => Set::empty(),
        Some(node) => node.as_set(),
    }
}

impl TreeNode {
    /// The values held by this subtree.
    pub open spec fn as_set(self) -> Set<i64>
        decreases self,
    {
        opt_set(self.left).union(opt_set(self.right)).insert(self.value)
    }

    /// The search ordering holds everywhere in this subtree.
    pub open spec fn wf(self) -> bool
        decreases self,
    {
        &&& forall|x: i64| opt_set(self.left).contains(x) ==> x < self.value
        &&& forall|x: i64| opt_set(self.right).contains(x) ==> x > self.value
        &&& match self.left {
            Some(node) => node.wf(),
            None => true,
        }
        &&& match self.right {
            Some(node) => node.wf(),
            None => true,
        }
    }

    pub fn new(value: i64) -> (node: Self)
        ensures
            node.wf(),
            node.as_set() == Set::<i64>::empty().insert(value),
            node.value == value,
            node.left is None,
            node.right is None,
    {
        let node = TreeNode { value, left: None, right: None };
        proof {
            assert(node.as_set() =~= Set::<i64>::empty().insert(value));
        }
        node
    }

    /// Inserts `value` into this subtree, keeping the search ordering; a
    /// value that is already present leaves the subtree unchanged.
    pub fn insert(&mut self, value: i64)
        requires
            old(self).wf(),
        ensures
            final(self).wf(),
            final(self).as_set() == old(self).as_set().insert(value),
            final(self).value == old(self).value,
            old(self).as_set().contains(value) ==> *final(self) == *old(self),
        decreases *old(self),
    {
        if value < self.value {
            proof {
                assert(!opt_set(self.right).contains(value));
            }
            insert_into_optional(&mut self.left, value);
            proof {
                assert(final(self).as_set() =~= old(self).as_set().insert(value));
            }
        } else if value > self.value {
            proof {
                assert(!opt_set(self.left).contains(value));
            }
            insert_into_optional(&mut self.right, value);
            proof {
                assert(final(self).as_set() =~= old(self).as_set().insert(value));
            }
        } else {
            proof {
                assert(final(self).as_set() =~= old(self).as_set().insert(value));
            }
        }
    }

    /// Reports whether `value` is held in this subtree.
    pub fn search(&self, value: i64) -> (found: bool)
        requires
            self.wf(),
        ensures
            found == self.as_set().contains(value),
        decreases *self,
    {
        if value < self.value {
            proof {
                assert(!opt_set(self.right).contains(value));
                assert(self.as_set().contains(value) == opt_set(self.left).contains(value));
            }
            match &self.left {
                Some(node) => node.search(value),
                None => false,
            }
        } else if value > self.value {
            proof {
                assert(!opt_set(self.left).contains(value));
                assert(self.as_set().contains(value) == opt_set(self.right).contains(value));
            }
            match &self.right {
                Some(node) => node.search(value),
                None => false,
            }
        } else {
            true
        }
    }
}

/// Inserts `value` into the subtree rooted at `node_opt`, creating the node
/// when the slot is empty.
fn insert_into_optional(node_opt: &mut Option<Box<TreeNode>>, value: i64)
    requires
        match *old(node_opt) {
            Some(node) => node.wf(),
            None => true,
        },
    ensures
        match *final(node_opt) {
            Some(node) => node.wf(),
            None => false,
        },
        opt_set(*final(node_opt)) == opt_set(*old(node_opt)).insert(value),
        match *old(node_opt) {
            Some(prev) => (*final(node_opt)) matches Some(node) && node.value == prev.value,
            None => (*final(node_opt)) matches Some(node) && node.value == value,
        },
        opt_set(*old(node_opt)).contains(value) ==> *final(node_opt) == *old(node_opt),
    decreases *old(node_opt),
{
    match node_opt.take() {
        None => {
            *node_opt = Some(Box::new(TreeNode::new(value)));
            proof {
                assert(opt_set(*node_opt) =~= opt_set(*old(node_opt)).insert(value));
            }
        },
        Some(mut boxed) => {
            (&mut *boxed).insert(value);
            *node_opt = Some(boxed);
            proof {
                assert(opt_set(*node_opt) =~= opt_set(*old(node_opt)).insert(value));
            }
        },
    }
}

impl BinarySearchTree {
    /// All values of the tree.
    pub open spec fn as_set(self) -> Set<i64> {
        opt_set(self.root)
    }

    /// The search ordering holds everywhere in the tree.
    pub open spec fn wf(self) -> bool {
        match self.root {
            Some(node) => node.wf(),
            None => true,
        }
    }

    pub fn new() -> (tree: Self)
        ensures
            tree.wf(),
            tree@ == Set::<i64>::empty(),
    {
        BinarySearchTree { root: None }
    }

    /// Inserts `value` into the tree; a value that is already present
    /// leaves the tree unchanged.
    pub fn insert(&mut self, value: i64)
        requires
            old(self).wf(),
        ensures
            final(self).wf(),
            final(self)@ == old(self)@.insert(value),
            old(self)@.contains(value) ==> *final(self) == *old(self),
    {
        insert_into_optional(&mut self.root, value);
    }

    /// Reports whether `value` is held in the tree.
    pub fn search(&self, value: i64) -> (found: bool)
        requires
            self.wf(),
        ensures
            found == self@.contains(value),
    {
        match &self.root {
            Some(node) => node.search(value),
            None => false,
        }
    }
}

impl View for BinarySearchTree {
    type V = Set<i64>;

    open spec fn view(&self) -> Set<i64> {
        self.as_set()
    }
}

} // verus!
