//! The data shapes of a decision-tree classifier.  No training or inference
//! is offered: the types only record how such a tree is configured and what
//! kinds of node it is made of.

use vstd::prelude::*;

verus! {

/// The limits within which a decision tree may grow.
pub struct DecisionTree {
    _min_samples: u32,
    _max_depth: u32,
}

/// The end of a branch: a place in the tree where no node stands.
pub struct NullNode {}

/// The two kinds of place in a tree: a node, or the end of a branch.
pub enum TreeNodes {
    TreeNode,
    NullNode,
}

impl DecisionTree {
    /// The least number of samples that a node must hold to be split.
    pub closed spec fn min_samples(&self) -> u32 {
        self._min_samples
    }

    /// The greatest depth to which the tree may grow.
    pub closed spec fn max_depth(&self) -> u32 {
        self._max_depth
    }

    /// A tree configuration with the given limits.
    pub fn new(min_samples: u32, min_depth: u32) -> (tree: DecisionTree)
        ensures
            tree.min_samples() == min_samples,
            tree.max_depth() == min_depth,
    {
        DecisionTree { _min_samples: min_samples, _max_depth: min_depth }
    }
}

} // verus!
