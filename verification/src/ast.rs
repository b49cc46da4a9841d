//! The syntax tree: the executable `ASTNode` and its model `SpecNode`.
//!
//! A parse yields a forest, an ordered sequence of trees, since a program may
//! hold several statements at its top level.

use vstd::prelude::*;
use crate::token::{SpecToken, Token};

verus! {

/// A node of the syntax tree: a token as its tag and, for a leaf, its payload;
/// and the node's children, in order. A node owns its children.
#[derive(Debug, PartialEq, Eq)]
pub struct ASTNode {
    pub token: Token,
    pub children: Vec<ASTNode>,
}

/// The mathematical model of an [`ASTNode`].
pub struct SpecNode {
    pub token: SpecToken,
    pub children: Seq<SpecNode>,
}

/// The node with tag `token` and no children.
pub open spec fn leaf(token: SpecToken) -> SpecNode {
    SpecNode { token, children: Seq::empty() }
}

/// The node with tag `token` and the children `children`.
pub open spec fn branch(token: SpecToken, children: Seq<SpecNode>) -> SpecNode {
    SpecNode { token, children }
}

/// The model of `node`: the model of its token, over the models of its
/// children.
pub open spec fn node_view(node: ASTNode) -> SpecNode
    decreases node,
{
    SpecNode {
        token: node.token@,
        children: Seq::new(
            node.children@.len(),
            |k: int|
                if 0 <= k < node.children@.len() {
                    node_view(node.children@[k])
                } else {
                    arbitrary()
                },
        ),
    }
}

impl View for ASTNode {
    type V = SpecNode;

    open spec fn view(&self) -> SpecNode {
        node_view(*self)
    }
}

impl DeepView for ASTNode {
    type V = SpecNode;

    open spec fn deep_view(&self) -> SpecNode {
        self@
    }
}

impl ASTNode {
    /// A node without children.
    pub fn leaf(token: Token) -> (node: ASTNode)
        ensures
            node@ == leaf(token@),
    {
        let node = ASTNode { token, children: Vec::new() };
        assert(node@.children =~= Seq::empty());
        node
    }

    /// A node with the given children.
    pub fn branch(token: Token, children: Vec<ASTNode>) -> (node: ASTNode)
        ensures
            node@ == branch(token@, children.deep_view()),
    {
        let node = ASTNode { token, children };
        assert(node@.children =~= node.children.deep_view());
        node
    }

    /// The model of a node holds the models of its children.
    pub proof fn view_unfolds(&self)
        ensures
            self@ == branch(self.token@, self.children.deep_view()),
    {
        assert(self@.children =~= self.children.deep_view());
    }
}

/// Appends `node` to `forest`.
pub fn attach(forest: &mut Vec<ASTNode>, node: ASTNode)
    ensures
        final(forest).deep_view() == old(forest).deep_view().push(node@),
{
    forest.push(node);
    assert(forest.deep_view() =~= old(forest).deep_view().push(node@));
}

} // verus!
