//! The outline of a forest: its nodes in the order in which a listing shows
//! them, each with its depth.

use vstd::prelude::*;
use vstd::string::StringExecFns;
use crate::ast::{ASTNode, SpecNode};
use crate::token::{token_text, SpecToken, Token};

verus! {

/// One line of an outline: the token of a node, and how deep the node lies
/// below the top level of the forest.
#[derive(Debug, PartialEq, Eq)]
pub struct Line {
    pub depth: usize,
    pub token: Token,
}

/// The mathematical model of a [`Line`].
pub struct SpecLine {
    pub depth: nat,
    pub token: SpecToken,
}

impl View for Line {
    type V = SpecLine;

    open spec fn view(&self) -> SpecLine {
        SpecLine { depth: self.depth as nat, token: self.token@ }
    }
}

impl DeepView for Line {
    type V = SpecLine;

    open spec fn deep_view(&self) -> SpecLine {
        self@
    }
}

/// The indentation of a line at `depth`: two spaces for each level.
pub open spec fn indentation(depth: nat) -> Seq<char> {
    Seq::new(2 * depth, |k: int| ' ')
}

/// A line written out: the indentation for its depth, then its token. A line
/// with a floating-point literal has no text, as the literal has none.
pub open spec fn line_text(line: SpecLine) -> Option<Seq<char>> {
    match token_text(line.token) {
        Some(text) => Some(indentation(line.depth) + text),
        None => None,
    }
}

/// The indentation of a line at `depth`.
pub fn indent(depth: usize) -> (text: String)
    ensures
        text@ == indentation(depth as nat),
{
    let mut text = String::new();
    let mut level: usize = 0;
    while level < depth
        invariant
            level <= depth,
            text@ == indentation(level as nat),
        decreases depth - level,
    {
        text.push(' ');
        text.push(' ');
        level += 1;
        assert(text@ =~= indentation(level as nat));
    }
    text
}

impl Line {
    /// The line written out, or `None` for a floating-point literal.
    pub fn text(&self) -> (text: Option<String>)
        ensures
            text.deep_view() == line_text(self@),
    {
        match self.token.text() {
            Some(token) => {
                let mut text = indent(self.depth);
                text.append(token.as_str());
                Some(text)
            },
            None => None,
        }
    }
}

/// The lines of one tree whose root lies at `depth`: the root, then the lines
/// of its children, one level deeper.
pub open spec fn node_lines(node: SpecNode, depth: nat) -> Seq<SpecLine>
    decreases node,
{
    seq![SpecLine { depth, token: node.token }] + forest_lines(node.children, depth + 1)
}

/// The lines of the trees of `forest`, one tree after the other, with the
/// roots at `depth`.
pub open spec fn forest_lines(forest: Seq<SpecNode>, depth: nat) -> Seq<SpecLine>
    decreases forest,
{
    if forest.len() == 0 {
        Seq::empty()
    } else {
        forest_lines(forest.drop_last(), depth) + node_lines(forest.last(), depth)
    }
}

/// Appends the lines of `node` to `lines`.
fn outline_node(node: &ASTNode, depth: usize, lines: &mut Vec<Line>)
    requires
        depth <= old(lines).len(),
    ensures
        final(lines).deep_view() == old(lines).deep_view() + node_lines(node@, depth as nat),
    decreases node,
{
    let ghost before = lines.deep_view();
    let ghost root = SpecLine { depth: depth as nat, token: node.token@ };
    lines.push(Line { depth, token: node.token.clone() });
    assert(lines.deep_view() =~= before + seq![root] + forest_lines(
        node@.children.take(0),
        depth as nat + 1,
    ));
    let mut k: usize = 0;
    while k < node.children.len()
        invariant
            k <= node.children.len(),
            depth < lines.len(),
            lines.deep_view() == before + seq![root] + forest_lines(
                node@.children.take(k as int),
                depth as nat + 1,
            ),
        decreases node.children.len() - k,
    {
        let ghost so_far = lines.deep_view();
        outline_node(&node.children[k], depth + 1, lines);
        proof {
            node.view_unfolds();
            let next = node@.children.take(k + 1);
            assert(next.drop_last() =~= node@.children.take(k as int));
            assert(next.last() == node.children[k as int]@);
            assert(lines.deep_view() =~= before + seq![root] + forest_lines(next, depth as nat + 1));
        }
        k += 1;
    }
    proof {
        node.view_unfolds();
        assert(node@.children.take(k as int) =~= node@.children);
        assert(lines.deep_view() =~= before + node_lines(node@, depth as nat));
    }
}

/// The outline of a forest, with the top level at depth 0.
pub fn outline(ast: &[ASTNode]) -> (lines: Vec<Line>)
    ensures
        lines.deep_view() == forest_lines(ast.deep_view(), 0),
{
    let mut lines: Vec<Line> = Vec::new();
    let mut k: usize = 0;
    assert(lines.deep_view() =~= forest_lines(ast.deep_view().take(0), 0));
    while k < ast.len()
        invariant
            k <= ast.len(),
            lines.deep_view() == forest_lines(ast.deep_view().take(k as int), 0),
        decreases ast.len() - k,
    {
        outline_node(&ast[k], 0, &mut lines);
        proof {
            let next = ast.deep_view().take(k + 1);
            assert(next.drop_last() =~= ast.deep_view().take(k as int));
            assert(next.last() == ast[k as int]@);
        }
        k += 1;
    }
    assert(ast.deep_view().take(k as int) =~= ast.deep_view());
    lines
}

} // verus!
