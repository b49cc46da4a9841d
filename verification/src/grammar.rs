//! What the parser makes of a token sequence, as mathematical functions.
//!
//! Each function reads the tokens from a position on and says what it made of
//! them and how many tokens it took. The only thing that can go wrong is that
//! `main` or `for` is not followed by a block-open marker; everything else,
//! however odd, has a tree.

use vstd::prelude::*;
use crate::ast::{branch, leaf, SpecNode};
use crate::token::SpecToken;

verus! {

/// A successful reading: `value` was made of `taken` tokens.
pub struct Read<T> {
    pub value: T,
    pub taken: nat,
}

/// The one failure: a block-open marker was expected at position `at` and is
/// not there.
pub struct Fault {
    pub at: nat,
}

/// What reading from a position gives.
pub type Parse<T> = Result<Read<T>, Fault>;

/// How many tokens stand at or behind position `at`.
pub open spec fn left(tokens: Seq<SpecToken>, at: nat) -> nat {
    if at < tokens.len() {
        (tokens.len() - at) as nat
    } else {
        0
    }
}

/// The nodes `first`, made of `used` tokens, in front of what `rest` reads.
pub open spec fn follow(first: Seq<SpecNode>, used: nat, rest: Parse<Seq<SpecNode>>) -> Parse<
    Seq<SpecNode>,
> {
    match rest {
        Ok(read) => Ok(Read { value: first + read.value, taken: used + read.taken }),
        Err(fault) => Err(fault),
    }
}

/// How many tokens stand from `at` on before the first semicolon, or before
/// the end where there is no semicolon.
pub open spec fn run(tokens: Seq<SpecToken>, at: nat) -> nat
    decreases tokens.len() - at,
{
    if at < tokens.len() && !(tokens[at as int] is Semicolon) {
        1 + run(tokens, at + 1)
    } else {
        0
    }
}

/// The `count` tokens from `from` on, each as a leaf.
pub open spec fn leaves(tokens: Seq<SpecToken>, from: nat, count: nat) -> Seq<SpecNode> {
    Seq::new(count, |k: int| leaf(tokens[from + k]))
}

/// The flat statement whose keyword stands at `at`: a node tagged `tag` whose
/// children are the tokens behind the keyword, each as a leaf, up to the first
/// semicolon. The semicolon is taken and leaves no node. Where there is no
/// semicolon the statement runs to the end.
pub open spec fn flat(tag: SpecToken, tokens: Seq<SpecToken>, at: nat) -> Read<SpecNode> {
    let count = run(tokens, at + 1);
    Read {
        value: branch(tag, leaves(tokens, at + 1, count)),
        taken: if at + 1 + count < tokens.len() {
            count + 2
        } else {
            count + 1
        },
    }
}

/// The forest of a block that starts at `at`.
///
/// A block ends before a block-close marker, which it leaves in place, behind
/// a close-expression marker, which it takes, or at the end of the tokens.
/// `main`, `for`, `print`, `var`, `if` and `func` start a statement. An
/// open-expression marker starts a group: the block behind it becomes the
/// children of a node tagged `OpenExpr`, and a childless node tagged
/// `CloseExpr` follows that node as its sibling. Any other token is a leaf.
pub open spec fn block(tokens: Seq<SpecToken>, at: nat) -> Parse<Seq<SpecNode>>
    decreases left(tokens, at),
{
    if at >= tokens.len() {
        Ok(Read { value: Seq::empty(), taken: 0 })
    } else {
        match tokens[at as int] {
            SpecToken::CloseScope => Ok(Read { value: Seq::empty(), taken: 0 }),
            SpecToken::CloseExpr => Ok(Read { value: Seq::empty(), taken: 1 }),
            SpecToken::OpenExpr => match block(tokens, at + 1) {
                Ok(inside) => follow(
                    seq![branch(SpecToken::OpenExpr, inside.value), leaf(SpecToken::CloseExpr)],
                    1 + inside.taken,
                    block(tokens, at + 1 + inside.taken),
                ),
                Err(fault) => Err(fault),
            },
            SpecToken::Main | SpecToken::For => match main_body(tokens, at + 1) {
                Ok(stmt) => follow(
                    seq![stmt.value],
                    1 + stmt.taken,
                    block(tokens, at + 1 + stmt.taken),
                ),
                Err(fault) => Err(fault),
            },
            SpecToken::Print => {
                let stmt = flat(SpecToken::Print, tokens, at);
                follow(seq![stmt.value], stmt.taken, block(tokens, at + stmt.taken))
            },
            SpecToken::Var => {
                let stmt = flat(SpecToken::Var, tokens, at);
                follow(seq![stmt.value], stmt.taken, block(tokens, at + stmt.taken))
            },
            SpecToken::If => match clauses(tokens, at + 1, true) {
                Ok(parts) => follow(
                    seq![branch(SpecToken::If, parts.value)],
                    1 + parts.taken,
                    block(tokens, at + 1 + parts.taken),
                ),
                Err(fault) => Err(fault),
            },
            SpecToken::Func => match clauses(tokens, at + 1, false) {
                Ok(parts) => follow(
                    seq![branch(SpecToken::Func, parts.value)],
                    1 + parts.taken,
                    block(tokens, at + 1 + parts.taken),
                ),
                Err(fault) => Err(fault),
            },
            other => follow(seq![leaf(other)], 1, block(tokens, at + 1)),
        }
    }
}

/// What follows the keyword `main` or `for`, read from `at`, the position
/// behind the keyword: a block-open marker, a block, and the block-close marker
/// if one stands there. The node is tagged `Main` for both keywords, and its
/// children are the forest of the block.
pub open spec fn main_body(tokens: Seq<SpecToken>, at: nat) -> Parse<SpecNode>
    decreases left(tokens, at),
{
    if at < tokens.len() && tokens[at as int] is OpenScope {
        match block(tokens, at + 1) {
            Ok(body) => {
                let end = at + 1 + body.taken;
                Ok(
                    Read {
                        value: branch(SpecToken::Main, body.value),
                        taken: if end < tokens.len() && tokens[end as int] is CloseScope {
                            body.taken + 2
                        } else {
                            body.taken + 1
                        },
                    },
                )
            },
            Err(fault) => Err(fault),
        }
    } else {
        Err(Fault { at })
    }
}

/// The children of an `if` or `func` statement, read from `at`, a position
/// behind the keyword.
///
/// A semicolon ends the statement and leaves no node. A block-close marker
/// ends it too; in an `if` statement (`closing`) it leaves a childless node
/// tagged `CloseExpr` as the last child, in a `func` statement no node. An
/// open-expression marker starts the condition: the block behind it becomes
/// the children of a node tagged `OpenExpr`. A block-open marker starts the
/// body: the block behind it becomes the children of a node tagged `Res`.
/// Any other token is a leaf. The statement also ends where the tokens end.
pub open spec fn clauses(tokens: Seq<SpecToken>, at: nat, closing: bool) -> Parse<Seq<SpecNode>>
    decreases left(tokens, at),
{
    if at >= tokens.len() {
        Ok(Read { value: Seq::empty(), taken: 0 })
    } else {
        match tokens[at as int] {
            SpecToken::Semicolon => Ok(Read { value: Seq::empty(), taken: 1 }),
            SpecToken::CloseScope => Ok(
                Read {
                    value: if closing {
                        seq![leaf(SpecToken::CloseExpr)]
                    } else {
                        Seq::empty()
                    },
                    taken: 1,
                },
            ),
            SpecToken::OpenExpr => match block(tokens, at + 1) {
                Ok(inside) => follow(
                    seq![branch(SpecToken::OpenExpr, inside.value)],
                    1 + inside.taken,
                    clauses(tokens, at + 1 + inside.taken, closing),
                ),
                Err(fault) => Err(fault),
            },
            SpecToken::OpenScope => match block(tokens, at + 1) {
                Ok(inside) => follow(
                    seq![branch(SpecToken::Res, inside.value)],
                    1 + inside.taken,
                    clauses(tokens, at + 1 + inside.taken, closing),
                ),
                Err(fault) => Err(fault),
            },
            other => follow(seq![leaf(other)], 1, clauses(tokens, at + 1, closing)),
        }
    }
}

/// The forest of a whole program, or the fault that ends the parse. Parsing
/// stops before a block-close marker and behind a close-expression marker that
/// nothing opened: what follows them is not read.
pub open spec fn parse(tokens: Seq<SpecToken>) -> Result<Seq<SpecNode>, Fault> {
    match block(tokens, 0) {
        Ok(read) => Ok(read.value),
        Err(fault) => Err(fault),
    }
}

} // verus!
