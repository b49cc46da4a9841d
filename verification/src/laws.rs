//! What holds of the front end as a whole.

use vstd::prelude::*;
use crate::ast::{leaf, ASTNode, SpecNode};
use crate::compiler::compile;
use crate::grammar::{
    block, clauses, flat, follow, leaves, left, main_body, parse, run, Fault, Read,
};
use crate::lexer::{lex, scan, tokenize};
use crate::parser::{create_ast, ParseError};
use crate::token::{SpecToken, Token};

verus! {

/// The model of what a parse returns: the model of the forest, or the fault.
pub open spec fn outcome(parsed: Result<Vec<ASTNode>, ParseError>) -> Result<Seq<SpecNode>, Fault> {
    match parsed {
        Ok(forest) => Ok(forest.deep_view()),
        Err(error) => Err(error@),
    }
}

/// Lexing is determined by the text: whatever two runs of `tokenize` return
/// on the same text, they return the same tokens.
pub proof fn tokenize_is_determined(first: &str, second: &str, once: Vec<Token>, again: Vec<Token>)
    requires
        first@ == second@,
        call_ensures(tokenize, (first,), once),
        call_ensures(tokenize, (second,), again),
    ensures
        once.deep_view() == again.deep_view(),
{
}

/// Parsing is determined by the tokens.
pub proof fn create_ast_is_determined(
    first: Vec<Token>,
    second: Vec<Token>,
    once: Result<Vec<ASTNode>, ParseError>,
    again: Result<Vec<ASTNode>, ParseError>,
)
    requires
        first.deep_view() == second.deep_view(),
        call_ensures(create_ast, (first,), once),
        call_ensures(create_ast, (second,), again),
    ensures
        outcome(once) == outcome(again),
{
}

/// The whole front end is determined by the text.
pub proof fn compile_is_determined(
    first: &str,
    second: &str,
    once: Result<Vec<ASTNode>, ParseError>,
    again: Result<Vec<ASTNode>, ParseError>,
)
    requires
        first@ == second@,
        call_ensures(compile, (first,), once),
        call_ensures(compile, (second,), again),
    ensures
        outcome(once) == outcome(again),
{
}

/// Inside a quoted string nothing but the closing quote ends the string: from
/// behind the first `count` characters of `inner` on, the scan of `inner`
/// between two double quotes emits the one literal.
proof fn lemma_quoted_scan(inner: Seq<char>, count: nat)
    requires
        count <= inner.len(),
        forall|k: int| 0 <= k < inner.len() ==> inner[k] != '"',
    ensures
        scan(seq!['"'] + inner + seq!['"'], count + 1, inner.take(count as int), true) == seq![
            SpecToken::StrLit(inner),
        ],
    decreases inner.len() - count,
{
    let src = seq!['"'] + inner + seq!['"'];
    if count == inner.len() {
        assert(src[count as int + 1] == '"');
        assert(inner.take(count as int) =~= inner);
        assert(scan(src, count + 2, Seq::empty(), false) =~= Seq::empty());
        assert(seq![SpecToken::StrLit(inner)] + Seq::empty() =~= seq![SpecToken::StrLit(inner)]);
    } else {
        assert(src[count as int + 1] == inner[count as int]);
        assert(inner.take(count as int).push(inner[count as int]) =~= inner.take(count as int + 1));
        lemma_quoted_scan(inner, count + 1);
    }
}

/// A text between two double quotes is one string literal, whatever the text
/// holds but a double quote: spaces, punctuation and `=` are part of the
/// string. The literal carries the text without the quotes, untouched.
pub proof fn quoted_text_is_one_literal(inner: Seq<char>)
    requires
        forall|k: int| 0 <= k < inner.len() ==> inner[k] != '"',
    ensures
        lex(seq!['"'] + inner + seq!['"']) == seq![SpecToken::StrLit(inner)],
{
    let src = seq!['"'] + inner + seq!['"'];
    assert(src[0] == '"');
    assert(inner.take(0) =~= Seq::empty());
    lemma_quoted_scan(inner, 0);
}

/// Whether the dispatch loop takes `token` for what it is: the token starts
/// no statement and no group, and ends no block.
pub open spec fn plain(token: SpecToken) -> bool {
    match token {
        SpecToken::Main
        | SpecToken::For
        | SpecToken::Print
        | SpecToken::Var
        | SpecToken::If
        | SpecToken::Func
        | SpecToken::OpenExpr
        | SpecToken::CloseExpr
        | SpecToken::CloseScope => false,
        _ => true,
    }
}

/// A plain token in a block becomes a leaf: a node with no children whose
/// token is the token that was read. It is the first node of the block that
/// starts at the token, and the rest of the block starts behind it.
pub proof fn plain_token_becomes_leaf(tokens: Seq<SpecToken>, at: nat)
    requires
        at < tokens.len(),
        plain(tokens[at as int]),
    ensures
        block(tokens, at) == follow(seq![leaf(tokens[at as int])], 1, block(tokens, at + 1)),
        block(tokens, at) matches Ok(read) ==> read.value.len() > 0 && read.value[0] == leaf(
            tokens[at as int],
        ),
{
}

/// From `at` on, a run of plain tokens up to the end reads as its leaves.
proof fn lemma_plain_block(tokens: Seq<SpecToken>, at: nat)
    requires
        at <= tokens.len(),
        forall|k: int| at <= k < tokens.len() ==> plain(tokens[k]),
    ensures
        block(tokens, at) == Ok::<Read<Seq<SpecNode>>, Fault>(
            Read {
                value: leaves(tokens, at, (tokens.len() - at) as nat),
                taken: (tokens.len() - at) as nat,
            },
        ),
    decreases tokens.len() - at,
{
    let all = leaves(tokens, at, (tokens.len() - at) as nat);
    if at == tokens.len() {
        assert(all =~= Seq::empty());
    } else {
        lemma_plain_block(tokens, at + 1);
        plain_token_becomes_leaf(tokens, at);
        let rest = leaves(tokens, at + 1, (tokens.len() - at - 1) as nat);
        assert(seq![leaf(tokens[at as int])] + rest =~= all);
    }
}

/// A program of plain tokens only parses to one leaf for each token, in the
/// order of the tokens.
pub proof fn plain_tokens_become_leaves(tokens: Seq<SpecToken>)
    requires
        forall|k: int| 0 <= k < tokens.len() ==> plain(tokens[k]),
    ensures
        parse(tokens) == Ok::<Seq<SpecNode>, Fault>(leaves(tokens, 0, tokens.len())),
{
    lemma_plain_block(tokens, 0);
}

/// `main` or `for` without a block-open marker right behind it ends the parse
/// of the block in which it stands: the fault lies at the position behind the
/// keyword, whatever follows.
pub proof fn main_without_block_is_a_fault(tokens: Seq<SpecToken>, at: nat)
    requires
        at < tokens.len(),
        tokens[at as int] is Main || tokens[at as int] is For,
        at + 1 < tokens.len() ==> !(tokens[at as int + 1] is OpenScope),
    ensures
        block(tokens, at) == Err::<Read<Seq<SpecNode>>, Fault>(Fault { at: at + 1 }),
{
    assert(main_body(tokens, at + 1) == Err::<Read<SpecNode>, Fault>(Fault { at: at + 1 }));
}

/// Whether no `main` and no `for` stands at or behind position `at`.
pub open spec fn free_of_main(tokens: Seq<SpecToken>, at: nat) -> bool {
    forall|k: int| at <= k < tokens.len() ==> !(tokens[k] is Main) && !(tokens[k] is For)
}

/// Without `main` and `for` a block has a forest.
proof fn lemma_block_reads(tokens: Seq<SpecToken>, at: nat)
    requires
        free_of_main(tokens, at),
    ensures
        block(tokens, at) is Ok,
    decreases left(tokens, at),
{
    if at < tokens.len() {
        match tokens[at as int] {
            SpecToken::CloseScope => {},
            SpecToken::CloseExpr => {},
            SpecToken::OpenExpr => {
                lemma_block_reads(tokens, at + 1);
                lemma_block_reads(tokens, at + 1 + block(tokens, at + 1)->Ok_0.taken);
            },
            SpecToken::Print => {
                lemma_block_reads(tokens, at + flat(SpecToken::Print, tokens, at).taken);
            },
            SpecToken::Var => {
                lemma_block_reads(tokens, at + flat(SpecToken::Var, tokens, at).taken);
            },
            SpecToken::If => {
                lemma_clauses_read(tokens, at + 1, true);
                lemma_block_reads(tokens, at + 1 + clauses(tokens, at + 1, true)->Ok_0.taken);
            },
            SpecToken::Func => {
                lemma_clauses_read(tokens, at + 1, false);
                lemma_block_reads(tokens, at + 1 + clauses(tokens, at + 1, false)->Ok_0.taken);
            },
            _ => {
                lemma_block_reads(tokens, at + 1);
            },
        }
    }
}

/// Without `main` and `for` the clauses of a statement have a forest.
proof fn lemma_clauses_read(tokens: Seq<SpecToken>, at: nat, closing: bool)
    requires
        free_of_main(tokens, at),
    ensures
        clauses(tokens, at, closing) is Ok,
    decreases left(tokens, at),
{
    if at < tokens.len() {
        match tokens[at as int] {
            SpecToken::Semicolon => {},
            SpecToken::CloseScope => {},
            SpecToken::OpenExpr | SpecToken::OpenScope => {
                lemma_block_reads(tokens, at + 1);
                lemma_clauses_read(tokens, at + 1 + block(tokens, at + 1)->Ok_0.taken, closing);
            },
            _ => {
                lemma_clauses_read(tokens, at + 1, closing);
            },
        }
    }
}

/// Nothing but `main` or `for` can make a parse fail: tokens that hold neither
/// have a forest, however odd they are otherwise.
pub proof fn only_main_can_fail(tokens: Seq<SpecToken>)
    requires
        free_of_main(tokens, 0),
    ensures
        parse(tokens) is Ok,
{
    lemma_block_reads(tokens, 0);
}

/// The run of tokens from `at` on stops at the first semicolon or at the end.
proof fn lemma_run_stops(tokens: Seq<SpecToken>, at: nat)
    requires
        at <= tokens.len(),
    ensures
        at + run(tokens, at) <= tokens.len(),
        forall|k: int| at <= k < at + run(tokens, at) ==> !(tokens[k] is Semicolon),
        at + run(tokens, at) < tokens.len() ==> tokens[(at + run(tokens, at)) as int] is Semicolon,
    decreases tokens.len() - at,
{
    if at < tokens.len() && !(tokens[at as int] is Semicolon) {
        lemma_run_stops(tokens, at + 1);
    }
}

/// A flat statement reaches to the first semicolon behind its keyword: its
/// children are the tokens before that semicolon, each as a leaf and in their
/// order, none of them is a semicolon, and the statement takes its keyword,
/// those tokens and the semicolon. Without a semicolon it reaches to the end.
pub proof fn flat_statement_reaches_first_semicolon(
    tag: SpecToken,
    tokens: Seq<SpecToken>,
    at: nat,
)
    requires
        at < tokens.len(),
    ensures
        ({
            let stmt = flat(tag, tokens, at);
            let count = stmt.value.children.len();
            &&& stmt.value.token == tag
            &&& at + 1 + count <= tokens.len()
            &&& forall|k: int|
                0 <= k < count ==> stmt.value.children[k] == leaf(tokens[at + 1 + k]) && !(tokens[at
                    + 1 + k] is Semicolon)
            &&& if at + 1 + count < tokens.len() {
                tokens[(at + 1 + count) as int] is Semicolon && stmt.taken == count + 2
            } else {
                stmt.taken == count + 1
            }
        }),
{
    lemma_run_stops(tokens, at + 1);
}

/// A block that starts within the tokens ends within them.
proof fn lemma_block_within(tokens: Seq<SpecToken>, at: nat)
    requires
        at <= tokens.len(),
    ensures
        match block(tokens, at) {
            Ok(read) => at + read.taken <= tokens.len(),
            Err(fault) => at < fault.at <= tokens.len(),
        },
    decreases tokens.len() - at, 0nat,
{
    if at < tokens.len() {
        match tokens[at as int] {
            SpecToken::CloseScope => {},
            SpecToken::CloseExpr => {},
            SpecToken::OpenExpr => {
                lemma_block_within(tokens, at + 1);
                if let Ok(inside) = block(tokens, at + 1) {
                    lemma_block_within(tokens, at + 1 + inside.taken);
                }
            },
            SpecToken::Main | SpecToken::For => {
                lemma_main_within(tokens, at + 1);
                if let Ok(stmt) = main_body(tokens, at + 1) {
                    lemma_block_within(tokens, at + 1 + stmt.taken);
                }
            },
            SpecToken::Print => {
                lemma_run_stops(tokens, at + 1);
                lemma_block_within(tokens, at + flat(SpecToken::Print, tokens, at).taken);
            },
            SpecToken::Var => {
                lemma_run_stops(tokens, at + 1);
                lemma_block_within(tokens, at + flat(SpecToken::Var, tokens, at).taken);
            },
            SpecToken::If => {
                lemma_clauses_within(tokens, at + 1, true);
                if let Ok(parts) = clauses(tokens, at + 1, true) {
                    lemma_block_within(tokens, at + 1 + parts.taken);
                }
            },
            SpecToken::Func => {
                lemma_clauses_within(tokens, at + 1, false);
                if let Ok(parts) = clauses(tokens, at + 1, false) {
                    lemma_block_within(tokens, at + 1 + parts.taken);
                }
            },
            _ => {
                lemma_block_within(tokens, at + 1);
            },
        }
    }
}

/// What follows `main` within the tokens ends within them.
proof fn lemma_main_within(tokens: Seq<SpecToken>, at: nat)
    requires
        at <= tokens.len(),
    ensures
        match main_body(tokens, at) {
            Ok(stmt) => at + stmt.taken <= tokens.len(),
            Err(fault) => at <= fault.at <= tokens.len(),
        },
    decreases tokens.len() - at, 0nat,
{
    if at < tokens.len() && tokens[at as int] is OpenScope {
        lemma_block_within(tokens, at + 1);
    }
}

/// The clauses of a statement that start within the tokens end within them.
proof fn lemma_clauses_within(tokens: Seq<SpecToken>, at: nat, closing: bool)
    requires
        at <= tokens.len(),
    ensures
        match clauses(tokens, at, closing) {
            Ok(parts) => at + parts.taken <= tokens.len(),
            Err(fault) => at < fault.at <= tokens.len(),
        },
    decreases tokens.len() - at, 0nat,
{
    if at < tokens.len() {
        match tokens[at as int] {
            SpecToken::Semicolon => {},
            SpecToken::CloseScope => {},
            SpecToken::OpenExpr | SpecToken::OpenScope => {
                lemma_block_within(tokens, at + 1);
                if let Ok(inside) = block(tokens, at + 1) {
                    lemma_clauses_within(tokens, at + 1 + inside.taken, closing);
                }
            },
            _ => {
                lemma_clauses_within(tokens, at + 1, closing);
            },
        }
    }
}

/// The cursor stays within the tokens, and every fault lies within them:
/// reading from a position within the tokens takes no more tokens than stand
/// there, and fails only at a position within the tokens, not before the one
/// where the reading began.
pub proof fn reading_stays_within(tokens: Seq<SpecToken>, at: nat)
    requires
        at <= tokens.len(),
    ensures
        match block(tokens, at) {
            Ok(read) => at + read.taken <= tokens.len(),
            Err(fault) => at < fault.at <= tokens.len(),
        },
        match main_body(tokens, at) {
            Ok(stmt) => at + stmt.taken <= tokens.len(),
            Err(fault) => at <= fault.at <= tokens.len(),
        },
        forall|closing: bool|
            match #[trigger] clauses(tokens, at, closing) {
                Ok(parts) => at + parts.taken <= tokens.len(),
                Err(fault) => at < fault.at <= tokens.len(),
            },
        at < tokens.len() ==> at + flat(SpecToken::Print, tokens, at).taken <= tokens.len(),
{
    lemma_block_within(tokens, at);
    lemma_main_within(tokens, at);
    lemma_clauses_within(tokens, at, true);
    lemma_clauses_within(tokens, at, false);
    if at < tokens.len() {
        lemma_run_stops(tokens, at + 1);
    }
}

} // verus!
