//! The parser: a dispatch loop and one handler for each kind of statement.
//! All of them share one cursor, an index into the token sequence, which each
//! leaves just behind the last token that it took.
//!
//! A handler is called with the cursor on the keyword of its statement.

use vstd::prelude::*;
use crate::ast::{attach, branch, leaf, ASTNode, SpecNode};
use crate::grammar::{block, clauses, flat, follow, leaves, main_body, parse, run, Fault, Read};
use crate::token::{SpecToken, Token};

verus! {

/// Why a parse was given up: at `position` a block-open marker was expected
/// behind `main` or `for`, and another token, or none, stands there.
#[derive(Debug, Clone, Copy, PartialEq, Eq)]
pub struct ParseError {
    pub position: usize,
}

impl View for ParseError {
    type V = Fault;

    open spec fn view(&self) -> Fault {
        Fault { at: self.position as nat }
    }
}

impl ParseError {
    /// What the error says, without its position.
    pub fn message(&self) -> (text: String)
        ensures
            text@ == "Expected open scope after Main"@,
    {
        "Expected open scope after Main".to_owned()
    }
}

/// Parses a flat statement and tags its node with `tag`: takes the keyword at
/// the cursor, then every token up to the first semicolon as a leaf, then the
/// semicolon.
fn parse_flat(tokens: &[Token], i: &mut usize, tag: Token) -> (node: ASTNode)
    requires
        *old(i) < tokens.len(),
    ensures
        node@ == flat(tag@, tokens.deep_view(), *old(i) as nat).value,
        *final(i) == *old(i) + flat(tag@, tokens.deep_view(), *old(i) as nat).taken,
        *final(i) <= tokens.len(),
{
    let ghost model = tokens.deep_view();
    *i += 1;
    let ghost first = *i as nat;
    let mut children: Vec<ASTNode> = Vec::new();
    while *i < tokens.len()
        invariant
            first <= *i <= tokens.len(),
            first == *old(i) + 1,
            model == tokens.deep_view(),
            children.deep_view() =~= leaves(model, first, (*i - first) as nat),
            run(model, first) == (*i - first) + run(model, *i as nat),
        decreases tokens.len() - *i,
    {
        match &tokens[*i] {
            Token::Semicolon => {
                *i += 1;
                return ASTNode::branch(tag, children);
            },
            token => {
                attach(&mut children, ASTNode::leaf(token.clone()));
                *i += 1;
            },
        }
    }
    ASTNode::branch(tag, children)
}

/// Parses the `print` statement whose keyword stands at the cursor. The
/// statement ends behind its semicolon, or at the end of the tokens.
pub fn parse_print(tokens: &[Token], i: &mut usize) -> (node: ASTNode)
    requires
        *old(i) < tokens.len(),
    ensures
        node@ == flat(SpecToken::Print, tokens.deep_view(), *old(i) as nat).value,
        *final(i) == *old(i) + flat(SpecToken::Print, tokens.deep_view(), *old(i) as nat).taken,
        *final(i) <= tokens.len(),
{
    parse_flat(tokens, i, Token::Print)
}

/// Parses the `var` statement whose keyword stands at the cursor. The
/// statement is not held to the shape `name = value`: whatever stands before
/// the semicolon becomes its children.
pub fn parse_var(tokens: &[Token], i: &mut usize) -> (node: ASTNode)
    requires
        *old(i) < tokens.len(),
    ensures
        node@ == flat(SpecToken::Var, tokens.deep_view(), *old(i) as nat).value,
        *final(i) == *old(i) + flat(SpecToken::Var, tokens.deep_view(), *old(i) as nat).taken,
        *final(i) <= tokens.len(),
{
    parse_flat(tokens, i, Token::Var)
}

/// Parses the statement whose keyword, `main` or `for`, stands at the cursor.
/// Fails where no block-open marker stands right behind the keyword, with the
/// cursor on that position, and where a statement inside the block fails.
pub fn parse_main(tokens: &[Token], i: &mut usize) -> (parsed: Result<ASTNode, ParseError>)
    requires
        *old(i) < tokens.len(),
    ensures
        match main_body(tokens.deep_view(), *old(i) as nat + 1) {
            Ok(stmt) => parsed matches Ok(node) && node@ == stmt.value && *final(i) == *old(i) + 1
                + stmt.taken,
            Err(fault) => parsed matches Err(error) && error@ == fault && *final(i) == fault.at,
        },
        *final(i) <= tokens.len(),
    decreases tokens.len() - *old(i), 1nat,
{
    *i += 1;
    if *i < tokens.len() {
        if let Token::OpenScope = &tokens[*i] {
            *i += 1;
            let children = match parse_ast(tokens, i) {
                Ok(children) => children,
                Err(error) => {
                    return Err(error);
                },
            };
            if *i < tokens.len() {
                if let Token::CloseScope = &tokens[*i] {
                    *i += 1;
                }
            }
            return Ok(ASTNode::branch(Token::Main, children));
        }
    }
    Err(ParseError { position: *i })
}

/// The children of an `if` statement (`closing`) or a `func` statement: takes
/// the keyword at the cursor, then the clauses of the statement.
fn parse_clauses(tokens: &[Token], i: &mut usize, closing: bool) -> (parsed: Result<
    Vec<ASTNode>,
    ParseError,
>)
    requires
        *old(i) < tokens.len(),
    ensures
        match clauses(tokens.deep_view(), *old(i) as nat + 1, closing) {
            Ok(parts) => parsed matches Ok(forest) && forest.deep_view() == parts.value && *final(i)
                == *old(i) + 1 + parts.taken,
            Err(fault) => parsed matches Err(error) && error@ == fault && *final(i) == fault.at,
        },
        *final(i) <= tokens.len(),
    decreases tokens.len() - *old(i), 0nat,
{
    let ghost model = tokens.deep_view();
    *i += 1;
    let ghost first = *i as nat;
    let mut children: Vec<ASTNode> = Vec::new();
    assert(follow(children.deep_view(), 0, clauses(model, first, closing)) =~= clauses(
        model,
        first,
        closing,
    ));
    while *i < tokens.len()
        invariant
            first <= *i <= tokens.len(),
            first == *old(i) + 1,
            model == tokens.deep_view(),
            follow(children.deep_view(), (*i - first) as nat, clauses(model, *i as nat, closing))
                == clauses(model, first, closing),
        decreases tokens.len() - *i,
    {
        let ghost before = children.deep_view();
        let ghost here = *i as nat;
        match &tokens[*i] {
            Token::Semicolon => {
                *i += 1;
                assert(before + Seq::empty() =~= before);
                return Ok(children);
            },
            Token::CloseScope => {
                *i += 1;
                if closing {
                    attach(&mut children, ASTNode::leaf(Token::CloseExpr));
                }
                assert(before + Seq::empty() =~= before);
                assert(before + seq![children.deep_view().last()] =~= before.push(
                    children.deep_view().last(),
                ));
                return Ok(children);
            },
            Token::OpenExpr => {
                *i += 1;
                match parse_ast(tokens, i) {
                    Ok(inside) => {
                        attach(&mut children, ASTNode::branch(Token::OpenExpr, inside));
                    },
                    Err(error) => {
                        return Err(error);
                    },
                }
            },
            Token::OpenScope => {
                *i += 1;
                match parse_ast(tokens, i) {
                    Ok(inside) => {
                        attach(&mut children, ASTNode::branch(Token::Res, inside));
                    },
                    Err(error) => {
                        return Err(error);
                    },
                }
            },
            token => {
                attach(&mut children, ASTNode::leaf(token.clone()));
                *i += 1;
            },
        }
        proof {
            let node = children.deep_view().last();
            let rest = clauses(model, *i as nat, closing);
            assert(clauses(model, here, closing) == follow(
                seq![node],
                (*i - here) as nat,
                rest,
            ));
            assert(children.deep_view() =~= before + seq![node]);
            if let Ok(read) = rest {
                assert((before + seq![node]) + read.value =~= before + (seq![node] + read.value));
            }
        }
    }
    assert(children.deep_view() + Seq::empty() =~= children.deep_view());
    Ok(children)
}

/// Parses the `if` statement whose keyword stands at the cursor.
pub fn parse_if(tokens: &[Token], i: &mut usize) -> (parsed: Result<ASTNode, ParseError>)
    requires
        *old(i) < tokens.len(),
    ensures
        match clauses(tokens.deep_view(), *old(i) as nat + 1, true) {
            Ok(parts) => parsed matches Ok(node) && node@ == branch(SpecToken::If, parts.value)
                && *final(i) == *old(i) + 1 + parts.taken,
            Err(fault) => parsed matches Err(error) && error@ == fault && *final(i) == fault.at,
        },
        *final(i) <= tokens.len(),
    decreases tokens.len() - *old(i), 1nat,
{
    match parse_clauses(tokens, i, true) {
        Ok(children) => Ok(ASTNode::branch(Token::If, children)),
        Err(error) => Err(error),
    }
}

/// Parses the `func` statement whose keyword stands at the cursor.
pub fn parse_func(tokens: &[Token], i: &mut usize) -> (parsed: Result<ASTNode, ParseError>)
    requires
        *old(i) < tokens.len(),
    ensures
        match clauses(tokens.deep_view(), *old(i) as nat + 1, false) {
            Ok(parts) => parsed matches Ok(node) && node@ == branch(SpecToken::Func, parts.value)
                && *final(i) == *old(i) + 1 + parts.taken,
            Err(fault) => parsed matches Err(error) && error@ == fault && *final(i) == fault.at,
        },
        *final(i) <= tokens.len(),
    decreases tokens.len() - *old(i), 1nat,
{
    match parse_clauses(tokens, i, false) {
        Ok(children) => Ok(ASTNode::branch(Token::Func, children)),
        Err(error) => Err(error),
    }
}

/// One turn of the dispatch loop, at a token that does not end the block:
/// parses the statement, the group or the plain token at the cursor and
/// appends its nodes to `ast`. Returns the nodes that it appended.
fn parse_item(tokens: &[Token], i: &mut usize, ast: &mut Vec<ASTNode>) -> (outcome: Result<
    Ghost<Seq<SpecNode>>,
    ParseError,
>)
    requires
        *old(i) < tokens.len(),
        !(tokens[*old(i) as int]@ is CloseScope),
        !(tokens[*old(i) as int]@ is CloseExpr),
    ensures
        *final(i) <= tokens.len(),
        match outcome {
            Ok(added) => {
                &&& *old(i) < *final(i)
                &&& final(ast).deep_view() == old(ast).deep_view() + added@
                &&& block(tokens.deep_view(), *old(i) as nat) == follow(
                    added@,
                    (*final(i) - *old(i)) as nat,
                    block(tokens.deep_view(), *final(i) as nat),
                )
            },
            Err(error) => {
                &&& block(tokens.deep_view(), *old(i) as nat) == Err::<Read<Seq<SpecNode>>, Fault>(
                    error@,
                )
                &&& *final(i) == error.position
            },
        },
    decreases tokens.len() - *old(i), 2nat,
{
    let ghost before = ast.deep_view();
    let node = match &tokens[*i] {
        Token::OpenExpr => {
            *i += 1;
            match parse_ast(tokens, i) {
                Ok(inside) => {
                    let group = ASTNode::branch(Token::OpenExpr, inside);
                    let ghost added = seq![group@, leaf(SpecToken::CloseExpr)];
                    attach(ast, group);
                    attach(ast, ASTNode::leaf(Token::CloseExpr));
                    assert(ast.deep_view() =~= before + added);
                    return Ok(Ghost(added));
                },
                Err(error) => {
                    return Err(error);
                },
            }
        },
        Token::Main | Token::For => match parse_main(tokens, i) {
            Ok(node) => node,
            Err(error) => {
                return Err(error);
            },
        },
        Token::Print => parse_print(tokens, i),
        Token::Var => parse_var(tokens, i),
        Token::If => match parse_if(tokens, i) {
            Ok(node) => node,
            Err(error) => {
                return Err(error);
            },
        },
        Token::Func => match parse_func(tokens, i) {
            Ok(node) => node,
            Err(error) => {
                return Err(error);
            },
        },
        token => {
            *i += 1;
            ASTNode::leaf(token.clone())
        },
    };
    let ghost added = seq![node@];
    attach(ast, node);
    assert(ast.deep_view() =~= before + added);
    Ok(Ghost(added))
}

/// Parses a block from the cursor on: the dispatch loop. The cursor is left
/// on the block-close marker that ended the block, behind the
/// close-expression marker that ended it, or at the end of the tokens.
pub fn parse_ast(tokens: &[Token], i: &mut usize) -> (parsed: Result<Vec<ASTNode>, ParseError>)
    ensures
        match block(tokens.deep_view(), *old(i) as nat) {
            Ok(read) => parsed matches Ok(forest) && forest.deep_view() == read.value && *final(i)
                == *old(i) + read.taken,
            Err(fault) => parsed matches Err(error) && error@ == fault && *final(i) == fault.at,
        },
        *old(i) <= tokens.len() ==> *final(i) <= tokens.len(),
    decreases tokens.len() - *old(i), 3nat,
{
    let ghost model = tokens.deep_view();
    let ghost first = *i as nat;
    let mut ast: Vec<ASTNode> = Vec::new();
    assert(follow(ast.deep_view(), 0, block(model, first)) =~= block(model, first));
    while *i < tokens.len()
        invariant
            first <= *i,
            first <= tokens.len() ==> *i <= tokens.len(),
            first == *old(i),
            model == tokens.deep_view(),
            follow(ast.deep_view(), (*i - first) as nat, block(model, *i as nat)) == block(
                model,
                first,
            ),
        decreases tokens.len() - *i,
    {
        let ghost before = ast.deep_view();
        let ghost here = *i as nat;
        match &tokens[*i] {
            Token::CloseScope => {
                assert(before + Seq::empty() =~= before);
                return Ok(ast);
            },
            Token::CloseExpr => {
                *i += 1;
                assert(before + Seq::empty() =~= before);
                return Ok(ast);
            },
            _ => {},
        }
        match parse_item(tokens, i, &mut ast) {
            Ok(added) => {
                proof {
                    if let Ok(read) = block(model, *i as nat) {
                        assert((before + added@) + read.value =~= before + (added@ + read.value));
                    }
                }
            },
            Err(error) => {
                return Err(error);
            },
        }
    }
    assert(ast.deep_view() + Seq::empty() =~= ast.deep_view());
    Ok(ast)
}

/// Parses a whole program.
pub fn create_ast(tokens: Vec<Token>) -> (parsed: Result<Vec<ASTNode>, ParseError>)
    ensures
        match parse(tokens.deep_view()) {
            Ok(forest) => parsed matches Ok(ast) && ast.deep_view() == forest,
            Err(fault) => parsed matches Err(error) && error@ == fault,
        },
{
    let mut i: usize = 0;
    let all = tokens.as_slice();
    assert(all.deep_view() =~= tokens.deep_view());
    parse_ast(all, &mut i)
}

} // verus!
