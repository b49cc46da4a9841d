//! The lexical vocabulary: the executable `Token` and its model `SpecToken`.

use vstd::prelude::*;
use vstd::string::StringExecFns;
use crate::decimal::{decimal, signed_text, unsigned_text};

verus! {

/// One lexical unit. A token is a bare marker, a keyword, or carries a payload.
///
/// The two floating-point literals carry the IEEE 754 bit pattern of their
/// value, so that two tokens are equal exactly when variant and payload are.
#[derive(Debug, PartialEq, Eq)]
pub enum Token {
    /// A quoted string, without its quotes.
    StrLit(String),
    IntLit(i32),
    UIntLit(u32),
    BigIntLit(i64),
    UBigIntLit(u64),
    /// A single-precision literal, as its bit pattern.
    FloatLit(u32),
    /// A double-precision literal, as its bit pattern.
    BigFloatLit(u64),
    /// A word that is no keyword.
    Ref(String),
    Semicolon,
    OpenScope,
    CloseScope,
    OpenExpr,
    CloseExpr,
    Comma,
    Assign,
    Comp,
    Main,
    Print,
    Func,
    Var,
    If,
    /// Tag of the node that holds a statement's body; the lexer never emits it.
    Res,
    And,
    Or,
    For,
}

/// The mathematical model of a [`Token`]: text payloads are sequences of
/// characters.
pub enum SpecToken {
    StrLit(Seq<char>),
    IntLit(i32),
    UIntLit(u32),
    BigIntLit(i64),
    UBigIntLit(u64),
    FloatLit(u32),
    BigFloatLit(u64),
    Ref(Seq<char>),
    Semicolon,
    OpenScope,
    CloseScope,
    OpenExpr,
    CloseExpr,
    Comma,
    Assign,
    Comp,
    Main,
    Print,
    Func,
    Var,
    If,
    Res,
    And,
    Or,
    For,
}

impl View for Token {
    type V = SpecToken;

    open spec fn view(&self) -> SpecToken {
        match self {
            Token::StrLit(s) => SpecToken::StrLit(s@),
            Token::IntLit(n) => SpecToken::IntLit(*n),
            Token::UIntLit(n) => SpecToken::UIntLit(*n),
            Token::BigIntLit(n) => SpecToken::BigIntLit(*n),
            Token::UBigIntLit(n) => SpecToken::UBigIntLit(*n),
            Token::FloatLit(bits) => SpecToken::FloatLit(*bits),
            Token::BigFloatLit(bits) => SpecToken::BigFloatLit(*bits),
            Token::Ref(s) => SpecToken::Ref(s@),
            Token::Semicolon => SpecToken::Semicolon,
            Token::OpenScope => SpecToken::OpenScope,
            Token::CloseScope => SpecToken::CloseScope,
            Token::OpenExpr => SpecToken::OpenExpr,
            Token::CloseExpr => SpecToken::CloseExpr,
            Token::Comma => SpecToken::Comma,
            Token::Assign => SpecToken::Assign,
            Token::Comp => SpecToken::Comp,
            Token::Main => SpecToken::Main,
            Token::Print => SpecToken::Print,
            Token::Func => SpecToken::Func,
            Token::Var => SpecToken::Var,
            Token::If => SpecToken::If,
            Token::Res => SpecToken::Res,
            Token::And => SpecToken::And,
            Token::Or => SpecToken::Or,
            Token::For => SpecToken::For,
        }
    }
}

impl DeepView for Token {
    type V = SpecToken;

    open spec fn deep_view(&self) -> SpecToken {
        self@
    }
}

impl Clone for Token {
    fn clone(&self) -> (copy: Self)
        ensures
            copy == *self,
    {
        match self {
            Token::StrLit(s) => Token::StrLit(s.clone()),
            Token::IntLit(n) => Token::IntLit(*n),
            Token::UIntLit(n) => Token::UIntLit(*n),
            Token::BigIntLit(n) => Token::BigIntLit(*n),
            Token::UBigIntLit(n) => Token::UBigIntLit(*n),
            Token::FloatLit(bits) => Token::FloatLit(*bits),
            Token::BigFloatLit(bits) => Token::BigFloatLit(*bits),
            Token::Ref(s) => Token::Ref(s.clone()),
            Token::Semicolon => Token::Semicolon,
            Token::OpenScope => Token::OpenScope,
            Token::CloseScope => Token::CloseScope,
            Token::OpenExpr => Token::OpenExpr,
            Token::CloseExpr => Token::CloseExpr,
            Token::Comma => Token::Comma,
            Token::Assign => Token::Assign,
            Token::Comp => Token::Comp,
            Token::Main => Token::Main,
            Token::Print => Token::Print,
            Token::Func => Token::Func,
            Token::Var => Token::Var,
            Token::If => Token::If,
            Token::Res => Token::Res,
            Token::And => Token::And,
            Token::Or => Token::Or,
            Token::For => Token::For,
        }
    }
}

/// How a token is written out. A string literal stands between double
/// quotes, as it was read; an integer literal in decimal notation; a reference
/// as its word; a marker or keyword as its fixed text. A floating-point
/// literal has no text here: its token holds the bits of the value, and
/// writing those out as a decimal number is left to the caller.
pub open spec fn token_text(token: SpecToken) -> Option<Seq<char>> {
    match token {
        SpecToken::StrLit(s) => Some(seq!['"'] + s + seq!['"']),
        SpecToken::IntLit(n) => Some(decimal(n as int)),
        SpecToken::UIntLit(n) => Some(decimal(n as int)),
        SpecToken::BigIntLit(n) => Some(decimal(n as int)),
        SpecToken::UBigIntLit(n) => Some(decimal(n as int)),
        SpecToken::FloatLit(_) => None,
        SpecToken::BigFloatLit(_) => None,
        SpecToken::Ref(s) => Some(s),
        SpecToken::Semicolon => Some(";"@),
        SpecToken::OpenScope => Some("{"@),
        SpecToken::CloseScope => Some("}"@),
        SpecToken::OpenExpr => Some("open"@),
        SpecToken::CloseExpr => Some("close"@),
        SpecToken::Comma => Some(","@),
        SpecToken::Assign => Some("="@),
        SpecToken::Comp => Some("=="@),
        SpecToken::Main => Some("main"@),
        SpecToken::Print => Some("print"@),
        SpecToken::Func => Some("func"@),
        SpecToken::Var => Some("var"@),
        SpecToken::If => Some("if"@),
        SpecToken::Res => Some("res"@),
        SpecToken::And => Some("and"@),
        SpecToken::Or => Some("or"@),
        SpecToken::For => Some("for"@),
    }
}

impl Token {
    /// The token written out, or `None` for a floating-point literal.
    pub fn text(&self) -> (text: Option<String>)
        ensures
            text.deep_view() == token_text(self@),
    {
        match self {
            Token::StrLit(s) => {
                let mut quoted = String::new();
                quoted.push('"');
                quoted.append(s.as_str());
                quoted.push('"');
                assert(quoted@ =~= seq!['"'] + s@ + seq!['"']);
                Some(quoted)
            },
            Token::IntLit(n) => Some(signed_text(*n as i64)),
            Token::UIntLit(n) => Some(unsigned_text(*n as u64)),
            Token::BigIntLit(n) => Some(signed_text(*n)),
            Token::UBigIntLit(n) => Some(unsigned_text(*n)),
            Token::FloatLit(_) => None,
            Token::BigFloatLit(_) => None,
            Token::Ref(s) => Some(s.clone()),
            Token::Semicolon => Some(";".to_owned()),
            Token::OpenScope => Some("{".to_owned()),
            Token::CloseScope => Some("}".to_owned()),
            Token::OpenExpr => Some("open".to_owned()),
            Token::CloseExpr => Some("close".to_owned()),
            Token::Comma => Some(",".to_owned()),
            Token::Assign => Some("=".to_owned()),
            Token::Comp => Some("==".to_owned()),
            Token::Main => Some("main".to_owned()),
            Token::Print => Some("print".to_owned()),
            Token::Func => Some("func".to_owned()),
            Token::Var => Some("var".to_owned()),
            Token::If => Some("if".to_owned()),
            Token::Res => Some("res".to_owned()),
            Token::And => Some("and".to_owned()),
            Token::Or => Some("or".to_owned()),
            Token::For => Some("for".to_owned()),
        }
    }
}

} // verus!
