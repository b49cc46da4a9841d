//! The lexer: one pass over the characters of a source text, left to right,
//! with no backtracking.
//!
//! The scan is in one of two modes. Outside a quoted string, characters gather
//! in a pending word until a space or a punctuation mark ends it; white space
//! other than the space is skipped and does not end the word. Inside a quoted
//! string every character but the closing quote is part of the string. There
//! is no escape syntax: every double quote switches the mode.
//!
//! The lexer does not classify numbers: a word of digits is a reference like
//! any other word that is no keyword. The numeric tokens of the vocabulary are
//! for a later pass to produce.

use vstd::prelude::*;
use crate::token::{SpecToken, Token};
use crate::text::{same_text, to_chars};

verus! {

/// Whether `c` is white space in the sense of Unicode: one of the characters
/// that it marks `White_Space`.
pub open spec fn white_space(c: char) -> bool {
    let n = c as u32;
    ||| 0x09 <= n <= 0x0D
    ||| n == 0x20
    ||| n == 0x85
    ||| n == 0xA0
    ||| n == 0x1680
    ||| 0x2000 <= n <= 0x200A
    ||| n == 0x2028
    ||| n == 0x2029
    ||| n == 0x202F
    ||| n == 0x205F
    ||| n == 0x3000
}

/// The token that the word `word` stands for: a keyword where the word is
/// exactly one (case matters), else a reference that carries the word as it is.
pub open spec fn classify(word: Seq<char>) -> SpecToken {
    if word == "print"@ {
        SpecToken::Print
    } else if word == "func"@ {
        SpecToken::Func
    } else if word == "main"@ {
        SpecToken::Main
    } else if word == "var"@ {
        SpecToken::Var
    } else if word == "if"@ {
        SpecToken::If
    } else if word == "equals"@ {
        SpecToken::Comp
    } else if word == "and"@ {
        SpecToken::And
    } else if word == "or"@ {
        SpecToken::Or
    } else if word == "for"@ {
        SpecToken::For
    } else {
        SpecToken::Ref(word)
    }
}

/// The marker that the punctuation character `c` stands for, if it is one.
pub open spec fn marker(c: char) -> Option<SpecToken> {
    if c == ';' {
        Some(SpecToken::Semicolon)
    } else if c == '{' {
        Some(SpecToken::OpenScope)
    } else if c == '}' {
        Some(SpecToken::CloseScope)
    } else if c == '(' {
        Some(SpecToken::OpenExpr)
    } else if c == ')' {
        Some(SpecToken::CloseExpr)
    } else if c == ',' {
        Some(SpecToken::Comma)
    } else {
        None
    }
}

/// What ending the pending word emits: nothing for an empty word, else the
/// one token that the word stands for.
pub open spec fn word(pending: Seq<char>) -> Seq<SpecToken> {
    if pending.len() == 0 {
        Seq::empty()
    } else {
        seq![classify(pending)]
    }
}

/// The tokens that the scan emits from position `at` of `src` on, when it
/// arrives there with the word `pending` and, if `quoted`, inside a string.
///
/// Outside a string, in this order of precedence: a double quote opens a
/// string and keeps the pending word, which becomes the start of the string;
/// a space ends the word; a punctuation mark ends the word and emits its
/// marker; `=` emits a comparison together with a second `=` right behind it,
/// else an assignment, and in both cases leaves the pending word as it is;
/// other white space is skipped and leaves the word open; any other character
/// joins the word.
///
/// At the end of the text the pending word is ended, also where a string was
/// left open.
pub open spec fn scan(src: Seq<char>, at: nat, pending: Seq<char>, quoted: bool) -> Seq<SpecToken>
    decreases src.len() - at,
{
    if at >= src.len() {
        word(pending)
    } else {
        let c = src[at as int];
        if quoted {
            if c == '"' {
                seq![SpecToken::StrLit(pending)] + scan(src, at + 1, Seq::empty(), false)
            } else {
                scan(src, at + 1, pending.push(c), true)
            }
        } else if c == '"' {
            scan(src, at + 1, pending, true)
        } else if c == ' ' {
            word(pending) + scan(src, at + 1, Seq::empty(), false)
        } else if marker(c) is Some {
            word(pending).push(marker(c).unwrap()) + scan(src, at + 1, Seq::empty(), false)
        } else if c == '=' {
            if at + 1 < src.len() && src[(at + 1) as int] == '=' {
                seq![SpecToken::Comp] + scan(src, at + 2, pending, false)
            } else {
                seq![SpecToken::Assign] + scan(src, at + 1, pending, false)
            }
        } else if white_space(c) {
            scan(src, at + 1, pending, false)
        } else {
            scan(src, at + 1, pending.push(c), false)
        }
    }
}

/// The tokens of the source text `src`.
pub open spec fn lex(src: Seq<char>) -> Seq<SpecToken> {
    scan(src, 0, Seq::empty(), false)
}

/// Whether `c` is white space in the sense of Unicode.
pub fn is_white_space(c: char) -> (yes: bool)
    ensures
        yes == white_space(c),
{
    let n: u32 = c as u32;
    (0x09 <= n && n <= 0x0D) || n == 0x20 || n == 0x85 || n == 0xA0 || n == 0x1680 || (0x2000 <= n
        && n <= 0x200A) || n == 0x2028 || n == 0x2029 || n == 0x202F || n == 0x205F || n == 0x3000
}

/// The token for one word: a keyword, or a reference that carries the word.
pub fn process_stmt(stmt: &str) -> (token: Token)
    ensures
        token@ == classify(stmt@),
{
    if same_text(stmt, "print") {
        Token::Print
    } else if same_text(stmt, "func") {
        Token::Func
    } else if same_text(stmt, "main") {
        Token::Main
    } else if same_text(stmt, "var") {
        Token::Var
    } else if same_text(stmt, "if") {
        Token::If
    } else if same_text(stmt, "equals") {
        Token::Comp
    } else if same_text(stmt, "and") {
        Token::And
    } else if same_text(stmt, "or") {
        Token::Or
    } else if same_text(stmt, "for") {
        Token::For
    } else {
        Token::Ref(stmt.to_owned())
    }
}

/// The marker for one punctuation character, if it is one.
fn punctuation(c: char) -> (found: Option<Token>)
    ensures
        found.deep_view() == marker(c),
{
    if c == ';' {
        Some(Token::Semicolon)
    } else if c == '{' {
        Some(Token::OpenScope)
    } else if c == '}' {
        Some(Token::CloseScope)
    } else if c == '(' {
        Some(Token::OpenExpr)
    } else if c == ')' {
        Some(Token::CloseExpr)
    } else if c == ',' {
        Some(Token::Comma)
    } else {
        None
    }
}

/// Appends `token` to `tokens`.
fn emit(tokens: &mut Vec<Token>, token: Token)
    ensures
        final(tokens).deep_view() == old(tokens).deep_view().push(token@),
{
    tokens.push(token);
    assert(tokens.deep_view() =~= old(tokens).deep_view().push(token@));
}

/// Ends the pending word: emits its token, unless the word is empty, and
/// leaves the word empty.
fn flush(tokens: &mut Vec<Token>, pending: &mut String)
    ensures
        final(tokens).deep_view() == old(tokens).deep_view() + word(old(pending)@),
        final(pending)@ == Seq::<char>::empty(),
{
    if !pending.as_str().is_empty() {
        let token = process_stmt(pending.as_str());
        emit(tokens, token);
        *pending = String::new();
    }
    assert(tokens.deep_view() =~= old(tokens).deep_view() + word(old(pending)@));
}

/// Splits a source text into its tokens. Every text has tokens: a string left
/// open or a stray `=` is no error here.
pub fn tokenize(file_contents: &str) -> (tokens: Vec<Token>)
    ensures
        tokens.deep_view() == lex(file_contents@),
{
    let chars = to_chars(file_contents);
    let mut tokens: Vec<Token> = Vec::new();
    let mut pending = String::new();
    let mut quoted = false;
    let mut at: usize = 0;
    assert(tokens.deep_view() + lex(chars@) =~= lex(chars@));
    while at < chars.len()
        invariant
            at <= chars.len(),
            chars@ == file_contents@,
            tokens.deep_view() + scan(chars@, at as nat, pending@, quoted) == lex(chars@),
        decreases chars.len() - at,
    {
        let c = chars[at];
        let ghost before = tokens.deep_view();
        let ghost rest = scan(chars@, at as nat, pending@, quoted);
        if quoted {
            if c == '"' {
                emit(&mut tokens, Token::StrLit(pending));
                pending = String::new();
                quoted = false;
            } else {
                pending.push(c);
            }
            at += 1;
        } else if c == '"' {
            quoted = true;
            at += 1;
        } else if c == ' ' {
            flush(&mut tokens, &mut pending);
            at += 1;
        } else if let Some(mark) = punctuation(c) {
            flush(&mut tokens, &mut pending);
            emit(&mut tokens, mark);
            at += 1;
        } else if c == '=' {
            if at + 1 < chars.len() && chars[at + 1] == '=' {
                emit(&mut tokens, Token::Comp);
                at += 2;
            } else {
                emit(&mut tokens, Token::Assign);
                at += 1;
            }
        } else if is_white_space(c) {
            at += 1;
        } else {
            pending.push(c);
            at += 1;
        }
        assert(tokens.deep_view() + scan(chars@, at as nat, pending@, quoted) =~= before + rest);
    }
    flush(&mut tokens, &mut pending);
    tokens
}

} // verus!
