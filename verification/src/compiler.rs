//! The front end as a whole: from a source text to its forest, and what the
//! program around it needs to decide before and after.

use vstd::prelude::*;
use vstd::string::StringExecFns;
use crate::ast::ASTNode;
use crate::grammar::parse;
use crate::lexer::{lex, tokenize};
use crate::parser::{create_ast, ParseError};
use crate::text::to_chars;

verus! {

/// Whether a file path names a source file: the path ends in `.crip`.
pub open spec fn source_path(path: Seq<char>) -> bool {
    path.len() >= 5 && path.subrange(path.len() - 5, path.len() as int) == ".crip"@
}

/// Whether `file_path` names a source file.
pub fn check_extension(file_path: &str) -> (ok: bool)
    ensures
        ok == source_path(file_path@),
{
    let chars = to_chars(file_path);
    if chars.len() < 5 {
        return false;
    }
    let from: usize = chars.len() - 5;
    let ok = chars[from] == '.' && chars[from + 1] == 'c' && chars[from + 2] == 'r' && chars[from
        + 3] == 'i' && chars[from + 4] == 'p';
    proof {
        reveal_strlit(".crip");
        let ending = chars@.subrange(from as int, chars.len() as int);
        if ok {
            assert(ending =~= ".crip"@);
        } else {
            assert(ending[0] == chars[from as int]);
            assert(ending[1] == chars[from + 1]);
            assert(ending[2] == chars[from + 2]);
            assert(ending[3] == chars[from + 3]);
            assert(ending[4] == chars[from + 4]);
        }
    }
    ok
}

/// Lexes and parses a source text.
pub fn compile(contents: &str) -> (parsed: Result<Vec<ASTNode>, ParseError>)
    ensures
        match parse(lex(contents@)) {
            Ok(forest) => parsed matches Ok(ast) && ast.deep_view() == forest,
            Err(fault) => parsed matches Err(error) && error@ == fault,
        },
{
    create_ast(tokenize(contents))
}

/// The line that reports the failure `msg`: the message behind the product's
/// tag.
pub fn error_report(msg: &str) -> (line: String)
    ensures
        line@ == "CRIPPLE CODE: ERROR: "@ + msg@,
{
    let mut line = "CRIPPLE CODE: ERROR: ".to_owned();
    line.append(msg);
    line
}

} // verus!
