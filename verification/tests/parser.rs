use ccfront::ast::ASTNode;
use ccfront::compiler::compile;
use ccfront::lexer::tokenize;
use ccfront::parser::{
    create_ast, parse_ast, parse_func, parse_if, parse_main, parse_print, parse_var, ParseError,
};
use ccfront::token::Token;

fn word(text: &str) -> Token {
    Token::Ref(text.to_string())
}

fn leaf(token: Token) -> ASTNode {
    ASTNode { token, children: Vec::new() }
}

fn node(token: Token, children: Vec<ASTNode>) -> ASTNode {
    ASTNode { token, children }
}

#[test]
fn no_tokens_no_forest() {
    assert_eq!(create_ast(Vec::new()), Ok(Vec::new()));
}

#[test]
fn main_block_with_print() {
    let forest = create_ast(tokenize("main { print \"hi\" ; }")).unwrap();
    assert_eq!(
        forest,
        vec![node(
            Token::Main,
            vec![node(Token::Print, vec![leaf(Token::StrLit("hi".to_string()))])]
        )]
    );
}

#[test]
fn main_without_block_is_fatal() {
    assert_eq!(
        create_ast(tokenize("main print \"hi\" ;")),
        Err(ParseError { position: 1 })
    );
    assert_eq!(compile("main print \"hi\" ;"), Err(ParseError { position: 1 }));
}

#[test]
fn main_at_end_of_input_is_fatal() {
    assert_eq!(create_ast(vec![Token::Main]), Err(ParseError { position: 1 }));
    assert_eq!(create_ast(vec![word("x"), Token::Main]), Err(ParseError { position: 2 }));
}

#[test]
fn fault_inside_nested_statements_ends_the_parse() {
    assert_eq!(
        compile("if ( a ) { main x } print y ;"),
        Err(ParseError { position: 6 })
    );
    assert_eq!(compile("( ( main ) )"), Err(ParseError { position: 3 }));
    assert_eq!(compile("main { for ; }"), Err(ParseError { position: 3 }));
}

#[test]
fn nested_if() {
    let forest = compile("if ( a equals b ) { print \"yes\" ; }").unwrap();
    assert_eq!(
        forest,
        vec![node(
            Token::If,
            vec![
                node(Token::OpenExpr, vec![leaf(word("a")), leaf(Token::Comp), leaf(word("b"))]),
                node(
                    Token::Res,
                    vec![node(Token::Print, vec![leaf(Token::StrLit("yes".to_string()))])]
                ),
                leaf(Token::CloseExpr),
            ]
        )]
    );
}

#[test]
fn for_is_parsed_as_a_main_block() {
    assert_eq!(
        compile("for { x }").unwrap(),
        vec![node(Token::Main, vec![leaf(word("x"))])]
    );
    assert_eq!(compile("for x"), Err(ParseError { position: 1 }));
}

#[test]
fn main_block_without_close_runs_to_the_end() {
    assert_eq!(
        compile("main { x y").unwrap(),
        vec![node(Token::Main, vec![leaf(word("x")), leaf(word("y"))])]
    );
    assert_eq!(compile("main {").unwrap(), vec![leaf_main()]);
}

fn leaf_main() -> ASTNode {
    leaf(Token::Main)
}

#[test]
fn several_statements_at_top_level() {
    assert_eq!(
        compile("var x = 1 ; main { } print x ;").unwrap(),
        vec![
            node(Token::Var, vec![leaf(word("x")), leaf(Token::Assign), leaf(word("1"))]),
            leaf(Token::Main),
            node(Token::Print, vec![leaf(word("x"))]),
        ]
    );
}

#[test]
fn flat_statement_without_semicolon_runs_to_the_end() {
    assert_eq!(
        compile("var x = 1").unwrap(),
        vec![node(Token::Var, vec![leaf(word("x")), leaf(Token::Assign), leaf(word("1"))])]
    );
    assert_eq!(compile("print").unwrap(), vec![leaf(Token::Print)]);
    assert_eq!(compile("print ;").unwrap(), vec![leaf(Token::Print)]);
}

#[test]
fn flat_statement_does_not_recurse() {
    assert_eq!(
        compile("print ( a { if } ) main ; b").unwrap(),
        vec![
            node(
                Token::Print,
                vec![
                    leaf(Token::OpenExpr),
                    leaf(word("a")),
                    leaf(Token::OpenScope),
                    leaf(Token::If),
                    leaf(Token::CloseScope),
                    leaf(Token::CloseExpr),
                    leaf(Token::Main),
                ]
            ),
            leaf(word("b")),
        ]
    );
}

#[test]
fn group_at_block_level_is_followed_by_a_sentinel() {
    assert_eq!(
        compile("( a b ) c").unwrap(),
        vec![
            node(Token::OpenExpr, vec![leaf(word("a")), leaf(word("b"))]),
            leaf(Token::CloseExpr),
            leaf(word("c")),
        ]
    );
    assert_eq!(
        compile("( a").unwrap(),
        vec![node(Token::OpenExpr, vec![leaf(word("a"))]), leaf(Token::CloseExpr)]
    );
    assert_eq!(
        compile("( ( ) )").unwrap(),
        vec![
            node(Token::OpenExpr, vec![leaf(Token::OpenExpr), leaf(Token::CloseExpr)]),
            leaf(Token::CloseExpr),
        ]
    );
}

#[test]
fn unopened_close_markers_end_the_parse() {
    assert_eq!(compile("a ) b").unwrap(), vec![leaf(word("a"))]);
    assert_eq!(compile("a } b").unwrap(), vec![leaf(word("a"))]);
    assert_eq!(compile("} main").unwrap(), Vec::new());
    assert_eq!(compile(") main").unwrap(), Vec::new());
}

#[test]
fn if_ended_by_a_semicolon_has_no_sentinel() {
    assert_eq!(
        compile("if a ; b").unwrap(),
        vec![node(Token::If, vec![leaf(word("a"))]), leaf(word("b"))]
    );
    assert_eq!(compile("if").unwrap(), vec![leaf(Token::If)]);
}

#[test]
fn if_without_condition() {
    assert_eq!(
        compile("if { x }").unwrap(),
        vec![node(
            Token::If,
            vec![node(Token::Res, vec![leaf(word("x"))]), leaf(Token::CloseExpr)]
        )]
    );
}

#[test]
fn func_has_no_sentinel() {
    assert_eq!(
        compile("func f ( a , b ) { print a ; } c").unwrap(),
        vec![
            node(
                Token::Func,
                vec![
                    leaf(word("f")),
                    node(Token::OpenExpr, vec![leaf(word("a")), leaf(Token::Comma), leaf(word("b"))]),
                    node(Token::Res, vec![node(Token::Print, vec![leaf(word("a"))])]),
                ]
            ),
            leaf(word("c")),
        ]
    );
    assert_eq!(
        compile("func f ; g").unwrap(),
        vec![node(Token::Func, vec![leaf(word("f"))]), leaf(word("g"))]
    );
}

#[test]
fn keywords_inside_if_clauses_are_leaves() {
    assert_eq!(
        compile("if print main ;").unwrap(),
        vec![node(Token::If, vec![leaf(Token::Print), leaf(Token::Main)])]
    );
}

#[test]
fn plain_tokens_become_leaves() {
    let tokens = vec![
        word("x"),
        Token::StrLit("s".to_string()),
        Token::IntLit(-3),
        Token::UIntLit(3),
        Token::BigIntLit(i64::MIN),
        Token::UBigIntLit(u64::MAX),
        Token::FloatLit(0x3fc0_0000),
        Token::BigFloatLit(0x3ff8_0000_0000_0000),
        Token::Semicolon,
        Token::OpenScope,
        Token::Comma,
        Token::Assign,
        Token::Comp,
        Token::Res,
        Token::And,
        Token::Or,
    ];
    let expected: Vec<ASTNode> = tokens.iter().map(|t| leaf(t.clone())).collect();
    assert_eq!(create_ast(tokens), Ok(expected));
}

#[test]
fn parsing_twice_gives_the_same_forest() {
    let text = "func f ( a ) { if ( a equals b ) { print \"yes\" ; } } main { f ( 1 ) }";
    assert_eq!(compile(text), compile(text));
    assert_eq!(compile("x main"), compile("x main"));
}

#[test]
fn print_leaves_the_cursor_behind_its_semicolon() {
    let tokens = tokenize("a print x y ; z");
    let mut i = 1;
    let stmt = parse_print(&tokens, &mut i);
    assert_eq!(stmt, node(Token::Print, vec![leaf(word("x")), leaf(word("y"))]));
    assert_eq!(i, 5);
    let mut i = 0;
    let stmt = parse_print(&tokens, &mut i);
    assert_eq!(stmt.token, Token::Print);
    assert_eq!(stmt.children.len(), 3);
    assert_eq!(i, 5);
}

#[test]
fn var_leaves_the_cursor_at_the_end_without_semicolon() {
    let tokens = tokenize("var x = 1");
    let mut i = 0;
    let stmt = parse_var(&tokens, &mut i);
    assert_eq!(stmt.token, Token::Var);
    assert_eq!(stmt.children.len(), 3);
    assert_eq!(i, 4);
}

#[test]
fn main_takes_its_closing_marker() {
    let tokens = tokenize("main { a } b");
    let mut i = 0;
    assert_eq!(parse_main(&tokens, &mut i), Ok(node(Token::Main, vec![leaf(word("a"))])));
    assert_eq!(i, 4);
}

#[test]
fn main_fault_leaves_the_cursor_at_the_fault() {
    let tokens = tokenize("x main y");
    let mut i = 1;
    assert_eq!(parse_main(&tokens, &mut i), Err(ParseError { position: 2 }));
    assert_eq!(i, 2);
}

#[test]
fn if_takes_the_closing_marker_of_its_body() {
    let tokens = tokenize("if ( a ) { b } c");
    let mut i = 0;
    let stmt = parse_if(&tokens, &mut i).unwrap();
    assert_eq!(stmt.children.len(), 3);
    assert_eq!(i, 7);
}

#[test]
fn func_takes_the_closing_marker_of_its_body() {
    let tokens = tokenize("func f { b } c");
    let mut i = 0;
    let stmt = parse_func(&tokens, &mut i).unwrap();
    assert_eq!(stmt, node(Token::Func, vec![leaf(word("f")), node(Token::Res, vec![leaf(word("b"))])]));
    assert_eq!(i, 5);
}

#[test]
fn block_stops_on_a_block_close_and_behind_an_expression_close() {
    let tokens = tokenize("a } b ) c");
    let mut i = 0;
    assert_eq!(parse_ast(&tokens, &mut i), Ok(vec![leaf(word("a"))]));
    assert_eq!(i, 1);
    let mut i = 2;
    assert_eq!(parse_ast(&tokens, &mut i), Ok(vec![leaf(word("b"))]));
    assert_eq!(i, 4);
    let mut i = 4;
    assert_eq!(parse_ast(&tokens, &mut i), Ok(vec![leaf(word("c"))]));
    assert_eq!(i, 5);
    let mut i = 9;
    assert_eq!(parse_ast(&tokens, &mut i), Ok(Vec::new()));
    assert_eq!(i, 9);
}

#[test]
fn error_message() {
    assert_eq!(ParseError { position: 1 }.message(), "Expected open scope after Main");
}
