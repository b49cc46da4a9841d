use ccfront::ast::ASTNode;
use ccfront::compiler::{check_extension, compile, error_report};
use ccfront::decimal::{signed_text, unsigned_text};
use ccfront::outline::{indent, outline, Line};
use ccfront::text::{same_text, to_chars};
use ccfront::token::Token;

fn shown(token: Token) -> Option<String> {
    token.text()
}

fn some(text: &str) -> Option<String> {
    Some(text.to_string())
}

#[test]
fn text_of_markers_and_keywords() {
    assert_eq!(shown(Token::Semicolon), some(";"));
    assert_eq!(shown(Token::OpenScope), some("{"));
    assert_eq!(shown(Token::CloseScope), some("}"));
    assert_eq!(shown(Token::OpenExpr), some("open"));
    assert_eq!(shown(Token::CloseExpr), some("close"));
    assert_eq!(shown(Token::Comma), some(","));
    assert_eq!(shown(Token::Assign), some("="));
    assert_eq!(shown(Token::Comp), some("=="));
    assert_eq!(shown(Token::Main), some("main"));
    assert_eq!(shown(Token::Print), some("print"));
    assert_eq!(shown(Token::Func), some("func"));
    assert_eq!(shown(Token::Var), some("var"));
    assert_eq!(shown(Token::If), some("if"));
    assert_eq!(shown(Token::Res), some("res"));
    assert_eq!(shown(Token::And), some("and"));
    assert_eq!(shown(Token::Or), some("or"));
    assert_eq!(shown(Token::For), some("for"));
}

#[test]
fn text_of_payload_tokens() {
    assert_eq!(shown(Token::StrLit("hello, world".to_string())), some("\"hello, world\""));
    assert_eq!(shown(Token::StrLit(String::new())), some("\"\""));
    assert_eq!(shown(Token::Ref("total".to_string())), some("total"));
    assert_eq!(shown(Token::Ref(String::new())), some(""));
    assert_eq!(shown(Token::IntLit(0)), some("0"));
    assert_eq!(shown(Token::IntLit(-17)), some("-17"));
    assert_eq!(shown(Token::IntLit(i32::MIN)), some("-2147483648"));
    assert_eq!(shown(Token::IntLit(i32::MAX)), some("2147483647"));
    assert_eq!(shown(Token::UIntLit(u32::MAX)), some("4294967295"));
    assert_eq!(shown(Token::BigIntLit(i64::MIN)), some("-9223372036854775808"));
    assert_eq!(shown(Token::BigIntLit(i64::MAX)), some("9223372036854775807"));
    assert_eq!(shown(Token::UBigIntLit(u64::MAX)), some("18446744073709551615"));
    assert_eq!(shown(Token::UBigIntLit(1000)), some("1000"));
}

#[test]
fn floating_point_literals_have_no_text() {
    assert_eq!(shown(Token::FloatLit(1.5f32.to_bits())), None);
    assert_eq!(shown(Token::BigFloatLit(1.5f64.to_bits())), None);
}

#[test]
fn tokens_are_equal_by_variant_and_payload() {
    assert_eq!(Token::IntLit(1), Token::IntLit(1));
    assert_ne!(Token::IntLit(1), Token::UIntLit(1));
    assert_ne!(Token::IntLit(1), Token::IntLit(2));
    assert_ne!(Token::Ref("a".to_string()), Token::StrLit("a".to_string()));
    assert_eq!(Token::Ref("a".to_string()), Token::Ref("a".to_string()).clone());
    assert_eq!(Token::FloatLit(7), Token::FloatLit(7).clone());
    assert_ne!(Token::OpenExpr, Token::CloseExpr);
}

#[test]
fn decimal_matches_std() {
    let samples: [u64; 12] =
        [0, 1, 9, 10, 11, 99, 100, 101, 12345, 1 << 32, u64::MAX - 1, u64::MAX];
    for n in samples {
        assert_eq!(unsigned_text(n), n.to_string());
    }
    let signed: [i64; 11] =
        [0, 1, -1, 9, -9, 10, -10, -12345, i64::MAX, i64::MIN, i64::MIN + 1];
    for n in signed {
        assert_eq!(signed_text(n), n.to_string());
    }
}

#[test]
fn characters_of_a_text() {
    assert_eq!(to_chars(""), Vec::<char>::new());
    assert_eq!(to_chars("aß✓"), vec!['a', 'ß', '✓']);
}

#[test]
fn same_text_compares_all_characters() {
    assert!(same_text("", ""));
    assert!(same_text("main", "main"));
    assert!(!same_text("main", "mail"));
    assert!(!same_text("main", "mai"));
    assert!(!same_text("mai", "main"));
    assert!(!same_text("", "x"));
}

#[test]
fn outline_lists_nodes_with_their_depth() {
    let forest = compile("main { if ( a ) { print b ; } } c").unwrap();
    let lines = outline(&forest);
    let expected: Vec<(usize, Token)> = vec![
        (0, Token::Main),
        (1, Token::If),
        (2, Token::OpenExpr),
        (3, Token::Ref("a".to_string())),
        (2, Token::Res),
        (3, Token::Print),
        (4, Token::Ref("b".to_string())),
        (2, Token::CloseExpr),
        (0, Token::Ref("c".to_string())),
    ];
    let expected: Vec<Line> =
        expected.into_iter().map(|(depth, token)| Line { depth, token }).collect();
    assert_eq!(lines, expected);
}

#[test]
fn outline_of_nothing_is_empty() {
    assert_eq!(outline(&[]), Vec::<Line>::new());
    assert_eq!(
        outline(&[ASTNode { token: Token::Main, children: Vec::new() }]),
        vec![Line { depth: 0, token: Token::Main }]
    );
}

#[test]
fn node_constructors() {
    assert_eq!(ASTNode::leaf(Token::If), ASTNode { token: Token::If, children: Vec::new() });
    assert_eq!(
        ASTNode::branch(Token::If, vec![ASTNode::leaf(Token::Comma)]),
        ASTNode { token: Token::If, children: vec![ASTNode::leaf(Token::Comma)] }
    );
}

#[test]
fn source_paths() {
    assert!(check_extension("prog.crip"));
    assert!(check_extension(".crip"));
    assert!(check_extension("dir/prog.crip"));
    assert!(!check_extension("prog"));
    assert!(!check_extension(""));
    assert!(!check_extension("prog.cc"));
    assert!(!check_extension("prog.crip2"));
    assert!(!check_extension("prog.cri"));
    assert!(!check_extension("prog.CRIP"));
    assert!(!check_extension("crip"));
    assert!(!check_extension("prog.crip."));
    assert!(!check_extension("prog.crip "));
    assert!(!check_extension("progcrip"));
    assert!(!check_extension(".cri"));
}

#[test]
fn source_paths_may_hold_other_dots() {
    assert!(check_extension("a.b.crip"));
    assert!(check_extension("./prog.crip"));
    assert!(check_extension("../dir.d/prog.crip"));
    assert!(check_extension("prog.crip.crip"));
    assert!(check_extension("prog..crip"));
    assert!(check_extension("größe.crip"));
}

#[test]
fn error_report_puts_the_tag_in_front() {
    assert_eq!(error_report("No argument / file given!"), "CRIPPLE CODE: ERROR: No argument / file given!");
    assert_eq!(error_report(""), "CRIPPLE CODE: ERROR: ");
}

#[test]
fn indentation_is_two_spaces_a_level() {
    assert_eq!(indent(0), "");
    assert_eq!(indent(1), "  ");
    assert_eq!(indent(3), "      ");
}

#[test]
fn lines_are_indented_by_their_depth() {
    assert_eq!(Line { depth: 0, token: Token::Main }.text(), some("main"));
    assert_eq!(Line { depth: 2, token: Token::StrLit("hi".to_string()) }.text(), some("    \"hi\""));
    assert_eq!(Line { depth: 1, token: Token::IntLit(-5) }.text(), some("  -5"));
    assert_eq!(Line { depth: 1, token: Token::FloatLit(0) }.text(), None);
}

#[test]
fn listing_of_a_program() {
    let forest = compile("main { print \"hi\" ; }").unwrap();
    let listing: Vec<String> = outline(&forest).iter().map(|line| line.text().unwrap()).collect();
    assert_eq!(listing, vec!["main", "  print", "    \"hi\""]);
}
