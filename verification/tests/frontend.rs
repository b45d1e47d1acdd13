use rlox::ast::{Acceptor, BinaryOp, Expr, UnaryOp, Visitor};
use rlox::ast_printer::AstPrinter;
use rlox::lox::Lox;
use rlox::parse_error::{ParseError, Spanned};
use rlox::parser::Parser;
use rlox::scanner::{ScanError, ScanErrorKind, Scanner};
use rlox::token::{keyword, SpannedToken, Token};

fn scan(source: &str) -> (Vec<SpannedToken>, Vec<ScanError>) {
    let mut scanner = Scanner::new(source.to_string());
    let tokens = scanner.scan_tokens();
    let errors = scanner.errors().clone();
    (tokens, errors)
}

fn parse_source(source: &str) -> Result<Expr, Vec<Spanned<ParseError>>> {
    let (tokens, errors) = scan(source);
    assert!(errors.is_empty(), "unexpected scan errors: {:?}", errors);
    let mut parser = Parser::new(tokens);
    parser.parse()
}

fn unparse(expr: &Expr) -> String {
    AstPrinter.unparse(expr)
}

fn num(text: &str) -> Expr {
    Expr::NumberLiteral(text.to_string())
}

// Scanning: tokens, lexemes, lines.

#[test]
fn scans_single_and_double_character_operators() {
    let (tokens, errors) = scan("(){},.-+;*/ ! != = == < <= > >=");
    assert!(errors.is_empty());
    let kinds: Vec<Token> = tokens.iter().map(|t| t.token.clone()).collect();
    assert_eq!(
        kinds,
        vec![
            Token::LeftParen,
            Token::RightParen,
            Token::LeftBrace,
            Token::RightBrace,
            Token::Comma,
            Token::Dot,
            Token::Minus,
            Token::Plus,
            Token::Semicolon,
            Token::Star,
            Token::Slash,
            Token::Bang,
            Token::BangEqual,
            Token::Equal,
            Token::EqualEqual,
            Token::Less,
            Token::LessEqual,
            Token::Greater,
            Token::GreaterEqual,
        ]
    );
}

#[test]
fn bang_at_end_of_input_is_a_bare_bang() {
    let (tokens, errors) = scan("!");
    assert!(errors.is_empty());
    assert_eq!(tokens.len(), 1);
    assert_eq!(tokens[0].token, Token::Bang);
    assert_eq!(tokens[0].lexeme, "!");
}

#[test]
fn bang_before_other_character_does_not_consume_it() {
    let (tokens, errors) = scan("!x");
    assert!(errors.is_empty());
    assert_eq!(tokens.len(), 2);
    assert_eq!(tokens[0].token, Token::Bang);
    assert_eq!(tokens[0].lexeme, "!");
    assert_eq!(tokens[1].token, Token::Identifier("x".to_string()));
}

#[test]
fn scans_keywords_and_identifiers() {
    let (tokens, errors) = scan("var foo = nil");
    assert!(errors.is_empty());
    let kinds: Vec<Token> = tokens.iter().map(|t| t.token.clone()).collect();
    assert_eq!(
        kinds,
        vec![
            Token::Var,
            Token::Identifier("foo".to_string()),
            Token::Equal,
            Token::Nil,
        ]
    );
}

#[test]
fn keyword_table_is_exact() {
    assert_eq!(keyword("and"), Some(Token::And));
    assert_eq!(keyword("class"), Some(Token::Class));
    assert_eq!(keyword("else"), Some(Token::Else));
    assert_eq!(keyword("false"), Some(Token::False));
    assert_eq!(keyword("for"), Some(Token::For));
    assert_eq!(keyword("fun"), Some(Token::Fun));
    assert_eq!(keyword("if"), Some(Token::If));
    assert_eq!(keyword("nil"), Some(Token::Nil));
    assert_eq!(keyword("or"), Some(Token::Or));
    assert_eq!(keyword("print"), Some(Token::Print));
    assert_eq!(keyword("return"), Some(Token::Return));
    assert_eq!(keyword("super"), Some(Token::Super));
    assert_eq!(keyword("this"), Some(Token::This));
    assert_eq!(keyword("true"), Some(Token::True));
    assert_eq!(keyword("var"), Some(Token::Var));
    assert_eq!(keyword("while"), Some(Token::While));
    assert_eq!(keyword("variable"), None);
    assert_eq!(keyword("Var"), None);
    assert_eq!(keyword(""), None);
}

#[test]
fn scans_number_literals_with_lexeme() {
    let (tokens, errors) = scan("12 3.5 7.");
    assert!(errors.is_empty());
    assert_eq!(tokens.len(), 3);
    assert_eq!(tokens[0].token, Token::NumberLiteral("12".to_string()));
    assert_eq!(tokens[0].lexeme, "12");
    assert_eq!(tokens[1].token, Token::NumberLiteral("3.5".to_string()));
    assert_eq!(tokens[2].token, Token::NumberLiteral("7.".to_string()));
}

#[test]
fn number_with_two_decimal_points_is_a_diagnostic() {
    let (tokens, errors) = scan("1.2.3");
    assert!(tokens.is_empty());
    assert_eq!(errors.len(), 1);
    assert_eq!(errors[0].kind, ScanErrorKind::InvalidNumber);
    assert_eq!(errors[0].line, 1);
}

#[test]
fn scans_string_literal_value_and_lexeme() {
    let (tokens, errors) = scan("\"hi there\"");
    assert!(errors.is_empty());
    assert_eq!(tokens.len(), 1);
    assert_eq!(tokens[0].token, Token::StringLiteral("hi there".to_string()));
    assert_eq!(tokens[0].lexeme, "\"hi there\"");
}

#[test]
fn unterminated_string_is_reported_and_scanning_finishes() {
    let (tokens, errors) = scan("\"abc");
    assert_eq!(tokens.len(), 1);
    assert_eq!(tokens[0].token, Token::StringLiteral("abc".to_string()));
    assert_eq!(errors.len(), 1);
    assert_eq!(errors[0].kind, ScanErrorKind::UnterminatedString);
}

#[test]
fn unexpected_character_is_skipped_and_reported() {
    let (tokens, errors) = scan("1 @ 2");
    assert_eq!(tokens.len(), 2);
    assert_eq!(tokens[0].token, Token::NumberLiteral("1".to_string()));
    assert_eq!(tokens[1].token, Token::NumberLiteral("2".to_string()));
    assert_eq!(errors.len(), 1);
    assert_eq!(errors[0].kind, ScanErrorKind::UnexpectedChar('@'));
}

#[test]
fn line_numbers_are_tracked_and_non_decreasing() {
    let (tokens, errors) = scan("1\n2 3\n\n4");
    assert!(errors.is_empty());
    let lines: Vec<usize> = tokens.iter().map(|t| t.line).collect();
    assert_eq!(lines, vec![1, 2, 2, 4]);
}

#[test]
fn comment_runs_to_end_of_line() {
    let (tokens, errors) = scan("1 // rest is ignored ())\n2");
    assert!(errors.is_empty());
    let kinds: Vec<Token> = tokens.iter().map(|t| t.token.clone()).collect();
    assert_eq!(
        kinds,
        vec![
            Token::NumberLiteral("1".to_string()),
            Token::NumberLiteral("2".to_string()),
        ]
    );
    assert_eq!(tokens[1].line, 2);
}

#[test]
fn comment_at_end_of_input_terminates() {
    let (tokens, errors) = scan("// nothing after this");
    assert!(tokens.is_empty());
    assert!(errors.is_empty());
}

// Whitespace- and comment-only sources yield zero real tokens.

#[test]
fn blank_source_yields_no_tokens() {
    for source in ["", " \t\r\n", "// only a comment", "  // a\n\t// b\n", "\n\n\n"] {
        let (tokens, errors) = scan(source);
        assert!(tokens.is_empty(), "tokens from blank source {:?}", source);
        assert!(errors.is_empty());
    }
}

// Concatenating lexemes in order reconstructs the token boundaries.

#[test]
fn lexemes_appear_in_source_in_order() {
    let source = "var answer = (1 + 2.5) * \"s\" // done";
    let (tokens, errors) = scan(source);
    assert!(errors.is_empty());
    let mut from = 0;
    for t in &tokens {
        let at = source[from..]
            .find(&t.lexeme)
            .expect("lexeme not found in order");
        from = from + at + t.lexeme.len();
    }
    let glued: String = tokens.iter().map(|t| t.lexeme.as_str()).collect();
    assert_eq!(glued, "varanswer=(1+2.5)*\"s\"");
}

// Parsing: precedence, associativity, grouping, diagnostics.

#[test]
fn multiplication_binds_tighter_than_addition() {
    let expr = parse_source("1 + 2 * 3").expect("parse failed");
    assert_eq!(unparse(&expr), "(+ 1 (* 2 3))");
}

#[test]
fn same_precedence_operators_are_left_associative() {
    let expr = parse_source("1 - 2 - 3").expect("parse failed");
    let expected = Expr::Binary(
        Box::new(Expr::Binary(
            Box::new(num("1")),
            BinaryOp::Subtract,
            Box::new(num("2")),
        )),
        BinaryOp::Subtract,
        Box::new(num("3")),
    );
    assert_eq!(expr, expected);
    assert_eq!(unparse(&expr), "(- (- 1 2) 3)");
}

#[test]
fn grouping_changes_the_tree_shape() {
    let grouped = parse_source("(1 + 2) * 3").expect("parse failed");
    let plain = parse_source("1 + 2 * 3").expect("parse failed");
    assert_ne!(grouped, plain);
    assert_eq!(unparse(&grouped), "(* (group (+ 1 2)) 3)");
}

#[test]
fn comparison_and_equality_levels_nest() {
    let expr = parse_source("1 + 2 < 3 == true").expect("parse failed");
    assert_eq!(unparse(&expr), "(== (< (+ 1 2) 3) true)");
}

#[test]
fn unary_operators_nest_and_bind_tightest() {
    let expr = parse_source("-1 * !!true").expect("parse failed");
    assert_eq!(unparse(&expr), "(* (- 1) (! (! true)))");
}

#[test]
fn literals_parse_to_their_nodes() {
    assert_eq!(
        parse_source("\"hi\"").expect("parse failed"),
        Expr::StringLiteral("hi".to_string())
    );
    assert_eq!(
        parse_source("true").expect("parse failed"),
        Expr::BooleanLiteral(true)
    );
    assert_eq!(
        parse_source("false").expect("parse failed"),
        Expr::BooleanLiteral(false)
    );
    assert_eq!(parse_source("nil").expect("parse failed"), Expr::NilLiteral);
}

#[test]
fn missing_closing_parenthesis_is_a_diagnostic() {
    let errs = parse_source("(1 + 2").expect_err("parse should fail");
    assert_eq!(errs.len(), 1);
    assert_eq!(
        errs[0].item,
        ParseError::UnexpectedEOF(Some(Token::RightParen))
    );
    assert_eq!(errs[0].line, 1);
}

#[test]
fn wrong_token_in_place_of_closing_parenthesis_is_a_diagnostic() {
    let errs = parse_source("(1 2").expect_err("parse should fail");
    assert_eq!(errs.len(), 1);
    assert_eq!(
        errs[0].item,
        ParseError::ExpectedToken(
            Token::RightParen,
            Some(Token::NumberLiteral("2".to_string()))
        )
    );
}

#[test]
fn operator_without_left_operand_is_invalid_expression_start() {
    let errs = parse_source("+ 1").expect_err("parse should fail");
    assert_eq!(errs.len(), 1);
    assert_eq!(errs[0].item, ParseError::InvalidExpressionStart(Token::Plus));
    assert_eq!(errs[0].line, 1);
}

#[test]
fn empty_input_is_unexpected_end_of_input() {
    let errs = parse_source("").expect_err("parse should fail");
    assert_eq!(errs.len(), 1);
    assert_eq!(errs[0].item, ParseError::UnexpectedEOF(None));
}

#[test]
fn diagnostics_carry_the_line_of_the_offender() {
    let errs = parse_source("\n\n+ 1").expect_err("parse should fail");
    assert_eq!(errs[0].item, ParseError::InvalidExpressionStart(Token::Plus));
    assert_eq!(errs[0].line, 3);
}

#[test]
fn diagnostic_messages_name_the_tokens() {
    assert_eq!(
        ParseError::UnexpectedEOF(Some(Token::RightParen)).message(),
        "unexpected EOF while searching for RightParen"
    );
    assert_eq!(
        ParseError::UnexpectedEOF(None).message(),
        "unexpected EOF"
    );
    assert_eq!(
        ParseError::InvalidExpressionStart(Token::Plus).message(),
        "token Plus cannot start an expression"
    );
    assert_eq!(
        ParseError::ExpectedToken(
            Token::RightParen,
            Some(Token::Identifier("x".to_string()))
        )
        .message(),
        "expected RightParen, got Identifier(\"x\")"
    );
    assert_eq!(
        ParseError::ExpectedOneOf(vec![Token::Plus, Token::Minus], Some(Token::Star)).message(),
        "expected one of Plus, Minus, got Star"
    );
    assert_eq!(
        ParseError::ExpectedOneOf(vec![], None).message(),
        "expected one of , got none"
    );
}

#[test]
fn synchronize_discards_through_semicolon() {
    let (tokens, _) = scan("1 + ; 2");
    let mut parser = Parser::new(tokens);
    parser.synchronize();
    assert_eq!(parser.pos, 3);
}

#[test]
fn synchronize_stops_before_statement_keyword() {
    let (tokens, _) = scan("1 + 2 var x");
    let mut parser = Parser::new(tokens);
    parser.synchronize();
    assert_eq!(parser.pos, 3);
    assert_eq!(tokens_kind(&parser), Token::Var);
}

fn tokens_kind(parser: &Parser) -> Token {
    parser.tokens[parser.pos].token.clone()
}

#[test]
fn synchronize_runs_to_end_of_input_without_boundary() {
    let (tokens, _) = scan("1 + 2");
    let n = tokens.len();
    let mut parser = Parser::new(tokens);
    parser.synchronize();
    assert_eq!(parser.pos, n);
}

// The printer and the visitor protocol.

#[test]
fn printer_renders_every_variant() {
    assert_eq!(unparse(&Expr::Identifier("x".to_string())), "x");
    assert_eq!(unparse(&Expr::StringLiteral("s".to_string())), "\"s\"");
    assert_eq!(unparse(&num("4.5")), "4.5");
    assert_eq!(unparse(&Expr::BooleanLiteral(true)), "true");
    assert_eq!(unparse(&Expr::BooleanLiteral(false)), "false");
    assert_eq!(unparse(&Expr::NilLiteral), "nil");
    assert_eq!(
        unparse(&Expr::Unary(UnaryOp::Not, Box::new(Expr::BooleanLiteral(false)))),
        "(! false)"
    );
    assert_eq!(
        unparse(&Expr::Unary(UnaryOp::Negation, Box::new(num("1")))),
        "(- 1)"
    );
    assert_eq!(
        unparse(&Expr::Grouping(Box::new(Expr::NilLiteral))),
        "(group nil)"
    );
}

#[test]
fn printer_renders_every_binary_operator_distinctly() {
    let cases = [
        (BinaryOp::Equal, "=="),
        (BinaryOp::NotEqual, "!="),
        (BinaryOp::Less, "<"),
        (BinaryOp::LessEqual, "<="),
        (BinaryOp::Greater, ">"),
        (BinaryOp::GreaterEqual, ">="),
        (BinaryOp::Add, "+"),
        (BinaryOp::Subtract, "-"),
        (BinaryOp::Multiply, "*"),
        (BinaryOp::Divide, "/"),
    ];
    for (op, glyph) in cases {
        let expr = Expr::Binary(Box::new(num("1")), op, Box::new(num("2")));
        assert_eq!(unparse(&expr), format!("({} 1 2)", glyph));
    }
}

#[test]
fn printer_is_deterministic_on_equal_trees() {
    let a = parse_source("1 + 2 * 3").expect("parse failed");
    let b = parse_source("1 + 2 * 3").expect("parse failed");
    assert_eq!(a, b);
    assert_eq!(unparse(&a), unparse(&b));
    assert_eq!(unparse(&a), unparse(&a));
}

#[test]
fn accept_dispatches_to_the_printer_like_unparse() {
    let expr = parse_source("-(1 + 2) * 3").expect("parse failed");
    let mut printer = AstPrinter;
    assert_eq!(expr.accept(&mut printer), unparse(&expr));
}

struct NodeCounter {
    nodes: usize,
}

impl Visitor<usize> for NodeCounter {
    fn visit_identifier(&mut self, _id: &String) -> usize {
        1
    }
    fn visit_string(&mut self, _s: &String) -> usize {
        1
    }
    fn visit_number(&mut self, _n: &String) -> usize {
        1
    }
    fn visit_boolean(&mut self, _b: &bool) -> usize {
        1
    }
    fn visit_nil(&mut self) -> usize {
        1
    }
    fn visit_unary(&mut self, _op: &UnaryOp, expr: &Expr) -> usize {
        1 + expr.accept(self)
    }
    fn visit_binary(&mut self, left: &Expr, _op: &BinaryOp, right: &Expr) -> usize {
        1 + left.accept(self) + right.accept(self)
    }
    fn visit_grouping(&mut self, expr: &Expr) -> usize {
        1 + expr.accept(self)
    }
}

#[test]
fn new_consumers_implement_the_visitor_without_touching_the_tree() {
    let expr = parse_source("-(1 + 2) * 3").expect("parse failed");
    let mut counter = NodeCounter { nodes: 0 };
    // unary, grouping, binary(+), two numbers inside, binary(*), number
    assert_eq!(expr.accept(&mut counter), 7);
    assert_eq!(counter.nodes, 0);
}

// The round trip from source through scanner, parser and printer.

#[test]
fn scan_parse_unparse_round_trip() {
    let cases = [
        ("1 + 2 * 3", "(+ 1 (* 2 3))"),
        ("1 * 2 + 3", "(+ (* 1 2) 3)"),
        ("1 - 2 - 3", "(- (- 1 2) 3)"),
        ("8 / 4 / 2", "(/ (/ 8 4) 2)"),
        ("(1 + 2) * 3", "(* (group (+ 1 2)) 3)"),
        ("-1 + 2", "(+ (- 1) 2)"),
        ("!true == false", "(== (! true) false)"),
        ("1 < 2 == 3 >= 4", "(== (< 1 2) (>= 3 4))"),
        ("\"a\" + \"b\"", "(+ \"a\" \"b\")"),
        ("nil", "nil"),
    ];
    for (source, expected) in cases {
        let expr = parse_source(source).expect("parse failed");
        assert_eq!(unparse(&expr), expected, "source: {}", source);
    }
}

#[test]
fn lox_run_state_starts_clean_and_records_errors() {
    let mut lox = Lox::new();
    assert!(!lox.had_error);
    lox.error();
    assert!(lox.had_error);
}
