use langparse::common::error::{Error, ErrorKind};
use langparse::common::source::Source;
use langparse::common::span::Span;
use langparse::lexer::token::TokenKind;
use langparse::lexer::Lexer;
use langparse::parser::ast::{CalculateSpan, Expression, Node, Statement};
use langparse::parser::cursor::Cursor;
use langparse::parser::{parse, Parser};

fn source(code: &str) -> Source {
    Source { code: code.to_string(), path: "test.lang".to_string() }
}

fn parser_for(code: &str) -> Parser {
    let src = source(code);
    let cursor = Cursor::new(Lexer::new(src.clone()), src.clone());
    Parser::new(src, cursor)
}

fn expression(code: &str) -> Result<Node, Box<Error>> {
    parser_for(code).parse_expression(0)
}

fn statement(code: &str) -> Result<Node, Box<Error>> {
    parser_for(code).parse_statement()
}

fn shape(node: &Node) -> String {
    match node {
        Node::Integer(x) | Node::Float(x) | Node::Identifier(x) => x.value.clone(),
        Node::Block(b) => {
            let items: Vec<String> = b.value.iter().map(shape).collect();
            format!("{{{}}}", items.join(" "))
        }
        Node::Expression(Expression::Infix { operator, lhs, rhs }) => {
            format!("({:?} {} {})", operator, shape(lhs), shape(rhs))
        }
        Node::Expression(Expression::Prefix { operator, value }) => {
            format!("({:?} {})", operator.value, shape(value))
        }
        Node::Expression(Expression::Call { name, arguments }) => {
            let items: Vec<String> = arguments.value.iter().map(shape).collect();
            format!("{}[{}]", name.value, items.join(" "))
        }
        Node::Statement(Statement::While(w)) => {
            format!("while {} {}", shape(&w.value.test), shape(&w.value.body))
        }
        Node::Statement(Statement::If(i)) => match &i.value.alternative {
            Some(a) => format!(
                "if {} {} else {}",
                shape(&i.value.test),
                shape(&i.value.consequent),
                shape(a)
            ),
            None => format!("if {} {}", shape(&i.value.test), shape(&i.value.consequent)),
        },
        Node::Statement(Statement::Let(l)) => format!(
            "let{} {}:{} = {}",
            if l.value.mutable { " mut" } else { "" },
            l.value.name,
            l.value.value_type.clone().unwrap_or_default(),
            l.value.init.as_ref().map(|n| shape(n)).unwrap_or_default()
        ),
        Node::Statement(Statement::Return(r)) => {
            format!("return {}", r.value.value.as_ref().map(|n| shape(n)).unwrap_or_default())
        }
    }
}

fn unexpected_token(error: &Error) -> (Vec<TokenKind>, TokenKind) {
    match &error.kind {
        ErrorKind::UnexpectedToken { expected, received } => (expected.clone(), *received),
        other => panic!("not an unexpected token: {:?}", other),
    }
}

#[test]
fn multiplication_binds_tighter_than_addition() {
    let node = expression("1 + 2 * 3").expect("an expression");
    assert_eq!(shape(&node), "(Plus 1 (Multiply 2 3))");
    let node = expression("1 * 2 + 3").expect("an expression");
    assert_eq!(shape(&node), "(Plus (Multiply 1 2) 3)");
}

#[test]
fn assignment_is_right_associative() {
    let node = expression("a = b = c").expect("an expression");
    assert_eq!(shape(&node), "(Assignment a (Assignment b c))");
    let node = expression("a = b + 1 = c").expect("an expression");
    assert_eq!(shape(&node), "(Assignment a (Assignment (Plus b 1) c))");
}

#[test]
fn arithmetic_is_left_associative() {
    let node = expression("a - b - c").expect("an expression");
    assert_eq!(shape(&node), "(Minus (Minus a b) c)");
    let node = expression("a / b * c").expect("an expression");
    assert_eq!(shape(&node), "(Multiply (Divide a b) c)");
}

#[test]
fn comparison_and_equality_levels() {
    let node = expression("a < b == c >= d").expect("an expression");
    assert_eq!(shape(&node), "(GreaterThenEqual (LessThen a (Equal b c)) d)");
    let node = expression("x = a + 1 <= b").expect("an expression");
    assert_eq!(shape(&node), "(Assignment x (Plus a (LessThenEqual 1 b)))");
}

#[test]
fn prefix_operators_bind_tightly() {
    let node = expression("-a * +b").expect("an expression");
    assert_eq!(shape(&node), "(Multiply (Minus a) (Plus b))");
    let node = expression("- - 1.5").expect("an expression");
    assert_eq!(shape(&node), "(Minus (Minus 1.5))");
}

#[test]
fn parentheses_group() {
    let node = expression("(1 + 2) * 3").expect("an expression");
    assert_eq!(shape(&node), "(Multiply (Plus 1 2) 3)");
}

#[test]
fn call_with_arguments() {
    let node = expression("f(1, 2)").expect("an expression");
    match &node {
        Node::Expression(Expression::Call { name, arguments }) => {
            assert_eq!(name.value, "f");
            assert_eq!(arguments.value.len(), 2);
            assert_eq!(shape(&arguments.value[0]), "1");
            assert_eq!(shape(&arguments.value[1]), "2");
            assert_eq!(arguments.span, Span::new(1, 7));
        }
        _ => panic!("not a call"),
    }
    assert_eq!(node.calculate_span(), Span::new(0, 7));
}

#[test]
fn call_without_arguments_and_nested_calls() {
    let node = expression("g()").expect("an expression");
    assert_eq!(shape(&node), "g[]");
    let node = expression("f(g(x), -y) + 1").expect("an expression");
    assert_eq!(shape(&node), "(Plus f[g[x] (Minus y)] 1)");
}

#[test]
fn call_target_must_be_a_name() {
    let error = expression("1(2)").expect_err("a failure");
    assert_eq!(unexpected_token(&error), (vec![TokenKind::Identifier], TokenKind::Integer));
    assert_eq!(error.span, Span::new(0, 1));
}

#[test]
fn call_on_a_call_is_rejected() {
    let error = expression("f(1)(2)").expect_err("a failure");
    assert_eq!(unexpected_token(&error), (vec![TokenKind::Identifier], TokenKind::Identifier));
    assert_eq!(error.span, Span::new(0, 1));
    let node = expression("-a(1)").expect("an expression");
    assert_eq!(shape(&node), "(Minus a[1])");
    let node = expression("(g)(x)").expect("an expression");
    assert_eq!(shape(&node), "g[x]");
}

#[test]
fn missing_comma_between_arguments() {
    let error = expression("f(1 2)").expect_err("a failure");
    assert_eq!(unexpected_token(&error), (vec![TokenKind::Comma], TokenKind::Integer));
    assert_eq!(error.span, Span::new(4, 5));
}

#[test]
fn operand_expected() {
    let error = expression("* 2").expect_err("a failure");
    assert_eq!(
        unexpected_token(&error),
        (
            vec![
                TokenKind::Identifier,
                TokenKind::Integer,
                TokenKind::Float,
                TokenKind::LeftParenthesis,
                TokenKind::Plus,
                TokenKind::Minus,
            ],
            TokenKind::Multiply
        )
    );
    assert_eq!(error.span, Span::new(0, 1));
}

#[test]
fn end_of_input_inside_an_expression() {
    let error = expression("1 +").expect_err("a failure");
    assert!(matches!(error.kind, ErrorKind::UnexpectedEndOfInput));
    assert_eq!(error.span, Span::new(0, 3));
}

#[test]
fn expression_spans_cover_their_tokens() {
    let node = expression("a + b * c").expect("an expression");
    assert_eq!(node.calculate_span(), Span::new(0, 9));
    let node = expression("-x").expect("an expression");
    assert_eq!(node.calculate_span(), Span::new(0, 2));
    let node = expression("f(1,2) + x").expect("an expression");
    assert_eq!(node.calculate_span(), Span::new(0, 10));
    match &node {
        Node::Expression(Expression::Infix { lhs, rhs, .. }) => {
            assert_eq!(lhs.calculate_span(), Span::new(0, 6));
            assert_eq!(rhs.calculate_span(), Span::new(9, 10));
        }
        _ => panic!("not an infix expression"),
    }
}

#[test]
fn let_statement_forms() {
    let node = statement("let mut x: int = 5;").expect("a statement");
    assert_eq!(shape(&node), "let mut x:int = 5");
    assert_eq!(node.calculate_span(), Span::new(0, 19));
    let node = statement("let y;").expect("a statement");
    assert_eq!(shape(&node), "let y: = ");
    let error = statement("let = 1;").expect_err("a failure");
    assert_eq!(unexpected_token(&error), (vec![TokenKind::Identifier], TokenKind::Assignment));
}

#[test]
fn return_statement_forms() {
    let node = statement("return;").expect("a statement");
    assert_eq!(shape(&node), "return ");
    assert_eq!(node.calculate_span(), Span::new(0, 7));
    let node = statement("return a + 1;").expect("a statement");
    assert_eq!(shape(&node), "return (Plus a 1)");
    let error = statement("return a").expect_err("a failure");
    assert!(matches!(error.kind, ErrorKind::UnexpectedEndOfInput));
}

#[test]
fn while_and_if_statements() {
    let node = statement("while (a < 10) { a = a + 1; }").expect("a statement");
    assert_eq!(shape(&node), "while (LessThen a 10) {(Assignment a (Plus a 1))}");
    assert_eq!(node.calculate_span(), Span::new(0, 29));
    let node = statement("if (a == 5) print(a); else { }").expect("a statement");
    assert_eq!(shape(&node), "if (Equal a 5) print[a] else {}");
    assert_eq!(node.calculate_span(), Span::new(0, 30));
    let node = statement("if (a) b;").expect("a statement");
    assert_eq!(shape(&node), "if a b");
}

#[test]
fn if_without_else_leaves_the_next_statement() {
    let mut parser = parser_for("{ if (a) b; c; }");
    let node = parser.parse_statement().expect("a block");
    assert_eq!(shape(&node), "{if a b c}");
}

#[test]
fn block_must_be_closed() {
    let error = statement("{ a; ").expect_err("a failure");
    assert!(matches!(error.kind, ErrorKind::UnexpectedEndOfInput));
}

#[test]
fn expression_statement_needs_semicolon() {
    let error = statement("a = 1 }").expect_err("a failure");
    assert_eq!(unexpected_token(&error), (vec![TokenKind::Semicolon], TokenKind::RightCurlyBrace));
}

#[test]
fn function_with_return_type() {
    let program = parse(source("function sum(a: int, b: int) -> int { return a + b; }"))
        .expect("a program");
    assert_eq!(program.path, "test.lang");
    assert_eq!(program.functions.len(), 1);
    let function = &program.functions[0];
    assert_eq!(function.name, "sum");
    assert_eq!(function.arguments.len(), 2);
    assert_eq!(function.arguments[0].name, "a");
    assert_eq!(function.arguments[0].argument_type, "int");
    assert_eq!(function.arguments[1].name, "b");
    assert_eq!(function.arguments[1].argument_type, "int");
    assert_eq!(function.return_type.as_deref(), Some("int"));
    assert_eq!(shape(&function.body), "{return (Plus a b)}");
}

#[test]
fn unclosed_argument_list() {
    let error = parse(source("function f( { }")).expect_err("a failure");
    assert_eq!(unexpected_token(&error), (vec![TokenKind::Identifier], TokenKind::LeftCurlyBrace));
    assert_eq!(error.span, Span::new(12, 13));
}

#[test]
fn program_of_several_functions() {
    let code = "
        function main(args: Arguments) {
            let mut a = 0;
            while(a < 10) {
                if(a == 5) {
                    print(a);
                }
                print(sum(2, 3));
                a = a + 1;
            }
        }
        function sum(a: int, b: int) -> int {
            return a + b;
        }
        function empty() { }
    ";
    let program = parse(source(code)).expect("a program");
    assert_eq!(program.functions.len(), 3);
    assert_eq!(program.functions[0].name, "main");
    assert_eq!(program.functions[0].return_type, None);
    assert_eq!(program.functions[2].arguments.len(), 0);
    assert_eq!(shape(&program.functions[2].body), "{}");
}

#[test]
fn empty_program() {
    let program = parse(source("  \n ")).expect("a program");
    assert!(program.functions.is_empty());
}

#[test]
fn top_level_must_be_functions() {
    let error = parse(source("let x;")).expect_err("a failure");
    assert_eq!(unexpected_token(&error), (vec![TokenKind::Function], TokenKind::Let));
    assert_eq!(error.span, Span::new(0, 3));
}

#[test]
fn lexical_failure_aborts_the_program() {
    let error = parse(source("function f() { let x = 1.2.3; }")).expect_err("a failure");
    assert!(matches!(error.kind, ErrorKind::UnexpectedCharacter));
    assert_eq!(error.span, Span::new(23, 28));
    let error = parse(source("function f() { } #")).expect_err("a failure");
    assert!(matches!(error.kind, ErrorKind::UnexpectedEndOfInput));
    assert_eq!(error.span, Span::new(17, 17));
}

#[test]
fn missing_comma_between_parameters() {
    let error = parse(source("function f(a: int b: int) { }")).expect_err("a failure");
    assert_eq!(unexpected_token(&error), (vec![TokenKind::Comma], TokenKind::Identifier));
}

#[test]
fn token_cursor_operations() {
    let src = source("a , b");
    let mut cursor = Cursor::new(Lexer::new(src.clone()), src);
    assert!(cursor.test(TokenKind::Identifier));
    assert!(!cursor.test(TokenKind::Comma));
    assert_eq!(cursor.optional(TokenKind::Comma).ok(), Some(false));
    assert_eq!(cursor.peek().ok().map(|t| t.kind), Some(TokenKind::Identifier));
    match cursor.lookup(1) {
        Some(Ok(token)) => assert_eq!(token.kind, TokenKind::Comma),
        _ => panic!("no lookahead"),
    }
    assert!(cursor.lookup(3).is_none());
    let first = cursor.next_token().expect("a token");
    assert_eq!(first.chunk.span, Span::new(0, 1));
    assert_eq!(cursor.test_and_next(TokenKind::Comma).ok(), Some(true));
    assert_eq!(cursor.current_span, Some(Span::new(0, 3)));
    cursor.clear();
    assert_eq!(cursor.current_span, Some(Span::new(3, 3)));
    let error = cursor.consume(TokenKind::Semicolon).expect_err("a failure");
    assert_eq!(unexpected_token(&error), (vec![TokenKind::Semicolon], TokenKind::Identifier));
    assert_eq!(error.span, Span::new(4, 5));
    assert_eq!(cursor.current_span, Some(Span::new(3, 3)));
    assert!(cursor.test(TokenKind::Identifier));
    assert_eq!(cursor.consume(TokenKind::Identifier).ok().map(|t| t.chunk.span), Some(Span::new(4, 5)));
    assert_eq!(cursor.current_span, Some(Span::new(3, 5)));
    let error = cursor.next_token().expect_err("end of input");
    assert!(matches!(error.kind, ErrorKind::UnexpectedEndOfInput));
    assert_eq!(error.span, Span::new(3, 5));
}

#[test]
fn lookup_reads_past_a_lexical_failure() {
    let src = source("1..2 x");
    let cursor = Cursor::new(Lexer::new(src.clone()), src);
    match cursor.lookup(0) {
        Some(Err(error)) => {
            assert!(matches!(error.kind, ErrorKind::UnexpectedCharacter));
            assert_eq!(error.span, Span::new(0, 4));
        }
        _ => panic!("no failure"),
    }
    match cursor.lookup(1) {
        Some(Ok(token)) => {
            assert_eq!(token.kind, TokenKind::Identifier);
            assert_eq!(token.chunk.span, Span::new(5, 6));
        }
        _ => panic!("no token"),
    }
    assert!(cursor.lookup(2).is_none());
    assert!(cursor.peek().is_err());
}

#[test]
fn lookup_repeats_a_failure_that_moves_nothing() {
    let src = source("a # b");
    let cursor = Cursor::new(Lexer::new(src.clone()), src);
    assert!(matches!(cursor.lookup(0), Some(Ok(_))));
    for n in [1, 2, 7] {
        match cursor.lookup(n) {
            Some(Err(error)) => {
                assert!(matches!(error.kind, ErrorKind::UnexpectedEndOfInput));
                assert_eq!(error.span, Span::new(2, 2));
            }
            _ => panic!("no failure"),
        }
    }
}

#[test]
fn statement_spans_reach_their_last_token() {
    let node = statement("if (a) b; else c;").expect("a statement");
    assert_eq!(node.calculate_span(), Span::new(0, 17));
    let node = statement("if (a) b;").expect("a statement");
    assert_eq!(node.calculate_span(), Span::new(0, 9));
    let node = statement("while (a) a = a - 1;").expect("a statement");
    assert_eq!(node.calculate_span(), Span::new(0, 20));
}

#[test]
fn binding_power_tables() {
    assert_eq!(Parser::infix_binding_power(TokenKind::Assignment), Some((1, 1)));
    assert_eq!(Parser::infix_binding_power(TokenKind::Minus), Some((2, 3)));
    assert_eq!(Parser::infix_binding_power(TokenKind::Divide), Some((4, 5)));
    assert_eq!(Parser::infix_binding_power(TokenKind::GreaterThen), Some((6, 7)));
    assert_eq!(Parser::infix_binding_power(TokenKind::Equal), Some((8, 9)));
    assert_eq!(Parser::infix_binding_power(TokenKind::Comma), None);
    assert_eq!(Parser::postfix_binding_power(TokenKind::LeftParenthesis), Some((13, ())));
    assert_eq!(Parser::postfix_binding_power(TokenKind::Plus), None);
}
