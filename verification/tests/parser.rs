use kese::frontend::lexer::{tokenize, Token, TokenType};
use kese::frontend::parser::{ASTNode, Module, Node, Parser};
use kese::frontend::plugins::{ParserPlugin, VariableDeclParser};
use kese::global::{ECode, Error, ParseType, Span};

fn parser_of(source: &str) -> Parser {
    let src = source.to_string();
    Parser::new(tokenize(&src), &src, &"test.kl".to_string())
}

fn parse(source: &str) -> (Vec<Node>, Vec<Error>) {
    let (Module(nodes), errors) = parser_of(source).parse_program();
    (nodes, errors)
}

fn parse_ok(source: &str) -> Vec<Node> {
    let (nodes, errors) = parse(source);
    assert_eq!(errors, vec![]);
    nodes
}

fn one(source: &str) -> Node {
    let mut nodes = parse_ok(source);
    assert_eq!(nodes.len(), 1);
    nodes.remove(0)
}

fn span(line: usize, column: usize, start_pos: usize, end_pos: usize) -> Span {
    Span { line, column, start_pos, end_pos }
}

fn lit(value: i64, at: Span) -> Node {
    Node { ast_repr: ASTNode::IntLit(value), span: at }
}

fn ident(name: &str, at: Span) -> Node {
    Node { ast_repr: ASTNode::Identifier(name.to_string()), span: at }
}

fn binop(op: &str, op_at: Span, lhs: Node, rhs: Node) -> Node {
    let at = Span { end_pos: rhs.span.end_pos, ..lhs.span };
    Node {
        ast_repr: ASTNode::BinOp {
            lhs: Box::new(lhs),
            rhs: Box::new(rhs),
            op: (op.to_string(), op_at),
        },
        span: at,
    }
}

/// The operator structure of a node, fully parenthesized.
fn shape(node: &Node) -> String {
    match &node.ast_repr {
        ASTNode::IntLit(i) => i.to_string(),
        ASTNode::FloatLit(s) => s.clone(),
        ASTNode::StringLit(s) => format!("{:?}", s),
        ASTNode::Bool(b) => b.to_string(),
        ASTNode::Identifier(s) => s.clone(),
        ASTNode::BinOp { lhs, rhs, op } => format!("({} {} {})", shape(lhs), op.0, shape(rhs)),
        ASTNode::UnaOp { operand, op } => format!("({}{})", op.0, shape(operand)),
        ASTNode::If { condition, then_body, else_body } => {
            format!("if {} {} else {}", shape(condition), shape(then_body), shape(else_body))
        }
        ASTNode::Declaration { name, .. } => format!("decl {}", name.0),
        ASTNode::DeclarationWithValue { name, value, .. } => {
            format!("decl {} := {}", name.0, shape(value))
        }
        ASTNode::Block(stmts) => {
            format!("{{{}}}", stmts.iter().map(|s| shape(s)).collect::<Vec<_>>().join(" "))
        }
        ASTNode::Statement(inner) => format!("{};", shape(inner)),
        ASTNode::Mutation { name, value } => format!("{} = {}", name.0, shape(value)),
    }
}

fn shapes(source: &str) -> Vec<String> {
    parse_ok(source).iter().map(|n| shape(n)).collect()
}

#[test]
fn simple_arithmetic_is_one_binary_operation() {
    assert_eq!(
        one("42 + 1"),
        binop("+", span(0, 3, 3, 3), lit(42, span(0, 0, 0, 1)), lit(1, span(0, 5, 5, 5)))
    );
}

#[test]
fn multiplication_binds_tighter_than_addition() {
    let node = one("a + b * c");
    match &node.ast_repr {
        ASTNode::BinOp { lhs, rhs, op } => {
            assert_eq!(op.0, "+");
            assert_eq!(**lhs, ident("a", span(0, 0, 0, 0)));
            match &rhs.ast_repr {
                ASTNode::BinOp { lhs, rhs, op } => {
                    assert_eq!(op.0, "*");
                    assert_eq!(**lhs, ident("b", span(0, 4, 4, 4)));
                    assert_eq!(
                        rhs.ast_repr,
                        ASTNode::Declaration {
                            type_: (ParseType::Inferred, None),
                            mutability: false,
                            name: ("c".to_string(), span(0, 8, 8, 8)),
                        }
                    );
                }
                other => panic!("{:?}", other),
            }
        }
        other => panic!("{:?}", other),
    }
    assert_eq!(
        one("1 + 2 * 3"),
        binop(
            "+",
            span(0, 2, 2, 2),
            lit(1, span(0, 0, 0, 0)),
            binop("*", span(0, 6, 6, 6), lit(2, span(0, 4, 4, 4)), lit(3, span(0, 8, 8, 8)))
        )
    );
}

#[test]
fn reprinting_reproduces_the_operator_structure() {
    let cases = [
        ("1 + 2 + 3", "((1 + 2) + 3)"),
        ("1 - 2 - 3", "((1 - 2) - 3)"),
        ("1 + 2 * 3", "(1 + (2 * 3))"),
        ("1 * 2 + 3", "((1 * 2) + 3)"),
        ("1 * 2 / 3", "((1 * 2) / 3)"),
        ("1 == 2 + 3", "(1 == (2 + 3))"),
        ("1 + 2 < 3 * 4", "((1 + 2) < (3 * 4))"),
        ("1 >= 2 <= 3", "((1 >= 2) <= 3)"),
        ("1 * 2 ++ 3", "(1 * (2 ++ 3))"),
        ("1 ++ 2 * 3", "((1 ++ 2) * 3)"),
        ("(1 + 2) * 3", "((1 + 2) * 3)"),
        ("1 * (2 + 3)", "(1 * (2 + 3))"),
        ("-1 + 2", "((-1) + 2)"),
        ("- - 1", "(-(-1))"),
        ("!true", "(!true)"),
        ("a + 1", "(a + 1)"),
        ("1 := 2 + 3", "((1 := 2) + 3)"),
        ("1 + 2 := 3", "(1 + (2 := 3))"),
        ("\"a\" ++ \"b\"", "(\"a\" ++ \"b\")"),
        ("1.5 > 2", "(1.5 > 2)"),
    ];
    for (source, expected) in cases {
        assert_eq!(shapes(source), vec![expected.to_string()], "{}", source);
    }
}

#[test]
fn an_operator_without_binding_power_ends_the_expression() {
    assert_eq!(shapes("1 ! 2"), vec!["1".to_string(), "(!2)".to_string()]);
}

#[test]
fn if_with_both_branches() {
    let node = one("if x { 1 } else { 2 }");
    assert_eq!(shape(&node), "if decl x {1} else {2}");
    assert_eq!(node.span, span(0, 3, 3, 3));
    match node.ast_repr {
        ASTNode::If { then_body, else_body, .. } => {
            assert_eq!(
                *then_body,
                Node {
                    ast_repr: ASTNode::Block(vec![lit(1, span(0, 7, 7, 7))]),
                    span: span(0, 9, 9, 9)
                }
            );
            assert_eq!(
                *else_body,
                Node {
                    ast_repr: ASTNode::Block(vec![lit(2, span(0, 18, 18, 18))]),
                    span: span(0, 20, 20, 20)
                }
            );
        }
        other => panic!("{:?}", other),
    }
}

#[test]
fn if_without_else_has_an_empty_else_block() {
    let node = one("if true { 1 }");
    match node.ast_repr {
        ASTNode::If { else_body, .. } => {
            assert_eq!(
                *else_body,
                Node { ast_repr: ASTNode::Block(vec![]), span: span(0, 12, 12, 12) }
            );
        }
        other => panic!("{:?}", other),
    }
    assert_eq!(shapes("if true 1 2"), vec!["if true 1 else {}".to_string(), "2".to_string()]);
    assert_eq!(shapes("if true 1 else 2;"), vec!["if true 1 else {2;}".to_string()]);
    assert_eq!(
        shapes("if 1 { } else if 2 { 3 }"),
        vec!["if 1 {} else {if 2 {3} else {}}".to_string()]
    );
}

#[test]
fn declaration_with_type_and_value() {
    assert_eq!(
        one("mut x: i32 := 5"),
        Node {
            ast_repr: ASTNode::DeclarationWithValue {
                type_: (ParseType::Determined("i32".to_string()), Some(span(0, 5, 5, 5))),
                mutability: true,
                name: ("x".to_string(), span(0, 4, 4, 4)),
                value: Box::new(lit(5, span(0, 14, 14, 14))),
            },
            span: span(0, 0, 0, 5),
        }
    );
}

#[test]
fn declarations_in_their_other_forms() {
    assert_eq!(
        one("x"),
        Node {
            ast_repr: ASTNode::Declaration {
                type_: (ParseType::Inferred, None),
                mutability: false,
                name: ("x".to_string(), span(0, 0, 0, 0)),
            },
            span: span(0, 0, 0, 0),
        }
    );
    assert_eq!(
        one("mut y : string"),
        Node {
            ast_repr: ASTNode::Declaration {
                type_: (ParseType::Determined("string".to_string()), Some(span(0, 6, 6, 6))),
                mutability: true,
                name: ("y".to_string(), span(0, 4, 4, 4)),
            },
            span: span(0, 0, 0, 6),
        }
    );
    assert_eq!(shapes("x := 1 + 2"), vec!["decl x := (1 + 2)".to_string()]);
    assert_eq!(shapes("let y := x + 1"), vec!["decl let".to_string(), "decl y := (x + 1)".to_string()]);
}

#[test]
fn identifier_then_equals_is_a_mutation() {
    assert_eq!(
        one("x = 7"),
        Node {
            ast_repr: ASTNode::Mutation {
                name: ("x".to_string(), span(0, 0, 0, 0)),
                value: Box::new(lit(7, span(0, 4, 4, 4))),
            },
            span: span(0, 0, 0, 4),
        }
    );
    assert_eq!(shapes("x = y = 1 + 2"), vec!["x = y = (1 + 2)".to_string()]);
}

#[test]
fn a_semicolon_makes_a_statement() {
    assert_eq!(
        one("1;"),
        Node {
            ast_repr: ASTNode::Statement(Box::new(lit(1, span(0, 0, 0, 0)))),
            span: span(0, 0, 0, 1)
        }
    );
    assert_eq!(shapes("1; 2 3;"), vec!["1;".to_string(), "2".to_string(), "3;".to_string()]);
}

#[test]
fn blocks() {
    assert_eq!(shapes("{ 1; 2 }"), vec!["{1; 2}".to_string()]);
    assert_eq!(shapes("{ }"), vec!["{}".to_string()]);
    assert_eq!(shapes("{ { 1 } }"), vec!["{{1}}".to_string()]);
    assert_eq!(shapes("{ 1"), vec!["{1}".to_string()]);
    assert_eq!(one("{ 1 }").span, span(0, 4, 4, 4));
    assert_eq!(one("{").span, span(0, 0, 0, 0));
}

#[test]
fn a_failed_statement_before_a_closing_brace_ends_the_block() {
    assert_eq!(shapes("{ 1 + }"), vec!["{}".to_string()]);
    let (nodes, errors) = parse("{ 1 + ) }");
    assert_eq!(nodes.iter().map(|n| shape(n)).collect::<Vec<_>>(), Vec::<String>::new());
    assert_eq!(
        errors.iter().map(|e| (e.code, e.details.clone())).collect::<Vec<_>>(),
        vec![
            (ECode::UnexpectedToken, "unexpected token `)`".to_string()),
            (ECode::UnexpectedToken, "unexpected token `)`".to_string()),
            (ECode::UnexpectedToken, "unexpected token `}`".to_string()),
        ]
    );
}

fn first_error(source: &str) -> Error {
    let (_, mut errors) = parse(source);
    assert!(!errors.is_empty());
    errors.remove(0)
}

#[test]
fn diagnostics_of_the_parser() {
    let e = first_error(")");
    assert_eq!(
        e,
        Error {
            code: ECode::UnexpectedToken,
            details: "unexpected token `)`".to_string(),
            span: span(0, 0, 0, 0),
            src: ")".to_string(),
            path: "test.kl".to_string(),
            note: None,
            help: None,
        }
    );
    let e = first_error("1 else");
    assert_eq!(e.code, ECode::UnexpectedToken);
    assert_eq!(e.details, "invalid keyword `else`");
    assert_eq!(e.span, span(0, 2, 2, 5));
    assert_eq!(e.help, Some("add a `if` clause before the `else` clause".to_string()));
    let e = first_error("struct");
    assert_eq!(e.details, "invalid keyword `struct`");
    assert_eq!(e.help, None);
    let e = first_error("(1");
    assert_eq!(e.code, ECode::UnexpectedEOF);
    assert_eq!(e.details, "unexpected end of input, expected `)`");
    assert_eq!(e.span, span(0, 1, 1, 1));
    let e = first_error("(1 2");
    assert_eq!(e.code, ECode::ExpectedToken);
    assert_eq!(e.details, "expected `)` found integer `2`");
    assert_eq!(e.span, span(0, 3, 3, 3));
    let e = first_error("1 +");
    assert_eq!(e.code, ECode::UnexpectedEOF);
    assert_eq!(e.details, "unexpected end of input");
    assert_eq!(e.span, span(0, 2, 2, 2));
    let e = first_error("-");
    assert_eq!(e.details, "unexpected end of input, expected expression");
    let e = first_error("if");
    assert_eq!(e.details, "expected expression, unexpected end of input");
    let e = first_error("if 1 2 else");
    assert_eq!(e.details, "expected else body after `else`");
    assert_eq!(e.span, span(0, 7, 7, 10));
}

#[test]
fn the_parser_moves_on_after_a_failure() {
    let (nodes, errors) = parse(") 1 ; 2");
    assert_eq!(nodes.iter().map(|n| shape(n)).collect::<Vec<_>>(), vec!["1;", "2"]);
    assert_eq!(errors.len(), 1);
    let (nodes, errors) = parse("");
    assert!(nodes.is_empty() && errors.is_empty());
    let (nodes, errors) = parse(": : :");
    assert!(nodes.is_empty());
    assert_eq!(errors.len(), 3);
}

#[test]
fn tokens_whose_text_is_no_value_are_unexpected() {
    let at = span(0, 0, 0, 2);
    let src = "abc".to_string();
    let path = "test.kl".to_string();
    for kind in [TokenType::Int, TokenType::Bool] {
        let tokens = vec![Token { token_type: kind, span: at, lexeme: "abc".to_string() }];
        let (Module(nodes), errors) = Parser::new(tokens, &src, &path).parse_program();
        assert!(nodes.is_empty());
        assert_eq!(errors.len(), 1);
        assert_eq!(errors[0].code, ECode::UnexpectedToken);
    }
    let tokens = vec![Token { token_type: TokenType::Float, span: at, lexeme: "abc".to_string() }];
    let (Module(nodes), errors) = Parser::new(tokens, &src, &path).parse_program();
    assert_eq!(nodes, vec![Node { ast_repr: ASTNode::FloatLit("abc".to_string()), span: at }]);
    assert!(errors.is_empty());
}

#[test]
fn public_entry_points_of_the_parser() {
    let mut p = parser_of("1 + 2 * 3 4");
    assert_eq!(p.get(0).map(|t| t.lexeme.clone()), Some("1".to_string()));
    assert_eq!(p.get(5).map(|t| t.lexeme.clone()), Some("4".to_string()));
    assert_eq!(p.get(6), None);
    assert_eq!(p.get(-1), None);
    assert_eq!(shape(&p.parse_expression(25).unwrap()), "1");
    assert_eq!(p.get(-1).map(|t| t.lexeme.clone()), Some("1".to_string()));
    assert_eq!(p.expect(&TokenType::Operator), Ok(()));
    assert_eq!(shape(&p.parse_expression(0).unwrap()), "(2 * 3)");
    assert_eq!(p.eof(), span(0, 10, 10, 10));
    let e = p.expect(&TokenType::Semicolon).unwrap_err();
    assert_eq!(e.details, "expected `;` found integer `4`");
    let e = p.expect_and_take(&TokenType::Semicolon).unwrap_err();
    assert_eq!(e.details, "expected `;`, found integer `4`");
    assert_eq!(p.expect_and_take(&TokenType::Int).map(|t| t.lexeme), Ok("4".to_string()));
    assert_eq!(p.eof(), span(0, 10, 10, 10));
    let e = p.nud().unwrap_err();
    assert_eq!(e.code, ECode::UnexpectedEOF);
    assert_eq!(parser_of("").eof(), span(0, 0, 0, 0));
    assert_eq!(shape(&parser_of("7;").parse_statement().unwrap()), "7;");
}

#[test]
fn the_declaration_plugin() {
    let parser = parser_of("mut x : i32 := 5");
    let mut plugin = VariableDeclParser::new(&parser);
    assert_eq!(
        plugin.try_parse(),
        Ok(Node {
            ast_repr: ASTNode::Declaration {
                type_: (ParseType::Determined("i32".to_string()), Some(span(0, 8, 8, 10))),
                mutability: true,
                name: ("x".to_string(), span(0, 4, 4, 4)),
            },
            span: span(0, 0, 0, 2),
        })
    );
    assert_eq!(plugin.get(0).map(|t| t.token_type), Some(TokenType::ColonEquals));
    assert_eq!(plugin.eof(), span(0, 8, 8, 10));
    assert_eq!(plugin.expect(&TokenType::ColonEquals), Ok(()));
    let e = plugin.expect_and_take(&TokenType::Identifier).unwrap_err();
    assert_eq!(e.details, "expected identifier , found integer `5`");
    assert_eq!(plugin.expect_and_take(&TokenType::Int).map(|t| t.lexeme), Ok("5".to_string()));
    let e = plugin.try_parse().unwrap_err();
    assert_eq!(e.code, ECode::UnexpectedEOF);
    assert_eq!(e.span, span(0, 15, 15, 15));

    let parser = parser_of("y 1");
    let mut plugin = VariableDeclParser::new(&parser);
    assert_eq!(
        plugin.try_parse().map(|n| n.ast_repr),
        Ok(ASTNode::Declaration {
            type_: (ParseType::Inferred, None),
            mutability: false,
            name: ("y".to_string(), span(0, 0, 0, 0)),
        })
    );
    let e = plugin.try_parse().unwrap_err();
    assert_eq!(e.code, ECode::ExpectedToken);
    assert_eq!(VariableDeclParser::new(&parser_of("")).eof(), span(0, 0, 0, 0));
}
