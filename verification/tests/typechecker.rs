use kese::frontend::lexer::tokenize;
use kese::frontend::parser::{ASTNode, Module, Node, Parser};
use kese::frontend::typechecker::TypeChecker;
use kese::frontend::typeregistry::TypeRegistry;
use kese::global::{ECode, Error, ParseType, Span, Symbol, Type};

const PATH: &str = "test.kl";

fn parse(source: &str) -> Module {
    let src = source.to_string();
    let (module, errors) = Parser::new(tokenize(&src), &src, &PATH.to_string()).parse_program();
    assert_eq!(errors, vec![]);
    module
}

fn check(source: &str) -> Vec<Error> {
    TypeChecker::new(parse(source), source.to_string(), PATH.to_string()).check()
}

fn codes(source: &str) -> Vec<(ECode, String)> {
    check(source).into_iter().map(|e| (e.code, e.details)).collect()
}

fn checker() -> TypeChecker {
    TypeChecker::new(Module(vec![]), String::new(), PATH.to_string())
}

/// The types of a program's top-level nodes.
fn types(source: &str) -> Vec<Result<Type, ECode>> {
    let mut c = checker();
    parse(source).0.into_iter().map(|n| c.check_node(n).map_err(|e| e.code)).collect()
}

fn at(n: usize) -> Span {
    Span { line: 0, column: n, start_pos: n, end_pos: n }
}

fn node(ast_repr: ASTNode) -> Node {
    Node { ast_repr, span: at(0) }
}

fn ident(name: &str) -> Node {
    node(ASTNode::Identifier(name.to_string()))
}

fn lit(n: i64) -> Node {
    node(ASTNode::IntLit(n))
}

fn declare(name: &str, ty: &str, mutability: bool) -> Node {
    node(ASTNode::Declaration {
        type_: (ParseType::Determined(ty.to_string()), Some(at(9))),
        mutability,
        name: (name.to_string(), at(5)),
    })
}

fn binop(op: &str, lhs: Node, rhs: Node) -> Node {
    node(ASTNode::BinOp { lhs: Box::new(lhs), rhs: Box::new(rhs), op: (op.to_string(), at(3)) })
}

fn unaop(op: &str, operand: Node) -> Node {
    node(ASTNode::UnaOp { operand: Box::new(operand), op: (op.to_string(), at(3)) })
}

#[test]
fn simple_arithmetic_is_an_i32() {
    assert_eq!(types("42 + 1"), vec![Ok(Type::Int32)]);
    assert_eq!(check("42 + 1"), vec![]);
}

#[test]
fn literals() {
    assert_eq!(
        types("1 2.5 \"s\" true"),
        vec![Ok(Type::Int32), Ok(Type::Float64), Ok(Type::String), Ok(Type::Boolean)]
    );
}

#[test]
fn undeclared_identifier_without_a_close_name() {
    let errors = check("let y := x + 1");
    assert_eq!(errors.len(), 1);
    assert_eq!(errors[0].code, ECode::UndefinedIdentifier);
    assert_eq!(errors[0].details, "cannot find `x` in scope");
    assert_eq!(errors[0].help, None);
    assert_eq!(errors[0].span, at(9));
    assert_eq!(errors[0].src, "let y := x + 1");
    assert_eq!(errors[0].path, PATH);
}

#[test]
fn misspelled_identifier_gets_a_suggestion() {
    let errors = check("mut value: i32 := 3; valu = 4");
    assert_eq!(errors.len(), 1);
    assert_eq!(errors[0].code, ECode::UndefinedIdentifier);
    assert_eq!(errors[0].details, "cannot find `valu` in scope");
    assert_eq!(errors[0].help, Some("did you mean: `value`?".to_string()));

    let mut c = checker();
    assert_eq!(c.check_node(declare("value", "i32", true)), Ok(Type::Unit));
    let e = c.check_node(binop(":=", ident("valu"), lit(4))).unwrap_err();
    assert_eq!(e.code, ECode::UndefinedIdentifier);
    assert_eq!(e.help, Some("did you mean: `value`?".to_string()));
}

#[test]
fn the_best_scoring_name_is_suggested() {
    let mut c = checker();
    for name in ["zzz", "valve", "value1", "val"] {
        assert_eq!(c.check_node(declare(name, "i32", false)), Ok(Type::Unit));
    }
    for (name, scored) in [("zzz", 0.0), ("valve", 0.0), ("value1", 0.0), ("val", 0.0)] {
        let score = strsim::jaro_winkler("value", name);
        assert!(score >= scored);
    }
    let best = ["zzz", "valve", "value1", "val"]
        .iter()
        .map(|n| (strsim::jaro_winkler("value", n), *n))
        .fold((0.0, ""), |best, next| if next.0 > best.0 { next } else { best });
    assert_eq!(best.1, "value1");
    let e = c.find_identifier(&"value".to_string(), at(0)).unwrap_err();
    assert_eq!(e.help, Some("did you mean: `value1`?".to_string()));
    let e = c.find_identifier(&"q".to_string(), at(0)).unwrap_err();
    assert_eq!(e.help, None);
    assert_eq!(c.find_identifier(&"val".to_string(), at(0)), Ok(Type::Int32));
}

#[test]
fn a_name_that_scores_under_the_threshold_is_not_suggested() {
    let mut c = checker();
    assert_eq!(c.check_node(declare("abcdef", "i32", false)), Ok(Type::Unit));
    assert!(strsim::jaro_winkler("abxyzw", "abcdef") < 0.7);
    assert_eq!(c.find_identifier(&"abxyzw".to_string(), at(0)).unwrap_err().help, None);
    assert!(strsim::jaro_winkler("abcdxy", "abcdef") >= 0.7);
    assert_eq!(
        c.find_identifier(&"abcdxy".to_string(), at(0)).unwrap_err().help,
        Some("did you mean: `abcdef`?".to_string())
    );
}

#[test]
fn mutation_wants_a_mutable_variable_of_the_same_type() {
    assert_eq!(check("mut x: i32 := 5; x = 3"), vec![]);
    assert_eq!(
        codes("x: i32 := 5; x = 3"),
        vec![(ECode::MutationError, "cannot mutate immutable variable `x`".to_string())]
    );
    assert_eq!(
        codes("mut x: i32 := 5; x = \"s\""),
        vec![(
            ECode::MutationError,
            "`x` has type `i32` but the new value has type `string`".to_string()
        )]
    );

    let mut c = checker();
    assert_eq!(c.check_node(declare("x", "i32", true)), Ok(Type::Unit));
    assert_eq!(c.check_node(declare("y", "i32", false)), Ok(Type::Unit));
    assert_eq!(c.check_node(binop(":=", ident("x"), lit(3))), Ok(Type::Unit));
    assert_eq!(
        c.check_node(binop(":=", ident("y"), lit(3))).map_err(|e| e.code),
        Err(ECode::MutationError)
    );
    assert_eq!(
        c.check_node(binop(":=", lit(1), lit(3))).map_err(|e| (e.code, e.details)),
        Err((ECode::MutationError, "can only mutate variables".to_string()))
    );
    assert_eq!(c.mutate_var(&"x".to_string(), at(0), Type::Int32), Ok(()));
    assert_eq!(
        c.mutate_var(&"x".to_string(), at(0), Type::Int64).map_err(|e| e.code),
        Err(ECode::MutationError)
    );
    assert_eq!(
        c.mutate_var(&"z".to_string(), at(0), Type::Int64).map_err(|e| e.code),
        Err(ECode::UndefinedIdentifier)
    );
}

#[test]
fn unary_minus_on_unsigned_is_rejected() {
    let mut c = checker();
    assert_eq!(c.check_node(declare("u", "u32", false)), Ok(Type::Unit));
    assert_eq!(
        c.check_node(unaop("-", ident("u"))).map_err(|e| (e.code, e.details)),
        Err((ECode::MismatchedTypes, "cannot negate unsigned integers".to_string()))
    );
    assert_eq!(c.check_node(unaop("+", ident("u"))), Ok(Type::UInt32));
    assert_eq!(c.check_node(unaop("!", ident("u"))), Ok(Type::UInt32));
}

#[test]
fn unary_operators() {
    assert_eq!(types("-1 + 2"), vec![Ok(Type::Int32)]);
    assert_eq!(types("-1.5 + 2.5"), vec![Ok(Type::Float64)]);
    assert_eq!(types("!true == false"), vec![Ok(Type::Boolean)]);
    assert_eq!(types("!1 + 1"), vec![Ok(Type::Int32)]);
    let mut c = checker();
    let string = || node(ASTNode::StringLit("s".to_string()));
    for (op, details, note) in [
        ("+", "cannot apply `+` to type `string`", None),
        ("-", "cannot negate type `string`", None),
        (
            "!",
            "cannot apply `!` to type `string`",
            Some(
                "the `!` operator can be applied to `bool` and integer types as a bitwise NOT"
                    .to_string(),
            ),
        ),
        ("*", "invalid operator `*`", None),
    ] {
        let e = c.check_node(unaop(op, string())).unwrap_err();
        assert_eq!(e.code, ECode::MismatchedTypes);
        assert_eq!(e.details, details);
        assert_eq!(e.note, note);
    }
    assert_eq!(
        c.check_node(unaop("!", node(ASTNode::FloatLit("1.5".to_string())))).map_err(|e| e.code),
        Err(ECode::MismatchedTypes)
    );
    assert_eq!(c.check_node(unaop("*", string())).unwrap_err().span, at(3));
}

#[test]
fn the_condition_of_an_if_must_be_boolean() {
    assert_eq!(
        codes("if 1 { } else { }"),
        vec![(ECode::MismatchedTypes, "expected `bool`, found `i32`".to_string())]
    );
}

#[test]
fn the_branches_of_an_if_must_agree() {
    assert_eq!(
        codes("if true { 1 } else { 1.0 }"),
        vec![(
            ECode::MismatchedTypes,
            "`if` and `else` bodies have mismatched types: `i32`, `f64`".to_string()
        )]
    );
    assert_eq!(
        codes("if true { 1 } else { \"a\" }"),
        vec![(
            ECode::MismatchedTypes,
            "`if` and `else` bodies have mismatched types: `i32`, `string`".to_string()
        )]
    );
    let mut c = checker();
    let declared = node(ASTNode::DeclarationWithValue {
        type_: (ParseType::Inferred, None),
        mutability: false,
        name: ("c".to_string(), at(0)),
        value: Box::new(node(ASTNode::Bool(true))),
    });
    assert_eq!(c.check_node(declared), Ok(Type::Unit));
    let branch = |value: Node| Box::new(node(ASTNode::Block(vec![value])));
    let e = c
        .check_node(node(ASTNode::If {
            condition: Box::new(ident("c")),
            then_body: branch(lit(1)),
            else_body: branch(node(ASTNode::FloatLit("1.0".to_string()))),
        }))
        .unwrap_err();
    assert_eq!(e.code, ECode::MismatchedTypes);
    assert_eq!(e.details, "`if` and `else` bodies have mismatched types: `i32`, `f64`");
}

#[test]
fn an_if_takes_the_type_of_its_branches() {
    assert_eq!(types("if true { 1 } else { 2 }"), vec![Ok(Type::Int32)]);
    assert_eq!(types("if true { 1 }"), vec![Ok(Type::Int32)]);
    assert_eq!(types("if true { } else { 2.5 }"), vec![Ok(Type::Float64)]);
    assert_eq!(types("if true { } else { }"), vec![Ok(Type::Unit)]);
    assert_eq!(types("if true { 1; } else { 2 }"), vec![Err(ECode::MismatchedTypes)]);
    assert_eq!(types("if true 1 else \"s\""), vec![Err(ECode::MismatchedTypes)]);
}

#[test]
fn both_branches_of_a_parsed_if_are_i32() {
    let mut nodes = parse("if x { 1 } else { 2 }").0;
    match nodes.remove(0).ast_repr {
        ASTNode::If { then_body, else_body, .. } => {
            let mut c = checker();
            assert_eq!(c.check_node(*then_body), Ok(Type::Int32));
            assert_eq!(c.check_node(*else_body), Ok(Type::Int32));
        }
        other => panic!("{:?}", other),
    }
}

#[test]
fn a_variable_may_not_have_the_name_of_a_type() {
    assert_eq!(
        codes("i32 := 5"),
        vec![(ECode::MismatchedTypes, "`i32` is already registered as a type".to_string())]
    );
    assert_eq!(
        codes("string"),
        vec![(ECode::MismatchedTypes, "`string` is already registered as a type".to_string())]
    );
    assert_eq!(
        codes("bool: i32"),
        vec![(ECode::MismatchedTypes, "`bool` is already registered as a type".to_string())]
    );
}

#[test]
fn a_second_declaration_of_a_name_is_rejected() {
    let errors = check("x := 1; x := 2");
    assert_eq!(errors.len(), 1);
    assert_eq!(errors[0].code, ECode::MismatchedTypes);
    assert_eq!(errors[0].details, "`x` is already declared");
    assert_eq!(errors[0].span, at(8));
    assert_eq!(
        codes("let x := 1; let x := 2"),
        vec![
            (ECode::MismatchedTypes, "`let` is already declared".to_string()),
            (ECode::MismatchedTypes, "`x` is already declared".to_string()),
        ]
    );
}

#[test]
fn declarations_record_the_annotated_or_inferred_type() {
    let mut c = checker();
    for n in parse("a := 1.5 mut b: u8 c: string := 1 d").0 {
        assert_eq!(c.check_node(n), Ok(Type::Unit));
    }
    assert_eq!(c.find_identifier(&"a".to_string(), at(0)), Ok(Type::Float64));
    assert_eq!(c.find_identifier(&"b".to_string(), at(0)), Ok(Type::UInt8));
    assert_eq!(c.find_identifier(&"c".to_string(), at(0)), Ok(Type::String));
    assert_eq!(c.find_identifier(&"d".to_string(), at(0)), Ok(Type::Undetermined));
    assert_eq!(c.mutate_var(&"b".to_string(), at(0), Type::UInt8), Ok(()));
    let e = c.check_node(declare("e", "foo", false)).unwrap_err();
    assert_eq!((e.code, e.details, e.span), (ECode::MismatchedTypes, "unregistered type `foo`".to_string(), at(9)));
    let untyped = node(ASTNode::Declaration {
        type_: (ParseType::Determined("foo".to_string()), None),
        mutability: false,
        name: ("e".to_string(), at(5)),
    });
    assert_eq!(c.check_node(untyped).unwrap_err().span, at(0));
    assert_eq!(
        c.find_identifier(&"e".to_string(), at(0)).map_err(|e| e.code),
        Err(ECode::UndefinedIdentifier)
    );
}

#[test]
fn string_concatenation() {
    assert_eq!(types("\"a\" ++ \"b\""), vec![Ok(Type::String)]);
    assert_eq!(
        codes("\"a\" ++ 1"),
        vec![(ECode::MismatchedTypes, "cannot concatenate types `string` and `i32`".to_string())]
    );
}

#[test]
fn binary_operators() {
    assert_eq!(types("1 < 2"), vec![Ok(Type::Int32)]);
    assert_eq!(types("1.5 >= 2.5"), vec![Ok(Type::Float64)]);
    assert_eq!(types("1 == 2"), vec![Ok(Type::Int32)]);
    assert_eq!(types("\"a\" == \"b\""), vec![Ok(Type::String)]);
    assert_eq!(types("true == false"), vec![Ok(Type::Boolean)]);
    assert_eq!(
        codes("1 + 1.5"),
        vec![(ECode::MismatchedTypes, "cannot do `+` operation on types `i32`, `f64`".to_string())]
    );
    assert_eq!(
        codes("\"a\" * \"b\""),
        vec![(
            ECode::MismatchedTypes,
            "cannot do `*` operation on types `string`, `string`".to_string()
        )]
    );
    assert_eq!(
        codes("1 == true"),
        vec![(ECode::MismatchedTypes, "cannot do `==` operation on types `i32`, `bool`".to_string())]
    );
    let mut c = checker();
    let e = c.check_node(binop("%", lit(1), lit(2))).unwrap_err();
    assert_eq!((e.code, e.details, e.span), (ECode::MismatchedTypes, "invalid operator - `%`".to_string(), at(3)));
    assert_eq!(c.check_node(binop("!=", lit(1), lit(2))), Ok(Type::Int32));
}

#[test]
fn blocks_and_statements() {
    assert_eq!(types("{ 1; 2.5 }"), vec![Ok(Type::Float64)]);
    assert_eq!(types("{ 1; }"), vec![Ok(Type::Unit)]);
    assert_eq!(types("{ }"), vec![Ok(Type::Unit)]);
    assert_eq!(types("1;"), vec![Ok(Type::Unit)]);
}

#[test]
fn blocks_declare_in_the_enclosing_scope() {
    assert_eq!(
        codes("{ x := 1 } x := 2"),
        vec![(ECode::MismatchedTypes, "`x` is already declared".to_string())]
    );
    assert_eq!(types("{ mut x := 1 } x = 2"), vec![Ok(Type::Unit), Ok(Type::Unit)]);
}

#[test]
fn checking_goes_on_after_a_diagnostic() {
    assert_eq!(
        codes("a + 1 ; 1 + \"s\" ; b = 2"),
        vec![
            (ECode::UndefinedIdentifier, "cannot find `a` in scope".to_string()),
            (ECode::MismatchedTypes, "cannot do `+` operation on types `i32`, `string`".to_string()),
            (ECode::UndefinedIdentifier, "cannot find `b` in scope".to_string()),
        ]
    );
}

#[test]
fn what_was_declared_before_a_diagnostic_stays_declared() {
    let mut c = checker();
    let results: Vec<_> = parse("{ x := 1 ; y + 1 } x + 1")
        .0
        .into_iter()
        .map(|n| c.check_node(n).map_err(|e| e.code))
        .collect();
    assert_eq!(results, vec![Err(ECode::UndefinedIdentifier), Ok(Type::Int32)]);
}

#[test]
fn the_type_registry() {
    let mut registry = TypeRegistry::new();
    for (name, ty) in [
        ("i8", Type::Int8),
        ("i16", Type::Int16),
        ("i32", Type::Int32),
        ("i64", Type::Int64),
        ("f32", Type::Float32),
        ("f64", Type::Float64),
        ("u8", Type::UInt8),
        ("u16", Type::UInt16),
        ("u32", Type::UInt32),
        ("u64", Type::UInt64),
        ("string", Type::String),
        ("bool", Type::Boolean),
        ("unit", Type::Unit),
    ] {
        assert!(registry.is_registered(name));
        assert_eq!(registry.get(name), Some(ty));
    }
    for name in ["char", "void", "I32", ""] {
        assert!(!registry.is_registered(name));
        assert_eq!(registry.get(name), None);
    }
    registry.register("byte", Type::Alias("u8".to_string()));
    assert_eq!(registry.get("byte"), Some(Type::Alias("u8".to_string())));
    registry.register("byte", Type::UInt8);
    assert_eq!(registry.get("byte"), Some(Type::UInt8));
    registry.remove("byte");
    assert_eq!(registry.get("byte"), None);
    registry.remove("byte");
    registry.remove("i32");
    assert!(!registry.is_registered("i32"));
    assert!(registry.is_registered("i64"));
}

#[test]
fn types_and_symbols() {
    assert_eq!(Type::Int8.to_string(), "i8");
    assert_eq!(Type::Float32.to_string(), "f32");
    assert_eq!(Type::Char.to_string(), "char");
    assert_eq!(Type::Void.to_string(), "void");
    assert_eq!(Type::Undetermined.to_string(), "{undetermined}");
    assert_eq!(Type::Alias("point".to_string()).to_string(), "point");
    assert!(Type::Alias("a".to_string()).same(&Type::Alias("a".to_string())));
    assert!(!Type::Alias("a".to_string()).same(&Type::Alias("b".to_string())));
    assert!(!Type::Int8.same(&Type::UInt8));
    assert!(Type::UInt64.is_numeric() && Type::Float32.is_numeric() && !Type::Boolean.is_numeric());
    let symbol = Symbol::Variable { name: "x".to_string(), type_: Type::Int16, mutability: true };
    assert_eq!(symbol.clone(), symbol);
    assert_eq!(symbol.name(), "x");
    assert_eq!(symbol.type_(), &Type::Int16);
    assert!(symbol.mutability());
}
