use kese::backend::lowering::{
    lower_module, lower_node, object_module_name, select_instruction, Arithmetic, Lowered,
};
use kese::driver::{front_end, longest_string_length, normalize_newlines, output_name};
use kese::global::Type;
use kese::global::{prec, ECode};
use kese::text::{
    chars_of, count_digits, decimal, float_text, join3, parse_i64, repeat_char, same_text,
    signed_decimal, text_of,
};

#[test]
fn integers_from_text() {
    assert_eq!(parse_i64("0"), Some(0));
    assert_eq!(parse_i64("42"), Some(42));
    assert_eq!(parse_i64("+42"), Some(42));
    assert_eq!(parse_i64("-42"), Some(-42));
    assert_eq!(parse_i64("-0"), Some(0));
    assert_eq!(parse_i64("000123"), Some(123));
    assert_eq!(parse_i64("9223372036854775807"), Some(i64::MAX));
    assert_eq!(parse_i64("-9223372036854775808"), Some(i64::MIN));
    assert_eq!(parse_i64("9223372036854775808"), None);
    assert_eq!(parse_i64("-9223372036854775809"), None);
    assert_eq!(parse_i64("99999999999999999999999999"), None);
    assert_eq!(parse_i64("00000000000000000000000001"), Some(1));
    assert_eq!(parse_i64(""), None);
    assert_eq!(parse_i64("-"), None);
    assert_eq!(parse_i64("+"), None);
    assert_eq!(parse_i64("1a"), None);
    assert_eq!(parse_i64("a1"), None);
    assert_eq!(parse_i64("1 "), None);
    assert_eq!(parse_i64("--1"), None);
    assert_eq!(parse_i64("1.0"), None);
}

#[test]
fn integers_from_text_as_the_standard_library_reads_them() {
    for text in ["0", "-1", "+7", "", "-", "12x", "9223372036854775808", "0009", "١٢"] {
        assert_eq!(parse_i64(text), text.parse::<i64>().ok());
    }
}

#[test]
fn floats_by_their_text() {
    for text in [
        "1", "1.5", "5.", ".5", "-1.5", "+.5", "1e5", "1E5", "1e+5", "1.e-5", ".5e0", "inf", "INF",
        "-inf", "infinity", "Infinity", "nan", "NaN", "+nan", "0123", "1.5.2", "", ".", "-", "e5",
        ".e5", "1e", "1e+", "1e5x", "in", "infinit", "infinityy", "nan ", " 1", "1_0", "0x10",
        "--1", "1..2", "+", "+-1",
    ] {
        assert_eq!(float_text(text), text.parse::<f64>().is_ok());
    }
    assert!(float_text("2.5"));
    assert!(!float_text("abc"));
}

#[test]
fn decimal_renderings() {
    assert_eq!(decimal(0), "0");
    assert_eq!(decimal(9), "9");
    assert_eq!(decimal(10), "10");
    assert_eq!(decimal(u64::MAX), "18446744073709551615");
    assert_eq!(signed_decimal(-1), "-1");
    assert_eq!(signed_decimal(i64::MIN), "-9223372036854775808");
    assert_eq!(signed_decimal(i64::MAX), "9223372036854775807");
    assert_eq!(count_digits(0), 1);
    assert_eq!(count_digits(9), 1);
    assert_eq!(count_digits(10), 2);
    assert_eq!(count_digits(99), 2);
    assert_eq!(count_digits(100), 3);
    assert_eq!(count_digits(usize::MAX), usize::MAX.to_string().len());
}

#[test]
fn text_helpers() {
    assert!(same_text("ab", "ab"));
    assert!(!same_text("ab", "abc"));
    assert_eq!(chars_of("a\u{e9}b"), vec!['a', '\u{e9}', 'b']);
    assert_eq!(text_of(&vec!['x', 'y']), "xy");
    assert_eq!(repeat_char('-', 3), "---");
    assert_eq!(repeat_char('-', 0), "");
    assert_eq!(join3("a", "", "bc"), "abc");
}

#[test]
fn binding_powers() {
    for op in ["+", "-"] {
        assert_eq!(prec(&op.to_string()), Some((20, 21)));
    }
    for op in ["*", "/"] {
        assert_eq!(prec(&op.to_string()), Some((30, 31)));
    }
    for op in ["==", "!=", ">", "<", ">=", "<="] {
        assert_eq!(prec(&op.to_string()), Some((10, 11)));
    }
    assert_eq!(prec(&"++".to_string()), Some((40, 41)));
    assert_eq!(prec(&":=".to_string()), Some((50, 51)));
    assert_eq!(prec(&"!".to_string()), None);
    assert_eq!(prec(&"".to_string()), None);
}

#[test]
fn error_codes() {
    assert_eq!(ECode::UnexpectedEOF.to_string(), "E1000");
    assert_eq!(ECode::UnexpectedToken.to_string(), "E1001");
    assert_eq!(ECode::ExpectedToken.to_string(), "E1002");
    assert_eq!(ECode::UndefinedIdentifier.to_string(), "E1003");
    assert_eq!(ECode::MismatchedTypes.to_string(), "E1004");
    assert_eq!(ECode::MutationError.to_string(), "E1005");
}

#[test]
fn line_endings_are_normalized() {
    assert_eq!(normalize_newlines("a\r\nb\r\n"), "a\nb\n");
    assert_eq!(normalize_newlines("a\nb"), "a\nb");
    assert_eq!(normalize_newlines("\r\r\n\r"), "\r\n\r");
    assert_eq!(normalize_newlines("\n\r"), "\n\r");
    assert_eq!(normalize_newlines(""), "");
    for text in ["\r\n\r\n", "x\ry\r\n\nz", "\r", "\n"] {
        assert_eq!(normalize_newlines(text), text.replace("\r\n", "\n"));
    }
}

#[test]
fn executable_names() {
    assert_eq!(output_name(None), "main.exe");
    assert_eq!(output_name(Some("prog".to_string())), "prog.exe");
    assert_eq!(output_name(Some("prog.exe".to_string())), "prog.exe");
    assert_eq!(output_name(Some("exe".to_string())), "exe.exe");
    assert_eq!(output_name(Some(".exe".to_string())), ".exe");
    assert_eq!(output_name(Some("".to_string())), ".exe");
}

#[test]
fn longest_of_some_texts() {
    assert_eq!(longest_string_length(&["Compiling", "ab", "Finished compiling with LLD"]), 27);
    assert_eq!(longest_string_length::<0>(&[]), 0);
    assert_eq!(longest_string_length(&["\u{e9}"]), 2);
}

#[test]
fn front_end_stops_at_the_first_stage_with_diagnostics() {
    let path = "a.kl".to_string();
    let ok = front_end(&"42 + 1".to_string(), &path);
    assert_eq!(ok.map(|m| m.0.len()), Ok(1));
    let parse = front_end(&"valu = ) 1".to_string(), &path).unwrap_err();
    assert_eq!(
        parse.iter().map(|e| e.code).collect::<Vec<_>>(),
        vec![ECode::UnexpectedToken, ECode::UnexpectedToken]
    );
    let check = front_end(&"x + 1".to_string(), &path).unwrap_err();
    assert_eq!(check.iter().map(|e| e.code).collect::<Vec<_>>(), vec![ECode::UndefinedIdentifier]);
    assert_eq!(check[0].path, "a.kl");
    assert_eq!(check[0].src, "x + 1");
}

#[test]
fn instructions_for_binary_operations() {
    let all = [
        ("+", Arithmetic::IAdd, Arithmetic::FAdd),
        ("-", Arithmetic::ISub, Arithmetic::FSub),
        ("*", Arithmetic::IMul, Arithmetic::FMul),
        ("/", Arithmetic::SDiv, Arithmetic::FDiv),
    ];
    for (op, on_integers, on_floats) in all {
        for t in [Type::Int8, Type::Int64, Type::UInt8, Type::UInt64] {
            assert_eq!(select_instruction(op, &t, &t), Some(on_integers));
        }
        for t in [Type::Float32, Type::Float64] {
            assert_eq!(select_instruction(op, &t, &t), Some(on_floats));
        }
        assert_eq!(select_instruction(op, &Type::Int8, &Type::Int16), None);
        assert_eq!(select_instruction(op, &Type::String, &Type::String), None);
        assert_eq!(select_instruction(op, &Type::Boolean, &Type::Boolean), None);
    }
    assert_eq!(select_instruction("==", &Type::Int8, &Type::Int8), None);
    assert_eq!(select_instruction("", &Type::Int8, &Type::Int8), None);
}

#[test]
fn object_module_names() {
    assert_eq!(object_module_name("prog.kl"), "prog");
    assert_eq!(object_module_name("dir/prog.kl"), "dir/prog");
    assert_eq!(object_module_name(".kl"), "");
    assert_eq!(object_module_name("prog.txt"), "main");
    assert_eq!(object_module_name("kl"), "main");
    assert_eq!(object_module_name(""), "main");
}

#[test]
fn steps_of_generated_code() {
    let path = "a.kl".to_string();
    let module = front_end(&"1 + 2 * 3; 1.5 / 0.5 true".to_string(), &path).unwrap();
    let first_statement = match &module.0[0].ast_repr {
        kese::frontend::parser::ASTNode::Statement(inner) => inner,
        other => panic!("{:?}", other),
    };
    assert_eq!(
        lower_node(first_statement),
        Ok((
            vec![
                Lowered::IConst(1),
                Lowered::IConst(2),
                Lowered::IConst(3),
                Lowered::Arith(Arithmetic::IMul),
                Lowered::Arith(Arithmetic::IAdd),
            ],
            Type::Int64
        ))
    );
    assert_eq!(lower_node(&module.0[0]), Err("cannot generate code for this construct".to_string()));
    let module = front_end(&"1 - 2 1.5 / 0.5 true".to_string(), &path).unwrap();
    assert_eq!(
        lower_module(&module),
        Ok(vec![
            Lowered::Zero,
            Lowered::Drop,
            Lowered::IConst(1),
            Lowered::IConst(2),
            Lowered::Arith(Arithmetic::ISub),
            Lowered::Drop,
            Lowered::FConst("1.5".to_string()),
            Lowered::FConst("0.5".to_string()),
            Lowered::Arith(Arithmetic::FDiv),
            Lowered::Drop,
            Lowered::BConst(true),
        ])
    );
    let empty = front_end(&"".to_string(), &path).unwrap();
    assert_eq!(lower_module(&empty), Ok(vec![Lowered::Zero]));
    let mixed = kese::frontend::parser::Parser::new(
        kese::frontend::lexer::tokenize(&"1 + 1.5 2".to_string()),
        &"1 + 1.5 2".to_string(),
        &path,
    )
    .parse_program()
    .0;
    assert_eq!(
        lower_module(&mixed),
        Err("cannot generate code for `+` on `i64` and `f64`".to_string())
    );
    let text = front_end(&"\"s\"".to_string(), &path).unwrap();
    assert_eq!(lower_module(&text), Err("cannot generate code for this construct".to_string()));
}
