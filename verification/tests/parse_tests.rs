use minilang::ast::{BinOp, Expr, Fundef, Type, UnaryOp};
use minilang::parser::parse;

fn b(e: Expr) -> Box<Expr> {
    Box::new(e)
}

#[test]
fn test_parse_int() {
    let expr = parse("42").unwrap();
    match expr {
        Expr::Int(n) => assert_eq!(n, 42),
        _ => panic!("Expected Expr::Int"),
    }
}

#[test]
fn test_parse_binop1() {
    let expr = parse("1 + 2 * 4").unwrap();
    match expr {
        Expr::BinOp(BinOp::Add, left, right) => match (*left, *right) {
            (Expr::Int(1), Expr::BinOp(BinOp::Mul, left, right)) => {
                assert_eq!(*left, Expr::Int(2));
                assert_eq!(*right, Expr::Int(4));
            }
            _ => panic!("Unexpected structure in right operand"),
        },
        _ => panic!("Expected Expr::BinOp"),
    }
}

#[test]
fn test_parse_binop2() {
    let expr = parse("(3 - 5) / 2").unwrap();
    match expr {
        Expr::BinOp(BinOp::Div, left, right) => match (*left, *right) {
            (Expr::BinOp(BinOp::Sub, left_sub, right_sub), Expr::Int(2)) => {
                assert_eq!(*left_sub, Expr::Int(3));
                assert_eq!(*right_sub, Expr::Int(5));
            }
            _ => panic!("Unexpected structure in left operand"),
        },
        _ => panic!("Expected Expr::BinOp"),
    }
}

#[test]
fn test_parse_if() {
    let expr = parse("if true then 1 else 0").unwrap();
    match expr {
        Expr::If(cond, then_branch, else_branch) => {
            assert_eq!(*cond, Expr::Bool(true));
            assert_eq!(*then_branch, Expr::Int(1));
            assert_eq!(*else_branch, Expr::Int(0));
        }
        _ => panic!("Expected Expr::If"),
    }
}

#[test]
fn test_parse_lambda() {
    let expr = parse("fun (x: Int) (y: Int) -> x + y").unwrap();
    match expr {
        Expr::Lambda(params, body) => {
            assert_eq!(params.len(), 2);
            assert_eq!(params[0], ("x".to_string(), Type::Int));
            assert_eq!(params[1], ("y".to_string(), Type::Int));
            match *body {
                Expr::BinOp(BinOp::Add, left, right) => {
                    assert_eq!(*left, Expr::Var("x".to_string()));
                    assert_eq!(*right, Expr::Var("y".to_string()));
                }
                _ => panic!("Expected body to be a BinOp"),
            }
        }
        _ => panic!("Expected Expr::Lambda"),
    }
}

#[test]
fn test_if_missing_else_is_error() {
    assert!(parse("if true then 1").is_err());
}

#[test]
fn test_let_right_extension() {
    let expr = parse("let x = 1 in let y = 2 in x + y").unwrap();
    let expected = Expr::Let(
        "x".to_string(),
        None,
        b(Expr::Int(1)),
        b(Expr::Let(
            "y".to_string(),
            None,
            b(Expr::Int(2)),
            b(Expr::BinOp(
                BinOp::Add,
                b(Expr::Var("x".to_string())),
                b(Expr::Var("y".to_string())),
            )),
        )),
    );
    assert_eq!(expr, expected);
}

#[test]
fn test_parse_twice_yields_equal_trees() {
    let src = "let rec f (x: Int) : Int = if x < 1 then 0 else f (x - 1) in f 10";
    let a = parse(src).unwrap();
    let c = parse(src).unwrap();
    assert_eq!(a, c);
}

#[test]
fn test_malformed_inputs_are_errors() {
    assert!(parse("1 +").is_err());
    assert!(parse("(").is_err());
    assert!(parse("").is_err());
}

#[test]
fn test_empty_input_position() {
    let e = parse("").unwrap_err();
    assert_eq!(e.pos, 0);
}

#[test]
fn test_application_is_flat() {
    let expr = parse("f x y").unwrap();
    let expected = Expr::App(
        b(Expr::Var("f".to_string())),
        vec![Expr::Var("x".to_string()), Expr::Var("y".to_string())],
    );
    assert_eq!(expr, expected);
}

#[test]
fn test_int_round_trip_samples() {
    let samples: Vec<i64> = vec![0, 1, -1, 7, -42, 1000000, i64::MAX, i64::MIN];
    for n in samples {
        let text = n.to_string();
        assert_eq!(parse(&text).unwrap(), Expr::Int(n));
    }
}

#[test]
fn test_int_literal_overflow() {
    let e = parse("9223372036854775808").unwrap_err();
    assert_eq!(e.msg, "integer literal overflow");
    assert_eq!(parse("-9223372036854775808").unwrap(), Expr::Int(i64::MIN));
    assert!(parse("-9223372036854775809").is_err());
    assert!(parse("99999999999999999999999").is_err());
}

#[test]
fn test_unit_and_annotation() {
    assert_eq!(parse("()").unwrap(), Expr::Unit);
    assert_eq!(
        parse("(1 : Int)").unwrap(),
        Expr::Ann(b(Expr::Int(1)), Box::new(Type::Int))
    );
    assert_eq!(
        parse("(x : Foo)").unwrap(),
        Expr::Ann(
            b(Expr::Var("x".to_string())),
            Box::new(Type::Var("Foo".to_string()))
        )
    );
}

#[test]
fn test_float_literals() {
    assert_eq!(parse("1.5").unwrap(), Expr::Float("1.5".to_string()));
    assert_eq!(parse("2e10").unwrap(), Expr::Float("2e10".to_string()));
    assert_eq!(
        parse("1.5e+3").unwrap(),
        Expr::Float("1.5e+3".to_string())
    );
    let e = parse("1.").unwrap_err();
    assert_eq!(e.msg, "malformed numeric literal");
}

#[test]
fn test_let_with_declared_type() {
    let expr = parse("let x : Bool = true in x").unwrap();
    let expected = Expr::Let(
        "x".to_string(),
        Some(Type::Bool),
        b(Expr::Bool(true)),
        b(Expr::Var("x".to_string())),
    );
    assert_eq!(expr, expected);
}

#[test]
fn test_let_rec() {
    let expr = parse("let rec f (x: Int) : Int = f x in f 1").unwrap();
    let expected = Expr::LetRec(
        Fundef {
            name: "f".to_string(),
            args: vec![("x".to_string(), Type::Int)],
            ret_type: Type::Int,
            body: b(Expr::App(
                b(Expr::Var("f".to_string())),
                vec![Expr::Var("x".to_string())],
            )),
        },
        b(Expr::App(b(Expr::Var("f".to_string())), vec![Expr::Int(1)])),
    );
    assert_eq!(expr, expected);
}

#[test]
fn test_keywords_are_not_identifiers() {
    assert!(parse("let in = 1 in 2").is_err());
    assert!(parse("fun (then: Int) -> 1").is_err());
    assert!(parse("rec").is_err());
}

#[test]
fn test_logical_and_relational_precedence() {
    let expr = parse("1 < 2 && true").unwrap();
    let expected = Expr::BinOp(
        BinOp::And,
        b(Expr::BinOp(BinOp::Lt, b(Expr::Int(1)), b(Expr::Int(2)))),
        b(Expr::Bool(true)),
    );
    assert_eq!(expr, expected);

    let expr = parse("true || false && false").unwrap();
    let expected = Expr::BinOp(
        BinOp::Or,
        b(Expr::Bool(true)),
        b(Expr::BinOp(
            BinOp::And,
            b(Expr::Bool(false)),
            b(Expr::Bool(false)),
        )),
    );
    assert_eq!(expr, expected);
}

#[test]
fn test_left_associativity() {
    let expr = parse("8 / 4 / 2").unwrap();
    let expected = Expr::BinOp(
        BinOp::Div,
        b(Expr::BinOp(BinOp::Div, b(Expr::Int(8)), b(Expr::Int(4)))),
        b(Expr::Int(2)),
    );
    assert_eq!(expr, expected);
}

#[test]
fn test_comparison_operators() {
    assert_eq!(
        parse("1 == 2").unwrap(),
        Expr::BinOp(BinOp::Eq, b(Expr::Int(1)), b(Expr::Int(2)))
    );
    assert_eq!(
        parse("1 != 2").unwrap(),
        Expr::BinOp(BinOp::Neq, b(Expr::Int(1)), b(Expr::Int(2)))
    );
    assert_eq!(
        parse("1 <= 2").unwrap(),
        Expr::BinOp(BinOp::Leq, b(Expr::Int(1)), b(Expr::Int(2)))
    );
    assert_eq!(
        parse("1 >= 2").unwrap(),
        Expr::BinOp(BinOp::Geq, b(Expr::Int(1)), b(Expr::Int(2)))
    );
    assert_eq!(
        parse("1 > 2").unwrap(),
        Expr::BinOp(BinOp::Gt, b(Expr::Int(1)), b(Expr::Int(2)))
    );
}

#[test]
fn test_unary_operators() {
    assert_eq!(
        parse("!true").unwrap(),
        Expr::UnaryOp(UnaryOp::Not, b(Expr::Bool(true)))
    );
    assert_eq!(
        parse("- x").unwrap(),
        Expr::UnaryOp(UnaryOp::Neg, b(Expr::Var("x".to_string())))
    );
    assert_eq!(parse("-5").unwrap(), Expr::Int(-5));
}

#[test]
fn test_arrow_type_is_right_associative() {
    let expr = parse("fun (f: Int -> Int -> Bool) -> f").unwrap();
    let expected = Expr::Lambda(
        vec![(
            "f".to_string(),
            Type::Arrow(
                Box::new(Type::Int),
                Box::new(Type::Arrow(Box::new(Type::Int), Box::new(Type::Bool))),
            ),
        )],
        b(Expr::Var("f".to_string())),
    );
    assert_eq!(expr, expected);
}

#[test]
fn test_leftover_input_is_error() {
    let e = parse("1 + 2 )").unwrap_err();
    assert_eq!(e.msg, "unexpected token after expression");
    assert_eq!(e.pos, 6);
}

#[test]
fn test_unrecognized_character() {
    let e = parse("#").unwrap_err();
    assert_eq!(e.msg, "unrecognized character");
    assert_eq!(e.pos, 0);
}

#[test]
fn test_whitespace_is_ignored() {
    assert_eq!(parse("   42\t ").unwrap(), Expr::Int(42));
}

#[test]
fn test_binders_extend_right() {
    let expr = parse("if true then 1 else 2 + 3").unwrap();
    let expected = Expr::If(
        b(Expr::Bool(true)),
        b(Expr::Int(1)),
        b(Expr::BinOp(BinOp::Add, b(Expr::Int(2)), b(Expr::Int(3)))),
    );
    assert_eq!(expr, expected);

    let expr = parse("fun (x: Int) -> x + 1").unwrap();
    let expected = Expr::Lambda(
        vec![("x".to_string(), Type::Int)],
        b(Expr::BinOp(
            BinOp::Add,
            b(Expr::Var("x".to_string())),
            b(Expr::Int(1)),
        )),
    );
    assert_eq!(expr, expected);
}

#[test]
fn test_application_binds_tighter_than_operators() {
    let expr = parse("f x + g y").unwrap();
    let expected = Expr::BinOp(
        BinOp::Add,
        b(Expr::App(
            b(Expr::Var("f".to_string())),
            vec![Expr::Var("x".to_string())],
        )),
        b(Expr::App(
            b(Expr::Var("g".to_string())),
            vec![Expr::Var("y".to_string())],
        )),
    );
    assert_eq!(expr, expected);
}
