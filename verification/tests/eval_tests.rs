use exprlang::ast::{Expression, ExpressionKind, Infix, Operator, Prefix};
use exprlang::error::{ErrorType, Pos};
use exprlang::exec::{
    ExecutionExpr, Executer, FloatReply, FloatReq, E_BITS, PI_BITS, SQRT2_BITS, TAU_BITS,
};

/// The host floating-point unit the engine delegates to: ordinary IEEE-754
/// double arithmetic over bit patterns.
fn host_float_ops(req: FloatReq) -> FloatReply {
    match req {
        FloatReq::Parse(s) => FloatReply::Parsed(s.parse::<f64>().ok().map(f64::to_bits)),
        FloatReq::Add(a, b) => FloatReply::Bits((f64::from_bits(a) + f64::from_bits(b)).to_bits()),
        FloatReq::Sub(a, b) => FloatReply::Bits((f64::from_bits(a) - f64::from_bits(b)).to_bits()),
        FloatReq::Mul(a, b) => FloatReply::Bits((f64::from_bits(a) * f64::from_bits(b)).to_bits()),
        FloatReq::Div(a, b) => FloatReply::Bits((f64::from_bits(a) / f64::from_bits(b)).to_bits()),
        FloatReq::Rem(a, b) => FloatReply::Bits((f64::from_bits(a) % f64::from_bits(b)).to_bits()),
        FloatReq::Pow(a, b) => {
            FloatReply::Bits(f64::from_bits(a).powf(f64::from_bits(b)).to_bits())
        }
        FloatReq::CmpEq(a, b) => FloatReply::Truth(f64::from_bits(a) == f64::from_bits(b)),
        FloatReq::CmpLt(a, b) => FloatReply::Truth(f64::from_bits(a) < f64::from_bits(b)),
        FloatReq::CmpLe(a, b) => FloatReply::Truth(f64::from_bits(a) <= f64::from_bits(b)),
        FloatReq::CmpGt(a, b) => FloatReply::Truth(f64::from_bits(a) > f64::from_bits(b)),
        FloatReq::CmpGe(a, b) => FloatReply::Truth(f64::from_bits(a) >= f64::from_bits(b)),
        FloatReq::Neg(a) => FloatReply::Bits((-f64::from_bits(a)).to_bits()),
        FloatReq::Abs(a) => FloatReply::Bits(f64::from_bits(a).abs().to_bits()),
        FloatReq::ToIntTrunc(a) => FloatReply::Int(f64::from_bits(a) as i128),
        FloatReq::ToIntRound(a) => FloatReply::Int(f64::from_bits(a).round() as i128),
        FloatReq::OfInt(i) => FloatReply::Bits((i as f64).to_bits()),
    }
}

fn expr(kind: ExpressionKind, start: usize, end: usize) -> Expression {
    Expression { expr: kind, pos: Pos::new(start, end) }
}

fn int_lit(text: &str) -> Expression {
    expr(ExpressionKind::Integer(text.to_string()), 0, text.len())
}

fn float_lit(text: &str) -> Expression {
    expr(ExpressionKind::Float(text.to_string()), 0, text.len())
}

fn infix(op: Operator, left: Expression, right: Expression) -> Expression {
    let pos = Pos::new(left.pos.start, right.pos.end);
    Expression {
        expr: ExpressionKind::InfixOp(Infix { op, left: Box::new(left), right: Box::new(right) }),
        pos,
    }
}

fn prefix(op: Operator, value: Expression) -> Expression {
    let pos = value.pos;
    Expression { expr: ExpressionKind::PrefixOp(Prefix { op, value: Box::new(value) }), pos }
}

fn eval(e: Expression) -> Result<exprlang::exec::EE, exprlang::error::Error> {
    Executer::new().eval(e, host_float_ops)
}

fn as_f64(v: ExecutionExpr) -> f64 {
    match v {
        ExecutionExpr::Float(bits) => f64::from_bits(bits),
        other => panic!("expected a float, got {:?}", other),
    }
}

#[test]
fn constant_bit_patterns_match_std() {
    assert_eq!(PI_BITS, std::f64::consts::PI.to_bits());
    assert_eq!(TAU_BITS, (std::f64::consts::PI * 2.0).to_bits());
    assert_eq!(E_BITS, std::f64::consts::E.to_bits());
    assert_eq!(SQRT2_BITS, std::f64::consts::SQRT_2.to_bits());
}

#[test]
fn integer_literal_value() {
    let r = eval(int_lit("12831984")).unwrap();
    assert_eq!(r.value, ExecutionExpr::Integer(12831984));
    assert_eq!((r.pos.start, r.pos.end), (0, 8));
}

#[test]
fn integer_literal_extremes() {
    let max = i128::MAX.to_string();
    let r = eval(int_lit(&max)).unwrap();
    assert_eq!(r.value, ExecutionExpr::Integer(i128::MAX));

    let min = i128::MIN.to_string();
    let r = eval(int_lit(&min)).unwrap();
    assert_eq!(r.value, ExecutionExpr::Integer(i128::MIN));
}

#[test]
fn integer_literal_out_of_range() {
    // One past i128::MAX.
    let err = eval(int_lit("170141183460469231731687303715884105728")).unwrap_err();
    assert_eq!(err.error_type, ErrorType::RuntimeError);
    assert!(err.message.contains("number too large to fit in target type"));
}

#[test]
fn integer_literal_malformed() {
    let err = eval(int_lit("12x4")).unwrap_err();
    assert_eq!(err.error_type, ErrorType::RuntimeError);
    assert_eq!(
        err.message,
        "error converting `12x4` to integer: invalid digit found in string"
    );
}

#[test]
fn float_literal_value() {
    let r = eval(float_lit("8.10")).unwrap();
    assert_eq!(as_f64(r.value), 8.10);
}

#[test]
fn float_literal_malformed() {
    let err = eval(float_lit("8.1.0")).unwrap_err();
    assert_eq!(err.error_type, ErrorType::RuntimeError);
    assert_eq!(
        err.message,
        "error converting `8.1.0` to float: invalid float literal"
    );
}

#[test]
fn boolean_literals() {
    let t = expr(ExpressionKind::True, 0, 4);
    assert_eq!(eval(t).unwrap().value, ExecutionExpr::Bool(true));
    let f = expr(ExpressionKind::False, 0, 5);
    assert_eq!(eval(f).unwrap().value, ExecutionExpr::Bool(false));
}

#[test]
fn integer_addition_overflow() {
    let e = infix(Operator::Add, int_lit(&i128::MAX.to_string()), int_lit("1"));
    let err = eval(e).unwrap_err();
    assert_eq!(err.error_type, ErrorType::RuntimeError);
    assert!(err.message.contains("value overflowed"));
}

#[test]
fn float_addition_never_overflows() {
    let e = infix(
        Operator::Add,
        float_lit("1.7976931348623157e308"),
        float_lit("1.7976931348623157e308"),
    );
    let r = eval(e).unwrap();
    assert_eq!(as_f64(r.value), f64::INFINITY);
}

#[test]
fn division_always_yields_float() {
    let r = eval(infix(Operator::Div, int_lit("4"), int_lit("2"))).unwrap();
    assert!(matches!(r.value, ExecutionExpr::Float(_)));
    assert_eq!(as_f64(r.value), 2.0);
}

#[test]
fn float_division_by_zero_follows_ieee() {
    let r = eval(infix(Operator::Div, float_lit("1.0"), float_lit("0.0"))).unwrap();
    assert_eq!(as_f64(r.value), f64::INFINITY);
}

#[test]
fn cast_round_trip_within_32_bits() {
    for n in [0i128, 1, -1, 42, -37, 2147483647, -2147483648] {
        let to_float = infix(
            Operator::As,
            int_lit(&n.to_string()),
            expr(ExpressionKind::Ident("float".to_string()), 0, 5),
        );
        let back = infix(
            Operator::As,
            to_float,
            expr(ExpressionKind::Ident("int".to_string()), 0, 3),
        );
        let r = eval(back).unwrap();
        assert_eq!(r.value, ExecutionExpr::Integer(n), "round trip failed for {}", n);
    }
}

#[test]
fn cast_int_to_float_requires_32_bit_range() {
    let e = infix(
        Operator::As,
        int_lit("2147483648"),
        expr(ExpressionKind::Ident("float".to_string()), 0, 5),
    );
    let err = eval(e).unwrap_err();
    assert_eq!(err.error_type, ErrorType::RuntimeError);
    assert_eq!(
        err.message,
        "failed to convert `2147483648` to `float`: out of range integral type conversion attempted"
    );
}

#[test]
fn cast_float_to_int_rounds() {
    let e = infix(
        Operator::As,
        float_lit("2.6"),
        expr(ExpressionKind::Ident("int".to_string()), 0, 3),
    );
    assert_eq!(eval(e).unwrap().value, ExecutionExpr::Integer(3));

    let e = infix(
        Operator::As,
        prefix(Operator::Sub, float_lit("2.5")),
        expr(ExpressionKind::Ident("int".to_string()), 0, 3),
    );
    // Round half away from zero.
    assert_eq!(eval(e).unwrap().value, ExecutionExpr::Integer(-3));
}

#[test]
fn cast_bool_conversions() {
    let e = infix(
        Operator::As,
        expr(ExpressionKind::True, 0, 4),
        expr(ExpressionKind::Ident("float".to_string()), 0, 5),
    );
    assert_eq!(as_f64(eval(e).unwrap().value), 1.0);

    let e = infix(
        Operator::As,
        expr(ExpressionKind::False, 0, 5),
        expr(ExpressionKind::Ident("int".to_string()), 0, 3),
    );
    assert_eq!(eval(e).unwrap().value, ExecutionExpr::Integer(0));
}

#[test]
fn cast_unknown_type_name() {
    let e = infix(
        Operator::As,
        int_lit("1"),
        expr(ExpressionKind::Ident("double".to_string()), 2, 8),
    );
    let err = eval(e).unwrap_err();
    assert_eq!(err.error_type, ErrorType::TypeError);
    assert_eq!(err.message, "unknown type `double`");
    assert_eq!((err.pos.start, err.pos.end), (2, 8));
}

#[test]
fn cast_non_identifier_target() {
    let e = infix(Operator::As, int_lit("1"), int_lit("2"));
    let err = eval(e).unwrap_err();
    assert_eq!(err.error_type, ErrorType::TypeError);
    assert_eq!(err.message, "invalid type for `as` type operand");
}

#[test]
fn type_mismatch_names_both_operands() {
    let e = infix(Operator::Add, expr(ExpressionKind::True, 0, 4), int_lit("1"));
    let err = eval(e).unwrap_err();
    assert_eq!(err.error_type, ErrorType::TypeError);
    assert_eq!(
        err.message,
        "cannot apply operator `add` on types `boolean` and `integer`"
    );
}

#[test]
fn mixed_numeric_operands_are_a_type_error() {
    let e = infix(Operator::Add, int_lit("1"), float_lit("2.0"));
    let err = eval(e).unwrap_err();
    assert_eq!(err.error_type, ErrorType::TypeError);
    assert_eq!(
        err.message,
        "cannot apply operator `add` on types `integer` and `float`"
    );
}

#[test]
fn identifier_resolution() {
    let e = expr(ExpressionKind::Ident("pi".to_string()), 0, 2);
    let r = eval(e).unwrap();
    assert_eq!(as_f64(r.value), std::f64::consts::PI);
    assert_eq!((r.pos.start, r.pos.end), (0, 2));

    let e = expr(ExpressionKind::Ident("undefined_name".to_string()), 0, 14);
    let err = eval(e).unwrap_err();
    assert_eq!(err.error_type, ErrorType::RuntimeError);
    assert_eq!(err.message, "no variable `undefined_name` found");
}

#[test]
fn all_constants_resolve() {
    for (name, want) in [
        ("tau", std::f64::consts::PI * 2.0),
        ("e", std::f64::consts::E),
        ("sqrt2", std::f64::consts::SQRT_2),
    ] {
        let ex = expr(ExpressionKind::Ident(name.to_string()), 0, name.len());
        assert_eq!(as_f64(eval(ex).unwrap().value), want);
    }
}

#[test]
fn integer_arithmetic() {
    assert_eq!(
        eval(infix(Operator::Sub, int_lit("10"), int_lit("4"))).unwrap().value,
        ExecutionExpr::Integer(6)
    );
    assert_eq!(
        eval(infix(Operator::Mul, int_lit("6"), int_lit("7"))).unwrap().value,
        ExecutionExpr::Integer(42)
    );
    assert_eq!(
        eval(infix(Operator::Mod, int_lit("7"), int_lit("3"))).unwrap().value,
        ExecutionExpr::Integer(1)
    );
    assert_eq!(
        eval(infix(Operator::IntDiv, int_lit("7"), int_lit("2"))).unwrap().value,
        ExecutionExpr::Integer(3)
    );
}

#[test]
fn integer_division_by_zero() {
    let err = eval(infix(Operator::IntDiv, int_lit("7"), int_lit("0"))).unwrap_err();
    assert_eq!(err.error_type, ErrorType::RuntimeError);

    let err = eval(infix(Operator::Mod, int_lit("7"), int_lit("0"))).unwrap_err();
    assert_eq!(err.error_type, ErrorType::RuntimeError);
}

#[test]
fn float_integer_division_truncates_operands() {
    let e = infix(Operator::IntDiv, float_lit("7.9"), float_lit("2.9"));
    assert_eq!(eval(e).unwrap().value, ExecutionExpr::Integer(3));
}

#[test]
fn integer_power() {
    assert_eq!(
        eval(infix(Operator::Pow, int_lit("2"), int_lit("10"))).unwrap().value,
        ExecutionExpr::Integer(1024)
    );
    let err = eval(infix(Operator::Pow, int_lit("2"), int_lit("200"))).unwrap_err();
    assert_eq!(err.error_type, ErrorType::RuntimeError);
    assert!(err.message.contains("value overflowed"));

    let err = eval(infix(Operator::Pow, int_lit("2"), prefix(Operator::Sub, int_lit("1"))))
        .unwrap_err();
    assert_eq!(err.error_type, ErrorType::RuntimeError);
    assert!(err.message.contains("out of range"));
}

#[test]
fn float_power() {
    let e = infix(Operator::Pow, float_lit("2.0"), float_lit("0.5"));
    assert_eq!(as_f64(eval(e).unwrap().value), 2.0f64.powf(0.5));
}

#[test]
fn bit_operations() {
    assert_eq!(
        eval(infix(Operator::BAnd, int_lit("12"), int_lit("10"))).unwrap().value,
        ExecutionExpr::Integer(8)
    );
    assert_eq!(
        eval(infix(Operator::BOr, int_lit("12"), int_lit("10"))).unwrap().value,
        ExecutionExpr::Integer(14)
    );
    assert_eq!(
        eval(infix(Operator::BXor, int_lit("12"), int_lit("10"))).unwrap().value,
        ExecutionExpr::Integer(6)
    );
    assert_eq!(
        eval(prefix(Operator::BNot, int_lit("0"))).unwrap().value,
        ExecutionExpr::Integer(-1)
    );
}

#[test]
fn bit_shifts() {
    assert_eq!(
        eval(infix(Operator::BitShiftL, int_lit("1"), int_lit("3"))).unwrap().value,
        ExecutionExpr::Integer(8)
    );
    assert_eq!(
        eval(infix(Operator::BitShiftR, int_lit("40"), int_lit("2"))).unwrap().value,
        ExecutionExpr::Integer(10)
    );
    let err = eval(infix(Operator::BitShiftL, int_lit("1"), int_lit("200"))).unwrap_err();
    assert_eq!(err.error_type, ErrorType::RuntimeError);
    let err = eval(infix(Operator::BitShiftL, int_lit("1"), prefix(Operator::Sub, int_lit("1"))))
        .unwrap_err();
    assert_eq!(err.error_type, ErrorType::RuntimeError);
}

#[test]
fn logical_operations() {
    let t = || expr(ExpressionKind::True, 0, 4);
    let f = || expr(ExpressionKind::False, 0, 5);
    assert_eq!(
        eval(infix(Operator::LAnd, t(), f())).unwrap().value,
        ExecutionExpr::Bool(false)
    );
    assert_eq!(
        eval(infix(Operator::LOr, t(), f())).unwrap().value,
        ExecutionExpr::Bool(true)
    );
    assert_eq!(eval(prefix(Operator::LNot, t())).unwrap().value, ExecutionExpr::Bool(false));

    let err = eval(infix(Operator::LAnd, t(), int_lit("1"))).unwrap_err();
    assert_eq!(err.error_type, ErrorType::TypeError);
}

#[test]
fn equality_crosses_variants_without_error() {
    let e = infix(Operator::Eql, int_lit("1"), expr(ExpressionKind::True, 0, 4));
    assert_eq!(eval(e).unwrap().value, ExecutionExpr::Bool(false));

    let e = infix(Operator::NEql, int_lit("1"), float_lit("1.0"));
    assert_eq!(eval(e).unwrap().value, ExecutionExpr::Bool(true));

    let e = infix(Operator::Eql, int_lit("3"), int_lit("3"));
    assert_eq!(eval(e).unwrap().value, ExecutionExpr::Bool(true));

    let e = infix(Operator::Eql, float_lit("1.5"), float_lit("1.5"));
    assert_eq!(eval(e).unwrap().value, ExecutionExpr::Bool(true));
}

#[test]
fn orderings_require_matching_variants() {
    assert_eq!(
        eval(infix(Operator::LT, int_lit("1"), int_lit("2"))).unwrap().value,
        ExecutionExpr::Bool(true)
    );
    assert_eq!(
        eval(infix(Operator::GE, float_lit("2.5"), float_lit("2.5"))).unwrap().value,
        ExecutionExpr::Bool(true)
    );
    let err = eval(infix(Operator::LE, int_lit("1"), float_lit("2.0"))).unwrap_err();
    assert_eq!(err.error_type, ErrorType::TypeError);
    assert_eq!(
        err.message,
        "cannot apply operator `less than` on types `integer` and `float`"
    );
}

#[test]
fn unary_plus_is_absolute_value() {
    let e = prefix(Operator::Add, prefix(Operator::Sub, int_lit("5")));
    assert_eq!(eval(e).unwrap().value, ExecutionExpr::Integer(5));

    let e = prefix(Operator::Add, prefix(Operator::Sub, float_lit("5.5")));
    assert_eq!(as_f64(eval(e).unwrap().value), 5.5);
}

#[test]
fn unary_negation() {
    assert_eq!(
        eval(prefix(Operator::Sub, int_lit("5"))).unwrap().value,
        ExecutionExpr::Integer(-5)
    );
    assert_eq!(as_f64(eval(prefix(Operator::Sub, float_lit("2.5"))).unwrap().value), -2.5);

    let err = eval(prefix(Operator::Sub, expr(ExpressionKind::True, 0, 4))).unwrap_err();
    assert_eq!(err.error_type, ErrorType::TypeError);
}

#[test]
fn unimplemented_prefix_operator() {
    let err = eval(prefix(Operator::Mul, int_lit("1"))).unwrap_err();
    assert_eq!(err.error_type, ErrorType::TypeError);
    assert_eq!(err.message, "prefix * not implemented yet");
}

#[test]
fn unimplemented_infix_operator() {
    let e = infix(Operator::BNot, int_lit("1"), int_lit("2"));
    let err = eval(e).unwrap_err();
    assert_eq!(err.error_type, ErrorType::TypeError);
    assert_eq!(err.message, "infix ~ not implemented yet");
}

#[test]
fn infix_logical_not_ignores_right_operand() {
    // `!` dispatched as an infix operator negates the left operand and never
    // evaluates the right one.
    let e = infix(
        Operator::LNot,
        expr(ExpressionKind::True, 0, 4),
        expr(ExpressionKind::Ident("nope".to_string()), 5, 9),
    );
    assert_eq!(eval(e).unwrap().value, ExecutionExpr::Bool(false));
}

#[test]
fn overflow_messages_render_operands() {
    let e = infix(
        Operator::Add,
        int_lit("170141183460469231731687303715884105727"),
        int_lit("1"),
    );
    let err = eval(e).unwrap_err();
    assert_eq!(
        err.message,
        "failed to add `170141183460469231731687303715884105727` and `1`: value overflowed"
    );
}

#[test]
fn negation_overflow_renders_the_value() {
    let e = prefix(Operator::Sub, int_lit(&i128::MIN.to_string()));
    let err = eval(e).unwrap_err();
    assert_eq!(err.error_type, ErrorType::RuntimeError);
    assert_eq!(
        err.message,
        "failed to negate `-170141183460469231731687303715884105728`: value overflowed"
    );
}

#[test]
fn spans_combine_across_binary_operations() {
    let left = expr(ExpressionKind::Integer("1".to_string()), 0, 1);
    let right = expr(ExpressionKind::Integer("2".to_string()), 4, 5);
    let r = eval(infix(Operator::Add, left, right)).unwrap();
    assert_eq!((r.pos.start, r.pos.end), (0, 5));
}

#[test]
fn first_error_aborts_evaluation() {
    // The failing left operand's error comes back, not a type error.
    let bad = expr(ExpressionKind::Ident("nope".to_string()), 0, 4);
    let e = infix(Operator::Add, bad, expr(ExpressionKind::True, 5, 9));
    let err = eval(e).unwrap_err();
    assert_eq!(err.error_type, ErrorType::RuntimeError);
    assert_eq!(err.message, "no variable `nope` found");
}

#[test]
fn nested_expression_evaluates() {
    // (2 + 3) * 4 == 20
    let sum = infix(Operator::Add, int_lit("2"), int_lit("3"));
    let e = infix(Operator::Mul, sum, int_lit("4"));
    assert_eq!(eval(e).unwrap().value, ExecutionExpr::Integer(20));
}
