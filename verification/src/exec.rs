//! The typed evaluation engine.
//!
//! Values are a closed three-variant union: 128-bit signed integers, 64-bit
//! IEEE-754 floats, and booleans. Verus has no floating-point arithmetic, so
//! a float is carried as its bit pattern and every floating-point operation
//! is delegated to a host-supplied function over those bit patterns (a
//! [`FloatReq`] in, a [`FloatReply`] out). Everything else — dispatch,
//! type checking, integer arithmetic with its overflow policy, spans and
//! error construction — is verified here.

use crate::ast::{Expression, ExpressionKind, Operator};
use crate::error::{Error, ErrorType, Pos};
use crate::strutil::str_content_eq;
use vstd::prelude::*;
use vstd::string::*;

verus! {

/// A runtime value of the expression language.
#[derive(Clone, Copy, PartialEq, Eq, Structural, Debug)]
pub enum ExecutionExpr {
    Integer(i128),
    /// A 64-bit IEEE-754 value, carried as its bit pattern.
    Float(u64),
    Bool(bool),
}

impl ExecutionExpr {
    /// The name of a value's type, as error messages print it.
    pub open spec fn spec_display_type(self) -> Seq<char> {
        match self {
            ExecutionExpr::Integer(_) => "`integer`"@,
            ExecutionExpr::Float(_) => "`float`"@,
            ExecutionExpr::Bool(_) => "`boolean`"@,
        }
    }

    pub fn display_type(&self) -> (r: &'static str)
        ensures
            r@ == self.spec_display_type(),
    {
        match self {
            ExecutionExpr::Integer(_) => "`integer`",
            ExecutionExpr::Float(_) => "`float`",
            ExecutionExpr::Bool(_) => "`boolean`",
        }
    }
}

/// A floating-point operation the engine asks the host to perform. All
/// `u64` arguments are IEEE-754 double bit patterns.
pub enum FloatReq {
    /// Parse literal text as a double.
    Parse(String),
    Add(u64, u64),
    Sub(u64, u64),
    Mul(u64, u64),
    Div(u64, u64),
    Rem(u64, u64),
    Pow(u64, u64),
    CmpEq(u64, u64),
    CmpLt(u64, u64),
    CmpLe(u64, u64),
    CmpGt(u64, u64),
    CmpGe(u64, u64),
    Neg(u64),
    Abs(u64),
    /// The double, truncated and saturated to a 128-bit integer as Rust's
    /// `as i128` cast does.
    ToIntTrunc(u64),
    /// The double rounded half away from zero, then cast as `as i128` does.
    ToIntRound(u64),
    /// The double nearest to a 128-bit integer.
    OfInt(i128),
}

/// The host's answer to a [`FloatReq`].
pub enum FloatReply {
    Bits(u64),
    Truth(bool),
    Int(i128),
    Parsed(Option<u64>),
}

/// Which reply variant answers which request.
pub open spec fn reply_shape(req: FloatReq, rep: FloatReply) -> bool {
    match req {
        FloatReq::Parse(_) => rep is Parsed,
        FloatReq::CmpEq(_, _)
        | FloatReq::CmpLt(_, _)
        | FloatReq::CmpLe(_, _)
        | FloatReq::CmpGt(_, _)
        | FloatReq::CmpGe(_, _) => rep is Truth,
        FloatReq::ToIntTrunc(_) | FloatReq::ToIntRound(_) => rep is Int,
        _ => rep is Bits,
    }
}

/// A well-behaved host float unit: it accepts every request and always
/// answers in the right shape. Nothing else is assumed of it.
pub open spec fn float_ops_wf<F: Fn(FloatReq) -> FloatReply>(ops: F) -> bool {
    (forall|req: FloatReq| #[trigger] call_requires(ops, (req,))) && (forall|
        req: FloatReq,
        rep: FloatReply,
    |
        #[trigger] call_ensures(ops, (req,), rep) ==> reply_shape(req, rep))
}

/// The decimal digit character for `d`.
pub open spec fn spec_digit(d: int) -> char {
    if d == 0 {
        '0'
    } else if d == 1 {
        '1'
    } else if d == 2 {
        '2'
    } else if d == 3 {
        '3'
    } else if d == 4 {
        '4'
    } else if d == 5 {
        '5'
    } else if d == 6 {
        '6'
    } else if d == 7 {
        '7'
    } else if d == 8 {
        '8'
    } else {
        '9'
    }
}

/// The decimal rendering of a nonnegative integer.
pub open spec fn dec_str(n: int) -> Seq<char>
    decreases n,
{
    if n < 10 {
        seq![spec_digit(n)]
    } else {
        dec_str(n / 10).push(spec_digit(n % 10))
    }
}

/// The decimal rendering of an integer, with `-` for negative values.
pub open spec fn int_str(n: int) -> Seq<char> {
    if n < 0 {
        seq!['-'] + dec_str(-n)
    } else {
        dec_str(n)
    }
}

fn push_digit(s: &mut String, d: u128)
    requires
        d < 10,
    ensures
        final(s)@ == old(s)@.push(spec_digit(d as int)),
{
    proof {
        reveal_strlit("0");
        reveal_strlit("1");
        reveal_strlit("2");
        reveal_strlit("3");
        reveal_strlit("4");
        reveal_strlit("5");
        reveal_strlit("6");
        reveal_strlit("7");
        reveal_strlit("8");
        reveal_strlit("9");
    }
    let ghost before = s@;
    if d == 0 {
        s.append("0");
    } else if d == 1 {
        s.append("1");
    } else if d == 2 {
        s.append("2");
    } else if d == 3 {
        s.append("3");
    } else if d == 4 {
        s.append("4");
    } else if d == 5 {
        s.append("5");
    } else if d == 6 {
        s.append("6");
    } else if d == 7 {
        s.append("7");
    } else if d == 8 {
        s.append("8");
    } else {
        s.append("9");
    }
    proof {
        assert(s@ =~= before.push(spec_digit(d as int)));
    }
}

/// Renders a nonnegative integer in decimal.
pub fn u128_to_string(n: u128) -> (s: String)
    ensures
        s@ == dec_str(n as int),
    decreases n,
{
    if n < 10 {
        let mut s = String::new();
        push_digit(&mut s, n);
        proof {
            assert(s@ =~= dec_str(n as int));
        }
        s
    } else {
        let mut s = u128_to_string(n / 10);
        push_digit(&mut s, n % 10);
        s
    }
}

/// Renders a 128-bit signed integer in decimal, exactly as its standard
/// string form.
pub fn i128_to_string(n: i128) -> (s: String)
    ensures
        s@ == int_str(n as int),
{
    if n >= 0 {
        u128_to_string(n as u128)
    } else {
        let mag: u128 = ((-(n + 1)) as u128) + 1;
        let mut s = "-".to_owned();
        let tail = u128_to_string(mag);
        s.append(tail.as_str());
        proof {
            reveal_strlit("-");
            assert(s@ =~= seq!['-'] + dec_str(-(n as int)));
        }
        s
    }
}

/// Why integer literal text failed to parse; the classes and their order of
/// detection mirror the standard library's integer parsing.
#[derive(Clone, Copy, PartialEq, Eq, Structural, Debug)]
pub enum IntParseError {
    Empty,
    InvalidDigit,
    PosOverflow,
    NegOverflow,
}

/// The value of a decimal digit character.
pub open spec fn digit_of(c: char) -> int {
    (c as u32) - 48
}

/// Scans the digits of an integer literal left to right, accumulating the
/// (signed) value, failing on the first non-digit or the first step out of
/// the 128-bit signed range.
pub open spec fn spec_parse_digits(ds: Seq<char>, neg: bool, acc: int) -> Result<
    int,
    IntParseError,
>
    decreases ds.len(),
{
    if ds.len() == 0 {
        Ok(acc)
    } else if !crate::lexer::spec_is_digit(ds[0]) {
        Err(IntParseError::InvalidDigit)
    } else {
        let acc2 = if neg {
            acc * 10 - digit_of(ds[0])
        } else {
            acc * 10 + digit_of(ds[0])
        };
        if !neg && acc2 > i128::MAX {
            Err(IntParseError::PosOverflow)
        } else if neg && acc2 < i128::MIN {
            Err(IntParseError::NegOverflow)
        } else {
            spec_parse_digits(ds.skip(1), neg, acc2)
        }
    }
}

/// Integer literal text as a 128-bit signed value: an optional sign followed
/// by one or more decimal digits, within range; otherwise the reason it is
/// rejected.
pub open spec fn spec_parse_i128(s: Seq<char>) -> Result<int, IntParseError> {
    if s.len() == 0 {
        Err(IntParseError::Empty)
    } else if s[0] == '+' || s[0] == '-' {
        if s.len() == 1 {
            Err(IntParseError::InvalidDigit)
        } else {
            spec_parse_digits(s.skip(1), s[0] == '-', 0)
        }
    } else {
        spec_parse_digits(s, false, 0)
    }
}

/// Parses integer literal text as a 128-bit signed integer, returning
/// exactly the value and error classes of [`spec_parse_i128`].
pub fn parse_i128(text: &str) -> (r: Result<i128, IntParseError>)
    ensures
        match spec_parse_i128(text@) {
            Ok(v) => r matches Ok(x) && x as int == v,
            Err(e) => r == Err::<i128, IntParseError>(e),
        },
{
    let ghost s = text@;
    let n = text.unicode_len();
    if n == 0 {
        return Err(IntParseError::Empty);
    }
    let first = text.get_char(0);
    let neg = first == '-';
    let mut idx: usize = if first == '-' || first == '+' {
        1
    } else {
        0
    };
    if idx >= n {
        return Err(IntParseError::InvalidDigit);
    }
    let mut acc: i128 = 0;
    proof {
        if idx == 0 {
            assert(s.skip(0) =~= s);
        }
    }
    while idx < n
        invariant
            s == text@,
            n == s.len(),
            idx <= n,
            neg ==> acc <= 0,
            !neg ==> acc >= 0,
            spec_parse_i128(s) == spec_parse_digits(s.skip(idx as int), neg, acc as int),
        decreases n - idx,
    {
        let c = text.get_char(idx);
        proof {
            assert(s.skip(idx as int)[0] == s[idx as int]);
        }
        if !('0' <= c && c <= '9') {
            return Err(IntParseError::InvalidDigit);
        }
        let d: u32 = (c as u32) - 48;
        let acc10 = match acc.checked_mul(10) {
            Some(v) => v,
            None => {
                return Err(
                    if neg {
                        IntParseError::NegOverflow
                    } else {
                        IntParseError::PosOverflow
                    },
                );
            },
        };
        let acc2 = if neg {
            match acc10.checked_sub(d as i128) {
                Some(v) => v,
                None => {
                    return Err(IntParseError::NegOverflow);
                },
            }
        } else {
            match acc10.checked_add(d as i128) {
                Some(v) => v,
                None => {
                    return Err(IntParseError::PosOverflow);
                },
            }
        };
        proof {
            assert(s.skip(idx as int).skip(1) =~= s.skip(idx as int + 1));
        }
        acc = acc2;
        idx += 1;
    }
    proof {
        assert(s.skip(n as int).len() == 0);
    }
    Ok(acc)
}

/// The standard rendering of each integer-parse failure.
pub open spec fn int_parse_why(e: IntParseError) -> Seq<char> {
    match e {
        IntParseError::Empty => "cannot parse integer from empty string"@,
        IntParseError::InvalidDigit => "invalid digit found in string"@,
        IntParseError::PosOverflow => "number too large to fit in target type"@,
        IntParseError::NegOverflow => "number too small to fit in target type"@,
    }
}

pub fn int_parse_why_str(e: IntParseError) -> (r: &'static str)
    ensures
        r@ == int_parse_why(e),
{
    match e {
        IntParseError::Empty => "cannot parse integer from empty string",
        IntParseError::InvalidDigit => "invalid digit found in string",
        IntParseError::PosOverflow => "number too large to fit in target type",
        IntParseError::NegOverflow => "number too small to fit in target type",
    }
}

/// A value paired with the span of the sub-expression that produced it.
#[derive(Clone, Copy, Debug)]
pub struct EE {
    pub value: ExecutionExpr,
    pub pos: Pos,
}

/// The span of a binary application: from the left operand's start to the
/// right operand's end.
pub open spec fn combined_pos(a: Pos, b: Pos) -> Pos {
    Pos { start: a.start, end: b.end }
}

/// The message for an operand-type mismatch.
pub open spec fn type_err_msg(op: Seq<char>, l: ExecutionExpr, r: ExecutionExpr) -> Seq<char> {
    "cannot apply operator `"@ + op + "` on types "@ + l.spec_display_type() + " and "@
        + r.spec_display_type()
}

/// `out` is an error of class `kind` with exactly this message and span.
pub open spec fn is_err(out: Result<EE, Error>, kind: ErrorType, msg: Seq<char>, pos: Pos) -> bool {
    out matches Err(e) && e.error_type == kind && e.message@ == msg && e.pos == pos
}

/// The message for a failed integer operation, with the two operands
/// rendered in decimal.
pub open spec fn op_fail_msg(
    prefix: Seq<char>,
    x: int,
    mid: Seq<char>,
    y: int,
    suffix: Seq<char>,
) -> Seq<char> {
    prefix + int_str(x) + mid + int_str(y) + suffix
}

fn build_op_fail_msg(
    prefix: &'static str,
    x: i128,
    mid: &'static str,
    y: i128,
    suffix: &'static str,
) -> (s: String)
    ensures
        s@ == op_fail_msg(prefix@, x as int, mid@, y as int, suffix@),
{
    let mut s = prefix.to_owned();
    let xs = i128_to_string(x);
    s.append(xs.as_str());
    s.append(mid);
    let ys = i128_to_string(y);
    s.append(ys.as_str());
    s.append(suffix);
    proof {
        assert(s@ =~= op_fail_msg(prefix@, x as int, mid@, y as int, suffix@));
    }
    s
}

/// Performs a request whose well-shaped reply is a bit pattern.
fn ask_bits<F: Fn(FloatReq) -> FloatReply + Copy>(ops: F, req: FloatReq) -> (bits: u64)
    requires
        float_ops_wf(ops),
        forall|rep: FloatReply| #[trigger] reply_shape(req, rep) ==> rep is Bits,
    ensures
        call_ensures(ops, (req,), FloatReply::Bits(bits)),
{
    let rep = ops(req);
    match rep {
        FloatReply::Bits(b) => b,
        _ => vstd::pervasive::unreached(),
    }
}

/// Performs a request whose well-shaped reply is a truth value.
fn ask_truth<F: Fn(FloatReq) -> FloatReply + Copy>(ops: F, req: FloatReq) -> (t: bool)
    requires
        float_ops_wf(ops),
        forall|rep: FloatReply| #[trigger] reply_shape(req, rep) ==> rep is Truth,
    ensures
        call_ensures(ops, (req,), FloatReply::Truth(t)),
{
    let rep = ops(req);
    match rep {
        FloatReply::Truth(t) => t,
        _ => vstd::pervasive::unreached(),
    }
}

/// Performs a parse request, whose well-shaped reply is a parse outcome.
fn ask_parsed<F: Fn(FloatReq) -> FloatReply + Copy>(ops: F, req: FloatReq) -> (o: Option<u64>)
    requires
        float_ops_wf(ops),
        req is Parse,
    ensures
        call_ensures(ops, (req,), FloatReply::Parsed(o)),
{
    let rep = ops(req);
    match rep {
        FloatReply::Parsed(o) => o,
        _ => vstd::pervasive::unreached(),
    }
}

/// Performs a request whose well-shaped reply is an integer.
fn ask_int<F: Fn(FloatReq) -> FloatReply + Copy>(ops: F, req: FloatReq) -> (iv: i128)
    requires
        float_ops_wf(ops),
        forall|rep: FloatReply| #[trigger] reply_shape(req, rep) ==> rep is Int,
    ensures
        call_ensures(ops, (req,), FloatReply::Int(iv)),
{
    let rep = ops(req);
    match rep {
        FloatReply::Int(iv) => iv,
        _ => vstd::pervasive::unreached(),
    }
}

/// What addition returns: checked integer addition, host float addition, or
/// the type mismatch, always spanning both operands.
pub open spec fn add_result<F: Fn(FloatReq) -> FloatReply>(
    ops: F,
    l: EE,
    r: EE,
    out: Result<EE, Error>,
) -> bool {
    let pos = combined_pos(l.pos, r.pos);
    match (l.value, r.value) {
        (ExecutionExpr::Integer(a), ExecutionExpr::Integer(b)) => match a.checked_add(b) {
            Some(v) => out == Ok::<EE, Error>(EE { value: ExecutionExpr::Integer(v), pos }),
            None => is_err(
                out,
                ErrorType::RuntimeError,
                op_fail_msg("failed to add `"@, a as int, "` and `"@, b as int, "`: value overflowed"@),
                pos,
            ),
        },
        (ExecutionExpr::Float(x), ExecutionExpr::Float(y)) => exists|bits: u64|
            out == Ok::<EE, Error>(EE { value: ExecutionExpr::Float(bits), pos })
                && #[trigger] call_ensures(ops, (FloatReq::Add(x, y),), FloatReply::Bits(bits)),
        _ => is_err(out, ErrorType::TypeError, type_err_msg("add"@, l.value, r.value), pos),
    }
}

/// The message for a failed integer operation with a single rendered value.
pub open spec fn val_fail_msg(prefix: Seq<char>, x: int, suffix: Seq<char>) -> Seq<char> {
    prefix + int_str(x) + suffix
}

fn build_val_fail_msg(prefix: &'static str, x: i128, suffix: &'static str) -> (s: String)
    ensures
        s@ == val_fail_msg(prefix@, x as int, suffix@),
{
    let mut s = prefix.to_owned();
    let xs = i128_to_string(x);
    s.append(xs.as_str());
    s.append(suffix);
    proof {
        assert(s@ =~= val_fail_msg(prefix@, x as int, suffix@));
    }
    s
}

/// The message for a unary operation on the wrong kind of value; the type
/// name is quoted a second time, as the engine has always printed it.
pub open spec fn unary_err_msg(prefix: Seq<char>, v: ExecutionExpr, suffix: Seq<char>) -> Seq<
    char,
> {
    prefix + v.spec_display_type() + suffix
}

fn build_unary_err_msg(prefix: &'static str, v: ExecutionExpr, suffix: &'static str) -> (s: String)
    ensures
        s@ == unary_err_msg(prefix@, v, suffix@),
{
    let mut s = prefix.to_owned();
    s.append(v.display_type());
    s.append(suffix);
    proof {
        assert(s@ =~= unary_err_msg(prefix@, v, suffix@));
    }
    s
}

/// The bitwise complement of a 128-bit integer, arithmetically.
pub open spec fn bitnot128(a: i128) -> i128 {
    (-(a as int + 1)) as i128
}

pub open spec fn sub_result<F: Fn(FloatReq) -> FloatReply>(
    ops: F,
    l: EE,
    r: EE,
    out: Result<EE, Error>,
) -> bool {
    let pos = combined_pos(l.pos, r.pos);
    match (l.value, r.value) {
        (ExecutionExpr::Integer(a), ExecutionExpr::Integer(b)) => match a.checked_sub(b) {
            Some(v) => out == Ok::<EE, Error>(EE { value: ExecutionExpr::Integer(v), pos }),
            None => is_err(
                out,
                ErrorType::RuntimeError,
                op_fail_msg(
                    "failed to subtract `"@,
                    b as int,
                    "` from `"@,
                    a as int,
                    "`: value overflowed"@,
                ),
                pos,
            ),
        },
        (ExecutionExpr::Float(x), ExecutionExpr::Float(y)) => exists|bits: u64|
            out == Ok::<EE, Error>(EE { value: ExecutionExpr::Float(bits), pos })
                && #[trigger] call_ensures(ops, (FloatReq::Sub(x, y),), FloatReply::Bits(bits)),
        _ => is_err(out, ErrorType::TypeError, type_err_msg("subtract"@, l.value, r.value), pos),
    }
}

pub open spec fn mul_result<F: Fn(FloatReq) -> FloatReply>(
    ops: F,
    l: EE,
    r: EE,
    out: Result<EE, Error>,
) -> bool {
    let pos = combined_pos(l.pos, r.pos);
    match (l.value, r.value) {
        (ExecutionExpr::Integer(a), ExecutionExpr::Integer(b)) => match a.checked_mul(b) {
            Some(v) => out == Ok::<EE, Error>(EE { value: ExecutionExpr::Integer(v), pos }),
            None => is_err(
                out,
                ErrorType::RuntimeError,
                op_fail_msg(
                    "failed to multiply `"@,
                    b as int,
                    "` by `"@,
                    a as int,
                    "`: value overflowed"@,
                ),
                pos,
            ),
        },
        (ExecutionExpr::Float(x), ExecutionExpr::Float(y)) => exists|bits: u64|
            out == Ok::<EE, Error>(EE { value: ExecutionExpr::Float(bits), pos })
                && #[trigger] call_ensures(ops, (FloatReq::Mul(x, y),), FloatReply::Bits(bits)),
        _ => is_err(out, ErrorType::TypeError, type_err_msg("multiply"@, l.value, r.value), pos),
    }
}

pub open spec fn modulo_result<F: Fn(FloatReq) -> FloatReply>(
    ops: F,
    l: EE,
    r: EE,
    out: Result<EE, Error>,
) -> bool {
    let pos = combined_pos(l.pos, r.pos);
    match (l.value, r.value) {
        (ExecutionExpr::Integer(a), ExecutionExpr::Integer(b)) => match a.checked_rem(b) {
            Some(v) => out == Ok::<EE, Error>(EE { value: ExecutionExpr::Integer(v), pos }),
            None => is_err(
                out,
                ErrorType::RuntimeError,
                op_fail_msg(
                    "failed to modulo `"@,
                    b as int,
                    "` by `"@,
                    a as int,
                    "`: value overflowed"@,
                ),
                pos,
            ),
        },
        (ExecutionExpr::Float(x), ExecutionExpr::Float(y)) => exists|bits: u64|
            out == Ok::<EE, Error>(EE { value: ExecutionExpr::Float(bits), pos })
                && #[trigger] call_ensures(ops, (FloatReq::Rem(x, y),), FloatReply::Bits(bits)),
        _ => is_err(out, ErrorType::TypeError, type_err_msg("modulo"@, l.value, r.value), pos),
    }
}

pub open spec fn div_result<F: Fn(FloatReq) -> FloatReply>(
    ops: F,
    l: EE,
    r: EE,
    out: Result<EE, Error>,
) -> bool {
    let pos = combined_pos(l.pos, r.pos);
    match (l.value, r.value) {
        (ExecutionExpr::Integer(a), ExecutionExpr::Integer(b)) => exists|xa: u64, xb: u64, bits: u64|
            out == Ok::<EE, Error>(EE { value: ExecutionExpr::Float(bits), pos })
                && #[trigger] call_ensures(ops, (FloatReq::OfInt(a),), FloatReply::Bits(xa))
                && #[trigger] call_ensures(ops, (FloatReq::OfInt(b),), FloatReply::Bits(xb))
                && #[trigger] call_ensures(ops, (FloatReq::Div(xa, xb),), FloatReply::Bits(bits)),
        (ExecutionExpr::Float(x), ExecutionExpr::Float(y)) => exists|bits: u64|
            out == Ok::<EE, Error>(EE { value: ExecutionExpr::Float(bits), pos })
                && #[trigger] call_ensures(ops, (FloatReq::Div(x, y),), FloatReply::Bits(bits)),
        _ => is_err(out, ErrorType::TypeError, type_err_msg("divide"@, l.value, r.value), pos),
    }
}

pub open spec fn int_div_result<F: Fn(FloatReq) -> FloatReply>(
    ops: F,
    l: EE,
    r: EE,
    out: Result<EE, Error>,
) -> bool {
    let pos = combined_pos(l.pos, r.pos);
    match (l.value, r.value) {
        (ExecutionExpr::Integer(a), ExecutionExpr::Integer(b)) => match a.checked_div(b) {
            Some(v) => out == Ok::<EE, Error>(EE { value: ExecutionExpr::Integer(v), pos }),
            None => is_err(
                out,
                ErrorType::RuntimeError,
                op_fail_msg(
                    "failed to integer divide `"@,
                    b as int,
                    "` by `"@,
                    a as int,
                    "`: value overflowed"@,
                ),
                pos,
            ),
        },
        (ExecutionExpr::Float(x), ExecutionExpr::Float(y)) => exists|ia: i128, ib: i128|
            #[trigger] call_ensures(ops, (FloatReq::ToIntTrunc(x),), FloatReply::Int(ia))
                && #[trigger] call_ensures(ops, (FloatReq::ToIntTrunc(y),), FloatReply::Int(ib))
                && match ia.checked_div(ib) {
                Some(v) => out == Ok::<EE, Error>(EE { value: ExecutionExpr::Integer(v), pos }),
                None => is_err(
                    out,
                    ErrorType::RuntimeError,
                    op_fail_msg(
                        "failed to integer divide `"@,
                        ib as int,
                        "` by `"@,
                        ia as int,
                        "`: value overflowed"@,
                    ),
                    pos,
                ),
            },
        _ => is_err(
            out,
            ErrorType::TypeError,
            type_err_msg("integer divide"@, l.value, r.value),
            pos,
        ),
    }
}

pub open spec fn lnot_result(v: EE, out: Result<EE, Error>) -> bool {
    match v.value {
        ExecutionExpr::Bool(b) => out == Ok::<EE, Error>(
            EE { value: ExecutionExpr::Bool(!b), pos: v.pos },
        ),
        _ => is_err(
            out,
            ErrorType::TypeError,
            unary_err_msg("cannot logically negate `"@, v.value, "`"@),
            v.pos,
        ),
    }
}

pub open spec fn land_result(l: EE, r: EE, out: Result<EE, Error>) -> bool {
    let pos = combined_pos(l.pos, r.pos);
    match (l.value, r.value) {
        (ExecutionExpr::Bool(a), ExecutionExpr::Bool(b)) => out == Ok::<EE, Error>(
            EE { value: ExecutionExpr::Bool(a && b), pos },
        ),
        _ => is_err(out, ErrorType::TypeError, type_err_msg("logical and"@, l.value, r.value), pos),
    }
}

pub open spec fn lor_result(l: EE, r: EE, out: Result<EE, Error>) -> bool {
    let pos = combined_pos(l.pos, r.pos);
    match (l.value, r.value) {
        (ExecutionExpr::Bool(a), ExecutionExpr::Bool(b)) => out == Ok::<EE, Error>(
            EE { value: ExecutionExpr::Bool(a || b), pos },
        ),
        _ => is_err(out, ErrorType::TypeError, type_err_msg("logical or"@, l.value, r.value), pos),
    }
}

pub open spec fn band_result(l: EE, r: EE, out: Result<EE, Error>) -> bool {
    let pos = combined_pos(l.pos, r.pos);
    match (l.value, r.value) {
        (ExecutionExpr::Integer(a), ExecutionExpr::Integer(b)) => out == Ok::<EE, Error>(
            EE { value: ExecutionExpr::Integer(a & b), pos },
        ),
        _ => is_err(out, ErrorType::TypeError, type_err_msg("bitwise and"@, l.value, r.value), pos),
    }
}

pub open spec fn bor_result(l: EE, r: EE, out: Result<EE, Error>) -> bool {
    let pos = combined_pos(l.pos, r.pos);
    match (l.value, r.value) {
        (ExecutionExpr::Integer(a), ExecutionExpr::Integer(b)) => out == Ok::<EE, Error>(
            EE { value: ExecutionExpr::Integer(a | b), pos },
        ),
        _ => is_err(out, ErrorType::TypeError, type_err_msg("bitwise or"@, l.value, r.value), pos),
    }
}

pub open spec fn bxor_result(l: EE, r: EE, out: Result<EE, Error>) -> bool {
    let pos = combined_pos(l.pos, r.pos);
    match (l.value, r.value) {
        (ExecutionExpr::Integer(a), ExecutionExpr::Integer(b)) => out == Ok::<EE, Error>(
            EE { value: ExecutionExpr::Integer(a ^ b), pos },
        ),
        _ => is_err(out, ErrorType::TypeError, type_err_msg("bitwise xor"@, l.value, r.value), pos),
    }
}

pub open spec fn bnot_result(v: EE, out: Result<EE, Error>) -> bool {
    match v.value {
        ExecutionExpr::Integer(a) => out == Ok::<EE, Error>(
            EE { value: ExecutionExpr::Integer(bitnot128(a)), pos: v.pos },
        ),
        _ => is_err(
            out,
            ErrorType::TypeError,
            unary_err_msg("cannot bitwise negate `"@, v.value, "`"@),
            v.pos,
        ),
    }
}

pub open spec fn neg_result<F: Fn(FloatReq) -> FloatReply>(
    ops: F,
    v: EE,
    out: Result<EE, Error>,
) -> bool {
    match v.value {
        ExecutionExpr::Integer(a) => if a == i128::MIN {
            is_err(
                out,
                ErrorType::RuntimeError,
                val_fail_msg("failed to negate `"@, a as int, "`: value overflowed"@),
                v.pos,
            )
        } else {
            out == Ok::<EE, Error>(EE { value: ExecutionExpr::Integer((-(a as int)) as i128), pos: v.pos })
        },
        ExecutionExpr::Float(x) => exists|bits: u64|
            out == Ok::<EE, Error>(EE { value: ExecutionExpr::Float(bits), pos: v.pos })
                && #[trigger] call_ensures(ops, (FloatReq::Neg(x),), FloatReply::Bits(bits)),
        _ => is_err(
            out,
            ErrorType::TypeError,
            unary_err_msg("cannot make type "@, v.value, " negative"@),
            v.pos,
        ),
    }
}

pub open spec fn pos_result<F: Fn(FloatReq) -> FloatReply>(
    ops: F,
    v: EE,
    out: Result<EE, Error>,
) -> bool {
    match v.value {
        ExecutionExpr::Integer(a) => if a == i128::MIN {
            is_err(
                out,
                ErrorType::RuntimeError,
                val_fail_msg(
                    "failed to take the absolute value of `"@,
                    a as int,
                    "`: value overflowed"@,
                ),
                v.pos,
            )
        } else {
            out == Ok::<EE, Error>(
                EE {
                    value: ExecutionExpr::Integer((if a < 0 { -(a as int) } else { a as int }) as i128),
                    pos: v.pos,
                },
            )
        },
        ExecutionExpr::Float(x) => exists|bits: u64|
            out == Ok::<EE, Error>(EE { value: ExecutionExpr::Float(bits), pos: v.pos })
                && #[trigger] call_ensures(ops, (FloatReq::Abs(x),), FloatReply::Bits(bits)),
        _ => is_err(
            out,
            ErrorType::TypeError,
            unary_err_msg("cannot make type "@, v.value, " positive"@),
            v.pos,
        ),
    }
}

/// `base` raised to the `e`-th power, mathematically.
pub open spec fn spec_pow(base: int, e: nat) -> int
    decreases e,
{
    if e == 0 {
        1
    } else {
        base * spec_pow(base, (e - 1) as nat)
    }
}

/// An integer's magnitude.
pub open spec fn abs1(x: int) -> int {
    if x < 0 {
        -x
    } else {
        x
    }
}

proof fn lemma_pow_one(e: nat)
    ensures
        spec_pow(1, e) == 1,
    decreases e,
{
    if e > 0 {
        lemma_pow_one((e - 1) as nat);
    }
}

proof fn lemma_pow_neg_one(e: nat)
    ensures
        spec_pow(-1, e) == if e % 2 == 0 {
            1int
        } else {
            -1int
        },
    decreases e,
{
    if e > 0 {
        lemma_pow_neg_one((e - 1) as nat);
    }
}

/// With a base of magnitude at least two, later powers only grow, and grow
/// at least twofold per step.
proof fn lemma_pow_grows(base: int, m: nat, e: nat)
    requires
        abs1(base) >= 2,
        m <= e,
    ensures
        abs1(spec_pow(base, e)) >= abs1(spec_pow(base, m)),
        m < e ==> abs1(spec_pow(base, e)) >= 2 * abs1(spec_pow(base, m)),
    decreases e - m,
{
    if m < e {
        lemma_pow_grows(base, m, (e - 1) as nat);
        let x = spec_pow(base, (e - 1) as nat);
        if base >= 2 {
            if x >= 0 {
                assert(base * x >= 2 * x) by (nonlinear_arith)
                    requires
                        base >= 2,
                        x >= 0,
                ;
            } else {
                assert(base * x <= 2 * x) by (nonlinear_arith)
                    requires
                        base >= 2,
                        x <= 0,
                ;
            }
        } else {
            if x >= 0 {
                assert(base * x <= -2 * x) by (nonlinear_arith)
                    requires
                        base <= -2,
                        x >= 0,
                ;
            } else {
                assert(base * x >= -2 * x) by (nonlinear_arith)
                    requires
                        base <= -2,
                        x <= 0,
                ;
            }
        }
    }
}

/// Checked integer exponentiation: the exact power when it fits in 128-bit
/// signed range, `None` when it does not.
pub fn checked_pow_i128(base: i128, exp: u32) -> (r: Option<i128>)
    ensures
        ({
            let p = spec_pow(base as int, exp as nat);
            if i128::MIN <= p <= i128::MAX {
                r matches Some(v) && v as int == p
            } else {
                r is None
            }
        }),
{
    if exp == 0 {
        return Some(1);
    }
    if base == 0 {
        return Some(0);
    }
    if base == 1 {
        proof {
            lemma_pow_one(exp as nat);
        }
        return Some(1);
    }
    if base == -1 {
        proof {
            lemma_pow_neg_one(exp as nat);
        }
        return Some(
            if exp % 2 == 0 {
                1
            } else {
                -1
            },
        );
    }
    let mut acc: i128 = 1;
    let mut i: u32 = 0;
    while i < exp
        invariant
            i <= exp,
            abs1(base as int) >= 2,
            acc as int == spec_pow(base as int, i as nat),
        decreases exp - i,
    {
        acc = match acc.checked_mul(base) {
            Some(v) => v,
            None => {
                proof {
                    let x1 = spec_pow(base as int, (i + 1) as nat);
                    assert(x1 == acc as int * base as int) by {
                        assert(x1 == base as int * spec_pow(base as int, i as nat));
                    }
                    if i + 1 < exp {
                        lemma_pow_grows(base as int, (i + 1) as nat, exp as nat);
                    }
                }
                return None;
            },
        };
        i += 1;
        proof {
            assert(spec_pow(base as int, i as nat) == base as int * spec_pow(
                base as int,
                (i - 1) as nat,
            ));
        }
    }
    Some(acc)
}

pub open spec fn pow_result<F: Fn(FloatReq) -> FloatReply>(
    ops: F,
    l: EE,
    r: EE,
    out: Result<EE, Error>,
) -> bool {
    let pos = combined_pos(l.pos, r.pos);
    match (l.value, r.value) {
        (ExecutionExpr::Integer(a), ExecutionExpr::Integer(b)) => if 0 <= b <= u32::MAX {
            let p = spec_pow(a as int, b as nat);
            if i128::MIN <= p <= i128::MAX {
                out == Ok::<EE, Error>(EE { value: ExecutionExpr::Integer(p as i128), pos })
            } else {
                is_err(
                    out,
                    ErrorType::RuntimeError,
                    op_fail_msg(
                        "failed to raise `"@,
                        b as int,
                        "` to the power of `"@,
                        a as int,
                        "`: value overflowed"@,
                    ),
                    pos,
                )
            }
        } else {
            is_err(
                out,
                ErrorType::RuntimeError,
                op_fail_msg(
                    "failed to raise `"@,
                    a as int,
                    "` to the power of `"@,
                    b as int,
                    "`: out of range integral type conversion attempted"@,
                ),
                pos,
            )
        },
        (ExecutionExpr::Float(x), ExecutionExpr::Float(y)) => exists|bits: u64|
            out == Ok::<EE, Error>(EE { value: ExecutionExpr::Float(bits), pos })
                && #[trigger] call_ensures(ops, (FloatReq::Pow(x, y),), FloatReply::Bits(bits)),
        _ => is_err(out, ErrorType::TypeError, type_err_msg("power"@, l.value, r.value), pos),
    }
}

pub open spec fn bitshift_l_result(l: EE, r: EE, out: Result<EE, Error>) -> bool {
    let pos = combined_pos(l.pos, r.pos);
    match (l.value, r.value) {
        (ExecutionExpr::Integer(a), ExecutionExpr::Integer(b)) => if 0 <= b <= u32::MAX {
            if b < 128 {
                out == Ok::<EE, Error>(EE { value: ExecutionExpr::Integer(a << b), pos })
            } else {
                is_err(
                    out,
                    ErrorType::RuntimeError,
                    op_fail_msg(
                        "failed to bitshift `"@,
                        a as int,
                        "` left by `"@,
                        b as int,
                        "`: overflowed"@,
                    ),
                    pos,
                )
            }
        } else {
            is_err(
                out,
                ErrorType::RuntimeError,
                op_fail_msg(
                    "failed to bitshift `"@,
                    a as int,
                    "` left `"@,
                    b as int,
                    "`: out of range integral type conversion attempted"@,
                ),
                pos,
            )
        },
        _ => is_err(
            out,
            ErrorType::TypeError,
            type_err_msg("left bitshift"@, l.value, r.value),
            pos,
        ),
    }
}

pub open spec fn bitshift_r_result(l: EE, r: EE, out: Result<EE, Error>) -> bool {
    let pos = combined_pos(l.pos, r.pos);
    match (l.value, r.value) {
        (ExecutionExpr::Integer(a), ExecutionExpr::Integer(b)) => if 0 <= b <= u32::MAX {
            if b < 128 {
                out == Ok::<EE, Error>(EE { value: ExecutionExpr::Integer(a >> b), pos })
            } else {
                is_err(
                    out,
                    ErrorType::RuntimeError,
                    op_fail_msg(
                        "failed to bitshift `"@,
                        a as int,
                        "` right by `"@,
                        b as int,
                        "`: overflowed"@,
                    ),
                    pos,
                )
            }
        } else {
            is_err(
                out,
                ErrorType::RuntimeError,
                op_fail_msg(
                    "failed to bitshift `"@,
                    a as int,
                    "` right `"@,
                    b as int,
                    "`: out of range integral type conversion attempted"@,
                ),
                pos,
            )
        },
        _ => is_err(
            out,
            ErrorType::TypeError,
            type_err_msg("right bitshift "@, l.value, r.value),
            pos,
        ),
    }
}

/// Structural equality across any pair of variants: mismatched variants are
/// simply unequal, never a type error; float equality is the host's IEEE
/// comparison.
pub open spec fn eql_result<F: Fn(FloatReq) -> FloatReply>(
    ops: F,
    l: EE,
    r: EE,
    out: Result<EE, Error>,
) -> bool {
    let pos = combined_pos(l.pos, r.pos);
    match (l.value, r.value) {
        (ExecutionExpr::Integer(a), ExecutionExpr::Integer(b)) => out == Ok::<EE, Error>(
            EE { value: ExecutionExpr::Bool(a == b), pos },
        ),
        (ExecutionExpr::Float(x), ExecutionExpr::Float(y)) => exists|t: bool|
            out == Ok::<EE, Error>(EE { value: ExecutionExpr::Bool(t), pos })
                && #[trigger] call_ensures(ops, (FloatReq::CmpEq(x, y),), FloatReply::Truth(t)),
        (ExecutionExpr::Bool(a), ExecutionExpr::Bool(b)) => out == Ok::<EE, Error>(
            EE { value: ExecutionExpr::Bool(a == b), pos },
        ),
        _ => out == Ok::<EE, Error>(EE { value: ExecutionExpr::Bool(false), pos }),
    }
}

pub open spec fn neql_result<F: Fn(FloatReq) -> FloatReply>(
    ops: F,
    l: EE,
    r: EE,
    out: Result<EE, Error>,
) -> bool {
    let pos = combined_pos(l.pos, r.pos);
    match (l.value, r.value) {
        (ExecutionExpr::Integer(a), ExecutionExpr::Integer(b)) => out == Ok::<EE, Error>(
            EE { value: ExecutionExpr::Bool(a != b), pos },
        ),
        (ExecutionExpr::Float(x), ExecutionExpr::Float(y)) => exists|t: bool|
            out == Ok::<EE, Error>(EE { value: ExecutionExpr::Bool(!t), pos })
                && #[trigger] call_ensures(ops, (FloatReq::CmpEq(x, y),), FloatReply::Truth(t)),
        (ExecutionExpr::Bool(a), ExecutionExpr::Bool(b)) => out == Ok::<EE, Error>(
            EE { value: ExecutionExpr::Bool(a != b), pos },
        ),
        _ => out == Ok::<EE, Error>(EE { value: ExecutionExpr::Bool(true), pos }),
    }
}

pub open spec fn lt_result<F: Fn(FloatReq) -> FloatReply>(
    ops: F,
    l: EE,
    r: EE,
    out: Result<EE, Error>,
) -> bool {
    let pos = combined_pos(l.pos, r.pos);
    match (l.value, r.value) {
        (ExecutionExpr::Integer(a), ExecutionExpr::Integer(b)) => out == Ok::<EE, Error>(
            EE { value: ExecutionExpr::Bool(a < b), pos },
        ),
        (ExecutionExpr::Float(x), ExecutionExpr::Float(y)) => exists|t: bool|
            out == Ok::<EE, Error>(EE { value: ExecutionExpr::Bool(t), pos })
                && #[trigger] call_ensures(ops, (FloatReq::CmpLt(x, y),), FloatReply::Truth(t)),
        _ => is_err(out, ErrorType::TypeError, type_err_msg("less than"@, l.value, r.value), pos),
    }
}

pub open spec fn gt_result<F: Fn(FloatReq) -> FloatReply>(
    ops: F,
    l: EE,
    r: EE,
    out: Result<EE, Error>,
) -> bool {
    let pos = combined_pos(l.pos, r.pos);
    match (l.value, r.value) {
        (ExecutionExpr::Integer(a), ExecutionExpr::Integer(b)) => out == Ok::<EE, Error>(
            EE { value: ExecutionExpr::Bool(a > b), pos },
        ),
        (ExecutionExpr::Float(x), ExecutionExpr::Float(y)) => exists|t: bool|
            out == Ok::<EE, Error>(EE { value: ExecutionExpr::Bool(t), pos })
                && #[trigger] call_ensures(ops, (FloatReq::CmpGt(x, y),), FloatReply::Truth(t)),
        _ => is_err(
            out,
            ErrorType::TypeError,
            type_err_msg("greater than"@, l.value, r.value),
            pos,
        ),
    }
}

pub open spec fn lte_result<F: Fn(FloatReq) -> FloatReply>(
    ops: F,
    l: EE,
    r: EE,
    out: Result<EE, Error>,
) -> bool {
    let pos = combined_pos(l.pos, r.pos);
    match (l.value, r.value) {
        (ExecutionExpr::Integer(a), ExecutionExpr::Integer(b)) => out == Ok::<EE, Error>(
            EE { value: ExecutionExpr::Bool(a <= b), pos },
        ),
        (ExecutionExpr::Float(x), ExecutionExpr::Float(y)) => exists|t: bool|
            out == Ok::<EE, Error>(EE { value: ExecutionExpr::Bool(t), pos })
                && #[trigger] call_ensures(ops, (FloatReq::CmpLe(x, y),), FloatReply::Truth(t)),
        _ => is_err(out, ErrorType::TypeError, type_err_msg("less than"@, l.value, r.value), pos),
    }
}

pub open spec fn gte_result<F: Fn(FloatReq) -> FloatReply>(
    ops: F,
    l: EE,
    r: EE,
    out: Result<EE, Error>,
) -> bool {
    let pos = combined_pos(l.pos, r.pos);
    match (l.value, r.value) {
        (ExecutionExpr::Integer(a), ExecutionExpr::Integer(b)) => out == Ok::<EE, Error>(
            EE { value: ExecutionExpr::Bool(a >= b), pos },
        ),
        (ExecutionExpr::Float(x), ExecutionExpr::Float(y)) => exists|t: bool|
            out == Ok::<EE, Error>(EE { value: ExecutionExpr::Bool(t), pos })
                && #[trigger] call_ensures(ops, (FloatReq::CmpGe(x, y),), FloatReply::Truth(t)),
        _ => is_err(
            out,
            ErrorType::TypeError,
            type_err_msg("greater than"@, l.value, r.value),
            pos,
        ),
    }
}

/// A boolean as the integer the cast rules map it to.
pub open spec fn bool_to_int(b: bool) -> i128 {
    if b {
        1
    } else {
        0
    }
}

/// What the cast operator returns. The target must be an identifier naming
/// exactly `float` or `int`. Integer-to-float demands the integer fit in
/// 32-bit signed range; float-to-int rounds half away from zero; booleans
/// map to one and zero. Identity casts return the value unchanged. The
/// result keeps the operand's span.
pub open spec fn as_cast_result<F: Fn(FloatReq) -> FloatReply>(
    ops: F,
    l: EE,
    target: Expression,
    out: Result<EE, Error>,
) -> bool {
    match target.expr {
        ExpressionKind::Ident(tok) => if tok@ == "float"@ {
            match l.value {
                ExecutionExpr::Integer(val) => if -2147483648 <= val <= 2147483647 {
                    exists|bits: u64|
                        out == Ok::<EE, Error>(
                            EE { value: ExecutionExpr::Float(bits), pos: l.pos },
                        ) && #[trigger] call_ensures(
                            ops,
                            (FloatReq::OfInt(val),),
                            FloatReply::Bits(bits),
                        )
                } else {
                    is_err(
                        out,
                        ErrorType::RuntimeError,
                        val_fail_msg(
                            "failed to convert `"@,
                            val as int,
                            "` to `float`: out of range integral type conversion attempted"@,
                        ),
                        l.pos,
                    )
                },
                ExecutionExpr::Float(_) => out == Ok::<EE, Error>(
                    EE { value: l.value, pos: l.pos },
                ),
                ExecutionExpr::Bool(b) => exists|bits: u64|
                    out == Ok::<EE, Error>(EE { value: ExecutionExpr::Float(bits), pos: l.pos })
                        && #[trigger] call_ensures(
                        ops,
                        (FloatReq::OfInt(bool_to_int(b)),),
                        FloatReply::Bits(bits),
                    ),
            }
        } else if tok@ == "int"@ {
            match l.value {
                ExecutionExpr::Integer(_) => out == Ok::<EE, Error>(
                    EE { value: l.value, pos: l.pos },
                ),
                ExecutionExpr::Float(x) => exists|iv: i128|
                    out == Ok::<EE, Error>(EE { value: ExecutionExpr::Integer(iv), pos: l.pos })
                        && #[trigger] call_ensures(
                        ops,
                        (FloatReq::ToIntRound(x),),
                        FloatReply::Int(iv),
                    ),
                ExecutionExpr::Bool(b) => out == Ok::<EE, Error>(
                    EE {
                        value: ExecutionExpr::Integer(
                            if b {
                                1
                            } else {
                                0
                            },
                        ),
                        pos: l.pos,
                    },
                ),
            }
        } else {
            is_err(out, ErrorType::TypeError, "unknown type `"@ + tok@ + "`"@, target.pos)
        },
        _ => is_err(
            out,
            ErrorType::TypeError,
            "invalid type for `as` type operand"@,
            target.pos,
        ),
    }
}

impl EE {
    pub fn new(expr: ExecutionExpr, pos: Pos) -> (r: Self)
        ensures
            r.value == expr,
            r.pos == pos,
    {
        EE { value: expr, pos }
    }

    pub fn calc_pos(&self, other: &Self) -> (p: Pos)
        ensures
            p == combined_pos(self.pos, other.pos),
    {
        Pos::new(self.pos.start, other.pos.end)
    }

    pub fn gen_type_err(&self, other: &Self, operation: &'static str) -> (e: Error)
        ensures
            e.error_type == ErrorType::TypeError,
            e.pos == combined_pos(self.pos, other.pos),
            e.message@ == type_err_msg(operation@, self.value, other.value),
    {
        let mut m = "cannot apply operator `".to_owned();
        m.append(operation);
        m.append("` on types ");
        m.append(self.value.display_type());
        m.append(" and ");
        m.append(other.value.display_type());
        proof {
            assert(m@ =~= type_err_msg(operation@, self.value, other.value));
        }
        Error::new(m, ErrorType::TypeError, self.calc_pos(other))
    }

    pub fn add<F: Fn(FloatReq) -> FloatReply + Copy>(&self, other: &Self, ops: F) -> (r: Result<
        Self,
        Error,
    >)
        requires
            float_ops_wf(ops),
        ensures
            add_result(ops, *self, *other, r),
    {
        match (&self.value, &other.value) {
            (ExecutionExpr::Integer(left), ExecutionExpr::Integer(right)) => match left
                .checked_add(*right) {
                Some(val) => Ok(EE::new(ExecutionExpr::Integer(val), self.calc_pos(other))),
                None => Err(
                    Error::new(
                        build_op_fail_msg(
                            "failed to add `",
                            *left,
                            "` and `",
                            *right,
                            "`: value overflowed",
                        ),
                        ErrorType::RuntimeError,
                        self.calc_pos(other),
                    ),
                ),
            },
            (ExecutionExpr::Float(left), ExecutionExpr::Float(right)) => {
                let bits = ask_bits(ops, FloatReq::Add(*left, *right));
                Ok(EE::new(ExecutionExpr::Float(bits), self.calc_pos(other)))
            },
            _ => Err(self.gen_type_err(other, "add")),
        }
    }

    pub fn sub<F: Fn(FloatReq) -> FloatReply + Copy>(&self, other: &Self, ops: F) -> (r: Result<
        Self,
        Error,
    >)
        requires
            float_ops_wf(ops),
        ensures
            sub_result(ops, *self, *other, r),
    {
        match (&self.value, &other.value) {
            (ExecutionExpr::Integer(left), ExecutionExpr::Integer(right)) => match left
                .checked_sub(*right) {
                Some(val) => Ok(EE::new(ExecutionExpr::Integer(val), self.calc_pos(other))),
                None => Err(
                    Error::new(
                        build_op_fail_msg(
                            "failed to subtract `",
                            *right,
                            "` from `",
                            *left,
                            "`: value overflowed",
                        ),
                        ErrorType::RuntimeError,
                        self.calc_pos(other),
                    ),
                ),
            },
            (ExecutionExpr::Float(left), ExecutionExpr::Float(right)) => {
                let bits = ask_bits(ops, FloatReq::Sub(*left, *right));
                Ok(EE::new(ExecutionExpr::Float(bits), self.calc_pos(other)))
            },
            _ => Err(self.gen_type_err(other, "subtract")),
        }
    }

    pub fn mul<F: Fn(FloatReq) -> FloatReply + Copy>(&self, other: &Self, ops: F) -> (r: Result<
        Self,
        Error,
    >)
        requires
            float_ops_wf(ops),
        ensures
            mul_result(ops, *self, *other, r),
    {
        match (&self.value, &other.value) {
            (ExecutionExpr::Integer(left), ExecutionExpr::Integer(right)) => match left
                .checked_mul(*right) {
                Some(val) => Ok(EE::new(ExecutionExpr::Integer(val), self.calc_pos(other))),
                None => Err(
                    Error::new(
                        build_op_fail_msg(
                            "failed to multiply `",
                            *right,
                            "` by `",
                            *left,
                            "`: value overflowed",
                        ),
                        ErrorType::RuntimeError,
                        self.calc_pos(other),
                    ),
                ),
            },
            (ExecutionExpr::Float(left), ExecutionExpr::Float(right)) => {
                let bits = ask_bits(ops, FloatReq::Mul(*left, *right));
                Ok(EE::new(ExecutionExpr::Float(bits), self.calc_pos(other)))
            },
            _ => Err(self.gen_type_err(other, "multiply")),
        }
    }

    /// The truncating remainder; a zero divisor, or the one overflowing
    /// remainder, is a runtime error.
    pub fn modulo<F: Fn(FloatReq) -> FloatReply + Copy>(&self, other: &Self, ops: F) -> (r: Result<
        Self,
        Error,
    >)
        requires
            float_ops_wf(ops),
        ensures
            modulo_result(ops, *self, *other, r),
    {
        match (&self.value, &other.value) {
            (ExecutionExpr::Integer(left), ExecutionExpr::Integer(right)) => match left
                .checked_rem(*right) {
                Some(val) => Ok(EE::new(ExecutionExpr::Integer(val), self.calc_pos(other))),
                None => Err(
                    Error::new(
                        build_op_fail_msg(
                            "failed to modulo `",
                            *right,
                            "` by `",
                            *left,
                            "`: value overflowed",
                        ),
                        ErrorType::RuntimeError,
                        self.calc_pos(other),
                    ),
                ),
            },
            (ExecutionExpr::Float(left), ExecutionExpr::Float(right)) => {
                let bits = ask_bits(ops, FloatReq::Rem(*left, *right));
                Ok(EE::new(ExecutionExpr::Float(bits), self.calc_pos(other)))
            },
            _ => Err(self.gen_type_err(other, "modulo")),
        }
    }

    /// Division always produces a float, whatever the operand variants.
    pub fn div<F: Fn(FloatReq) -> FloatReply + Copy>(&self, other: &Self, ops: F) -> (r: Result<
        Self,
        Error,
    >)
        requires
            float_ops_wf(ops),
        ensures
            div_result(ops, *self, *other, r),
    {
        match (&self.value, &other.value) {
            (ExecutionExpr::Integer(left), ExecutionExpr::Integer(right)) => {
                let xa = ask_bits(ops, FloatReq::OfInt(*left));
                let xb = ask_bits(ops, FloatReq::OfInt(*right));
                let bits = ask_bits(ops, FloatReq::Div(xa, xb));
                Ok(EE::new(ExecutionExpr::Float(bits), self.calc_pos(other)))
            },
            (ExecutionExpr::Float(left), ExecutionExpr::Float(right)) => {
                let bits = ask_bits(ops, FloatReq::Div(*left, *right));
                Ok(EE::new(ExecutionExpr::Float(bits), self.calc_pos(other)))
            },
            _ => Err(self.gen_type_err(other, "divide")),
        }
    }

    /// Checked integer division; two floats are first truncated to 128-bit
    /// integers, and the error message on a zero or overflowing division
    /// renders those truncated operands.
    pub fn int_div<F: Fn(FloatReq) -> FloatReply + Copy>(&self, other: &Self, ops: F) -> (r:
        Result<Self, Error>)
        requires
            float_ops_wf(ops),
        ensures
            int_div_result(ops, *self, *other, r),
    {
        match (&self.value, &other.value) {
            (ExecutionExpr::Integer(left), ExecutionExpr::Integer(right)) => match left
                .checked_div(*right) {
                Some(val) => Ok(EE::new(ExecutionExpr::Integer(val), self.calc_pos(other))),
                None => Err(
                    Error::new(
                        build_op_fail_msg(
                            "failed to integer divide `",
                            *right,
                            "` by `",
                            *left,
                            "`: value overflowed",
                        ),
                        ErrorType::RuntimeError,
                        self.calc_pos(other),
                    ),
                ),
            },
            (ExecutionExpr::Float(left), ExecutionExpr::Float(right)) => {
                let ia = ask_int(ops, FloatReq::ToIntTrunc(*left));
                let ib = ask_int(ops, FloatReq::ToIntTrunc(*right));
                match ia.checked_div(ib) {
                    Some(val) => Ok(EE::new(ExecutionExpr::Integer(val), self.calc_pos(other))),
                    None => Err(
                        Error::new(
                            build_op_fail_msg(
                                "failed to integer divide `",
                                ib,
                                "` by `",
                                ia,
                                "`: value overflowed",
                            ),
                            ErrorType::RuntimeError,
                            self.calc_pos(other),
                        ),
                    ),
                }
            },
            _ => Err(self.gen_type_err(other, "integer divide")),
        }
    }

    /// Integer exponents must fit in unsigned 32-bit range; the power is
    /// checked.
    pub fn pow<F: Fn(FloatReq) -> FloatReply + Copy>(&self, other: &Self, ops: F) -> (r: Result<
        Self,
        Error,
    >)
        requires
            float_ops_wf(ops),
        ensures
            pow_result(ops, *self, *other, r),
    {
        match (&self.value, &other.value) {
            (ExecutionExpr::Integer(left), ExecutionExpr::Integer(right)) => {
                if *right >= 0 && *right <= u32::MAX as i128 {
                    match checked_pow_i128(*left, *right as u32) {
                        Some(val) => Ok(EE::new(ExecutionExpr::Integer(val), self.calc_pos(other))),
                        None => Err(
                            Error::new(
                                build_op_fail_msg(
                                    "failed to raise `",
                                    *right,
                                    "` to the power of `",
                                    *left,
                                    "`: value overflowed",
                                ),
                                ErrorType::RuntimeError,
                                self.calc_pos(other),
                            ),
                        ),
                    }
                } else {
                    Err(
                        Error::new(
                            build_op_fail_msg(
                                "failed to raise `",
                                *left,
                                "` to the power of `",
                                *right,
                                "`: out of range integral type conversion attempted",
                            ),
                            ErrorType::RuntimeError,
                            self.calc_pos(other),
                        ),
                    )
                }
            },
            (ExecutionExpr::Float(left), ExecutionExpr::Float(right)) => {
                let bits = ask_bits(ops, FloatReq::Pow(*left, *right));
                Ok(EE::new(ExecutionExpr::Float(bits), self.calc_pos(other)))
            },
            _ => Err(self.gen_type_err(other, "power")),
        }
    }

    /// The shift amount must fit in unsigned 32-bit range and be below the
    /// integer's 128-bit width.
    pub fn bitshift_l(&self, other: &Self) -> (r: Result<Self, Error>)
        ensures
            bitshift_l_result(*self, *other, r),
    {
        match (&self.value, &other.value) {
            (ExecutionExpr::Integer(left), ExecutionExpr::Integer(right)) => {
                if *right >= 0 && *right <= u32::MAX as i128 {
                    if *right < 128 {
                        Ok(
                            EE::new(
                                ExecutionExpr::Integer(*left << *right),
                                self.calc_pos(other),
                            ),
                        )
                    } else {
                        Err(
                            Error::new(
                                build_op_fail_msg(
                                    "failed to bitshift `",
                                    *left,
                                    "` left by `",
                                    *right,
                                    "`: overflowed",
                                ),
                                ErrorType::RuntimeError,
                                self.calc_pos(other),
                            ),
                        )
                    }
                } else {
                    Err(
                        Error::new(
                            build_op_fail_msg(
                                "failed to bitshift `",
                                *left,
                                "` left `",
                                *right,
                                "`: out of range integral type conversion attempted",
                            ),
                            ErrorType::RuntimeError,
                            self.calc_pos(other),
                        ),
                    )
                }
            },
            _ => Err(self.gen_type_err(other, "left bitshift")),
        }
    }

    /// The shift amount must fit in unsigned 32-bit range and be below the
    /// integer's 128-bit width.
    pub fn bitshift_r(&self, other: &Self) -> (r: Result<Self, Error>)
        ensures
            bitshift_r_result(*self, *other, r),
    {
        match (&self.value, &other.value) {
            (ExecutionExpr::Integer(left), ExecutionExpr::Integer(right)) => {
                if *right >= 0 && *right <= u32::MAX as i128 {
                    if *right < 128 {
                        Ok(
                            EE::new(
                                ExecutionExpr::Integer(*left >> *right),
                                self.calc_pos(other),
                            ),
                        )
                    } else {
                        Err(
                            Error::new(
                                build_op_fail_msg(
                                    "failed to bitshift `",
                                    *left,
                                    "` right by `",
                                    *right,
                                    "`: overflowed",
                                ),
                                ErrorType::RuntimeError,
                                self.calc_pos(other),
                            ),
                        )
                    }
                } else {
                    Err(
                        Error::new(
                            build_op_fail_msg(
                                "failed to bitshift `",
                                *left,
                                "` right `",
                                *right,
                                "`: out of range integral type conversion attempted",
                            ),
                            ErrorType::RuntimeError,
                            self.calc_pos(other),
                        ),
                    )
                }
            },
            _ => Err(self.gen_type_err(other, "right bitshift ")),
        }
    }

    /// The cast operator: the right operand is the unevaluated target
    /// expression, which must be an identifier naming `float` or `int`.
    pub fn as_cast<F: Fn(FloatReq) -> FloatReply + Copy>(&self, target_type: Expression, ops: F)
        -> (r: Result<Self, Error>)
        requires
            float_ops_wf(ops),
        ensures
            as_cast_result(ops, *self, target_type, r),
    {
        match target_type.expr {
            ExpressionKind::Ident(tok) => {
                if str_content_eq(tok.as_str(), "float") {
                    match self.value {
                        ExecutionExpr::Integer(val) => {
                            if -2147483648 <= val && val <= 2147483647 {
                                let bits = ask_bits(ops, FloatReq::OfInt(val));
                                Ok(EE::new(ExecutionExpr::Float(bits), self.pos))
                            } else {
                                Err(
                                    Error::new(
                                        build_val_fail_msg(
                                            "failed to convert `",
                                            val,
                                            "` to `float`: out of range integral type conversion attempted",
                                        ),
                                        ErrorType::RuntimeError,
                                        self.pos,
                                    ),
                                )
                            }
                        },
                        ExecutionExpr::Float(_) => Ok(EE::new(self.value, self.pos)),
                        ExecutionExpr::Bool(val) => {
                            let iv: i128 = if val {
                                1
                            } else {
                                0
                            };
                            proof {
                                assert(iv == bool_to_int(val));
                            }
                            let bits = ask_bits(ops, FloatReq::OfInt(iv));
                            Ok(EE::new(ExecutionExpr::Float(bits), self.pos))
                        },
                    }
                } else if str_content_eq(tok.as_str(), "int") {
                    match self.value {
                        ExecutionExpr::Integer(_) => Ok(EE::new(self.value, self.pos)),
                        ExecutionExpr::Float(val) => {
                            let iv = ask_int(ops, FloatReq::ToIntRound(val));
                            Ok(EE::new(ExecutionExpr::Integer(iv), self.pos))
                        },
                        ExecutionExpr::Bool(val) => Ok(
                            EE::new(
                                ExecutionExpr::Integer(
                                    if val {
                                        1
                                    } else {
                                        0
                                    },
                                ),
                                self.pos,
                            ),
                        ),
                    }
                } else {
                    let mut m = "unknown type `".to_owned();
                    m.append(tok.as_str());
                    m.append("`");
                    proof {
                        assert(m@ =~= "unknown type `"@ + tok@ + "`"@);
                    }
                    Err(Error::new(m, ErrorType::TypeError, target_type.pos))
                }
            },
            _ => Err(
                Error::new(
                    "invalid type for `as` type operand".to_owned(),
                    ErrorType::TypeError,
                    target_type.pos,
                ),
            ),
        }
    }

    pub fn lnot(&self) -> (r: Result<Self, Error>)
        ensures
            lnot_result(*self, r),
    {
        match &self.value {
            ExecutionExpr::Bool(val) => Ok(EE::new(ExecutionExpr::Bool(!val), self.pos)),
            _ => Err(
                Error::new(
                    build_unary_err_msg("cannot logically negate `", self.value, "`"),
                    ErrorType::TypeError,
                    self.pos,
                ),
            ),
        }
    }

    pub fn land(&self, other: &Self) -> (r: Result<Self, Error>)
        ensures
            land_result(*self, *other, r),
    {
        match (&self.value, &other.value) {
            (ExecutionExpr::Bool(left), ExecutionExpr::Bool(right)) => Ok(
                EE::new(ExecutionExpr::Bool(*left && *right), self.calc_pos(other)),
            ),
            _ => Err(self.gen_type_err(other, "logical and")),
        }
    }

    pub fn lor(&self, other: &Self) -> (r: Result<Self, Error>)
        ensures
            lor_result(*self, *other, r),
    {
        match (&self.value, &other.value) {
            (ExecutionExpr::Bool(left), ExecutionExpr::Bool(right)) => Ok(
                EE::new(ExecutionExpr::Bool(*left || *right), self.calc_pos(other)),
            ),
            _ => Err(self.gen_type_err(other, "logical or")),
        }
    }

    pub fn band(&self, other: &Self) -> (r: Result<Self, Error>)
        ensures
            band_result(*self, *other, r),
    {
        match (&self.value, &other.value) {
            (ExecutionExpr::Integer(left), ExecutionExpr::Integer(right)) => Ok(
                EE::new(ExecutionExpr::Integer(*left & *right), self.calc_pos(other)),
            ),
            _ => Err(self.gen_type_err(other, "bitwise and")),
        }
    }

    pub fn bor(&self, other: &Self) -> (r: Result<Self, Error>)
        ensures
            bor_result(*self, *other, r),
    {
        match (&self.value, &other.value) {
            (ExecutionExpr::Integer(left), ExecutionExpr::Integer(right)) => Ok(
                EE::new(ExecutionExpr::Integer(*left | *right), self.calc_pos(other)),
            ),
            _ => Err(self.gen_type_err(other, "bitwise or")),
        }
    }

    pub fn bxor(&self, other: &Self) -> (r: Result<Self, Error>)
        ensures
            bxor_result(*self, *other, r),
    {
        match (&self.value, &other.value) {
            (ExecutionExpr::Integer(left), ExecutionExpr::Integer(right)) => Ok(
                EE::new(ExecutionExpr::Integer(*left ^ *right), self.calc_pos(other)),
            ),
            _ => Err(self.gen_type_err(other, "bitwise xor")),
        }
    }

    pub fn bnot(&self) -> (r: Result<Self, Error>)
        ensures
            bnot_result(*self, r),
    {
        match &self.value {
            ExecutionExpr::Integer(val) => {
                let complement: i128 = if *val == i128::MAX {
                    i128::MIN
                } else {
                    -(*val + 1)
                };
                Ok(EE::new(ExecutionExpr::Integer(complement), self.pos))
            },
            _ => Err(
                Error::new(
                    build_unary_err_msg("cannot bitwise negate `", self.value, "`"),
                    ErrorType::TypeError,
                    self.pos,
                ),
            ),
        }
    }

    /// Arithmetic negation; the smallest integer, whose negation does not
    /// fit, is a runtime error.
    pub fn neg<F: Fn(FloatReq) -> FloatReply + Copy>(&self, ops: F) -> (r: Result<Self, Error>)
        requires
            float_ops_wf(ops),
        ensures
            neg_result(ops, *self, r),
    {
        match &self.value {
            ExecutionExpr::Integer(val) => {
                if *val == i128::MIN {
                    Err(
                        Error::new(
                            build_val_fail_msg("failed to negate `", *val, "`: value overflowed"),
                            ErrorType::RuntimeError,
                            self.pos,
                        ),
                    )
                } else {
                    Ok(EE::new(ExecutionExpr::Integer(-*val), self.pos))
                }
            },
            ExecutionExpr::Float(val) => {
                let bits = ask_bits(ops, FloatReq::Neg(*val));
                Ok(EE::new(ExecutionExpr::Float(bits), self.pos))
            },
            _ => Err(
                Error::new(
                    build_unary_err_msg("cannot make type ", self.value, " negative"),
                    ErrorType::TypeError,
                    self.pos,
                ),
            ),
        }
    }

    /// The unary `+` computes an absolute value, not the identity.
    pub fn pos<F: Fn(FloatReq) -> FloatReply + Copy>(&self, ops: F) -> (r: Result<Self, Error>)
        requires
            float_ops_wf(ops),
        ensures
            pos_result(ops, *self, r),
    {
        match &self.value {
            ExecutionExpr::Integer(val) => {
                if *val == i128::MIN {
                    Err(
                        Error::new(
                            build_val_fail_msg(
                                "failed to take the absolute value of `",
                                *val,
                                "`: value overflowed",
                            ),
                            ErrorType::RuntimeError,
                            self.pos,
                        ),
                    )
                } else {
                    let magnitude: i128 = if *val < 0 {
                        -*val
                    } else {
                        *val
                    };
                    Ok(EE::new(ExecutionExpr::Integer(magnitude), self.pos))
                }
            },
            ExecutionExpr::Float(val) => {
                let bits = ask_bits(ops, FloatReq::Abs(*val));
                Ok(EE::new(ExecutionExpr::Float(bits), self.pos))
            },
            _ => Err(
                Error::new(
                    build_unary_err_msg("cannot make type ", self.value, " positive"),
                    ErrorType::TypeError,
                    self.pos,
                ),
            ),
        }
    }

    pub fn eql<F: Fn(FloatReq) -> FloatReply + Copy>(&self, other: &Self, ops: F) -> (r: Result<
        Self,
        Error,
    >)
        requires
            float_ops_wf(ops),
        ensures
            eql_result(ops, *self, *other, r),
    {
        match (&self.value, &other.value) {
            (ExecutionExpr::Integer(left), ExecutionExpr::Integer(right)) => Ok(
                EE::new(ExecutionExpr::Bool(*left == *right), self.calc_pos(other)),
            ),
            (ExecutionExpr::Float(left), ExecutionExpr::Float(right)) => {
                let t = ask_truth(ops, FloatReq::CmpEq(*left, *right));
                Ok(EE::new(ExecutionExpr::Bool(t), self.calc_pos(other)))
            },
            (ExecutionExpr::Bool(left), ExecutionExpr::Bool(right)) => Ok(
                EE::new(ExecutionExpr::Bool(*left == *right), self.calc_pos(other)),
            ),
            _ => Ok(EE::new(ExecutionExpr::Bool(false), self.calc_pos(other))),
        }
    }

    pub fn neql<F: Fn(FloatReq) -> FloatReply + Copy>(&self, other: &Self, ops: F) -> (r: Result<
        Self,
        Error,
    >)
        requires
            float_ops_wf(ops),
        ensures
            neql_result(ops, *self, *other, r),
    {
        match (&self.value, &other.value) {
            (ExecutionExpr::Integer(left), ExecutionExpr::Integer(right)) => Ok(
                EE::new(ExecutionExpr::Bool(*left != *right), self.calc_pos(other)),
            ),
            (ExecutionExpr::Float(left), ExecutionExpr::Float(right)) => {
                let t = ask_truth(ops, FloatReq::CmpEq(*left, *right));
                Ok(EE::new(ExecutionExpr::Bool(!t), self.calc_pos(other)))
            },
            (ExecutionExpr::Bool(left), ExecutionExpr::Bool(right)) => Ok(
                EE::new(ExecutionExpr::Bool(*left != *right), self.calc_pos(other)),
            ),
            _ => Ok(EE::new(ExecutionExpr::Bool(true), self.calc_pos(other))),
        }
    }

    pub fn lt<F: Fn(FloatReq) -> FloatReply + Copy>(&self, other: &Self, ops: F) -> (r: Result<
        Self,
        Error,
    >)
        requires
            float_ops_wf(ops),
        ensures
            lt_result(ops, *self, *other, r),
    {
        match (&self.value, &other.value) {
            (ExecutionExpr::Integer(left), ExecutionExpr::Integer(right)) => Ok(
                EE::new(ExecutionExpr::Bool(*left < *right), self.calc_pos(other)),
            ),
            (ExecutionExpr::Float(left), ExecutionExpr::Float(right)) => {
                let t = ask_truth(ops, FloatReq::CmpLt(*left, *right));
                Ok(EE::new(ExecutionExpr::Bool(t), self.calc_pos(other)))
            },
            _ => Err(self.gen_type_err(other, "less than")),
        }
    }

    pub fn gt<F: Fn(FloatReq) -> FloatReply + Copy>(&self, other: &Self, ops: F) -> (r: Result<
        Self,
        Error,
    >)
        requires
            float_ops_wf(ops),
        ensures
            gt_result(ops, *self, *other, r),
    {
        match (&self.value, &other.value) {
            (ExecutionExpr::Integer(left), ExecutionExpr::Integer(right)) => Ok(
                EE::new(ExecutionExpr::Bool(*left > *right), self.calc_pos(other)),
            ),
            (ExecutionExpr::Float(left), ExecutionExpr::Float(right)) => {
                let t = ask_truth(ops, FloatReq::CmpGt(*left, *right));
                Ok(EE::new(ExecutionExpr::Bool(t), self.calc_pos(other)))
            },
            _ => Err(self.gen_type_err(other, "greater than")),
        }
    }

    pub fn lte<F: Fn(FloatReq) -> FloatReply + Copy>(&self, other: &Self, ops: F) -> (r: Result<
        Self,
        Error,
    >)
        requires
            float_ops_wf(ops),
        ensures
            lte_result(ops, *self, *other, r),
    {
        match (&self.value, &other.value) {
            (ExecutionExpr::Integer(left), ExecutionExpr::Integer(right)) => Ok(
                EE::new(ExecutionExpr::Bool(*left <= *right), self.calc_pos(other)),
            ),
            (ExecutionExpr::Float(left), ExecutionExpr::Float(right)) => {
                let t = ask_truth(ops, FloatReq::CmpLe(*left, *right));
                Ok(EE::new(ExecutionExpr::Bool(t), self.calc_pos(other)))
            },
            _ => Err(self.gen_type_err(other, "less than")),
        }
    }

    pub fn gte<F: Fn(FloatReq) -> FloatReply + Copy>(&self, other: &Self, ops: F) -> (r: Result<
        Self,
        Error,
    >)
        requires
            float_ops_wf(ops),
        ensures
            gte_result(ops, *self, *other, r),
    {
        match (&self.value, &other.value) {
            (ExecutionExpr::Integer(left), ExecutionExpr::Integer(right)) => Ok(
                EE::new(ExecutionExpr::Bool(*left >= *right), self.calc_pos(other)),
            ),
            (ExecutionExpr::Float(left), ExecutionExpr::Float(right)) => {
                let t = ask_truth(ops, FloatReq::CmpGe(*left, *right));
                Ok(EE::new(ExecutionExpr::Bool(t), self.calc_pos(other)))
            },
            _ => Err(self.gen_type_err(other, "greater than")),
        }
    }
}

/// The spelling of each operator in source text.
pub open spec fn spec_op_text(op: Operator) -> Seq<char> {
    match op {
        Operator::Add => "+"@,
        Operator::Sub => "-"@,
        Operator::Mul => "*"@,
        Operator::Div => "/"@,
        Operator::IntDiv => "//"@,
        Operator::Mod => "%"@,
        Operator::Pow => "**"@,
        Operator::BitShiftL => "<<"@,
        Operator::BitShiftR => ">>"@,
        Operator::BAnd => "&"@,
        Operator::BOr => "|"@,
        Operator::BXor => "^"@,
        Operator::BNot => "~"@,
        Operator::LAnd => "&&"@,
        Operator::LOr => "||"@,
        Operator::LNot => "!"@,
        Operator::As => "as"@,
        Operator::Eql => "=="@,
        Operator::NEql => "!="@,
        Operator::LT => "<"@,
        Operator::LE => "<="@,
        Operator::GT => ">"@,
        Operator::GE => ">="@,
    }
}

pub fn op_text(op: Operator) -> (r: &'static str)
    ensures
        r@ == spec_op_text(op),
{
    match op {
        Operator::Add => "+",
        Operator::Sub => "-",
        Operator::Mul => "*",
        Operator::Div => "/",
        Operator::IntDiv => "//",
        Operator::Mod => "%",
        Operator::Pow => "**",
        Operator::BitShiftL => "<<",
        Operator::BitShiftR => ">>",
        Operator::BAnd => "&",
        Operator::BOr => "|",
        Operator::BXor => "^",
        Operator::BNot => "~",
        Operator::LAnd => "&&",
        Operator::LOr => "||",
        Operator::LNot => "!",
        Operator::As => "as",
        Operator::Eql => "==",
        Operator::NEql => "!=",
        Operator::LT => "<",
        Operator::LE => "<=",
        Operator::GT => ">",
        Operator::GE => ">=",
    }
}

/// The message for integer literal text the engine cannot turn into a value.
pub open spec fn int_convert_msg(text: Seq<char>, e: IntParseError) -> Seq<char> {
    "error converting `"@ + text + "` to integer: "@ + int_parse_why(e)
}

/// The message for float literal text the host cannot turn into a value.
pub open spec fn float_convert_msg(text: Seq<char>) -> Seq<char> {
    "error converting `"@ + text + "` to float: invalid float literal"@
}

/// The message for an identifier the environment does not hold.
pub open spec fn no_var_msg(name: Seq<char>) -> Seq<char> {
    "no variable `"@ + name + "` found"@
}

/// The message for an operator position the engine has no rule for.
pub open spec fn not_impl_msg(kind: Seq<char>, op: Operator) -> Seq<char> {
    kind + spec_op_text(op) + " not implemented yet"@
}

/// The bit patterns of the built-in mathematical constants, each the IEEE-754
/// double nearest the real value (tau being exactly twice pi).
pub const PI_BITS: u64 = 0x400921FB54442D18;

pub const TAU_BITS: u64 = 0x401921FB54442D18;

pub const E_BITS: u64 = 0x4005BF0A8B145769;

pub const SQRT2_BITS: u64 = 0x3FF6A09E667F3BCD;

/// The read-only constant environment: `pi`, `tau`, `e` and `sqrt2`, all
/// floats.
pub open spec fn builtin_value(name: Seq<char>) -> Option<ExecutionExpr> {
    if name == "pi"@ {
        Some(ExecutionExpr::Float(PI_BITS))
    } else if name == "tau"@ {
        Some(ExecutionExpr::Float(TAU_BITS))
    } else if name == "e"@ {
        Some(ExecutionExpr::Float(E_BITS))
    } else if name == "sqrt2"@ {
        Some(ExecutionExpr::Float(SQRT2_BITS))
    } else {
        None
    }
}

/// Marks the outcome of a sub-evaluation. Always true: it exists to carry
/// the quantifier triggers in [`eval_rel`], whose bound outcomes could not
/// otherwise be matched against the recursive calls.
pub open spec fn evaluated(o: Result<EE, Error>) -> bool {
    true
}

/// What a whole evaluation returns: the big-step relation between an
/// expression and its outcome. Sub-expressions are evaluated depth-first,
/// left to right, and the first error aborts the walk. Every clause below
/// either pins the value exactly or ties it to the host's answer to a
/// specific float request.
pub open spec fn eval_rel<F: Fn(FloatReq) -> FloatReply>(
    ops: F,
    ast: Expression,
    out: Result<EE, Error>,
) -> bool
    decreases ast,
{
    match ast.expr {
        ExpressionKind::True => out == Ok::<EE, Error>(
            EE { value: ExecutionExpr::Bool(true), pos: ast.pos },
        ),
        ExpressionKind::False => out == Ok::<EE, Error>(
            EE { value: ExecutionExpr::Bool(false), pos: ast.pos },
        ),
        ExpressionKind::Integer(text) => match spec_parse_i128(text@) {
            Ok(v) => out == Ok::<EE, Error>(
                EE { value: ExecutionExpr::Integer(v as i128), pos: ast.pos },
            ),
            Err(e) => is_err(out, ErrorType::RuntimeError, int_convert_msg(text@, e), ast.pos),
        },
        ExpressionKind::Float(text) => exists|rep: FloatReply|
            #[trigger] call_ensures(ops, (FloatReq::Parse(text),), rep) && match rep {
                FloatReply::Parsed(Some(bits)) => out == Ok::<EE, Error>(
                    EE { value: ExecutionExpr::Float(bits), pos: ast.pos },
                ),
                FloatReply::Parsed(None) => is_err(
                    out,
                    ErrorType::RuntimeError,
                    float_convert_msg(text@),
                    ast.pos,
                ),
                _ => false,
            },
        ExpressionKind::Ident(name) => match builtin_value(name@) {
            Some(v) => out == Ok::<EE, Error>(EE { value: v, pos: ast.pos }),
            None => is_err(out, ErrorType::RuntimeError, no_var_msg(name@), ast.pos),
        },
        ExpressionKind::InfixOp(v) => if v.op == Operator::As {
            exists|lr: Result<EE, Error>|
                #[trigger] evaluated(lr) && eval_rel(ops, *v.left, lr) && match lr {
                    Ok(lv) => as_cast_result(ops, lv, *v.right, out),
                    Err(e) => out == Err::<EE, Error>(e),
                }
        } else if v.op == Operator::LNot {
            exists|lr: Result<EE, Error>|
                #[trigger] evaluated(lr) && eval_rel(ops, *v.left, lr) && match lr {
                    Ok(lv) => lnot_result(lv, out),
                    Err(e) => out == Err::<EE, Error>(e),
                }
        } else if v.op == Operator::BNot {
            is_err(out, ErrorType::TypeError, not_impl_msg("infix "@, v.op), ast.pos)
        } else {
            exists|lr: Result<EE, Error>|
                #[trigger] evaluated(lr) && eval_rel(ops, *v.left, lr) && match lr {
                    Err(e) => out == Err::<EE, Error>(e),
                    Ok(lv) => exists|rr: Result<EE, Error>|
                        #[trigger] evaluated(rr) && eval_rel(ops, *v.right, rr) && match rr {
                            Err(e) => out == Err::<EE, Error>(e),
                            Ok(rv) => apply_infix(ops, v.op, lv, rv, out),
                        },
                }
        },
        ExpressionKind::PrefixOp(v) => match v.op {
            Operator::Sub | Operator::Add | Operator::BNot | Operator::LNot => exists|
                vr: Result<EE, Error>,
            |
                #[trigger] evaluated(vr) && eval_rel(ops, *v.value, vr) && match vr {
                    Err(e) => out == Err::<EE, Error>(e),
                    Ok(vv) => match v.op {
                        Operator::Sub => neg_result(ops, vv, out),
                        Operator::Add => pos_result(ops, vv, out),
                        Operator::BNot => bnot_result(vv, out),
                        _ => lnot_result(vv, out),
                    },
                },
            _ => is_err(out, ErrorType::TypeError, not_impl_msg("prefix "@, v.op), ast.pos),
        },
    }
}

/// Dispatch of an infix operator over two evaluated operands. `As`, `LNot`
/// and `BNot` never reach this: the walk handles them before evaluating the
/// right operand.
pub open spec fn apply_infix<F: Fn(FloatReq) -> FloatReply>(
    ops: F,
    op: Operator,
    l: EE,
    r: EE,
    out: Result<EE, Error>,
) -> bool {
    match op {
        Operator::Add => add_result(ops, l, r, out),
        Operator::Sub => sub_result(ops, l, r, out),
        Operator::Mul => mul_result(ops, l, r, out),
        Operator::Div => div_result(ops, l, r, out),
        Operator::Mod => modulo_result(ops, l, r, out),
        Operator::IntDiv => int_div_result(ops, l, r, out),
        Operator::Pow => pow_result(ops, l, r, out),
        Operator::BitShiftL => bitshift_l_result(l, r, out),
        Operator::BitShiftR => bitshift_r_result(l, r, out),
        Operator::LOr => lor_result(l, r, out),
        Operator::LAnd => land_result(l, r, out),
        Operator::BOr => bor_result(l, r, out),
        Operator::BAnd => band_result(l, r, out),
        Operator::BXor => bxor_result(l, r, out),
        Operator::NEql => neql_result(ops, l, r, out),
        Operator::Eql => eql_result(ops, l, r, out),
        Operator::LT => lt_result(ops, l, r, out),
        Operator::LE => lte_result(ops, l, r, out),
        Operator::GT => gt_result(ops, l, r, out),
        Operator::GE => gte_result(ops, l, r, out),
        Operator::As | Operator::LNot | Operator::BNot => true,
    }
}

/// Division never returns an integer or a boolean: whatever the operand
/// variants, every successful division is a float.
pub proof fn lemma_division_yields_float<F: Fn(FloatReq) -> FloatReply>(
    ops: F,
    l: EE,
    r: EE,
    out: Result<EE, Error>,
)
    requires
        div_result(ops, l, r, out),
        out is Ok,
    ensures
        out->Ok_0.value is Float,
{
}

/// For every integer literal: evaluation returns exactly the literal text's
/// 128-bit signed value, and a runtime error precisely when the text is not
/// an optionally signed decimal numeral or its value exceeds the 128-bit
/// signed range.
pub proof fn lemma_integer_literal_eval<F: Fn(FloatReq) -> FloatReply>(
    ops: F,
    ast: Expression,
    out: Result<EE, Error>,
)
    requires
        ast.expr is Integer,
        eval_rel(ops, ast, out),
    ensures
        match spec_parse_i128(ast.expr->Integer_0@) {
            Ok(v) => out == Ok::<EE, Error>(
                EE { value: ExecutionExpr::Integer(v as i128), pos: ast.pos },
            ),
            Err(e) => is_err(
                out,
                ErrorType::RuntimeError,
                int_convert_msg(ast.expr->Integer_0@, e),
                ast.pos,
            ),
        },
{
}

/// The tree-walking evaluator, holding the read-only constant environment.
pub struct Executer {
    pub symbtab: Vec<(String, EE)>,
}

impl Executer {
    /// The environment holds exactly the built-in constants, in order.
    pub open spec fn wf(&self) -> bool {
        self.symbtab@.len() == 4 && self.symbtab@[0].0@ == "pi"@ && self.symbtab@[0].1 == (EE {
            value: ExecutionExpr::Float(PI_BITS),
            pos: Pos { start: 0, end: 0 },
        }) && self.symbtab@[1].0@ == "tau"@ && self.symbtab@[1].1 == (EE {
            value: ExecutionExpr::Float(TAU_BITS),
            pos: Pos { start: 0, end: 0 },
        }) && self.symbtab@[2].0@ == "e"@ && self.symbtab@[2].1 == (EE {
            value: ExecutionExpr::Float(E_BITS),
            pos: Pos { start: 0, end: 0 },
        }) && self.symbtab@[3].0@ == "sqrt2"@ && self.symbtab@[3].1 == (EE {
            value: ExecutionExpr::Float(SQRT2_BITS),
            pos: Pos { start: 0, end: 0 },
        })
    }

    pub fn new() -> (r: Self)
        ensures
            r.wf(),
    {
        let mut symbtab: Vec<(String, EE)> = Vec::new();
        symbtab.push(
            ("pi".to_owned(), EE::new(ExecutionExpr::Float(PI_BITS), Pos::new(0, 0))),
        );
        symbtab.push(
            ("tau".to_owned(), EE::new(ExecutionExpr::Float(TAU_BITS), Pos::new(0, 0))),
        );
        symbtab.push(("e".to_owned(), EE::new(ExecutionExpr::Float(E_BITS), Pos::new(0, 0))));
        symbtab.push(
            ("sqrt2".to_owned(), EE::new(ExecutionExpr::Float(SQRT2_BITS), Pos::new(0, 0))),
        );
        Executer { symbtab }
    }

    /// Evaluates an expression depth-first, left to right, resolving
    /// identifiers in the constant environment and delegating float
    /// arithmetic to `ops`. Returns exactly what [`eval_rel`] allows.
    pub fn eval<F: Fn(FloatReq) -> FloatReply + Copy>(&mut self, ast: Expression, ops: F) -> (r:
        Result<EE, Error>)
        requires
            old(self).wf(),
            float_ops_wf(ops),
        ensures
            *final(self) == *old(self),
            eval_rel(ops, ast, r),
        decreases ast,
    {
        match ast.expr {
            ExpressionKind::True => Ok(EE::new(ExecutionExpr::Bool(true), ast.pos)),
            ExpressionKind::False => Ok(EE::new(ExecutionExpr::Bool(false), ast.pos)),
            ExpressionKind::Integer(val) => match parse_i128(val.as_str()) {
                Ok(x) => Ok(EE::new(ExecutionExpr::Integer(x), ast.pos)),
                Err(e) => {
                    let mut m = "error converting `".to_owned();
                    m.append(val.as_str());
                    m.append("` to integer: ");
                    m.append(int_parse_why_str(e));
                    proof {
                        assert(m@ =~= int_convert_msg(val@, e));
                    }
                    Err(Error::new(m, ErrorType::RuntimeError, ast.pos))
                },
            },
            ExpressionKind::Float(val) => {
                let text = val.clone();
                match ask_parsed(ops, FloatReq::Parse(text)) {
                    Some(bits) => Ok(EE::new(ExecutionExpr::Float(bits), ast.pos)),
                    None => {
                        let mut m = "error converting `".to_owned();
                        m.append(val.as_str());
                        m.append("` to float: invalid float literal");
                        proof {
                            assert(m@ =~= float_convert_msg(val@));
                        }
                        Err(Error::new(m, ErrorType::RuntimeError, ast.pos))
                    },
                }
            },
            ExpressionKind::Ident(val) => {
                if str_content_eq(val.as_str(), "pi") {
                    Ok(EE::new(self.symbtab[0].1.value, ast.pos))
                } else if str_content_eq(val.as_str(), "tau") {
                    Ok(EE::new(self.symbtab[1].1.value, ast.pos))
                } else if str_content_eq(val.as_str(), "e") {
                    Ok(EE::new(self.symbtab[2].1.value, ast.pos))
                } else if str_content_eq(val.as_str(), "sqrt2") {
                    Ok(EE::new(self.symbtab[3].1.value, ast.pos))
                } else {
                    let mut m = "no variable `".to_owned();
                    m.append(val.as_str());
                    m.append("` found");
                    proof {
                        assert(m@ =~= no_var_msg(val@));
                    }
                    Err(Error::new(m, ErrorType::RuntimeError, ast.pos))
                }
            },
            ExpressionKind::InfixOp(val) => match val.op {
                Operator::As => {
                    let lres = self.eval(*val.left, ops);
                    proof {
                        assert(evaluated(lres));
                    }
                    let lv = match lres {
                        Ok(v) => v,
                        Err(e) => {
                            return Err(e);
                        },
                    };
                    lv.as_cast(*val.right, ops)
                },
                Operator::LNot => {
                    let lres = self.eval(*val.left, ops);
                    proof {
                        assert(evaluated(lres));
                    }
                    let lv = match lres {
                        Ok(v) => v,
                        Err(e) => {
                            return Err(e);
                        },
                    };
                    lv.lnot()
                },
                Operator::BNot => {
                    let mut m = "infix ".to_owned();
                    m.append(op_text(val.op));
                    m.append(" not implemented yet");
                    proof {
                        assert(m@ =~= not_impl_msg("infix "@, val.op));
                    }
                    Err(Error::new(m, ErrorType::TypeError, ast.pos))
                },
                _ => {
                    let lres = self.eval(*val.left, ops);
                    proof {
                        assert(evaluated(lres));
                    }
                    let lv = match lres {
                        Ok(v) => v,
                        Err(e) => {
                            return Err(e);
                        },
                    };
                    let rres = self.eval(*val.right, ops);
                    proof {
                        assert(evaluated(rres));
                    }
                    let rv = match rres {
                        Ok(v) => v,
                        Err(e) => {
                            return Err(e);
                        },
                    };
                    match val.op {
                        Operator::Add => lv.add(&rv, ops),
                        Operator::Sub => lv.sub(&rv, ops),
                        Operator::Mul => lv.mul(&rv, ops),
                        Operator::Div => lv.div(&rv, ops),
                        Operator::Mod => lv.modulo(&rv, ops),
                        Operator::IntDiv => lv.int_div(&rv, ops),
                        Operator::Pow => lv.pow(&rv, ops),
                        Operator::BitShiftL => lv.bitshift_l(&rv),
                        Operator::BitShiftR => lv.bitshift_r(&rv),
                        Operator::LOr => lv.lor(&rv),
                        Operator::LAnd => lv.land(&rv),
                        Operator::BOr => lv.bor(&rv),
                        Operator::BAnd => lv.band(&rv),
                        Operator::BXor => lv.bxor(&rv),
                        Operator::NEql => lv.neql(&rv, ops),
                        Operator::Eql => lv.eql(&rv, ops),
                        Operator::LT => lv.lt(&rv, ops),
                        Operator::LE => lv.lte(&rv, ops),
                        Operator::GT => lv.gt(&rv, ops),
                        Operator::GE => lv.gte(&rv, ops),
                        Operator::As | Operator::LNot | Operator::BNot => vstd::pervasive::unreached(),
                    }
                },
            },
            ExpressionKind::PrefixOp(val) => match val.op {
                Operator::Sub => {
                    let vres = self.eval(*val.value, ops);
                    proof {
                        assert(evaluated(vres));
                    }
                    let vv = match vres {
                        Ok(v) => v,
                        Err(e) => {
                            return Err(e);
                        },
                    };
                    vv.neg(ops)
                },
                Operator::Add => {
                    let vres = self.eval(*val.value, ops);
                    proof {
                        assert(evaluated(vres));
                    }
                    let vv = match vres {
                        Ok(v) => v,
                        Err(e) => {
                            return Err(e);
                        },
                    };
                    vv.pos(ops)
                },
                Operator::BNot => {
                    let vres = self.eval(*val.value, ops);
                    proof {
                        assert(evaluated(vres));
                    }
                    let vv = match vres {
                        Ok(v) => v,
                        Err(e) => {
                            return Err(e);
                        },
                    };
                    vv.bnot()
                },
                Operator::LNot => {
                    let vres = self.eval(*val.value, ops);
                    proof {
                        assert(evaluated(vres));
                    }
                    let vv = match vres {
                        Ok(v) => v,
                        Err(e) => {
                            return Err(e);
                        },
                    };
                    vv.lnot()
                },
                _ => {
                    let mut m = "prefix ".to_owned();
                    m.append(op_text(val.op));
                    m.append(" not implemented yet");
                    proof {
                        assert(m@ =~= not_impl_msg("prefix "@, val.op));
                    }
                    Err(Error::new(m, ErrorType::TypeError, ast.pos))
                },
            },
        }
    }
}

} // verus!
