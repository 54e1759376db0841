use vstd::prelude::*;
use vstd::string::StringExecFns;
use crate::interpreting::interpreter::Interpreter;
use crate::interpreting::outcome::{
    ask_float, computes, value, Builtin, Computed, ComputedView, FloatOp, Outcome, Pending, Request,
    RuntimeError, RuntimeErrorView,
};
use crate::interpreting::typing::{kind_of, literal_view, literals_view, Literal, LiteralView};
use crate::parsing::typing::BinOp;
use crate::text::{int_text, signed_decimal};

verus! {

/// Whether `n` fits in 32 bits with a sign.
pub open spec fn fits(n: int) -> bool {
    i32::MIN <= n <= i32::MAX
}

/// `n` without its sign.
pub open spec fn magnitude(n: int) -> int {
    if n < 0 {
        -n
    } else {
        n
    }
}

/// The quotient of `x` by `d`, rounded towards zero.
pub open spec fn truncated(x: int, d: int) -> int
    recommends
        d != 0,
{
    if (x < 0) == (d < 0) {
        magnitude(x) / magnitude(d)
    } else {
        -(magnitude(x) / magnitude(d))
    }
}

/// The quotient of `x` by `d`, rounded down.
pub open spec fn floored(x: int, d: int) -> int
    recommends
        d != 0,
{
    if d > 0 {
        x / d
    } else {
        (-x) / (-d)
    }
}

/// What is left of `x` when `d` is taken from it as often as `truncated`
/// says: it has the sign of `x`.
pub open spec fn remainder(x: int, d: int) -> int
    recommends
        d != 0,
{
    if x < 0 {
        -((-x) % magnitude(d))
    } else {
        x % magnitude(d)
    }
}

/// `b` raised to the power `n`.
pub open spec fn power(b: int, n: nat) -> int
    decreases n,
{
    if n == 0 {
        1
    } else {
        b * power(b, (n - 1) as nat)
    }
}

/// Whether the powers of `b` up to the `n`th all fit in 32 bits with a sign.
pub open spec fn powers_fit(b: int, n: nat) -> bool
    decreases n,
{
    if n == 0 {
        true
    } else {
        powers_fit(b, (n - 1) as nat) && fits(power(b, n))
    }
}

/// `s` written `n` times over.
pub open spec fn repeated(s: Seq<char>, n: nat) -> Seq<char>
    decreases n,
{
    if n == 0 {
        Seq::empty()
    } else {
        repeated(s, (n - 1) as nat) + s
    }
}

/// An integer where it fits, else the overflow.
pub open spec fn checked(n: int) -> Outcome {
    if fits(n) {
        value(LiteralView::Int(n as i32))
    } else {
        Err(RuntimeErrorView::Overflow)
    }
}

/// The operation on floats that an arithmetic operator stands for.
pub open spec fn float_op(op: BinOp) -> FloatOp {
    match op {
        BinOp::Add => FloatOp::Add,
        BinOp::Sub => FloatOp::Sub,
        BinOp::Mul => FloatOp::Mul,
        BinOp::Div => FloatOp::Div,
        BinOp::FloorDiv => FloatOp::FloorDiv,
        BinOp::Mod => FloatOp::Mod,
        _ => FloatOp::Pow,
    }
}

/// What an arithmetic operator makes of two integers.
pub open spec fn int_arithmetic(op: BinOp, a: i32, b: i32) -> Outcome {
    match op {
        BinOp::Add => checked(a + b),
        BinOp::Sub => checked(a - b),
        BinOp::Mul => checked(a * b),
        BinOp::Div => if b == 0 {
            Err(RuntimeErrorView::DivisionByZero)
        } else {
            checked(truncated(a as int, b as int))
        },
        BinOp::FloorDiv => if b == 0 {
            Err(RuntimeErrorView::DivisionByZero)
        } else {
            checked(floored(a as int, b as int))
        },
        BinOp::Mod => if b == 0 {
            Err(RuntimeErrorView::DivisionByZero)
        } else if a == i32::MIN && b == -1 {
            Err(RuntimeErrorView::Overflow)
        } else {
            value(LiteralView::Int(remainder(a as int, b as int) as i32))
        },
        _ => if b < 0 {
            Err(RuntimeErrorView::NegativeExponent)
        } else if powers_fit(a as int, b as nat) {
            value(LiteralView::Int(power(a as int, b as nat) as i32))
        } else {
            Err(RuntimeErrorView::Overflow)
        },
    }
}

/// What an arithmetic operator makes of two numbers: of two integers an
/// integer, and of a float with a number a request for the host, the integer
/// written out in decimal. Anything else is refused.
pub open spec fn arithmetic(op: BinOp, left: LiteralView, right: LiteralView) -> Outcome {
    match (left, right) {
        (LiteralView::Int(a), LiteralView::Int(b)) => int_arithmetic(op, a, b),
        (LiteralView::Int(a), LiteralView::Float(y)) => ask_float(
            float_op(op),
            signed_decimal(a as int),
            y,
        ),
        (LiteralView::Float(x), LiteralView::Int(b)) => ask_float(
            float_op(op),
            x,
            signed_decimal(b as int),
        ),
        (LiteralView::Float(x), LiteralView::Float(y)) => ask_float(float_op(op), x, y),
        _ => Err(RuntimeErrorView::InvalidOperands(op, kind_of(left), kind_of(right))),
    }
}

/// The sum of two numbers, or two strings one after the other.
pub open spec fn added(left: LiteralView, right: LiteralView) -> Outcome {
    match (left, right) {
        (LiteralView::String(a), LiteralView::String(b)) => value(LiteralView::String(a + b)),
        _ => arithmetic(BinOp::Add, left, right),
    }
}

/// A string as often as an integer says.
pub open spec fn repetition(s: Seq<char>, n: i32) -> Outcome {
    if n < 0 {
        Err(RuntimeErrorView::NegativeRepeat)
    } else {
        value(LiteralView::String(repeated(s, n as nat)))
    }
}

/// The product of two numbers, or a string as often as an integer says.
pub open spec fn multiplied(left: LiteralView, right: LiteralView) -> Outcome {
    match (left, right) {
        (LiteralView::Int(n), LiteralView::String(s)) => repetition(s, n),
        (LiteralView::String(s), LiteralView::Int(n)) => repetition(s, n),
        _ => arithmetic(BinOp::Mul, left, right),
    }
}

/// The name that a program calls a built-in by.
pub open spec fn builtin_name(builtin: Builtin) -> Seq<char> {
    match builtin {
        Builtin::PutStr => "putStr"@,
        Builtin::PutStrLn => "putStrLn"@,
        Builtin::Print => "print"@,
        Builtin::PrintLn => "printLn"@,
        Builtin::FlushStdout => "flushStdout"@,
        Builtin::ReadLine => "readLine"@,
        Builtin::Cos => "cos"@,
        Builtin::Sin => "sin"@,
        Builtin::Tan => "tan"@,
        Builtin::Acos => "acos"@,
        Builtin::Asin => "asin"@,
        Builtin::Atan => "atan"@,
        Builtin::Range => "range"@,
        Builtin::Random => "random"@,
        Builtin::ParseInt => "parseInt"@,
        Builtin::ParseFloat => "parseFloat"@,
        Builtin::ToString => "toString"@,
    }
}

/// The operation on floats that a trigonometric built-in stands for.
pub open spec fn trig_op(builtin: Builtin) -> FloatOp {
    match builtin {
        Builtin::Cos => FloatOp::Cos,
        Builtin::Sin => FloatOp::Sin,
        Builtin::Tan => FloatOp::Tan,
        Builtin::Acos => FloatOp::Acos,
        Builtin::Asin => FloatOp::Asin,
        _ => FloatOp::Atan,
    }
}

/// A trigonometric built-in on its arguments: a request for the host on the
/// first, which must be a number. Further arguments count for nothing.
pub open spec fn trigonometry(builtin: Builtin, args: Seq<LiteralView>) -> Outcome {
    if args.len() == 0 {
        Err(RuntimeErrorView::NotEnoughArguments(builtin_name(builtin), 1, 0))
    } else {
        match args[0] {
            LiteralView::Int(n) => ask_float(
                trig_op(builtin),
                signed_decimal(n as int),
                Seq::empty(),
            ),
            LiteralView::Float(x) => ask_float(trig_op(builtin), x, Seq::empty()),
            other => Err(RuntimeErrorView::InvalidArgument(builtin, kind_of(other))),
        }
    }
}

/// An integer divided by zero, or its remainder by zero taken, is an error of its own.
pub proof fn lemma_division_by_zero(a: i32)
    ensures
        int_arithmetic(BinOp::Div, a, 0) == Err::<ComputedView, RuntimeErrorView>(
            RuntimeErrorView::DivisionByZero,
        ),
        int_arithmetic(BinOp::FloorDiv, a, 0) == Err::<ComputedView, RuntimeErrorView>(
            RuntimeErrorView::DivisionByZero,
        ),
        int_arithmetic(BinOp::Mod, a, 0) == Err::<ComputedView, RuntimeErrorView>(
            RuntimeErrorView::DivisionByZero,
        ),
        arithmetic(BinOp::Div, LiteralView::Int(a), LiteralView::Int(0)) == Err::<
            ComputedView,
            RuntimeErrorView,
        >(RuntimeErrorView::DivisionByZero),
{
}

/// The quotient rounded towards zero and the remainder make up the dividend,
/// and the remainder is smaller than the divisor.
pub proof fn lemma_quotient_and_remainder(x: int, d: int)
    requires
        d != 0,
    ensures
        truncated(x, d) * d + remainder(x, d) == x,
        magnitude(remainder(x, d)) < magnitude(d),
{
    let q = magnitude(x) / magnitude(d);
    let r = magnitude(x) % magnitude(d);
    assert(q * magnitude(d) + r == magnitude(x)) by (nonlinear_arith)
        requires
            q == magnitude(x) / magnitude(d),
            r == magnitude(x) % magnitude(d),
            magnitude(d) > 0,
    ;
    assert(0 <= r < magnitude(d));
    assert(truncated(x, d) * d + remainder(x, d) == x) by (nonlinear_arith)
        requires
            q * magnitude(d) + r == magnitude(x),
            truncated(x, d) == if (x < 0) == (d < 0) {
                q
            } else {
                -q
            },
            remainder(x, d) == if x < 0 {
                -r
            } else {
                r
            },
            magnitude(x) == if x < 0 {
                -x
            } else {
                x
            },
            magnitude(d) == if d < 0 {
                -d
            } else {
                d
            },
    ;
}

/// The powers of one are all one.
proof fn lemma_power_of_one(n: nat)
    ensures
        power(1, n) == 1,
        powers_fit(1, n),
    decreases n,
{
    if n > 0 {
        lemma_power_of_one((n - 1) as nat);
    }
}

/// The powers of zero are all zero, but for the first, which is one.
proof fn lemma_power_of_zero(n: nat)
    ensures
        power(0, n) == if n == 0 {
            1int
        } else {
            0int
        },
        powers_fit(0, n),
    decreases n,
{
    if n > 0 {
        lemma_power_of_zero((n - 1) as nat);
    }
}

/// The powers of minus one are one and minus one in turn.
proof fn lemma_power_of_minus_one(n: nat)
    ensures
        power(-1, n) == if n % 2 == 0 {
            1int
        } else {
            -1int
        },
        powers_fit(-1, n),
    decreases n,
{
    if n > 0 {
        lemma_power_of_minus_one((n - 1) as nat);
    }
}

/// Once a power does not fit, no later one is counted as fitting.
proof fn lemma_powers_unfit(b: int, k: nat, n: nat)
    requires
        !powers_fit(b, k),
        k <= n,
    ensures
        !powers_fit(b, n),
    decreases n,
{
    if k < n {
        lemma_powers_unfit(b, k, (n - 1) as nat);
    }
}

impl Builtin {
    /// The name that a program calls this built-in by.
    pub fn name(self) -> (r: String)
        ensures
            r@ == builtin_name(self),
    {
        match self {
            Builtin::PutStr => String::from_str("putStr"),
            Builtin::PutStrLn => String::from_str("putStrLn"),
            Builtin::Print => String::from_str("print"),
            Builtin::PrintLn => String::from_str("printLn"),
            Builtin::FlushStdout => String::from_str("flushStdout"),
            Builtin::ReadLine => String::from_str("readLine"),
            Builtin::Cos => String::from_str("cos"),
            Builtin::Sin => String::from_str("sin"),
            Builtin::Tan => String::from_str("tan"),
            Builtin::Acos => String::from_str("acos"),
            Builtin::Asin => String::from_str("asin"),
            Builtin::Atan => String::from_str("atan"),
            Builtin::Range => String::from_str("range"),
            Builtin::Random => String::from_str("random"),
            Builtin::ParseInt => String::from_str("parseInt"),
            Builtin::ParseFloat => String::from_str("parseFloat"),
            Builtin::ToString => String::from_str("toString"),
        }
    }
}

/// An integer where it fits, else the overflow.
fn check(n: i64) -> (r: Result<Computed, RuntimeError>)
    ensures
        computes(r, checked(n as int)),
{
    if n < -2147483648 || n > 2147483647 {
        Err(RuntimeError::Overflow)
    } else {
        Ok(Computed::Value(Literal::Int(n as i32)))
    }
}

/// The integer that a checked operation found, else the overflow.
fn found(n: Option<i32>) -> (r: Result<Computed, RuntimeError>)
    ensures
        computes(
            r,
            match n {
                Some(n) => value(LiteralView::Int(n)),
                None => Err(RuntimeErrorView::Overflow),
            },
        ),
{
    match n {
        Some(n) => Ok(Computed::Value(Literal::Int(n))),
        None => Err(RuntimeError::Overflow),
    }
}

/// A request for the host to compute on two floats.
fn float_request(op: FloatOp, left: String, right: String) -> (r: Result<Computed, RuntimeError>)
    ensures
        computes(r, ask_float(op, left@, right@)),
{
    Ok(Computed::Ask(Request::Float(op, left, right), Pending::Float))
}

fn to_float_op(op: BinOp) -> (r: FloatOp)
    ensures
        r == float_op(op),
{
    match op {
        BinOp::Add => FloatOp::Add,
        BinOp::Sub => FloatOp::Sub,
        BinOp::Mul => FloatOp::Mul,
        BinOp::Div => FloatOp::Div,
        BinOp::FloorDiv => FloatOp::FloorDiv,
        BinOp::Mod => FloatOp::Mod,
        _ => FloatOp::Pow,
    }
}

/// `base` raised to the power `exponent`.
fn int_power(base: i32, exponent: i32) -> (r: Result<Computed, RuntimeError>)
    requires
        exponent >= 0,
    ensures
        computes(
            r,
            if powers_fit(base as int, exponent as nat) {
                value(LiteralView::Int(power(base as int, exponent as nat) as i32))
            } else {
                Err(RuntimeErrorView::Overflow)
            },
        ),
{
    if base == 1 || base == 0 || base == -1 {
        proof {
            lemma_power_of_one(exponent as nat);
            lemma_power_of_zero(exponent as nat);
            lemma_power_of_minus_one(exponent as nat);
        }
        let found: i32 = if base == 1 || exponent == 0 {
            1
        } else if base == 0 {
            0
        } else if exponent % 2 == 0 {
            1
        } else {
            -1
        };
        return Ok(Computed::Value(Literal::Int(found)));
    }
    let mut result: i32 = 1;
    let mut i: i32 = 0;
    while i < exponent
        invariant
            0 <= i <= exponent,
            powers_fit(base as int, i as nat),
            result == power(base as int, i as nat),
        decreases exponent - i,
    {
        match result.checked_mul(base) {
            Some(next) => {
                assert(power(base as int, (i + 1) as nat) == base * power(base as int, i as nat));
                assert(base * result == result * base) by (nonlinear_arith);
                result = next;
            },
            None => {
                proof {
                    assert(power(base as int, (i + 1) as nat) == base * power(
                        base as int,
                        i as nat,
                    ));
                    assert(base * result == result * base) by (nonlinear_arith);
                    lemma_powers_unfit(base as int, (i + 1) as nat, exponent as nat);
                }
                return Err(RuntimeError::Overflow);
            },
        }
        i += 1;
    }
    Ok(Computed::Value(Literal::Int(result)))
}

/// Whether the function has the effect on two integers that the operator has.
fn int_arith(op: BinOp, a: i32, b: i32) -> (r: Result<Computed, RuntimeError>)
    ensures
        computes(r, int_arithmetic(op, a, b)),
{
    match op {
        BinOp::Add => found(a.checked_add(b)),
        BinOp::Sub => found(a.checked_sub(b)),
        BinOp::Mul => found(a.checked_mul(b)),
        BinOp::Div => {
            if b == 0 {
                Err(RuntimeError::DivisionByZero)
            } else {
                found(a.checked_div(b))
            }
        },
        BinOp::FloorDiv => {
            if b == 0 {
                Err(RuntimeError::DivisionByZero)
            } else {
                let (x, d): (i64, i64) = if b > 0 {
                    (a as i64, b as i64)
                } else {
                    (-(a as i64), -(b as i64))
                };
                match x.checked_div_euclid(d) {
                    Some(q) => check(q),
                    None => Err(RuntimeError::Overflow),
                }
            }
        },
        BinOp::Mod => {
            if b == 0 {
                Err(RuntimeError::DivisionByZero)
            } else {
                found(a.checked_rem(b))
            }
        },
        _ => {
            if b < 0 {
                Err(RuntimeError::NegativeExponent)
            } else {
                int_power(a, b)
            }
        },
    }
}

/// What an arithmetic operator makes of two values.
fn arith(op: BinOp, left: &Literal, right: &Literal) -> (r: Result<Computed, RuntimeError>)
    ensures
        computes(r, arithmetic(op, literal_view(*left), literal_view(*right))),
{
    match (left, right) {
        (Literal::Int(a), Literal::Int(b)) => int_arith(op, *a, *b),
        (Literal::Int(a), Literal::Float(y)) => float_request(
            to_float_op(op),
            int_text(*a),
            y.clone(),
        ),
        (Literal::Float(x), Literal::Int(b)) => float_request(
            to_float_op(op),
            x.clone(),
            int_text(*b),
        ),
        (Literal::Float(x), Literal::Float(y)) => float_request(
            to_float_op(op),
            x.clone(),
            y.clone(),
        ),
        _ => Err(RuntimeError::InvalidOperands(op, left.kind(), right.kind())),
    }
}

/// `text` written `count` times over.
fn repeat(text: &String, count: i32) -> (r: Result<Computed, RuntimeError>)
    ensures
        computes(r, repetition(text@, count)),
{
    if count < 0 {
        return Err(RuntimeError::NegativeRepeat);
    }
    let mut out = String::new();
    let mut i: i32 = 0;
    while i < count
        invariant
            0 <= i <= count,
            out@ == repeated(text@, i as nat),
        decreases count - i,
    {
        out.append(text.as_str());
        i += 1;
    }
    Ok(Computed::Value(Literal::String(out)))
}

/// A trigonometric built-in on its arguments.
fn trig(builtin: Builtin, args: &Vec<Literal>) -> (r: Result<Computed, RuntimeError>)
    ensures
        computes(r, trigonometry(builtin, literals_view(args@))),
{
    if args.len() == 0 {
        return Err(RuntimeError::NotEnoughArguments(builtin.name(), 1, 0));
    }
    let op = match builtin {
        Builtin::Cos => FloatOp::Cos,
        Builtin::Sin => FloatOp::Sin,
        Builtin::Tan => FloatOp::Tan,
        Builtin::Acos => FloatOp::Acos,
        Builtin::Asin => FloatOp::Asin,
        _ => FloatOp::Atan,
    };
    match &args[0] {
        Literal::Int(number) => float_request(op, int_text(*number), String::new()),
        Literal::Float(float) => float_request(op, float.clone(), String::new()),
        other => Err(RuntimeError::InvalidArgument(builtin, other.kind())),
    }
}

impl Interpreter {
    /// `left + right`.
    pub fn add(left: &Literal, right: &Literal) -> (r: Result<Computed, RuntimeError>)
        ensures
            computes(r, added(literal_view(*left), literal_view(*right))),
    {
        match (left, right) {
            (Literal::String(a), Literal::String(b)) => {
                let mut out = a.clone();
                out.append(b.as_str());
                Ok(Computed::Value(Literal::String(out)))
            },
            _ => arith(BinOp::Add, left, right),
        }
    }

    /// `left - right`.
    pub fn sub(left: &Literal, right: &Literal) -> (r: Result<Computed, RuntimeError>)
        ensures
            computes(r, arithmetic(BinOp::Sub, literal_view(*left), literal_view(*right))),
    {
        arith(BinOp::Sub, left, right)
    }

    /// `left * right`.
    pub fn mul(left: &Literal, right: &Literal) -> (r: Result<Computed, RuntimeError>)
        ensures
            computes(r, multiplied(literal_view(*left), literal_view(*right))),
    {
        match (left, right) {
            (Literal::Int(count), Literal::String(text)) => repeat(text, *count),
            (Literal::String(text), Literal::Int(count)) => repeat(text, *count),
            _ => arith(BinOp::Mul, left, right),
        }
    }

    /// `left / right`, or `left // right` where `floor` is set.
    pub fn div(left: &Literal, right: &Literal, floor: bool) -> (r: Result<
        Computed,
        RuntimeError,
    >)
        ensures
            computes(
                r,
                arithmetic(
                    if floor {
                        BinOp::FloorDiv
                    } else {
                        BinOp::Div
                    },
                    literal_view(*left),
                    literal_view(*right),
                ),
            ),
    {
        if floor {
            arith(BinOp::FloorDiv, left, right)
        } else {
            arith(BinOp::Div, left, right)
        }
    }

    /// `left % right`.
    pub fn modulo(left: &Literal, right: &Literal) -> (r: Result<Computed, RuntimeError>)
        ensures
            computes(r, arithmetic(BinOp::Mod, literal_view(*left), literal_view(*right))),
    {
        arith(BinOp::Mod, left, right)
    }

    /// `left ^ right`.
    pub fn pow(left: &Literal, right: &Literal) -> (r: Result<Computed, RuntimeError>)
        ensures
            computes(r, arithmetic(BinOp::Pow, literal_view(*left), literal_view(*right))),
    {
        arith(BinOp::Pow, left, right)
    }

    /// The built-in `cos`.
    pub fn cos(args: &Vec<Literal>) -> (r: Result<Computed, RuntimeError>)
        ensures
            computes(r, trigonometry(Builtin::Cos, literals_view(args@))),
    {
        trig(Builtin::Cos, args)
    }

    /// The built-in `sin`.
    pub fn sin(args: &Vec<Literal>) -> (r: Result<Computed, RuntimeError>)
        ensures
            computes(r, trigonometry(Builtin::Sin, literals_view(args@))),
    {
        trig(Builtin::Sin, args)
    }

    /// The built-in `tan`.
    pub fn tan(args: &Vec<Literal>) -> (r: Result<Computed, RuntimeError>)
        ensures
            computes(r, trigonometry(Builtin::Tan, literals_view(args@))),
    {
        trig(Builtin::Tan, args)
    }

    /// The built-in `acos`.
    pub fn acos(args: &Vec<Literal>) -> (r: Result<Computed, RuntimeError>)
        ensures
            computes(r, trigonometry(Builtin::Acos, literals_view(args@))),
    {
        trig(Builtin::Acos, args)
    }

    /// The built-in `asin`.
    pub fn asin(args: &Vec<Literal>) -> (r: Result<Computed, RuntimeError>)
        ensures
            computes(r, trigonometry(Builtin::Asin, literals_view(args@))),
    {
        trig(Builtin::Asin, args)
    }

    /// The built-in `atan`.
    pub fn atan(args: &Vec<Literal>) -> (r: Result<Computed, RuntimeError>)
        ensures
            computes(r, trigonometry(Builtin::Atan, literals_view(args@))),
    {
        trig(Builtin::Atan, args)
    }
}

} // verus!
