use vstd::prelude::*;
use vstd::string::StrSliceExecFns;
use crate::interpreting::interpreter::Interpreter;
use crate::interpreting::outcome::{
    computes, value, Computed, ComputedView, Order, Outcome, Pending, PendingView, Request,
    RequestView, RuntimeError,
};
use crate::interpreting::typing::{literal_view, Literal, LiteralView};
use crate::parsing::typing::BinOp;
use crate::text::{int_text, signed_decimal};

verus! {

/// How `a` stands to `b`.
pub open spec fn order_of(a: int, b: int) -> Order {
    if a < b {
        Order::Less
    } else if a == b {
        Order::Equal
    } else {
        Order::Greater
    }
}

/// How two values are ordered: two strings by their lengths, whatever they
/// hold, and two integers by their values. Other pairs have no order here.
pub open spec fn ordering(left: LiteralView, right: LiteralView) -> Option<Order> {
    match (left, right) {
        (LiteralView::String(a), LiteralView::String(b)) => Some(
            order_of(a.len() as int, b.len() as int),
        ),
        (LiteralView::Int(a), LiteralView::Int(b)) => Some(order_of(a as int, b as int)),
        _ => None,
    }
}

/// Whether two values are equal: two strings that hold the same, two equal
/// integers, two equal booleans. No other pair is.
pub open spec fn equal(left: LiteralView, right: LiteralView) -> bool {
    match (left, right) {
        (LiteralView::String(a), LiteralView::String(b)) => a == b,
        (LiteralView::Int(a), LiteralView::Int(b)) => a == b,
        (LiteralView::Boolean(a), LiteralView::Boolean(b)) => a == b,
        _ => false,
    }
}

/// Whether two values are unequal: two strings, two integers or two booleans
/// that differ. No other pair is.
pub open spec fn unequal(left: LiteralView, right: LiteralView) -> bool {
    match (left, right) {
        (LiteralView::String(a), LiteralView::String(b)) => a != b,
        (LiteralView::Int(a), LiteralView::Int(b)) => a != b,
        (LiteralView::Boolean(a), LiteralView::Boolean(b)) => a != b,
        _ => false,
    }
}

/// What a comparison operator makes of an order.
pub open spec fn decides(op: BinOp, order: Order) -> bool {
    match op {
        BinOp::Lt => order == Order::Less,
        BinOp::Gt => order == Order::Greater,
        BinOp::Le => order == Order::Less || order == Order::Equal,
        BinOp::Ge => order == Order::Greater || order == Order::Equal,
        BinOp::Eq => order == Order::Equal,
        BinOp::Ne => order != Order::Equal,
        _ => false,
    }
}

/// The texts of two numbers of which one at least is a float.
pub open spec fn float_pair(left: LiteralView, right: LiteralView) -> Option<
    (Seq<char>, Seq<char>),
> {
    match (left, right) {
        (LiteralView::Int(a), LiteralView::Float(y)) => Some((signed_decimal(a as int), y)),
        (LiteralView::Float(x), LiteralView::Int(b)) => Some((x, signed_decimal(b as int))),
        (LiteralView::Float(x), LiteralView::Float(y)) => Some((x, y)),
        _ => None,
    }
}

/// What a comparison operator makes of two values: where a float is
/// compared with a number, a request for the host, whose order the operator
/// then decides on; else a boolean.
pub open spec fn compared(op: BinOp, left: LiteralView, right: LiteralView) -> Outcome {
    match float_pair(left, right) {
        Some((a, b)) => Ok(ComputedView::Ask(RequestView::Compare(a, b), PendingView::Order(op))),
        None => value(
            LiteralView::Boolean(
                match op {
                    BinOp::Eq => equal(left, right),
                    BinOp::Ne => unequal(left, right),
                    _ => match ordering(left, right) {
                        Some(order) => decides(op, order),
                        None => false,
                    },
                },
            ),
        ),
    }
}

/// Strings are ordered by their lengths alone, and equal by what they hold.
pub proof fn lemma_strings_compare(a: Seq<char>, b: Seq<char>)
    ensures
        compared(BinOp::Lt, LiteralView::String(a), LiteralView::String(b)) == value(
            LiteralView::Boolean(a.len() < b.len()),
        ),
        compared(BinOp::Gt, LiteralView::String(a), LiteralView::String(b)) == value(
            LiteralView::Boolean(a.len() > b.len()),
        ),
        compared(BinOp::Le, LiteralView::String(a), LiteralView::String(b)) == value(
            LiteralView::Boolean(a.len() <= b.len()),
        ),
        compared(BinOp::Ge, LiteralView::String(a), LiteralView::String(b)) == value(
            LiteralView::Boolean(a.len() >= b.len()),
        ),
        compared(BinOp::Eq, LiteralView::String(a), LiteralView::String(b)) == value(
            LiteralView::Boolean(a == b),
        ),
        compared(BinOp::Ne, LiteralView::String(a), LiteralView::String(b)) == value(
            LiteralView::Boolean(a != b),
        ),
{
}

fn order(a: i64, b: i64) -> (r: Order)
    ensures
        r == order_of(a as int, b as int),
{
    if a < b {
        Order::Less
    } else if a == b {
        Order::Equal
    } else {
        Order::Greater
    }
}

fn order_lengths(a: usize, b: usize) -> (r: Order)
    ensures
        r == order_of(a as int, b as int),
{
    if a < b {
        Order::Less
    } else if a == b {
        Order::Equal
    } else {
        Order::Greater
    }
}

/// What a comparison operator makes of an order.
pub fn decide(op: BinOp, order: Order) -> (r: bool)
    ensures
        r == decides(op, order),
{
    match op {
        BinOp::Lt => matches!(order, Order::Less),
        BinOp::Gt => matches!(order, Order::Greater),
        BinOp::Le => matches!(order, Order::Less) || matches!(order, Order::Equal),
        BinOp::Ge => matches!(order, Order::Greater) || matches!(order, Order::Equal),
        BinOp::Eq => matches!(order, Order::Equal),
        BinOp::Ne => !matches!(order, Order::Equal),
        _ => false,
    }
}

/// What a comparison operator makes of two values.
pub fn compare(op: BinOp, left: &Literal, right: &Literal) -> (r: Result<Computed, RuntimeError>)
    ensures
        computes(r, compared(op, literal_view(*left), literal_view(*right))),
{
    let found: bool = match (left, right) {
        (Literal::Int(a), Literal::Float(y)) => {
            return Ok(
                Computed::Ask(Request::Compare(int_text(*a), y.clone()), Pending::Order(op)),
            );
        },
        (Literal::Float(x), Literal::Int(b)) => {
            return Ok(
                Computed::Ask(Request::Compare(x.clone(), int_text(*b)), Pending::Order(op)),
            );
        },
        (Literal::Float(x), Literal::Float(y)) => {
            return Ok(Computed::Ask(Request::Compare(x.clone(), y.clone()), Pending::Order(op)));
        },
        (Literal::String(a), Literal::String(b)) => match op {
            BinOp::Eq => *a == *b,
            BinOp::Ne => !(*a == *b),
            _ => decide(op, order_lengths(a.as_str().unicode_len(), b.as_str().unicode_len())),
        },
        (Literal::Int(a), Literal::Int(b)) => match op {
            BinOp::Eq => *a == *b,
            BinOp::Ne => *a != *b,
            _ => decide(op, order(*a as i64, *b as i64)),
        },
        (Literal::Boolean(a), Literal::Boolean(b)) => match op {
            BinOp::Eq => *a == *b,
            BinOp::Ne => *a != *b,
            _ => false,
        },
        _ => false,
    };
    Ok(Computed::Value(Literal::Boolean(found)))
}

impl Interpreter {
    /// `left < right`.
    pub fn lt(left: &Literal, right: &Literal) -> (r: Result<Computed, RuntimeError>)
        ensures
            computes(r, compared(BinOp::Lt, literal_view(*left), literal_view(*right))),
    {
        compare(BinOp::Lt, left, right)
    }

    /// `left > right`.
    pub fn gt(left: &Literal, right: &Literal) -> (r: Result<Computed, RuntimeError>)
        ensures
            computes(r, compared(BinOp::Gt, literal_view(*left), literal_view(*right))),
    {
        compare(BinOp::Gt, left, right)
    }

    /// `left == right`.
    pub fn eq(left: &Literal, right: &Literal) -> (r: Result<Computed, RuntimeError>)
        ensures
            computes(r, compared(BinOp::Eq, literal_view(*left), literal_view(*right))),
    {
        compare(BinOp::Eq, left, right)
    }

    /// `left /= right`.
    pub fn ne(left: &Literal, right: &Literal) -> (r: Result<Computed, RuntimeError>)
        ensures
            computes(r, compared(BinOp::Ne, literal_view(*left), literal_view(*right))),
    {
        compare(BinOp::Ne, left, right)
    }

    /// `left <= right`.
    pub fn le(left: &Literal, right: &Literal) -> (r: Result<Computed, RuntimeError>)
        ensures
            computes(r, compared(BinOp::Le, literal_view(*left), literal_view(*right))),
    {
        compare(BinOp::Le, left, right)
    }

    /// `left >= right`.
    pub fn ge(left: &Literal, right: &Literal) -> (r: Result<Computed, RuntimeError>)
        ensures
            computes(r, compared(BinOp::Ge, literal_view(*left), literal_view(*right))),
    {
        compare(BinOp::Ge, left, right)
    }
}

} // verus!
