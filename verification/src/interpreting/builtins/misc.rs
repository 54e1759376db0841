use vstd::prelude::*;
use rand::Rng;
use crate::interpreting::builtins::math::builtin_name;
use crate::interpreting::interpreter::Interpreter;
use crate::interpreting::outcome::{
    ask_float, computes, value, Builtin, Computed, ComputedView, FloatOp, Outcome, Pending,
    PendingView, Request, RequestView, RuntimeError, RuntimeErrorView,
};
use crate::interpreting::typing::{
    kind_of, lemma_list_literal_view, literals_view, shown, Literal, LiteralView,
};
use crate::text::{
    all_digits, chars_of, decimal, decimal_value, digits_value, int_text, is_digit,
    lemma_decimal_denotes, signed_decimal,
};

verus! {

/// The integers from `start` up to `stop`, which is left out; none where
/// `start` is not below `stop`.
pub open spec fn counting(start: int, stop: int) -> Seq<LiteralView> {
    Seq::new(
        if start < stop {
            (stop - start) as nat
        } else {
            0
        },
        |i: int| LiteralView::Int((start + i) as i32),
    )
}

/// Counting from `start` up to `stop` gives `stop - start` integers, each one
/// more than the one before it, and none where `start` is not below `stop`.
pub proof fn lemma_counting(start: i32, stop: i32)
    ensures
        start >= stop ==> counting(start as int, stop as int) == Seq::<LiteralView>::empty(),
        start < stop ==> counting(start as int, stop as int).len() == stop - start,
        forall|i: int|
            0 <= i < stop - start ==> #[trigger] counting(start as int, stop as int)[i]
                == LiteralView::Int((start + i) as i32),
{
    if start >= stop {
        assert(counting(start as int, stop as int) =~= Seq::<LiteralView>::empty());
    }
}

/// What is missing where a built-in gets fewer arguments than it takes.
pub open spec fn too_few(builtin: Builtin, expected: usize, args: Seq<LiteralView>) -> Outcome {
    Err(RuntimeErrorView::NotEnoughArguments(builtin_name(builtin), expected, args.len() as usize))
}

/// `range` on its arguments: the list of the integers from the first up to
/// the second. Further arguments count for nothing.
pub open spec fn ranged(args: Seq<LiteralView>) -> Outcome {
    if args.len() < 2 {
        too_few(Builtin::Range, 2, args)
    } else {
        match (args[0], args[1]) {
            (LiteralView::Int(start), LiteralView::Int(stop)) => value(
                LiteralView::List(counting(start as int, stop as int)),
            ),
            (LiteralView::Int(_), other) => Err(
                RuntimeErrorView::InvalidArgument(Builtin::Range, kind_of(other)),
            ),
            (other, _) => Err(RuntimeErrorView::InvalidArgument(Builtin::Range, kind_of(other))),
        }
    }
}

/// `random` on its arguments, given the number `drawn` where one is drawn:
/// between two integers that number, and between two numbers of which one is
/// a float a request for the host. Further arguments count for nothing.
pub open spec fn randomized(args: Seq<LiteralView>, drawn: i32) -> Outcome {
    if args.len() < 2 {
        too_few(Builtin::Random, 2, args)
    } else {
        match (args[0], args[1]) {
            (LiteralView::Int(min), LiteralView::Int(max)) => if min < max {
                value(LiteralView::Int(drawn))
            } else {
                Err(RuntimeErrorView::EmptyRange)
            },
            (LiteralView::Int(min), LiteralView::Float(max)) => ask_float(
                FloatOp::Random,
                signed_decimal(min as int),
                max,
            ),
            (LiteralView::Float(min), LiteralView::Int(max)) => ask_float(
                FloatOp::Random,
                min,
                signed_decimal(max as int),
            ),
            (LiteralView::Float(min), LiteralView::Float(max)) => ask_float(
                FloatOp::Random,
                min,
                max,
            ),
            (LiteralView::Int(_), other) => Err(
                RuntimeErrorView::InvalidArgument(Builtin::Random, kind_of(other)),
            ),
            (LiteralView::Float(_), other) => Err(
                RuntimeErrorView::InvalidArgument(Builtin::Random, kind_of(other)),
            ),
            (other, _) => Err(RuntimeErrorView::InvalidArgument(Builtin::Random, kind_of(other))),
        }
    }
}

/// Whether `random` on these arguments draws a number, and `drawn` may be it.
pub open spec fn may_draw(args: Seq<LiteralView>, drawn: i32) -> bool {
    args.len() >= 2 ==> match (args[0], args[1]) {
        (LiteralView::Int(min), LiteralView::Int(max)) => min < max ==> min <= drawn < max,
        _ => true,
    }
}

/// The integer of 32 bits that a text denotes: digits, after a plus or minus
/// sign or none.
pub open spec fn integer_of(s: Seq<char>) -> Option<i32> {
    let negative = s.len() > 0 && s[0] == '-';
    let signed = s.len() > 0 && (s[0] == '-' || s[0] == '+');
    let digits = if signed {
        s.subrange(1, s.len() as int)
    } else {
        s
    };
    if digits.len() == 0 || !all_digits(digits) {
        None
    } else if negative {
        if decimal_value(digits) <= 2147483648 {
            Some((-decimal_value(digits)) as i32)
        } else {
            None
        }
    } else if decimal_value(digits) <= 2147483647 {
        Some(decimal_value(digits) as i32)
    } else {
        None
    }
}

/// The text shown for an integer denotes that integer.
pub proof fn lemma_integer_round_trip(n: i32)
    ensures
        integer_of(signed_decimal(n as int)) == Some(n),
{
    let s = signed_decimal(n as int);
    if n < 0 {
        let digits = decimal((-n) as nat);
        lemma_decimal_denotes((-n) as nat);
        assert(s[0] == '-');
        assert(s.subrange(1, s.len() as int) =~= digits);
    } else {
        lemma_decimal_denotes(n as nat);
        assert(is_digit(s[0]));
    }
}

/// `parseInt` on its arguments: the integer that the first, a string,
/// denotes. Further arguments count for nothing.
pub open spec fn parsed_int(args: Seq<LiteralView>) -> Outcome {
    if args.len() < 1 {
        too_few(Builtin::ParseInt, 1, args)
    } else {
        match args[0] {
            LiteralView::String(s) => match integer_of(s) {
                Some(n) => value(LiteralView::Int(n)),
                None => Err(RuntimeErrorView::InvalidInteger(s)),
            },
            other => Err(RuntimeErrorView::InvalidArgument(Builtin::ParseInt, kind_of(other))),
        }
    }
}

/// `parseFloat` on its arguments: a request for the host to read the first,
/// a string. Further arguments count for nothing.
pub open spec fn parsed_float(args: Seq<LiteralView>) -> Outcome {
    if args.len() < 1 {
        too_few(Builtin::ParseFloat, 1, args)
    } else {
        match args[0] {
            LiteralView::String(s) => Ok(
                ComputedView::Ask(
                    RequestView::Float(FloatOp::Parse, s, Seq::empty()),
                    PendingView::Parsed(s),
                ),
            ),
            other => Err(RuntimeErrorView::InvalidArgument(Builtin::ParseFloat, kind_of(other))),
        }
    }
}

/// `toString` on its arguments: the text shown for the first. Further
/// arguments count for nothing.
pub open spec fn stringified(args: Seq<LiteralView>) -> Outcome {
    if args.len() < 1 {
        too_few(Builtin::ToString, 1, args)
    } else {
        value(LiteralView::String(shown(args[0])))
    }
}

/// `rand::Rng::gen_range` on the generator that `rand::thread_rng` gives, for
/// the half-open range from `min` to `max`: the number drawn is in that range.
#[verifier::external_body]
fn draw_between(min: i32, max: i32) -> (drawn: i32)
    requires
        min < max,
    ensures
        min <= drawn < max,
{
    rand::thread_rng().gen_range(min..max)
}

/// The error for a built-in that gets fewer arguments than it takes.
fn missing(builtin: Builtin, expected: usize, args: &Vec<Literal>) -> (r: Result<
    Computed,
    RuntimeError,
>)
    ensures
        computes(r, too_few(builtin, expected, literals_view(args@))),
{
    Err(RuntimeError::NotEnoughArguments(builtin.name(), expected, args.len()))
}

/// The integer that a text denotes.
pub fn to_integer(text: &String) -> (r: Option<i32>)
    ensures
        r == integer_of(text@),
{
    let chars = chars_of(text.as_str());
    let negative = chars.len() > 0 && chars[0] == '-';
    let signed = chars.len() > 0 && (chars[0] == '-' || chars[0] == '+');
    let start: usize = if signed {
        1
    } else {
        0
    };
    if start == chars.len() {
        return None;
    }
    assert(chars@.subrange(0, chars.len() as int) =~= chars@);
    if negative {
        match digits_value(&chars, start, chars.len(), 2147483648) {
            Some(value) => Some((-(value as i64)) as i32),
            None => None,
        }
    } else {
        match digits_value(&chars, start, chars.len(), 2147483647) {
            Some(value) => Some(value as i32),
            None => None,
        }
    }
}

impl Interpreter {
    /// The built-in `range`.
    pub fn range(args: &Vec<Literal>) -> (r: Result<Computed, RuntimeError>)
        ensures
            computes(r, ranged(literals_view(args@))),
    {
        if args.len() < 2 {
            return missing(Builtin::Range, 2, args);
        }
        match (&args[0], &args[1]) {
            (Literal::Int(start), Literal::Int(stop)) => {
                let mut items: Vec<Literal> = Vec::new();
                let mut i: i32 = *start;
                assert(literals_view(items@) =~= counting(*start as int, i as int));
                while i < *stop
                    invariant
                        *start <= i,
                        i <= *stop || i == *start,
                        items.len() == i - *start,
                        literals_view(items@) == counting(*start as int, i as int),
                    decreases *stop - i,
                {
                    let ghost before = literals_view(items@);
                    items.push(Literal::Int(i));
                    assert(literals_view(items@) =~= before.push(LiteralView::Int(i)));
                    i += 1;
                    assert(before.push(LiteralView::Int((i - 1) as i32)) =~= counting(
                        *start as int,
                        i as int,
                    ));
                }
                proof {
                    lemma_list_literal_view(items);
                    assert(counting(*start as int, i as int) =~= counting(
                        *start as int,
                        *stop as int,
                    ));
                }
                Ok(Computed::Value(Literal::List(items)))
            },
            (Literal::Int(_), other) => Err(
                RuntimeError::InvalidArgument(Builtin::Range, other.kind()),
            ),
            (other, _) => Err(RuntimeError::InvalidArgument(Builtin::Range, other.kind())),
        }
    }

    /// The built-in `random`, given the number `drawn` where one is drawn.
    pub fn random_with(args: &Vec<Literal>, drawn: i32) -> (r: Result<Computed, RuntimeError>)
        ensures
            computes(r, randomized(literals_view(args@), drawn)),
    {
        if args.len() < 2 {
            return missing(Builtin::Random, 2, args);
        }
        match (&args[0], &args[1]) {
            (Literal::Int(min), Literal::Int(max)) => {
                if *min < *max {
                    Ok(Computed::Value(Literal::Int(drawn)))
                } else {
                    Err(RuntimeError::EmptyRange)
                }
            },
            (Literal::Int(min), Literal::Float(max)) => Ok(
                Computed::Ask(
                    Request::Float(FloatOp::Random, int_text(*min), max.clone()),
                    Pending::Float,
                ),
            ),
            (Literal::Float(min), Literal::Int(max)) => Ok(
                Computed::Ask(
                    Request::Float(FloatOp::Random, min.clone(), int_text(*max)),
                    Pending::Float,
                ),
            ),
            (Literal::Float(min), Literal::Float(max)) => Ok(
                Computed::Ask(
                    Request::Float(FloatOp::Random, min.clone(), max.clone()),
                    Pending::Float,
                ),
            ),
            (Literal::Int(_), other) => Err(
                RuntimeError::InvalidArgument(Builtin::Random, other.kind()),
            ),
            (Literal::Float(_), other) => Err(
                RuntimeError::InvalidArgument(Builtin::Random, other.kind()),
            ),
            (other, _) => Err(RuntimeError::InvalidArgument(Builtin::Random, other.kind())),
        }
    }

    /// The built-in `random`. Between two integers, of which the first must
    /// be below the second, it draws a number that is at least the first and
    /// below the second.
    pub fn random(args: &Vec<Literal>) -> (r: Result<Computed, RuntimeError>)
        ensures
            exists|drawn: i32|
                may_draw(literals_view(args@), drawn) && #[trigger] computes(
                    r,
                    randomized(literals_view(args@), drawn),
                ),
    {
        let (r, drawn) = Self::random_drawn(args);
        assert(computes(r, randomized(literals_view(args@), drawn)));
        r
    }

    /// The built-in `random`, with the number that it drew, where it drew one.
    pub(crate) fn random_drawn(args: &Vec<Literal>) -> (r: (Result<Computed, RuntimeError>, i32))
        ensures
            may_draw(literals_view(args@), r.1),
            computes(r.0, randomized(literals_view(args@), r.1)),
    {
        let drawn: i32 = if args.len() >= 2 {
            match (&args[0], &args[1]) {
                (Literal::Int(min), Literal::Int(max)) => {
                    if *min < *max {
                        draw_between(*min, *max)
                    } else {
                        0
                    }
                },
                _ => 0,
            }
        } else {
            0
        };
        (Self::random_with(args, drawn), drawn)
    }

    /// The built-in `parseInt`.
    pub fn parse_int(args: &Vec<Literal>) -> (r: Result<Computed, RuntimeError>)
        ensures
            computes(r, parsed_int(literals_view(args@))),
    {
        if args.len() < 1 {
            return missing(Builtin::ParseInt, 1, args);
        }
        match &args[0] {
            Literal::String(string) => match to_integer(string) {
                Some(number) => Ok(Computed::Value(Literal::Int(number))),
                None => Err(RuntimeError::InvalidInteger(string.clone())),
            },
            unexpected => Err(RuntimeError::InvalidArgument(Builtin::ParseInt, unexpected.kind())),
        }
    }

    /// The built-in `parseFloat`.
    pub fn parse_float(args: &Vec<Literal>) -> (r: Result<Computed, RuntimeError>)
        ensures
            computes(r, parsed_float(literals_view(args@))),
    {
        if args.len() < 1 {
            return missing(Builtin::ParseFloat, 1, args);
        }
        match &args[0] {
            Literal::String(string) => Ok(
                Computed::Ask(
                    Request::Float(FloatOp::Parse, string.clone(), String::new()),
                    Pending::Parsed(string.clone()),
                ),
            ),
            unexpected => Err(
                RuntimeError::InvalidArgument(Builtin::ParseFloat, unexpected.kind()),
            ),
        }
    }

    /// The built-in `toString`.
    pub fn to_string(args: &Vec<Literal>) -> (r: Result<Computed, RuntimeError>)
        ensures
            computes(r, stringified(literals_view(args@))),
    {
        if args.len() < 1 {
            return missing(Builtin::ToString, 1, args);
        }
        Ok(Computed::Value(Literal::String(args[0].to_string())))
    }
}

} // verus!
