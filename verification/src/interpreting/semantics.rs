//! What a step of the machine does, as a function of its state, of the
//! host's reply and of the number drawn where `random` draws one.
//!
//! Names are looked up at the time of use in the scopes that are then active,
//! the innermost first and the top-level scope last: a function sees the
//! variables of whoever called it, and holds none of its own once it returns.
//! A call and a loop have a scope each; a conditional has none.
//!
//! A statement leaves a value where it returns one: a `return` does, and so
//! does a conditional or a loop in which a statement did. The body of a
//! function, the block of a conditional and a loop end with the first
//! statement that leaves a value; at the top level such a value is dropped.
//! A call gives the value that its body left, or the unit.
//!
//! A while loop evaluates its condition before each statement of its block.
//! `break` marks the innermost loop that is running, be it in a function that
//! was called from the loop. A while loop that is marked ends before its next
//! statement, a for loop before its next item; a `break` that stands in the
//! block of a for loop itself ends the loop at once.
//!
//! A built-in of a name goes before any function of that name. The arguments
//! of a call are evaluated from left to right in the scope of the caller,
//! those that the function has parameters for and no more.

use vstd::prelude::*;
use crate::interpreting::builtins::cmp::{compared, decides};
use crate::interpreting::builtins::io::{printed, put as put_text};
use crate::interpreting::builtins::math::{added, arithmetic, multiplied, trigonometry};
use crate::interpreting::builtins::misc::{
    parsed_float, parsed_int, randomized, ranged, stringified,
};
use crate::interpreting::interpreter::State;
use crate::interpreting::outcome::{
    Builtin, ComputedView, FloatOp, Outcome, PendingView, ReplyView, RequestView, RuntimeErrorView,
    SignalView,
};
use crate::interpreting::task::{context_of, scope_of, with_scope, ApplyView, TaskView};
use crate::interpreting::typing::{kind_of, Context, LiteralView};
use crate::parsing::typing::{BinOp, ExprView, StatementView};
use crate::table::{get, keys_of, lemma_put_keeps_keys, lemma_put_then_get, put};

verus! {

/// A scope: the variables defined in it, with their values.
pub type Scope = Seq<(Seq<char>, LiteralView)>;

/// What a step gives: the state after it, and what it tells the host.
pub type Stepped = (State, SignalView);

/// The innermost task below `below` that owns a scope.
pub open spec fn innermost_scope(tasks: Seq<TaskView>, below: int) -> Option<int>
    decreases below,
{
    if 0 < below <= tasks.len() {
        if scope_of(tasks[below - 1]) is Some {
            Some(below - 1)
        } else {
            innermost_scope(tasks, below - 1)
        }
    } else {
        None
    }
}

/// The innermost task below `below` whose scope holds `name`.
pub open spec fn holder(tasks: Seq<TaskView>, name: Seq<char>, below: int) -> Option<int>
    decreases below,
{
    if 0 < below <= tasks.len() {
        match scope_of(tasks[below - 1]) {
            Some(scope) => if get(scope, name) is Some {
                Some(below - 1)
            } else {
                holder(tasks, name, below - 1)
            },
            None => holder(tasks, name, below - 1),
        }
    } else {
        None
    }
}

/// The innermost task below `below` whose scope holds a function under `name`.
pub open spec fn function_holder(tasks: Seq<TaskView>, name: Seq<char>, below: int) -> Option<int>
    decreases below,
{
    if 0 < below <= tasks.len() {
        match scope_of(tasks[below - 1]) {
            Some(scope) => if get(scope, name) matches Some(LiteralView::Function(_, _, _)) {
                Some(below - 1)
            } else {
                function_holder(tasks, name, below - 1)
            },
            None => function_holder(tasks, name, below - 1),
        }
    } else {
        None
    }
}

/// The innermost task below `below` that is a loop.
pub open spec fn innermost_loop(tasks: Seq<TaskView>, below: int) -> Option<int>
    decreases below,
{
    if 0 < below <= tasks.len() {
        if context_of(tasks[below - 1]) == Some(Context::Loop) {
            Some(below - 1)
        } else {
            innermost_loop(tasks, below - 1)
        }
    } else {
        None
    }
}

/// Whether a function is running: one of the tasks below `below` is a call.
pub open spec fn in_function(tasks: Seq<TaskView>, below: int) -> bool
    decreases below,
{
    if 0 < below <= tasks.len() {
        context_of(tasks[below - 1]) == Some(Context::Function) || in_function(tasks, below - 1)
    } else {
        false
    }
}

/// The kinds of the scopes that are active among the tasks below `below`,
/// the outermost first.
pub open spec fn contexts_below(tasks: Seq<TaskView>, below: int) -> Seq<Context>
    decreases below,
{
    if 0 < below <= tasks.len() {
        match context_of(tasks[below - 1]) {
            Some(context) => contexts_below(tasks, below - 1).push(context),
            None => contexts_below(tasks, below - 1),
        }
    } else {
        seq![Context::TopLevel]
    }
}

/// The kinds of the scopes that are active, the top level first.
pub open spec fn contexts(s: State) -> Seq<Context> {
    contexts_below(s.tasks, s.tasks.len() as int)
}

/// The scope that a new variable goes to: the innermost.
pub open spec fn current_scope(s: State) -> Scope {
    match innermost_scope(s.tasks, s.tasks.len() as int) {
        Some(i) => scope_of(s.tasks[i])->0,
        None => s.globals,
    }
}

/// The value of the variable `name`: the one in the innermost scope that holds the name.
pub open spec fn lookup(s: State, name: Seq<char>) -> Option<LiteralView> {
    match holder(s.tasks, name, s.tasks.len() as int) {
        Some(i) => get(scope_of(s.tasks[i])->0, name),
        None => get(s.globals, name),
    }
}

/// The parameters and the body of the function called `name`: those of the
/// function in the innermost scope that holds a function under the name.
pub open spec fn callee(s: State, name: Seq<char>) -> Option<LiteralView> {
    match function_holder(s.tasks, name, s.tasks.len() as int) {
        Some(i) => get(scope_of(s.tasks[i])->0, name),
        None => match get(s.globals, name) {
            Some(LiteralView::Function(n, params, body)) => Some(
                LiteralView::Function(n, params, body),
            ),
            _ => None,
        },
    }
}

/// The state with `name` set to `value` in the innermost scope.
pub open spec fn defined(s: State, name: Seq<char>, value: LiteralView) -> State {
    match innermost_scope(s.tasks, s.tasks.len() as int) {
        Some(i) => State {
            tasks: s.tasks.update(
                i,
                with_scope(s.tasks[i], put(scope_of(s.tasks[i])->0, name, value)),
            ),
            ..s
        },
        None => State { globals: put(s.globals, name, value), ..s },
    }
}

/// The state with `name` set to `value` in the innermost scope that holds
/// the name; none where no scope holds it.
pub open spec fn assigned(s: State, name: Seq<char>, value: LiteralView) -> Option<State> {
    match holder(s.tasks, name, s.tasks.len() as int) {
        Some(i) => Some(
            State {
                tasks: s.tasks.update(
                    i,
                    with_scope(s.tasks[i], put(scope_of(s.tasks[i])->0, name, value)),
                ),
                ..s
            },
        ),
        None => if get(s.globals, name) is Some {
            Some(State { globals: put(s.globals, name, value), ..s })
        } else {
            None
        },
    }
}

/// The state with the entries from `from` on set in the innermost scope, in their order.
pub open spec fn merged(s: State, entries: Scope, from: int) -> State
    decreases entries.len() - from,
{
    if 0 <= from < entries.len() {
        merged(defined(s, entries[from].0, entries[from].1), entries, from + 1)
    } else {
        s
    }
}

/// The table that sets each of `keys` to the value at its place, in their
/// order, after the entries of `acc`; a key that comes again gets the later value.
pub open spec fn zipped(keys: Seq<Seq<char>>, values: Seq<LiteralView>, from: int, acc: Scope) -> Scope
    decreases keys.len() - from,
{
    if 0 <= from < keys.len() && from < values.len() {
        zipped(keys, values, from + 1, put(acc, keys[from], values[from]))
    } else {
        acc
    }
}

/// The value at place `i`, or the unit where there is none.
pub open spec fn arg(values: Seq<LiteralView>, i: int) -> LiteralView {
    if 0 <= i < values.len() {
        values[i]
    } else {
        LiteralView::Unit
    }
}

/// What was left as a value: the unit where nothing was left.
pub open spec fn left(carry: Option<LiteralView>) -> LiteralView {
    match carry {
        Some(v) => v,
        None => LiteralView::Unit,
    }
}

/// The built-in that a name stands for.
pub open spec fn builtin_named(name: Seq<char>) -> Option<Builtin> {
    if name == "putStr"@ {
        Some(Builtin::PutStr)
    } else if name == "putStrLn"@ {
        Some(Builtin::PutStrLn)
    } else if name == "print"@ {
        Some(Builtin::Print)
    } else if name == "printLn"@ {
        Some(Builtin::PrintLn)
    } else if name == "flushStdout"@ {
        Some(Builtin::FlushStdout)
    } else if name == "readLine"@ {
        Some(Builtin::ReadLine)
    } else if name == "cos"@ {
        Some(Builtin::Cos)
    } else if name == "sin"@ {
        Some(Builtin::Sin)
    } else if name == "tan"@ {
        Some(Builtin::Tan)
    } else if name == "acos"@ {
        Some(Builtin::Acos)
    } else if name == "asin"@ {
        Some(Builtin::Asin)
    } else if name == "atan"@ {
        Some(Builtin::Atan)
    } else if name == "range"@ {
        Some(Builtin::Range)
    } else if name == "random"@ {
        Some(Builtin::Random)
    } else if name == "parseInt"@ {
        Some(Builtin::ParseInt)
    } else if name == "parseFloat"@ {
        Some(Builtin::ParseFloat)
    } else if name == "toString"@ {
        Some(Builtin::ToString)
    } else {
        None
    }
}

/// How many of `given` arguments a built-in has evaluated: all for those
/// that write, none for those that take none, else as many as it reads.
pub open spec fn taken(builtin: Builtin, given: nat) -> nat {
    let reads: nat = match builtin {
        Builtin::PutStr | Builtin::PutStrLn | Builtin::Print | Builtin::PrintLn => given,
        Builtin::FlushStdout | Builtin::ReadLine => 0,
        Builtin::Range | Builtin::Random => 2,
        _ => 1,
    };
    if reads < given {
        reads
    } else {
        given
    }
}

/// What an operator makes of two values.
pub open spec fn binary(op: BinOp, left: LiteralView, right: LiteralView) -> Outcome {
    match op {
        BinOp::Add => added(left, right),
        BinOp::Mul => multiplied(left, right),
        BinOp::Sub | BinOp::Div | BinOp::FloorDiv | BinOp::Mod | BinOp::Pow => arithmetic(
            op,
            left,
            right,
        ),
        _ => compared(op, left, right),
    }
}

/// What a built-in makes of its arguments, given the number `drawn` where
/// `random` draws one.
pub open spec fn built_in(builtin: Builtin, args: Seq<LiteralView>, drawn: i32) -> Outcome {
    match builtin {
        Builtin::PutStr => put_text(builtin, args, false),
        Builtin::PutStrLn => put_text(builtin, args, true),
        Builtin::Print => printed(args, false),
        Builtin::PrintLn => printed(args, true),
        Builtin::FlushStdout => Ok(ComputedView::Ask(RequestView::Flush, PendingView::Written)),
        Builtin::ReadLine => Ok(ComputedView::Ask(RequestView::ReadLine, PendingView::Line)),
        Builtin::Range => ranged(args),
        Builtin::Random => randomized(args, drawn),
        Builtin::ParseInt => parsed_int(args),
        Builtin::ParseFloat => parsed_float(args),
        Builtin::ToString => stringified(args),
        _ => trigonometry(builtin, args),
    }
}

/// The place that an index gives in something of length `len`.
pub open spec fn place(len: nat, index: LiteralView) -> Result<int, RuntimeErrorView> {
    match index {
        LiteralView::Int(i) => if i < 0 {
            Err(RuntimeErrorView::NegativeIndex(i))
        } else if i >= len {
            Err(RuntimeErrorView::IndexOutOfRange(len as usize, i))
        } else {
            Ok(i as int)
        },
        other => Err(RuntimeErrorView::InvalidIndex(kind_of(other))),
    }
}

/// What indexing `target` by `index` gives: of a list the item at that
/// place, of a string the character at that place as a string, of a
/// dictionary the value under that key.
pub open spec fn indexed(target: LiteralView, index: LiteralView) -> Result<
    LiteralView,
    RuntimeErrorView,
> {
    match target {
        LiteralView::String(s) => match place(s.len(), index) {
            Ok(i) => Ok(LiteralView::String(seq![s[i]])),
            Err(e) => Err(e),
        },
        LiteralView::List(items) => match place(items.len(), index) {
            Ok(i) => Ok(items[i]),
            Err(e) => Err(e),
        },
        LiteralView::Dictionnary(entries) => match index {
            LiteralView::String(key) => match get(entries, key) {
                Some(v) => Ok(v),
                None => Err(RuntimeErrorView::MissingKey(key)),
            },
            other => Err(RuntimeErrorView::InvalidIndex(kind_of(other))),
        },
        other => Err(RuntimeErrorView::NotIndexable(kind_of(other))),
    }
}

/// The state with one more task, the innermost.
pub open spec fn pushed(s: State, task: TaskView) -> State {
    State { tasks: s.tasks.push(task), ..s }
}

/// The step that goes on with nothing left behind.
pub open spec fn running(s: State) -> Stepped {
    (State { carry: None, ..s }, SignalView::Running)
}

/// The step that leaves `carry` behind for the task below.
pub open spec fn leaving(s: State, carry: Option<LiteralView>) -> Stepped {
    (State { carry, ..s }, SignalView::Running)
}

/// The step that fails: every task goes, and its scope with it.
pub open spec fn failing(s: State, error: RuntimeErrorView) -> Stepped {
    (
        State { tasks: Seq::empty(), carry: None, failure: Some(error), ..s },
        SignalView::Failed(error),
    )
}

/// The step that an operation's result makes: the value is left behind, or
/// the host is asked and the reply awaited, or the program fails.
pub open spec fn computed(s: State, outcome: Outcome) -> Stepped {
    match outcome {
        Ok(ComputedView::Value(v)) => leaving(s, Some(v)),
        Ok(ComputedView::Ask(request, pending)) => (
            State { carry: None, ..pushed(s, TaskView::Await(pending)) },
            SignalView::Request(request),
        ),
        Err(e) => failing(s, e),
    }
}

/// The step that applies to the values of all the operands.
pub open spec fn applied(s: State, apply: ApplyView, values: Seq<LiteralView>, drawn: i32) -> Stepped {
    match apply {
        ApplyView::Binary(op) => computed(s, binary(op, arg(values, 0), arg(values, 1))),
        ApplyView::List => leaving(s, Some(LiteralView::List(values))),
        ApplyView::Dictionnary(keys) => leaving(
            s,
            Some(LiteralView::Dictionnary(zipped(keys, values, 0, Seq::empty()))),
        ),
        ApplyView::Index => match indexed(arg(values, 0), arg(values, 1)) {
            Ok(v) => leaving(s, Some(v)),
            Err(e) => failing(s, e),
        },
        ApplyView::IndexSet(name) => match arg(values, 0) {
            LiteralView::List(items) => match place(items.len(), arg(values, 1)) {
                Ok(i) => match assigned(
                    s,
                    name,
                    LiteralView::List(items.update(i, arg(values, 2))),
                ) {
                    Some(after) => leaving(after, None),
                    None => failing(s, RuntimeErrorView::UndefinedVariable(name)),
                },
                Err(e) => failing(s, e),
            },
            other => failing(s, RuntimeErrorView::NotAList(kind_of(other))),
        },
        ApplyView::Builtin(builtin) => computed(s, built_in(builtin, values, drawn)),
        ApplyView::Invoke(_, params, body) => running(
            pushed(
                s,
                TaskView::Call { scope: zipped(params, values, 0, Seq::empty()), body, next: 0 },
            ),
        ),
    }
}

/// The range that `random` draws from when `task` goes on with `carry`
/// left for it, where it draws then.
pub open spec fn draw_range(task: TaskView, carry: Option<LiteralView>) -> Option<(i32, i32)> {
    match task {
        TaskView::Operands(ApplyView::Builtin(Builtin::Random), exprs, values) => {
            let all = values.push(left(carry));
            if all.len() >= exprs.len() && all.len() >= 2 {
                match (all[0], all[1]) {
                    (LiteralView::Int(min), LiteralView::Int(max)) => if min < max {
                        Some((min, max))
                    } else {
                        None
                    },
                    _ => None,
                }
            } else {
                None
            }
        },
        _ => None,
    }
}

/// Whether `drawn` lies in the range, where there is one: from the first
/// number, included, to the second, excluded.
pub open spec fn within(range: Option<(i32, i32)>, drawn: i32) -> bool {
    match range {
        Some((min, max)) => min <= drawn < max,
        None => true,
    }
}

/// The range that `random` draws from in the next step, where it draws then.
pub open spec fn drawing(s: State) -> Option<(i32, i32)> {
    if s.failure is None && s.tasks.len() > 0 {
        draw_range(s.tasks.last(), s.carry)
    } else {
        None
    }
}

/// Whether a step takes the machine from `before` to `after` and tells the
/// host `signal`, for some number that `random` may have drawn.
pub open spec fn steps(before: State, reply: ReplyView, after: State, signal: SignalView) -> bool {
    exists|drawn: i32|
        {
            &&& #[trigger] step_of(before, reply, drawn) == (after, signal)
            &&& within(drawing(before), drawn)
        }
}

/// The step that starts on operands: the first is evaluated, or, where
/// there is none, what is to be done with them is done.
pub open spec fn operands(s: State, apply: ApplyView, exprs: Seq<ExprView>) -> Stepped {
    if exprs.len() == 0 {
        applied(s, apply, Seq::empty(), 0)
    } else {
        running(
            pushed(
                pushed(s, TaskView::Operands(apply, exprs, Seq::empty())),
                TaskView::Eval(exprs[0]),
            ),
        )
    }
}

/// The keys of the entries of a dictionary literal.
pub open spec fn entry_keys(entries: Seq<(Seq<char>, ExprView)>) -> Seq<Seq<char>> {
    Seq::new(entries.len(), |i: int| entries[i].0)
}

/// The expressions of the entries of a dictionary literal.
pub open spec fn entry_exprs(entries: Seq<(Seq<char>, ExprView)>) -> Seq<ExprView> {
    Seq::new(entries.len(), |i: int| entries[i].1)
}

/// The step that evaluates an expression.
pub open spec fn evaluated(s: State, expr: ExprView) -> Stepped {
    match expr {
        ExprView::String(string) => leaving(s, Some(LiteralView::String(string))),
        ExprView::Int(number) => leaving(s, Some(LiteralView::Int(number))),
        ExprView::Float(text) => (
            State { carry: None, ..pushed(s, TaskView::Await(PendingView::Parsed(text))) },
            SignalView::Request(RequestView::Float(FloatOp::Parse, text, Seq::empty())),
        ),
        ExprView::Boolean(boolean) => leaving(s, Some(LiteralView::Boolean(boolean))),
        ExprView::Var(name) => match lookup(s, name) {
            Some(v) => leaving(s, Some(v)),
            None => failing(s, RuntimeErrorView::UndefinedVariable(name)),
        },
        ExprView::Call(name, args) => match builtin_named(name) {
            Some(builtin) => operands(
                s,
                ApplyView::Builtin(builtin),
                args.take(taken(builtin, args.len()) as int),
            ),
            None => match callee(s, name) {
                Some(LiteralView::Function(_, params, body)) => {
                    if args.len() < params.len() {
                        failing(
                            s,
                            RuntimeErrorView::NotEnoughArguments(
                                name,
                                params.len() as usize,
                                args.len() as usize,
                            ),
                        )
                    } else {
                        operands(
                            s,
                            ApplyView::Invoke(name, params, body),
                            args.take(params.len() as int),
                        )
                    }
                },
                _ => failing(s, RuntimeErrorView::UndefinedFunction(name)),
            },
        },
        ExprView::List(items) => operands(s, ApplyView::List, items),
        ExprView::Dictionnary(entries) => operands(
            s,
            ApplyView::Dictionnary(entry_keys(entries)),
            entry_exprs(entries),
        ),
        ExprView::Index(target, index) => operands(s, ApplyView::Index, seq![*target, *index]),
        ExprView::BinOp(op, l, r) => operands(s, ApplyView::Binary(op), seq![*l, *r]),
    }
}

/// The task with `stopped` set, where it is a loop.
pub open spec fn stopped(task: TaskView) -> TaskView {
    match task {
        TaskView::While { scope, stopped: _, condition, body, next, checking } => TaskView::While {
            scope,
            stopped: true,
            condition,
            body,
            next,
            checking,
        },
        TaskView::For { scope, stopped: _, name, items, index, body, next } => TaskView::For {
            scope,
            stopped: true,
            name,
            items,
            index,
            body,
            next,
        },
        other => other,
    }
}

/// The step that starts on a statement.
pub open spec fn executed(s: State, statement: StatementView) -> Stepped {
    match statement {
        StatementView::VarDef(name, e) => {
            if get(current_scope(s), name) is Some {
                failing(s, RuntimeErrorView::AlreadyDefined(name))
            } else {
                running(pushed(pushed(s, TaskView::Define(name)), TaskView::Eval(e)))
            }
        },
        StatementView::FuncDef(name, params, body) => {
            let after = defined(s, name, LiteralView::Function(name, params, body));
            if s.eval_main && name == "main"@ {
                if params.len() > 0 {
                    failing(
                        after,
                        RuntimeErrorView::NotEnoughArguments(name, params.len() as usize, 0),
                    )
                } else {
                    running(
                        pushed(
                            pushed(after, TaskView::Discard),
                            TaskView::Call { scope: Seq::empty(), body, next: 0 },
                        ),
                    )
                }
            } else {
                leaving(after, None)
            }
        },
        StatementView::VarSet(name, e) => running(
            pushed(pushed(s, TaskView::Assign(name)), TaskView::Eval(e)),
        ),
        StatementView::IndexSet(target, index, value) => match target {
            ExprView::Var(name) => operands(s, ApplyView::IndexSet(name), seq![target, index, value]),
            _ => leaving(s, None),
        },
        StatementView::Return(e) => running(pushed(s, TaskView::Eval(e))),
        StatementView::While(condition, body) => running(
            pushed(
                pushed(
                    s,
                    TaskView::While {
                        scope: Seq::empty(),
                        stopped: false,
                        condition,
                        body,
                        next: 0,
                        checking: true,
                    },
                ),
                TaskView::Eval(condition),
            ),
        ),
        StatementView::For(name, iterable, body) => {
            if lookup(s, name) is Some {
                failing(s, RuntimeErrorView::AlreadyDefined(name))
            } else {
                running(pushed(pushed(s, TaskView::Iterate(name, body)), TaskView::Eval(iterable)))
            }
        },
        StatementView::Break => match innermost_loop(s.tasks, s.tasks.len() as int) {
            Some(i) => leaving(State { tasks: s.tasks.update(i, stopped(s.tasks[i])), ..s }, None),
            None => failing(s, RuntimeErrorView::BreakOutsideLoop),
        },
        StatementView::Load(path) => {
            if path == s.file {
                leaving(s, None)
            } else {
                (
                    State { carry: None, ..pushed(s, TaskView::Await(PendingView::Loaded)) },
                    SignalView::Request(RequestView::Load(path)),
                )
            }
        },
        StatementView::If(condition, if_body, else_body) => running(
            pushed(pushed(s, TaskView::Choose(if_body, else_body)), TaskView::Eval(condition)),
        ),
        StatementView::Expr(e) => {
            if in_function(s.tasks, s.tasks.len() as int) {
                running(pushed(pushed(s, TaskView::Discard), TaskView::Eval(e)))
            } else {
                failing(s, RuntimeErrorView::ExpressionOutsideFunction)
            }
        },
    }
}

/// The step that takes the host's reply.
pub open spec fn resumed(s: State, pending: PendingView, reply: ReplyView) -> Stepped {
    match (pending, reply) {
        (_, ReplyView::Failed(message)) => failing(s, RuntimeErrorView::Host(message)),
        (PendingView::Float, ReplyView::Float(x)) => leaving(s, Some(LiteralView::Float(x))),
        (PendingView::Parsed(_), ReplyView::Float(x)) => leaving(s, Some(LiteralView::Float(x))),
        (PendingView::Parsed(text), ReplyView::Invalid) => failing(
            s,
            RuntimeErrorView::InvalidFloat(text),
        ),
        (PendingView::Order(op), ReplyView::Order(order)) => leaving(
            s,
            Some(LiteralView::Boolean(decides(op, order))),
        ),
        (PendingView::Line, ReplyView::Line(line)) => leaving(s, Some(LiteralView::String(line))),
        (PendingView::Written, ReplyView::Empty) => leaving(s, Some(LiteralView::Unit)),
        (PendingView::Loaded, ReplyView::Bindings(entries)) => leaving(merged(s, entries, 0), None),
        (PendingView::Loaded, ReplyView::Skipped) => leaving(s, None),
        _ => failing(s, RuntimeErrorView::UnexpectedReply),
    }
}

/// The step of a while loop that goes to its condition, with `next` the
/// statement to run if it holds; the loop ends here if a `break` has asked for it.
pub open spec fn rechecked(
    s: State,
    scope: Scope,
    stopped: bool,
    condition: ExprView,
    body: Seq<StatementView>,
    next: usize,
) -> Stepped {
    if stopped {
        leaving(s, None)
    } else {
        running(
            pushed(
                pushed(
                    s,
                    TaskView::While { scope, stopped, condition, body, next, checking: true },
                ),
                TaskView::Eval(condition),
            ),
        )
    }
}

/// The step of a task that waits for what the task above it has left in
/// `carry`; `s` is the state without the task.
pub open spec fn continued(s: State, task: TaskView, carry: Option<LiteralView>, drawn: i32) -> Stepped {
    match task {
        TaskView::Exec(statement) => executed(s, statement),
        TaskView::Eval(expr) => evaluated(s, expr),
        TaskView::Operands(apply, exprs, values) => {
            let values = values.push(left(carry));
            if values.len() < exprs.len() {
                running(
                    pushed(
                        pushed(s, TaskView::Operands(apply, exprs, values)),
                        TaskView::Eval(exprs[values.len() as int]),
                    ),
                )
            } else {
                applied(s, apply, values, drawn)
            }
        },
        TaskView::Define(name) => leaving(defined(s, name, left(carry)), None),
        TaskView::Assign(name) => match assigned(s, name, left(carry)) {
            Some(after) => leaving(after, None),
            None => failing(s, RuntimeErrorView::UndefinedVariable(name)),
        },
        TaskView::Discard => leaving(s, None),
        TaskView::Choose(if_body, else_body) => match left(carry) {
            LiteralView::Boolean(chosen) => running(
                pushed(
                    s,
                    TaskView::Branch {
                        body: if chosen {
                            if_body
                        } else {
                            else_body
                        },
                        next: 0,
                    },
                ),
            ),
            other => failing(s, RuntimeErrorView::ConditionNotBoolean(kind_of(other))),
        },
        TaskView::Iterate(name, body) => match left(carry) {
            LiteralView::List(items) => running(
                pushed(
                    s,
                    TaskView::For {
                        scope: Seq::empty(),
                        stopped: false,
                        name,
                        items,
                        index: 0,
                        body,
                        next: 0,
                    },
                ),
            ),
            other => failing(s, RuntimeErrorView::NotAList(kind_of(other))),
        },
        TaskView::Await(_) => failing(s, RuntimeErrorView::UnexpectedReply),
        TaskView::Call { scope, body, next } => match carry {
            Some(v) => leaving(s, Some(v)),
            None => if next < body.len() {
                running(
                    pushed(
                        pushed(s, TaskView::Call { scope, body, next: (next + 1) as usize }),
                        TaskView::Exec(body[next as int]),
                    ),
                )
            } else {
                leaving(s, Some(LiteralView::Unit))
            },
        },
        TaskView::Branch { body, next } => match carry {
            Some(v) => leaving(s, Some(v)),
            None => if next < body.len() {
                running(
                    pushed(
                        pushed(s, TaskView::Branch { body, next: (next + 1) as usize }),
                        TaskView::Exec(body[next as int]),
                    ),
                )
            } else {
                leaving(s, None)
            },
        },
        TaskView::While { scope, stopped, condition, body, next, checking } => {
            if checking {
                match left(carry) {
                    LiteralView::Boolean(true) => if next < body.len() {
                        running(
                            pushed(
                                pushed(
                                    s,
                                    TaskView::While {
                                        scope,
                                        stopped,
                                        condition,
                                        body,
                                        next,
                                        checking: false,
                                    },
                                ),
                                TaskView::Exec(body[next as int]),
                            ),
                        )
                    } else {
                        rechecked(s, scope, stopped, condition, body, 0)
                    },
                    LiteralView::Boolean(false) => leaving(s, None),
                    other => failing(s, RuntimeErrorView::ConditionNotBoolean(kind_of(other))),
                }
            } else if carry is Some {
                leaving(s, carry)
            } else {
                rechecked(
                    s,
                    scope,
                    stopped,
                    condition,
                    body,
                    if next + 1 < body.len() {
                        (next + 1) as usize
                    } else {
                        0
                    },
                )
            }
        },
        TaskView::For { scope, stopped, name, items, index, body, next } => {
            if carry is Some {
                leaving(s, carry)
            } else if body.len() == 0 || index >= items.len() {
                leaving(s, None)
            } else {
                let turn = if next < body.len() {
                    (index, next)
                } else {
                    ((index + 1) as usize, 0usize)
                };
                if turn.0 >= items.len() || (turn.1 == 0 && stopped) || body[turn.1 as int]
                    is Break {
                    leaving(s, None)
                } else {
                    running(
                        pushed(
                            pushed(
                                s,
                                TaskView::For {
                                    scope: put(scope, name, items[turn.0 as int]),
                                    stopped,
                                    name,
                                    items,
                                    index: turn.0,
                                    body,
                                    next: (turn.1 + 1) as usize,
                                },
                            ),
                            TaskView::Exec(body[turn.1 as int]),
                        ),
                    )
                }
            }
        },
    }
}

/// What a step does. A program that has failed stays failed. A program with
/// nothing left to do starts on its next top-level statement, or has
/// finished. Else the innermost task goes on: one that awaits the host takes
/// the reply, and any other wants the reply to be empty.
pub open spec fn step_of(s: State, reply: ReplyView, drawn: i32) -> Stepped {
    if s.failure is Some {
        (s, SignalView::Failed(s.failure->0))
    } else if s.tasks.len() == 0 {
        if reply != ReplyView::Empty {
            failing(s, RuntimeErrorView::UnexpectedReply)
        } else if s.position < s.statements.len() {
            running(
                State {
                    tasks: seq![TaskView::Exec(s.statements[s.position as int])],
                    position: (s.position + 1) as usize,
                    ..s
                },
            )
        } else {
            (s, SignalView::Finished)
        }
    } else {
        let rest = State { tasks: s.tasks.drop_last(), carry: None, ..s };
        match s.tasks.last() {
            TaskView::Await(pending) => resumed(rest, pending, reply),
            task => if reply != ReplyView::Empty {
                failing(s, RuntimeErrorView::UnexpectedReply)
            } else {
                continued(rest, task, s.carry, drawn)
            },
        }
    }
}

/// Whether steps take the machine from `before` to `after` and tell the host
/// `signal` at the end: a first step that takes `reply`, then steps with an
/// empty reply for as long as the machine has more to do and nothing to ask,
/// `budget` of them at most.
pub open spec fn reaches(
    before: State,
    reply: ReplyView,
    budget: nat,
    after: State,
    signal: SignalView,
) -> bool
    decreases budget,
{
    exists|mid: State, told: SignalView|
        {
            &&& #[trigger] steps(before, reply, mid, told)
            &&& if told is Running && budget > 0 {
                reaches(mid, ReplyView::Empty, (budget - 1) as nat, after, signal)
            } else {
                after == mid && signal == told
            }
        }
}

/// A program that has failed stays failed, and one that has run to its end
/// stays at its end: further steps with an empty reply change nothing.
pub proof fn lemma_halted_stays(s: State, drawn: i32)
    ensures
        s.failure is Some ==> step_of(s, ReplyView::Empty, drawn) == (
            s,
            SignalView::Failed(s.failure->0),
        ),
        s.failure is None && s.tasks.len() == 0 && s.position >= s.statements.len() ==> step_of(
            s,
            ReplyView::Empty,
            drawn,
        ) == (s, SignalView::Finished),
{
}

/// A step in which `random` draws no number is determined by the state and
/// the reply.
pub proof fn lemma_step_determined(s: State, reply: ReplyView, a: i32, b: i32)
    requires
        drawing(s) is None,
    ensures
        step_of(s, reply, a) == step_of(s, reply, b),
{
}

/// When the body of a function has run to its end or left a value, the call
/// goes with its scope: the tasks below it, and so their scopes, are as they
/// were, and the value is left for them.
pub proof fn lemma_call_returns(
    s: State,
    scope: Scope,
    body: Seq<StatementView>,
    next: usize,
    reply: ReplyView,
    drawn: i32,
)
    requires
        s.failure is None,
        s.tasks.len() > 0,
        s.tasks.last() == (TaskView::Call { scope, body, next }),
        reply == ReplyView::Empty,
        s.carry is Some || next >= body.len(),
    ensures
        step_of(s, reply, drawn).0.tasks == s.tasks.drop_last(),
        step_of(s, reply, drawn).0.globals == s.globals,
        step_of(s, reply, drawn).0.carry == Some(
            match s.carry {
                Some(v) => v,
                None => LiteralView::Unit,
            },
        ),
        step_of(s, reply, drawn).1 == SignalView::Running,
{
}

/// A variable that is defined goes to the innermost scope and nowhere else:
/// every other task, and the top-level scope while a task owns a scope, stay
/// as they were.
pub proof fn lemma_definition_is_local(s: State, name: Seq<char>, value: LiteralView)
    ensures
        defined(s, name, value).tasks.len() == s.tasks.len(),
        match innermost_scope(s.tasks, s.tasks.len() as int) {
            Some(i) => {
                &&& 0 <= i < s.tasks.len()
                &&& defined(s, name, value).globals == s.globals
                &&& forall|j: int|
                    0 <= j < s.tasks.len() && j != i ==> defined(s, name, value).tasks[j]
                        == s.tasks[j]
                &&& scope_of(defined(s, name, value).tasks[i]) == Some(
                    put(scope_of(s.tasks[i])->0, name, value),
                )
            },
            None => defined(s, name, value).tasks == s.tasks && defined(s, name, value).globals
                == put(s.globals, name, value),
        },
{
    lemma_innermost_scope(s.tasks, s.tasks.len() as int);
}

/// The innermost task that owns a scope is one of the tasks, and owns a scope.
pub proof fn lemma_innermost_scope(tasks: Seq<TaskView>, below: int)
    requires
        below <= tasks.len(),
    ensures
        innermost_scope(tasks, below) matches Some(i) ==> 0 <= i < below && scope_of(tasks[i])
            is Some,
    decreases below,
{
    if 0 < below {
        lemma_innermost_scope(tasks, below - 1);
    }
}

/// Above the innermost task that owns a scope no task owns one, so a name
/// is looked for from that task down.
proof fn lemma_holder_starts_at_innermost(tasks: Seq<TaskView>, name: Seq<char>, below: int)
    requires
        0 <= below <= tasks.len(),
    ensures
        match innermost_scope(tasks, below) {
            Some(i) => holder(tasks, name, below) == holder(tasks, name, i + 1),
            None => holder(tasks, name, below) is None,
        },
    decreases below,
{
    if 0 < below && scope_of(tasks[below - 1]) is None {
        lemma_holder_starts_at_innermost(tasks, name, below - 1);
    }
}

/// Whether a task owns a scope does not depend on what the scope holds.
proof fn lemma_innermost_scope_kept(tasks: Seq<TaskView>, after: Seq<TaskView>, below: int)
    requires
        0 <= below <= tasks.len(),
        after.len() == tasks.len(),
        forall|j: int|
            0 <= j < tasks.len() ==> (scope_of(#[trigger] after[j]) is Some) == (scope_of(
                tasks[j],
            ) is Some),
    ensures
        innermost_scope(after, below) == innermost_scope(tasks, below),
    decreases below,
{
    if 0 < below && scope_of(tasks[below - 1]) is None {
        lemma_innermost_scope_kept(tasks, after, below - 1);
    }
}

/// A variable that was defined is found, with the value it was defined with.
pub proof fn lemma_defined_then_found(s: State, name: Seq<char>, value: LiteralView)
    ensures
        lookup(defined(s, name, value), name) == Some(value),
{
    let n = s.tasks.len() as int;
    let after = defined(s, name, value);
    lemma_innermost_scope(s.tasks, n);
    lemma_definition_is_local(s, name, value);
    match innermost_scope(s.tasks, n) {
        Some(i) => {
            let scope = scope_of(s.tasks[i])->0;
            lemma_put_then_get(scope, name, value);
            assert forall|j: int| 0 <= j < n implies (scope_of(#[trigger] after.tasks[j]) is Some)
                == (scope_of(s.tasks[j]) is Some) by {
                if j != i {
                    assert(after.tasks[j] == s.tasks[j]);
                }
            }
            lemma_innermost_scope_kept(s.tasks, after.tasks, n);
            lemma_holder_starts_at_innermost(after.tasks, name, n);
            assert(holder(after.tasks, name, i + 1) == Some(i));
        },
        None => {
            lemma_holder_starts_at_innermost(s.tasks, name, n);
            lemma_put_then_get(s.globals, name, value);
        },
    }
}

/// The names that are defined in the scope that a task owns, if it owns one.
pub open spec fn names_of_scope(task: TaskView) -> Option<Seq<Seq<char>>> {
    match scope_of(task) {
        Some(scope) => Some(keys_of(scope)),
        None => None,
    }
}

/// Whether two states have the same names in the top-level scope and in the
/// scopes of their tasks below `below`.
pub open spec fn same_names_below(before: State, after: State, below: int) -> bool {
    &&& keys_of(after.globals) == keys_of(before.globals)
    &&& below <= after.tasks.len()
    &&& forall|j: int|
        0 <= j < below ==> names_of_scope(#[trigger] after.tasks[j]) == names_of_scope(
            before.tasks[j],
        )
}

/// Where a name is held, the task there owns a scope that holds it.
proof fn lemma_holder(tasks: Seq<TaskView>, name: Seq<char>, below: int)
    requires
        below <= tasks.len(),
    ensures
        holder(tasks, name, below) matches Some(i) ==> 0 <= i < below && scope_of(tasks[i])
            is Some && get(scope_of(tasks[i])->0, name) is Some,
    decreases below,
{
    if 0 < below {
        lemma_holder(tasks, name, below - 1);
    }
}

/// An assignment changes no name of any scope.
proof fn lemma_assigned_keeps_names(s: State, name: Seq<char>, value: LiteralView)
    ensures
        assigned(s, name, value) matches Some(after) ==> same_names_below(
            s,
            after,
            s.tasks.len() as int,
        ) && after.tasks.len() == s.tasks.len() && after.failure == s.failure,
{
    lemma_holder(s.tasks, name, s.tasks.len() as int);
    match holder(s.tasks, name, s.tasks.len() as int) {
        Some(i) => {
            lemma_put_keeps_keys(scope_of(s.tasks[i])->0, name, value);
        },
        None => {
            if get(s.globals, name) is Some {
                lemma_put_keeps_keys(s.globals, name, value);
            }
        },
    }
}

/// A definition changes no name of any scope below the innermost, nor of the
/// top-level scope while a task owns a scope.
proof fn lemma_defined_keeps_outer_names(s: State, name: Seq<char>, value: LiteralView, i: int)
    requires
        innermost_scope(s.tasks, s.tasks.len() as int) == Some(i),
    ensures
        same_names_below(s, defined(s, name, value), i),
        innermost_scope(defined(s, name, value).tasks, s.tasks.len() as int) == Some(i),
        defined(s, name, value).tasks.len() == s.tasks.len(),
        defined(s, name, value).failure == s.failure,
{
    let after = defined(s, name, value);
    lemma_innermost_scope(s.tasks, s.tasks.len() as int);
    lemma_definition_is_local(s, name, value);
    assert forall|j: int| 0 <= j < s.tasks.len() implies (scope_of(#[trigger] after.tasks[j])
        is Some) == (scope_of(s.tasks[j]) is Some) by {
        if j != i {
            assert(after.tasks[j] == s.tasks[j]);
        }
    }
    lemma_innermost_scope_kept(s.tasks, after.tasks, s.tasks.len() as int);
}

/// Definitions one after the other change no name of any scope below the
/// innermost, nor of the top-level scope while a task owns a scope.
proof fn lemma_merged_keeps_outer_names(s: State, entries: Scope, from: int, i: int)
    requires
        innermost_scope(s.tasks, s.tasks.len() as int) == Some(i),
        0 <= from,
    ensures
        same_names_below(s, merged(s, entries, from), i),
        merged(s, entries, from).failure == s.failure,
    decreases entries.len() - from,
{
    lemma_innermost_scope(s.tasks, s.tasks.len() as int);
    if from < entries.len() {
        let next = defined(s, entries[from].0, entries[from].1);
        lemma_defined_keeps_outer_names(s, entries[from].0, entries[from].1, i);
        lemma_merged_keeps_outer_names(next, entries, from + 1, i);
        let after = merged(s, entries, from);
        assert forall|j: int| 0 <= j < i implies names_of_scope(#[trigger] after.tasks[j])
            == names_of_scope(s.tasks[j]) by {
            assert(names_of_scope(next.tasks[j]) == names_of_scope(s.tasks[j]));
        }
    }
}

/// The innermost task that owns a scope is the same where the tasks up to
/// `below` are the same.
proof fn lemma_innermost_scope_of_prefix(tasks: Seq<TaskView>, other: Seq<TaskView>, below: int)
    requires
        0 <= below <= tasks.len(),
        below <= other.len(),
        forall|j: int| 0 <= j < below ==> #[trigger] other[j] == tasks[j],
    ensures
        innermost_scope(other, below) == innermost_scope(tasks, below),
    decreases below,
{
    if 0 < below {
        lemma_innermost_scope_of_prefix(tasks, other, below - 1);
    }
}

/// The innermost loop is one of the tasks.
proof fn lemma_innermost_loop(tasks: Seq<TaskView>, below: int)
    requires
        below <= tasks.len(),
    ensures
        innermost_loop(tasks, below) matches Some(i) ==> 0 <= i < below,
    decreases below,
{
    if 0 < below {
        lemma_innermost_loop(tasks, below - 1);
    }
}

/// What runs inside a function or a loop defines nothing outside of it: a
/// step changes no name of a scope below the innermost scope, nor of the
/// top-level scope while a task owns a scope, unless the program fails.
pub proof fn lemma_step_defines_inside(s: State, reply: ReplyView, drawn: i32, i: int)
    requires
        innermost_scope(s.tasks, s.tasks.len() as int) == Some(i),
    ensures
        step_of(s, reply, drawn).0.failure is Some || same_names_below(
            s,
            step_of(s, reply, drawn).0,
            i,
        ),
{
    let n = s.tasks.len() as int;
    let after = step_of(s, reply, drawn).0;
    lemma_innermost_scope(s.tasks, n);
    if s.failure is None && after.failure is None {
        let rest = State { tasks: s.tasks.drop_last(), carry: None, ..s };
        let top = s.tasks.last();
        assert forall|j: int| 0 <= j < n - 1 implies #[trigger] rest.tasks[j] == s.tasks[j] by {}
        if i < n - 1 {
            lemma_innermost_scope_of_prefix(s.tasks, rest.tasks, n - 1);
            assert(scope_of(top) is None);
            assert(innermost_scope(rest.tasks, n - 1) == Some(i));
        }
        match top {
            TaskView::Await(pending) => {
                match (pending, reply) {
                    (PendingView::Loaded, ReplyView::Bindings(entries)) => {
                        lemma_merged_keeps_outer_names(rest, entries, 0, i);
                    },
                    _ => {},
                }
                assert(same_names_below(s, after, i));
            },
            TaskView::Define(name) => {
                lemma_defined_keeps_outer_names(rest, name, left(s.carry), i);
                assert(same_names_below(s, after, i));
            },
            TaskView::Assign(name) => {
                lemma_assigned_keeps_names(rest, name, left(s.carry));
                assert(same_names_below(s, after, i));
            },
            TaskView::Exec(statement) => {
                match statement {
                    StatementView::FuncDef(name, params, body) => {
                        lemma_defined_keeps_outer_names(
                            rest,
                            name,
                            LiteralView::Function(name, params, body),
                            i,
                        );
                        assert(same_names_below(s, after, i));
                    },
                    StatementView::Break => {
                        lemma_innermost_loop(rest.tasks, n - 1);
                        assert(same_names_below(s, after, i));
                    },
                    _ => {
                        assert(same_names_below(s, after, i));
                    },
                }
            },
            TaskView::Operands(apply, exprs, values) => {
                let all = values.push(left(s.carry));
                match apply {
                    ApplyView::IndexSet(name) => {
                        match arg(all, 0) {
                            LiteralView::List(items) => {
                                match place(items.len(), arg(all, 1)) {
                                    Ok(at) => {
                                        lemma_assigned_keeps_names(
                                            rest,
                                            name,
                                            LiteralView::List(items.update(at, arg(all, 2))),
                                        );
                                    },
                                    Err(_) => {},
                                }
                            },
                            _ => {},
                        }
                        assert(same_names_below(s, after, i));
                    },
                    _ => {
                        assert(same_names_below(s, after, i));
                    },
                }
            },
            _ => {
                assert(same_names_below(s, after, i));
            },
        }
    }
}

/// A call with fewer arguments than the function has parameters fails, and
/// a call with as many or more starts on the arguments that the parameters
/// take: those beyond are not evaluated.
pub proof fn lemma_arity(
    s: State,
    name: Seq<char>,
    args: Seq<ExprView>,
    params: Seq<Seq<char>>,
    body: Seq<StatementView>,
)
    requires
        builtin_named(name) is None,
        callee(s, name) == Some(LiteralView::Function(name, params, body)),
    ensures
        args.len() < params.len() ==> evaluated(s, ExprView::Call(name, args)) == failing(
            s,
            RuntimeErrorView::NotEnoughArguments(name, params.len() as usize, args.len() as usize),
        ),
        args.len() >= params.len() ==> evaluated(s, ExprView::Call(name, args)) == operands(
            s,
            ApplyView::Invoke(name, params, body),
            args.take(params.len() as int),
        ),
{
}

} // verus!
