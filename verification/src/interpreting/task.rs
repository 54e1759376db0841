//! What the machine has still to do: a stack of tasks, the innermost last.
//!
//! A task that runs a function's body or a loop owns the scope of that call or
//! loop, so a scope goes when its task goes.

use vstd::prelude::*;
use crate::interpreting::outcome::{Builtin, Pending, PendingView};
use crate::interpreting::typing::{literals_view, table_view, Context, Literal, LiteralView};
use crate::parsing::typing::{
    block_view, expr_view, names_view, statement_view, statements_view, BinOp, Expr, ExprView,
    Statement, StatementView,
};

verus! {

/// What is done with the values of operands once all are there.
#[derive(Debug, PartialEq)]
pub enum Apply {
    /// The operator is applied to the two.
    Binary(BinOp),
    /// They make a list.
    List,
    /// They make a dictionary under these keys.
    Dictionnary(Vec<String>),
    /// The first is indexed by the second.
    Index,
    /// The first, the value of this variable, gets the third at the place
    /// that the second gives, and the variable gets the list so made.
    IndexSet(String),
    /// The built-in is called on them.
    Builtin(Builtin),
    /// The function of this name, with these parameters and this body, is called on them.
    Invoke(String, Vec<String>, Vec<Statement>),
}

/// The mathematical value of an [`Apply`].
pub ghost enum ApplyView {
    Binary(BinOp),
    List,
    Dictionnary(Seq<Seq<char>>),
    Index,
    IndexSet(Seq<char>),
    Builtin(Builtin),
    Invoke(Seq<char>, Seq<Seq<char>>, Seq<StatementView>),
}

impl DeepView for Apply {
    type V = ApplyView;

    open spec fn deep_view(&self) -> ApplyView {
        match self {
            Apply::Binary(op) => ApplyView::Binary(*op),
            Apply::List => ApplyView::List,
            Apply::Dictionnary(keys) => ApplyView::Dictionnary(names_view(keys@)),
            Apply::Index => ApplyView::Index,
            Apply::IndexSet(name) => ApplyView::IndexSet(name@),
            Apply::Builtin(builtin) => ApplyView::Builtin(*builtin),
            Apply::Invoke(name, params, body) => ApplyView::Invoke(
                name@,
                names_view(params@),
                statements_view(body@),
            ),
        }
    }
}

/// One thing that the machine has to do. Each but `Exec` and `Eval` waits for
/// what the task above it leaves.
#[derive(Debug, PartialEq)]
pub enum Task {
    /// Run the statement.
    Exec(Statement),
    /// Find the value of the expression.
    Eval(Expr),
    /// Find the values of the expressions from left to right, those of the
    /// first ones being there already, then apply.
    Operands(Apply, Vec<Expr>, Vec<Literal>),
    /// Define the variable with the value.
    Define(String),
    /// Assign the value to the variable.
    Assign(String),
    /// Drop the value.
    Discard,
    /// Run the first block where the value is true, the second where it is false.
    Choose(Vec<Statement>, Vec<Statement>),
    /// Run the block for each item of the value, which must be a list, under this name.
    Iterate(String, Vec<Statement>),
    /// Take the host's reply.
    Await(Pending),
    /// The body of a function that was called, with the scope of the call;
    /// `next` is the statement to run next.
    Call { scope: Vec<(String, Literal)>, body: Vec<Statement>, next: usize },
    /// The block of a conditional; `next` is the statement to run next.
    Branch { body: Vec<Statement>, next: usize },
    /// A while loop with its scope. `next` is the statement that runs, or
    /// will run once the condition is found true; `checking` says that the
    /// condition is being evaluated; `stopped` that a `break` has asked the
    /// loop to end. A statement that leaves a value ends the loop, which
    /// leaves that value in turn.
    While {
        scope: Vec<(String, Literal)>,
        stopped: bool,
        condition: Expr,
        body: Vec<Statement>,
        next: usize,
        checking: bool,
    },
    /// A for loop with its scope, over `items`. `index` is the item in turn
    /// and `next` the statement to run next for it; `stopped` says that a
    /// `break` has asked the loop to end. A statement that leaves a value
    /// ends the loop, which leaves that value in turn.
    For {
        scope: Vec<(String, Literal)>,
        stopped: bool,
        name: String,
        items: Vec<Literal>,
        index: usize,
        body: Vec<Statement>,
        next: usize,
    },
}

/// The mathematical value of a [`Task`].
pub ghost enum TaskView {
    Exec(StatementView),
    Eval(ExprView),
    Operands(ApplyView, Seq<ExprView>, Seq<LiteralView>),
    Define(Seq<char>),
    Assign(Seq<char>),
    Discard,
    Choose(Seq<StatementView>, Seq<StatementView>),
    Iterate(Seq<char>, Seq<StatementView>),
    Await(PendingView),
    Call { scope: Seq<(Seq<char>, LiteralView)>, body: Seq<StatementView>, next: usize },
    Branch { body: Seq<StatementView>, next: usize },
    While {
        scope: Seq<(Seq<char>, LiteralView)>,
        stopped: bool,
        condition: ExprView,
        body: Seq<StatementView>,
        next: usize,
        checking: bool,
    },
    For {
        scope: Seq<(Seq<char>, LiteralView)>,
        stopped: bool,
        name: Seq<char>,
        items: Seq<LiteralView>,
        index: usize,
        body: Seq<StatementView>,
        next: usize,
    },
}

/// The mathematical values of a sequence of expressions.
pub open spec fn plain_exprs_view(es: Seq<Expr>) -> Seq<ExprView> {
    Seq::new(es.len(), |i: int| expr_view(es[i]))
}

impl DeepView for Task {
    type V = TaskView;

    open spec fn deep_view(&self) -> TaskView {
        match self {
            Task::Exec(s) => TaskView::Exec(statement_view(*s)),
            Task::Eval(e) => TaskView::Eval(expr_view(*e)),
            Task::Operands(apply, exprs, values) => TaskView::Operands(
                apply.deep_view(),
                plain_exprs_view(exprs@),
                literals_view(values@),
            ),
            Task::Define(name) => TaskView::Define(name@),
            Task::Assign(name) => TaskView::Assign(name@),
            Task::Discard => TaskView::Discard,
            Task::Choose(first, second) => TaskView::Choose(
                statements_view(first@),
                statements_view(second@),
            ),
            Task::Iterate(name, body) => TaskView::Iterate(name@, statements_view(body@)),
            Task::Await(pending) => TaskView::Await(pending.deep_view()),
            Task::Call { scope, body, next } => TaskView::Call {
                scope: table_view(scope@),
                body: statements_view(body@),
                next: *next,
            },
            Task::Branch { body, next } => TaskView::Branch {
                body: statements_view(body@),
                next: *next,
            },
            Task::While { scope, stopped, condition, body, next, checking } => TaskView::While {
                scope: table_view(scope@),
                stopped: *stopped,
                condition: expr_view(*condition),
                body: statements_view(body@),
                next: *next,
                checking: *checking,
            },
            Task::For { scope, stopped, name, items, index, body, next } => TaskView::For {
                scope: table_view(scope@),
                stopped: *stopped,
                name: name@,
                items: literals_view(items@),
                index: *index,
                body: statements_view(body@),
                next: *next,
            },
        }
    }
}

/// The mathematical values of a stack of tasks.
pub open spec fn tasks_view(tasks: Seq<Task>) -> Seq<TaskView> {
    Seq::new(tasks.len(), |i: int| tasks[i].deep_view())
}

/// The kind of scope that a task owns, if it owns one.
pub open spec fn context_of(task: TaskView) -> Option<Context> {
    match task {
        TaskView::Call { .. } => Some(Context::Function),
        TaskView::While { .. } => Some(Context::Loop),
        TaskView::For { .. } => Some(Context::Loop),
        _ => None,
    }
}

/// The scope that a task owns, if it owns one.
pub open spec fn scope_of(task: TaskView) -> Option<Seq<(Seq<char>, LiteralView)>> {
    match task {
        TaskView::Call { scope, .. } => Some(scope),
        TaskView::While { scope, .. } => Some(scope),
        TaskView::For { scope, .. } => Some(scope),
        _ => None,
    }
}

/// The task with `scope` in place of the scope it owns; the task itself
/// where it owns none.
pub open spec fn with_scope(task: TaskView, scope: Seq<(Seq<char>, LiteralView)>) -> TaskView {
    match task {
        TaskView::Call { scope: _, body, next } => TaskView::Call { scope, body, next },
        TaskView::While { scope: _, stopped, condition, body, next, checking } => TaskView::While {
            scope,
            stopped,
            condition,
            body,
            next,
            checking,
        },
        TaskView::For { scope: _, stopped, name, items, index, body, next } => TaskView::For {
            scope,
            stopped,
            name,
            items,
            index,
            body,
            next,
        },
        other => other,
    }
}

/// The statements of a block, out of their boxes.
pub fn unbox_block(block: &Vec<Box<Statement>>) -> (r: Vec<Statement>)
    ensures
        statements_view(r@) == block_view(block@),
{
    let mut out: Vec<Statement> = Vec::new();
    let mut i: usize = 0;
    while i < block.len()
        invariant
            i <= block.len(),
            out.len() == i,
            forall|j: int|
                0 <= j < i ==> statement_view(#[trigger] out@[j]) == statement_view(*block@[j]),
        decreases block.len() - i,
    {
        out.push((*block[i]).clone());
        i += 1;
    }
    assert(statements_view(out@) =~= block_view(block@));
    out
}

/// The expressions `exprs[..count]`, out of their boxes.
pub(crate) fn unbox_exprs(exprs: &Vec<Box<Expr>>, count: usize) -> (r: Vec<Expr>)
    requires
        count <= exprs.len(),
    ensures
        plain_exprs_view(r@) == crate::parsing::typing::exprs_view(exprs@).take(count as int),
{
    let mut out: Vec<Expr> = Vec::new();
    let mut i: usize = 0;
    while i < count
        invariant
            i <= count <= exprs.len(),
            out.len() == i,
            forall|j: int| 0 <= j < i ==> expr_view(#[trigger] out@[j]) == expr_view(*exprs@[j]),
        decreases count - i,
    {
        out.push((*exprs[i]).clone());
        i += 1;
    }
    assert(plain_exprs_view(out@) =~= crate::parsing::typing::exprs_view(exprs@).take(
        count as int,
    ));
    out
}

} // verus!
