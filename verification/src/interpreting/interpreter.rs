use vstd::prelude::*;
use vstd::string::{StringExecFns, StrSliceExecFns};
use crate::interpreting::builtins::cmp::decide;
use crate::interpreting::builtins::misc::may_draw;
use crate::interpreting::outcome::{
    computes, Builtin, Computed, FloatOp, Pending, Reply, ReplyView, Request, RuntimeError,
    RuntimeErrorView, Signal, SignalView,
};
use crate::interpreting::semantics::{
    applied, arg, assigned, binary, built_in, builtin_named, callee, computed, contexts,
    contexts_below, continued, current_scope, defined, draw_range, drawing, entry_exprs, entry_keys,
    evaluated, executed, failing, function_holder, holder, in_function, indexed, innermost_loop,
    innermost_scope, leaving, left, lookup, merged, operands, place, pushed, reaches, rechecked,
    resumed, running, step_of, steps, stopped, taken, within, zipped,
};
use crate::interpreting::task::{
    plain_exprs_view, scope_of, tasks_view, unbox_block, unbox_exprs, with_scope, Apply, ApplyView,
    Task, TaskView,
};
use crate::interpreting::typing::{
    clone_table, get_in, lemma_dictionary_literal_view, lemma_list_literal_view, literal_view,
    literals_view, put_in, table_view, Context, Literal, LiteralView,
};
use crate::parsing::typing::{
    clone_names, clone_statements, entries_view, expr_view, exprs_view, lemma_call_view,
    lemma_dictionary_view, lemma_for_view, lemma_func_def_view, lemma_if_view, lemma_list_view,
    lemma_while_view, names_view, statement_view, statements_view, BinOp, Expr, ExprView, Statement,
    StatementView,
};
use crate::table::{get, put};
use crate::text::{chars_of, push_char, spells};

verus! {

/// The machine that runs a program, one step at a time.
pub struct Interpreter {
    pub(crate) statements: Vec<Statement>,
    pub(crate) file_path: String,
    pub(crate) eval_main: bool,
    pub(crate) stack: Vec<(String, Literal)>,
    pub(crate) tasks: Vec<Task>,
    pub(crate) carry: Option<Literal>,
    pub(crate) position: usize,
    pub(crate) failure: Option<RuntimeError>,
}

/// The state of the machine.
pub ghost struct State {
    /// The statements of the program.
    pub statements: Seq<StatementView>,
    /// The file that the program came from.
    pub file: Seq<char>,
    /// Whether a function named `main` is called as soon as it is defined.
    pub eval_main: bool,
    /// The top-level scope.
    pub globals: Seq<(Seq<char>, LiteralView)>,
    /// What is still to do for the statement that runs, the innermost last.
    pub tasks: Seq<TaskView>,
    /// What the task that ended last has left: a value, or nothing.
    pub carry: Option<LiteralView>,
    /// The top-level statement to run next.
    pub position: usize,
    /// The error that the program failed with, once it has.
    pub failure: Option<RuntimeErrorView>,
}

/// The state of a machine that has yet to start on its program.
pub open spec fn initial(statements: Seq<StatementView>, file: Seq<char>, eval_main: bool) -> State {
    State {
        statements,
        file,
        eval_main,
        globals: Seq::empty(),
        tasks: Seq::empty(),
        carry: None,
        position: 0,
        failure: None,
    }
}

/// The mathematical value of what a task has left.
pub open spec fn carry_view(carry: Option<Literal>) -> Option<LiteralView> {
    match carry {
        Some(v) => Some(literal_view(v)),
        None => None,
    }
}

impl View for Interpreter {
    type V = State;

    closed spec fn view(&self) -> State {
        State {
            statements: statements_view(self.statements@),
            file: self.file_path@,
            eval_main: self.eval_main,
            globals: table_view(self.stack@),
            tasks: tasks_view(self.tasks@),
            carry: carry_view(self.carry),
            position: self.position,
            failure: match self.failure {
                Some(e) => Some(e.deep_view()),
                None => None,
            },
        }
    }
}

impl Interpreter {
    /// A machine for `statements`, which came from the file `file_path`.
    /// Where `eval_main` is set, a function named `main` is called as soon as
    /// it is defined.
    pub fn new(statements: Vec<Statement>, file_path: String, eval_main: bool) -> (r: Self)
        ensures
            r@ == initial(statements_view(statements@), file_path@, eval_main),
    {
        let r = Interpreter {
            statements,
            file_path,
            eval_main,
            stack: Vec::new(),
            tasks: Vec::new(),
            carry: None,
            position: 0,
            failure: None,
        };
        assert(r@.globals =~= Seq::empty());
        assert(r@.tasks =~= Seq::empty());
        r
    }

    /// The top-level scope: what the program has defined there so far.
    pub fn get_stack(&self) -> (r: Vec<(String, Literal)>)
        ensures
            table_view(r@) == self@.globals,
    {
        clone_table(&self.stack)
    }

    /// The kinds of the scopes that are active, the top level first.
    pub fn get_contexts(&self) -> (r: Vec<Context>)
        ensures
            r@ == contexts(self@),
    {
        let mut out: Vec<Context> = Vec::new();
        out.push(Context::TopLevel);
        let ghost tasks = tasks_view(self.tasks@);
        let mut i: usize = 0;
        while i < self.tasks.len()
            invariant
                i <= self.tasks.len(),
                tasks == tasks_view(self.tasks@),
                out@ == contexts_below(tasks, i as int),
            decreases self.tasks.len() - i,
        {
            match &self.tasks[i] {
                Task::Call { .. } => {
                    out.push(Context::Function);
                },
                Task::While { .. } => {
                    out.push(Context::Loop);
                },
                Task::For { .. } => {
                    out.push(Context::Loop);
                },
                _ => {},
            }
            i += 1;
        }
        out
    }

    /// The scope that a task owns, if it owns one.
    fn scope(task: &Task) -> (r: Option<&Vec<(String, Literal)>>)
        ensures
            match r {
                Some(scope) => scope_of(task.deep_view()) == Some(table_view(scope@)),
                None => scope_of(task.deep_view()) is None,
            },
    {
        match task {
            Task::Call { scope, .. } => Some(scope),
            Task::While { scope, .. } => Some(scope),
            Task::For { scope, .. } => Some(scope),
            _ => None,
        }
    }

    /// Sets `key` to `value` in the scope that the task at `i` owns.
    fn put_at(&mut self, i: usize, key: String, value: Literal)
        requires
            i < old(self).tasks.len(),
            scope_of(old(self)@.tasks[i as int]) is Some,
        ensures
            final(self)@ == (State {
                tasks: old(self)@.tasks.update(
                    i as int,
                    with_scope(
                        old(self)@.tasks[i as int],
                        put(scope_of(old(self)@.tasks[i as int])->0, key@, literal_view(value)),
                    ),
                ),
                ..old(self)@
            }),
    {
        let ghost before = tasks_view(self.tasks@);
        match &mut self.tasks[i] {
            Task::Call { scope, .. } => {
                put_in(scope, key, value);
            },
            Task::While { scope, .. } => {
                put_in(scope, key, value);
            },
            Task::For { scope, .. } => {
                put_in(scope, key, value);
            },
            _ => {},
        }
        assert(tasks_view(self.tasks@) =~= before.update(
            i as int,
            with_scope(before[i as int], put(scope_of(before[i as int])->0, key@, literal_view(value))),
        ));
    }

    /// The innermost task that owns a scope.
    fn innermost(&self) -> (r: Option<usize>)
        ensures
            match r {
                Some(i) => innermost_scope(self@.tasks, self@.tasks.len() as int) == Some(i as int)
                    && i < self.tasks.len() && scope_of(self@.tasks[i as int]) is Some,
                None => innermost_scope(self@.tasks, self@.tasks.len() as int) is None,
            },
    {
        let ghost tasks = tasks_view(self.tasks@);
        let mut i: usize = self.tasks.len();
        while i > 0
            invariant
                i <= self.tasks.len(),
                tasks == tasks_view(self.tasks@),
                innermost_scope(tasks, tasks.len() as int) == innermost_scope(tasks, i as int),
            decreases i,
        {
            if Self::scope(&self.tasks[i - 1]).is_some() {
                return Some(i - 1);
            }
            i -= 1;
        }
        None
    }

    /// The innermost task whose scope holds `name`.
    fn holder(&self, name: &String) -> (r: Option<usize>)
        ensures
            match r {
                Some(i) => holder(self@.tasks, name@, self@.tasks.len() as int) == Some(i as int)
                    && i < self.tasks.len() && scope_of(self@.tasks[i as int]) is Some,
                None => holder(self@.tasks, name@, self@.tasks.len() as int) is None,
            },
    {
        let ghost tasks = tasks_view(self.tasks@);
        let mut i: usize = self.tasks.len();
        while i > 0
            invariant
                i <= self.tasks.len(),
                tasks == tasks_view(self.tasks@),
                holder(tasks, name@, tasks.len() as int) == holder(tasks, name@, i as int),
            decreases i,
        {
            match Self::scope(&self.tasks[i - 1]) {
                Some(scope) => {
                    if get_in(scope, name).is_some() {
                        return Some(i - 1);
                    }
                },
                None => {},
            }
            i -= 1;
        }
        None
    }

    /// The innermost task whose scope holds a function under `name`.
    fn function_holder(&self, name: &String) -> (r: Option<usize>)
        ensures
            match r {
                Some(i) => function_holder(self@.tasks, name@, self@.tasks.len() as int) == Some(
                    i as int,
                ) && i < self.tasks.len() && scope_of(self@.tasks[i as int]) is Some && get(
                    scope_of(self@.tasks[i as int])->0,
                    name@,
                ) matches Some(LiteralView::Function(_, _, _)),
                None => function_holder(self@.tasks, name@, self@.tasks.len() as int) is None,
            },
    {
        let ghost tasks = tasks_view(self.tasks@);
        let mut i: usize = self.tasks.len();
        while i > 0
            invariant
                i <= self.tasks.len(),
                tasks == tasks_view(self.tasks@),
                function_holder(tasks, name@, tasks.len() as int) == function_holder(
                    tasks,
                    name@,
                    i as int,
                ),
            decreases i,
        {
            match Self::scope(&self.tasks[i - 1]) {
                Some(scope) => {
                    match get_in(scope, name) {
                        Some(Literal::Function(_, _, _)) => {
                            return Some(i - 1);
                        },
                        _ => {},
                    }
                },
                None => {},
            }
            i -= 1;
        }
        None
    }

    /// The innermost task that is a loop.
    fn innermost_loop(&self) -> (r: Option<usize>)
        ensures
            match r {
                Some(i) => innermost_loop(self@.tasks, self@.tasks.len() as int) == Some(i as int)
                    && i < self.tasks.len(),
                None => innermost_loop(self@.tasks, self@.tasks.len() as int) is None,
            },
    {
        let ghost tasks = tasks_view(self.tasks@);
        let mut i: usize = self.tasks.len();
        while i > 0
            invariant
                i <= self.tasks.len(),
                tasks == tasks_view(self.tasks@),
                innermost_loop(tasks, tasks.len() as int) == innermost_loop(tasks, i as int),
            decreases i,
        {
            match &self.tasks[i - 1] {
                Task::While { .. } => {
                    return Some(i - 1);
                },
                Task::For { .. } => {
                    return Some(i - 1);
                },
                _ => {},
            }
            i -= 1;
        }
        None
    }

    /// Whether a function is running.
    fn inside_function(&self) -> (r: bool)
        ensures
            r == in_function(self@.tasks, self@.tasks.len() as int),
    {
        let ghost tasks = tasks_view(self.tasks@);
        let mut i: usize = self.tasks.len();
        while i > 0
            invariant
                i <= self.tasks.len(),
                tasks == tasks_view(self.tasks@),
                in_function(tasks, tasks.len() as int) == in_function(tasks, i as int),
            decreases i,
        {
            match &self.tasks[i - 1] {
                Task::Call { .. } => {
                    return true;
                },
                _ => {},
            }
            i -= 1;
        }
        false
    }

    /// The scope that a new variable goes to.
    fn current(&self) -> (r: &Vec<(String, Literal)>)
        ensures
            table_view(r@) == current_scope(self@),
    {
        match self.innermost() {
            Some(i) => match Self::scope(&self.tasks[i]) {
                Some(scope) => scope,
                None => &self.stack,
            },
            None => &self.stack,
        }
    }

    /// The value of the variable `id`.
    pub fn get_var(&self, id: &String) -> (r: Result<Literal, RuntimeError>)
        ensures
            match lookup(self@, id@) {
                Some(v) => r matches Ok(x) && literal_view(x) == v,
                None => r matches Err(e) && e.deep_view() == RuntimeErrorView::UndefinedVariable(
                    id@,
                ),
            },
    {
        let found = match self.holder(id) {
            Some(i) => match Self::scope(&self.tasks[i]) {
                Some(scope) => get_in(scope, id),
                None => None,
            },
            None => get_in(&self.stack, id),
        };
        match found {
            Some(v) => Ok(v.clone()),
            None => Err(RuntimeError::UndefinedVariable(id.clone())),
        }
    }

    /// The function called `id`: the one in the innermost scope that holds a
    /// function under that name.
    fn get_function(&self, id: &String) -> (r: Option<&Literal>)
        ensures
            match callee(self@, id@) {
                Some(v) => r matches Some(x) && literal_view(*x) == v && v is Function,
                None => r is None,
            },
    {
        match self.function_holder(id) {
            Some(i) => match Self::scope(&self.tasks[i]) {
                Some(scope) => get_in(scope, id),
                None => None,
            },
            None => match get_in(&self.stack, id) {
                Some(Literal::Function(name, params, body)) => get_in(&self.stack, id),
                _ => None,
            },
        }
    }

    /// Sets `id` to `literal` in the innermost scope.
    pub(crate) fn push(&mut self, id: String, literal: Literal)
        ensures
            final(self)@ == defined(old(self)@, id@, literal_view(literal)),
    {
        match self.innermost() {
            Some(i) => {
                self.put_at(i, id, literal);
            },
            None => {
                put_in(&mut self.stack, id, literal);
            },
        }
    }

    /// Sets the variable `id` to `value` in the innermost scope that holds
    /// it. Fails, and changes nothing, where no scope holds it.
    pub fn set_var(&mut self, id: String, value: Literal) -> (r: Result<(), RuntimeError>)
        ensures
            match assigned(old(self)@, id@, literal_view(value)) {
                Some(after) => r is Ok && final(self)@ == after,
                None => {
                    &&& final(self)@ == old(self)@
                    &&& r matches Err(e) && e.deep_view() == RuntimeErrorView::UndefinedVariable(
                        id@,
                    )
                },
            },
    {
        match self.holder(&id) {
            Some(i) => {
                self.put_at(i, id, value);
                Ok(())
            },
            None => {
                if get_in(&self.stack, &id).is_some() {
                    put_in(&mut self.stack, id, value);
                    Ok(())
                } else {
                    Err(RuntimeError::UndefinedVariable(id))
                }
            },
        }
    }

    /// Adds a task, the innermost.
    pub(crate) fn push_task(&mut self, task: Task)
        ensures
            final(self)@ == pushed(old(self)@, task.deep_view()),
    {
        let ghost before = tasks_view(self.tasks@);
        self.tasks.push(task);
        assert(tasks_view(self.tasks@) =~= before.push(task.deep_view()));
    }

    /// Takes the innermost task off, and what was left for it.
    pub(crate) fn pop_task(&mut self) -> (r: (Task, Option<Literal>))
        requires
            old(self).tasks.len() > 0,
        ensures
            r.0.deep_view() == old(self)@.tasks.last(),
            carry_view(r.1) == old(self)@.carry,
            final(self)@ == (State {
                tasks: old(self)@.tasks.drop_last(),
                carry: None,
                ..old(self)@
            }),
    {
        let ghost before = tasks_view(self.tasks@);
        let task = self.tasks.pop().unwrap();
        assert(tasks_view(self.tasks@) =~= before.drop_last());
        let mut carry: Option<Literal> = None;
        core::mem::swap(&mut carry, &mut self.carry);
        (task, carry)
    }

    /// Goes on with nothing left behind.
    pub(crate) fn go_on(&mut self) -> (signal: Signal)
        ensures
            (final(self)@, signal.deep_view()) == running(old(self)@),
    {
        self.carry = None;
        Signal::Running
    }

    /// Leaves `carry` behind for the task below.
    pub(crate) fn leave(&mut self, carry: Option<Literal>) -> (signal: Signal)
        ensures
            (final(self)@, signal.deep_view()) == leaving(old(self)@, carry_view(carry)),
    {
        self.carry = carry;
        Signal::Running
    }

    /// Fails: every task goes, and its scope with it.
    pub(crate) fn fail(&mut self, error: RuntimeError) -> (signal: Signal)
        ensures
            (final(self)@, signal.deep_view()) == failing(old(self)@, error.deep_view()),
    {
        self.tasks = Vec::new();
        assert(tasks_view(self.tasks@) =~= Seq::empty());
        self.carry = None;
        self.failure = Some(error.clone());
        Signal::Failed(error)
    }

    /// Leaves the value behind, or asks the host and awaits the reply, or fails.
    pub(crate) fn finish(&mut self, outcome: Result<Computed, RuntimeError>) -> (signal: Signal)
        ensures
            (final(self)@, signal.deep_view()) == computed(
                old(self)@,
                match outcome {
                    Ok(c) => Ok(c.deep_view()),
                    Err(e) => Err(e.deep_view()),
                },
            ),
    {
        match outcome {
            Ok(Computed::Value(v)) => self.leave(Some(v)),
            Ok(Computed::Ask(request, pending)) => {
                self.push_task(Task::Await(pending));
                self.carry = None;
                Signal::Request(request)
            },
            Err(e) => self.fail(e),
        }
    }
}

/// The built-in that a name stands for.
pub fn named(name: &String) -> (r: Option<Builtin>)
    ensures
        r == builtin_named(name@),
{
    let chars = chars_of(name.as_str());
    let n = chars.len();
    assert(chars@.subrange(0, n as int) =~= name@);
    if spells(&chars, 0, n, "putStr") {
        Some(Builtin::PutStr)
    } else if spells(&chars, 0, n, "putStrLn") {
        Some(Builtin::PutStrLn)
    } else if spells(&chars, 0, n, "print") {
        Some(Builtin::Print)
    } else if spells(&chars, 0, n, "printLn") {
        Some(Builtin::PrintLn)
    } else if spells(&chars, 0, n, "flushStdout") {
        Some(Builtin::FlushStdout)
    } else if spells(&chars, 0, n, "readLine") {
        Some(Builtin::ReadLine)
    } else if spells(&chars, 0, n, "cos") {
        Some(Builtin::Cos)
    } else if spells(&chars, 0, n, "sin") {
        Some(Builtin::Sin)
    } else if spells(&chars, 0, n, "tan") {
        Some(Builtin::Tan)
    } else if spells(&chars, 0, n, "acos") {
        Some(Builtin::Acos)
    } else if spells(&chars, 0, n, "asin") {
        Some(Builtin::Asin)
    } else if spells(&chars, 0, n, "atan") {
        Some(Builtin::Atan)
    } else if spells(&chars, 0, n, "range") {
        Some(Builtin::Range)
    } else if spells(&chars, 0, n, "random") {
        Some(Builtin::Random)
    } else if spells(&chars, 0, n, "parseInt") {
        Some(Builtin::ParseInt)
    } else if spells(&chars, 0, n, "parseFloat") {
        Some(Builtin::ParseFloat)
    } else if spells(&chars, 0, n, "toString") {
        Some(Builtin::ToString)
    } else {
        None
    }
}

/// How many of `given` arguments a built-in has evaluated.
fn take_count(builtin: Builtin, given: usize) -> (r: usize)
    ensures
        r == taken(builtin, given as nat),
        r <= given,
{
    let reads: usize = match builtin {
        Builtin::PutStr | Builtin::PutStrLn | Builtin::Print | Builtin::PrintLn => given,
        Builtin::FlushStdout | Builtin::ReadLine => 0,
        Builtin::Range | Builtin::Random => 2,
        _ => 1,
    };
    if reads < given {
        reads
    } else {
        given
    }
}

/// The value at place `i`, or the unit where there is none.
fn arg_at(values: &Vec<Literal>, i: usize) -> (r: Literal)
    ensures
        literal_view(r) == arg(literals_view(values@), i as int),
{
    if i < values.len() {
        values[i].clone()
    } else {
        Literal::Unit
    }
}

/// The table that sets each of `keys` to the value at its place.
fn zip(keys: &Vec<String>, values: &Vec<Literal>) -> (r: Vec<(String, Literal)>)
    ensures
        table_view(r@) == zipped(names_view(keys@), literals_view(values@), 0, Seq::empty()),
{
    let ghost ks = names_view(keys@);
    let ghost vs = literals_view(values@);
    let mut table: Vec<(String, Literal)> = Vec::new();
    assert(table_view(table@) =~= Seq::empty());
    let mut i: usize = 0;
    while i < keys.len() && i < values.len()
        invariant
            i <= keys.len(),
            ks == names_view(keys@),
            vs == literals_view(values@),
            zipped(ks, vs, 0, Seq::empty()) == zipped(ks, vs, i as int, table_view(table@)),
        decreases keys.len() - i,
    {
        put_in(&mut table, keys[i].clone(), values[i].clone());
        i += 1;
    }
    table
}

/// The keys and the expressions of the entries of a dictionary literal.
fn split_entries(entries: &Vec<(String, Box<Expr>)>) -> (r: (Vec<String>, Vec<Expr>))
    ensures
        names_view(r.0@) == entry_keys(entries_view(entries@)),
        plain_exprs_view(r.1@) == entry_exprs(entries_view(entries@)),
{
    let mut keys: Vec<String> = Vec::new();
    let mut exprs: Vec<Expr> = Vec::new();
    let mut i: usize = 0;
    while i < entries.len()
        invariant
            i <= entries.len(),
            keys.len() == i,
            exprs.len() == i,
            forall|j: int| 0 <= j < i ==> (#[trigger] keys@[j])@ == entries@[j].0@,
            forall|j: int|
                0 <= j < i ==> expr_view(#[trigger] exprs@[j]) == expr_view(*entries@[j].1),
        decreases entries.len() - i,
    {
        keys.push(entries[i].0.clone());
        exprs.push((*entries[i].1).clone());
        i += 1;
    }
    assert(names_view(keys@) =~= entry_keys(entries_view(entries@)));
    assert(plain_exprs_view(exprs@) =~= entry_exprs(entries_view(entries@)));
    (keys, exprs)
}

/// The place that an index gives in something of length `len`.
pub fn get_index(len: usize, index: &Literal) -> (r: Result<usize, RuntimeError>)
    ensures
        match place(len as nat, literal_view(*index)) {
            Ok(i) => r == Ok::<usize, RuntimeError>(i as usize) && i < len,
            Err(e) => r matches Err(x) && x.deep_view() == e,
        },
{
    match index {
        Literal::Int(number) => {
            if *number < 0 {
                Err(RuntimeError::NegativeIndex(*number))
            } else if *number as usize >= len {
                Err(RuntimeError::IndexOutOfRange(len, *number))
            } else {
                Ok(*number as usize)
            }
        },
        unexpected => Err(RuntimeError::InvalidIndex(unexpected.kind())),
    }
}

/// The character of `string` at `index`, as a string.
pub(crate) fn eval_string_at(string: &String, index: usize) -> (r: Literal)
    requires
        index < string@.len(),
    ensures
        literal_view(r) == LiteralView::String(seq![string@[index as int]]),
{
    let mut out = String::new();
    push_char(&mut out, string.as_str().get_char(index));
    assert(out@ =~= seq![string@[index as int]]);
    Literal::String(out)
}

/// The item of `list` at `index`.
pub(crate) fn eval_list_at(list: &Vec<Literal>, index: usize) -> (r: Literal)
    requires
        index < list.len(),
    ensures
        literal_view(r) == literals_view(list@)[index as int],
{
    list[index].clone()
}

/// What indexing `target` by `index` gives.
pub fn eval_index(target: &Literal, index: &Literal) -> (r: Result<Literal, RuntimeError>)
    ensures
        match indexed(literal_view(*target), literal_view(*index)) {
            Ok(v) => r matches Ok(x) && literal_view(x) == v,
            Err(e) => r matches Err(x) && x.deep_view() == e,
        },
{
    match target {
        Literal::String(string) => {
            match get_index(string.as_str().unicode_len(), index) {
                Ok(i) => Ok(eval_string_at(string, i)),
                Err(e) => Err(e),
            }
        },
        Literal::List(list) => {
            proof {
                lemma_list_literal_view(*list);
            }
            match get_index(list.len(), index) {
                Ok(i) => Ok(eval_list_at(list, i)),
                Err(e) => Err(e),
            }
        },
        Literal::Dictionnary(dict) => {
            proof {
                lemma_dictionary_literal_view(*dict);
            }
            match index {
                Literal::String(key) => match get_in(dict, key) {
                    Some(value) => Ok(value.clone()),
                    None => Err(RuntimeError::MissingKey(key.clone())),
                },
                unexpected => Err(RuntimeError::InvalidIndex(unexpected.kind())),
            }
        },
        unexpected => Err(RuntimeError::NotIndexable(unexpected.kind())),
    }
}

/// What an operator makes of two values.
pub fn eval_binary_op(op: BinOp, left: &Literal, right: &Literal) -> (r: Result<
    Computed,
    RuntimeError,
>)
    ensures
        computes(r, binary(op, literal_view(*left), literal_view(*right))),
{
    match op {
        BinOp::Add => Interpreter::add(left, right),
        BinOp::Sub => Interpreter::sub(left, right),
        BinOp::Mul => Interpreter::mul(left, right),
        BinOp::Div => Interpreter::div(left, right, false),
        BinOp::FloorDiv => Interpreter::div(left, right, true),
        BinOp::Mod => Interpreter::modulo(left, right),
        BinOp::Pow => Interpreter::pow(left, right),
        BinOp::Lt => Interpreter::lt(left, right),
        BinOp::Gt => Interpreter::gt(left, right),
        BinOp::Eq => Interpreter::eq(left, right),
        BinOp::Ne => Interpreter::ne(left, right),
        BinOp::Le => Interpreter::le(left, right),
        BinOp::Ge => Interpreter::ge(left, right),
    }
}

/// What a built-in makes of its arguments, and the number that `random`
/// drew where it drew one.
pub(crate) fn call_builtin(builtin: Builtin, args: &Vec<Literal>) -> (r: (
    Result<Computed, RuntimeError>,
    i32,
))
    ensures
        computes(r.0, built_in(builtin, literals_view(args@), r.1)),
        builtin == Builtin::Random ==> may_draw(literals_view(args@), r.1),
{
    match builtin {
        Builtin::PutStr => (Interpreter::put_str(args), 0),
        Builtin::PutStrLn => (Interpreter::put_str_ln(args), 0),
        Builtin::Print => (Interpreter::print(args), 0),
        Builtin::PrintLn => (Interpreter::print_ln(args), 0),
        Builtin::FlushStdout => (Interpreter::flush_stdout(args), 0),
        Builtin::ReadLine => (Interpreter::read_line(args), 0),
        Builtin::Cos => (Interpreter::cos(args), 0),
        Builtin::Sin => (Interpreter::sin(args), 0),
        Builtin::Tan => (Interpreter::tan(args), 0),
        Builtin::Acos => (Interpreter::acos(args), 0),
        Builtin::Asin => (Interpreter::asin(args), 0),
        Builtin::Atan => (Interpreter::atan(args), 0),
        Builtin::Range => (Interpreter::range(args), 0),
        Builtin::Random => Interpreter::random_drawn(args),
        Builtin::ParseInt => (Interpreter::parse_int(args), 0),
        Builtin::ParseFloat => (Interpreter::parse_float(args), 0),
        Builtin::ToString => (Interpreter::to_string(args), 0),
    }
}

/// A number that is not drawn counts for nothing: with fewer than two
/// values, what is applied does not depend on it.
proof fn lemma_draw_unused(s: State, apply: ApplyView, values: Seq<LiteralView>, a: i32, b: i32)
    requires
        values.len() < 2,
    ensures
        applied(s, apply, values, a) == applied(s, apply, values, b),
{
}

impl Interpreter {
    /// Does with the values of all the operands what is to be done with
    /// them, and hands out the number that `random` drew where it drew one.
    fn apply(&mut self, apply: Apply, values: Vec<Literal>) -> (r: (Signal, i32))
        ensures
            (final(self)@, r.0.deep_view()) == applied(
                old(self)@,
                apply.deep_view(),
                literals_view(values@),
                r.1,
            ),
            apply.deep_view() == ApplyView::Builtin(Builtin::Random) ==> may_draw(
                literals_view(values@),
                r.1,
            ),
    {
        match apply {
            Apply::Binary(op) => {
                let left = arg_at(&values, 0);
                let right = arg_at(&values, 1);
                (self.finish(eval_binary_op(op, &left, &right)), 0)
            },
            Apply::List => {
                proof {
                    lemma_list_literal_view(values);
                }
                (self.leave(Some(Literal::List(values))), 0)
            },
            Apply::Dictionnary(keys) => {
                let table = zip(&keys, &values);
                proof {
                    lemma_dictionary_literal_view(table);
                }
                (self.leave(Some(Literal::Dictionnary(table))), 0)
            },
            Apply::Index => {
                let target = arg_at(&values, 0);
                let index = arg_at(&values, 1);
                match eval_index(&target, &index) {
                    Ok(value) => (self.leave(Some(value)), 0),
                    Err(e) => (self.fail(e), 0),
                }
            },
            Apply::IndexSet(name) => {
                let index = arg_at(&values, 1);
                let value = arg_at(&values, 2);
                match arg_at(&values, 0) {
                    Literal::List(list) => {
                        let mut list = list;
                        let ghost before = literals_view(list@);
                        proof {
                            lemma_list_literal_view(list);
                        }
                        match get_index(list.len(), &index) {
                            Ok(i) => {
                                list[i] = value;
                                proof {
                                    lemma_list_literal_view(list);
                                    assert(literals_view(list@) =~= before.update(
                                        i as int,
                                        literal_view(value),
                                    ));
                                }
                                match self.set_var(name.clone(), Literal::List(list)) {
                                    Ok(()) => (self.leave(None), 0),
                                    Err(e) => (self.fail(e), 0),
                                }
                            },
                            Err(e) => (self.fail(e), 0),
                        }
                    },
                    unexpected => (self.fail(RuntimeError::NotAList(unexpected.kind())), 0),
                }
            },
            Apply::Builtin(builtin) => {
                let (outcome, drawn) = call_builtin(builtin, &values);
                (self.finish(outcome), drawn)
            },
            Apply::Invoke(_, params, body) => {
                let scope = zip(&params, &values);
                self.push_task(Task::Call { scope, body, next: 0 });
                (self.go_on(), 0)
            },
        }
    }

    /// Starts on operands: the first is evaluated, or, where there is none,
    /// what is to be done with them is done.
    fn start_operands(&mut self, apply: Apply, exprs: Vec<Expr>) -> (signal: Signal)
        ensures
            (final(self)@, signal.deep_view()) == operands(
                old(self)@,
                apply.deep_view(),
                plain_exprs_view(exprs@),
            ),
    {
        if exprs.len() == 0 {
            let values: Vec<Literal> = Vec::new();
            assert(literals_view(values@) =~= Seq::empty());
            let ghost before = self@;
            let (signal, drawn) = self.apply(apply, values);
            proof {
                lemma_draw_unused(before, apply.deep_view(), Seq::empty(), drawn, 0);
            }
            signal
        } else {
            let first = exprs[0].clone();
            let values: Vec<Literal> = Vec::new();
            assert(literals_view(values@) =~= Seq::empty());
            self.push_task(Task::Operands(apply, exprs, values));
            self.push_task(Task::Eval(first));
            self.go_on()
        }
    }

    /// Starts on the call of `id` with the arguments `call_args`: a built-in
    /// of that name goes first, then the function of that name in the
    /// innermost scope that holds one. A function called with fewer
    /// arguments than it has parameters is an error; arguments beyond the
    /// parameters are not evaluated.
    pub fn eval_call(&mut self, id: String, call_args: Vec<Box<Expr>>) -> (signal: Signal)
        ensures
            (final(self)@, signal.deep_view()) == evaluated(
                old(self)@,
                ExprView::Call(id@, exprs_view(call_args@)),
            ),
    {
        match named(&id) {
            Some(builtin) => {
                let count = take_count(builtin, call_args.len());
                let exprs = unbox_exprs(&call_args, count);
                self.start_operands(Apply::Builtin(builtin), exprs)
            },
            None => {
                let found = match self.get_function(&id) {
                    Some(Literal::Function(_, args, statements)) => Some(
                        (clone_names(args), clone_statements(statements)),
                    ),
                    _ => None,
                };
                match found {
                    Some((args, statements)) => {
                        if call_args.len() < args.len() {
                            self.fail(
                                RuntimeError::NotEnoughArguments(id, args.len(), call_args.len()),
                            )
                        } else {
                            let exprs = unbox_exprs(&call_args, args.len());
                            self.start_operands(Apply::Invoke(id, args, statements), exprs)
                        }
                    },
                    None => self.fail(RuntimeError::UndefinedFunction(id)),
                }
            },
        }
    }

    /// Starts on the evaluation of an expression.
    pub fn get_literal(&mut self, expr: Expr) -> (signal: Signal)
        ensures
            (final(self)@, signal.deep_view()) == evaluated(old(self)@, expr_view(expr)),
    {
        match expr {
            Expr::String(string) => self.leave(Some(Literal::String(string))),
            Expr::Int(number) => self.leave(Some(Literal::Int(number))),
            Expr::Float(float) => {
                self.push_task(Task::Await(Pending::Parsed(float.clone())));
                self.carry = None;
                Signal::Request(Request::Float(FloatOp::Parse, float, String::new()))
            },
            Expr::Boolean(boolean) => self.leave(Some(Literal::Boolean(boolean))),
            Expr::Var(id) => match self.get_var(&id) {
                Ok(value) => self.leave(Some(value)),
                Err(e) => self.fail(e),
            },
            Expr::Call(id, args) => {
                proof {
                    lemma_call_view(id, args);
                }
                self.eval_call(id, args)
            },
            Expr::List(list) => {
                proof {
                    lemma_list_view(list);
                }
                let exprs = unbox_exprs(&list, list.len());
                assert(exprs_view(list@).take(list.len() as int) =~= exprs_view(list@));
                self.start_operands(Apply::List, exprs)
            },
            Expr::Dictionnary(dict) => {
                proof {
                    lemma_dictionary_view(dict);
                }
                let (keys, exprs) = split_entries(&dict);
                self.start_operands(Apply::Dictionnary(keys), exprs)
            },
            Expr::Index(list, index) => {
                let mut exprs: Vec<Expr> = Vec::new();
                exprs.push(*list);
                exprs.push(*index);
                assert(plain_exprs_view(exprs@) =~= seq![expr_view(*list), expr_view(*index)]);
                self.start_operands(Apply::Index, exprs)
            },
            Expr::BinOp(op, left, right) => {
                let mut exprs: Vec<Expr> = Vec::new();
                exprs.push(*left);
                exprs.push(*right);
                assert(plain_exprs_view(exprs@) =~= seq![expr_view(*left), expr_view(*right)]);
                self.start_operands(Apply::Binary(op), exprs)
            },
        }
    }

    /// Asks the innermost loop to end.
    fn eval_break(&mut self) -> (signal: Signal)
        ensures
            (final(self)@, signal.deep_view()) == executed(old(self)@, StatementView::Break),
    {
        match self.innermost_loop() {
            Some(i) => {
                let ghost before = tasks_view(self.tasks@);
                match &mut self.tasks[i] {
                    Task::While { stopped, .. } => {
                        *stopped = true;
                    },
                    Task::For { stopped, .. } => {
                        *stopped = true;
                    },
                    _ => {},
                }
                assert(tasks_view(self.tasks@) =~= before.update(i as int, stopped(before[i as int])));
                self.leave(None)
            },
            None => self.fail(RuntimeError::BreakOutsideLoop),
        }
    }

    /// Defines a function, and calls it at once where it is `main` and this
    /// machine is to call `main`.
    fn eval_func_def(&mut self, id: String, args: Vec<String>, statements: Vec<Statement>) -> (signal:
        Signal)
        ensures
            (final(self)@, signal.deep_view()) == executed(
                old(self)@,
                StatementView::FuncDef(id@, names_view(args@), statements_view(statements@)),
            ),
    {
        let is_main = self.eval_main && id == String::from_str("main");
        let count = args.len();
        if is_main && count == 0 {
            let body = clone_statements(&statements);
            self.push(id.clone(), Literal::Function(id, args, statements));
            self.push_task(Task::Discard);
            let scope: Vec<(String, Literal)> = Vec::new();
            assert(table_view(scope@) =~= Seq::empty());
            self.push_task(Task::Call { scope, body, next: 0 });
            self.go_on()
        } else {
            let name = id.clone();
            self.push(id.clone(), Literal::Function(id, args, statements));
            if is_main {
                self.fail(RuntimeError::NotEnoughArguments(name, count, 0))
            } else {
                self.leave(None)
            }
        }
    }

    /// Starts on a statement.
    pub fn eval_statement(&mut self, statement: Statement) -> (signal: Signal)
        ensures
            (final(self)@, signal.deep_view()) == executed(old(self)@, statement_view(statement)),
    {
        match statement {
            Statement::VarDef(id, expr) => {
                if get_in(self.current(), &id).is_some() {
                    self.fail(RuntimeError::AlreadyDefined(id))
                } else {
                    self.push_task(Task::Define(id));
                    self.push_task(Task::Eval(expr));
                    self.go_on()
                }
            },
            Statement::FuncDef(id, args, statements) => {
                proof {
                    lemma_func_def_view(id, args, statements);
                }
                self.eval_func_def(id, args, statements)
            },
            Statement::VarSet(id, expr) => {
                self.push_task(Task::Assign(id));
                self.push_task(Task::Eval(expr));
                self.go_on()
            },
            Statement::IndexSet(expr, index, value) => {
                let name = match &expr {
                    Expr::Var(var) => Some(var.clone()),
                    _ => None,
                };
                match name {
                    Some(var) => {
                        let mut exprs: Vec<Expr> = Vec::new();
                        exprs.push(expr);
                        exprs.push(index);
                        exprs.push(value);
                        assert(plain_exprs_view(exprs@) =~= seq![
                            expr_view(expr),
                            expr_view(index),
                            expr_view(value),
                        ]);
                        self.start_operands(Apply::IndexSet(var), exprs)
                    },
                    None => self.leave(None),
                }
            },
            Statement::Return(expr) => {
                self.push_task(Task::Eval(expr));
                self.go_on()
            },
            Statement::While(condition, statements) => {
                proof {
                    lemma_while_view(condition, statements);
                }
                let body = unbox_block(&statements);
                let scope: Vec<(String, Literal)> = Vec::new();
                assert(table_view(scope@) =~= Seq::empty());
                self.push_task(
                    Task::While {
                        scope,
                        stopped: false,
                        condition: condition.clone(),
                        body,
                        next: 0,
                        checking: true,
                    },
                );
                self.push_task(Task::Eval(condition));
                self.go_on()
            },
            Statement::For(id, list, statements) => {
                proof {
                    lemma_for_view(id, list, statements);
                }
                if self.get_var(&id).is_ok() {
                    self.fail(RuntimeError::AlreadyDefined(id))
                } else {
                    let body = unbox_block(&statements);
                    self.push_task(Task::Iterate(id, body));
                    self.push_task(Task::Eval(list));
                    self.go_on()
                }
            },
            Statement::Break => self.eval_break(),
            Statement::Load(file_path) => {
                if file_path == self.file_path {
                    self.leave(None)
                } else {
                    self.push_task(Task::Await(Pending::Loaded));
                    self.carry = None;
                    Signal::Request(Request::Load(file_path))
                }
            },
            Statement::If(condition, if_body, else_body) => {
                proof {
                    lemma_if_view(condition, if_body, else_body);
                }
                let first = unbox_block(&if_body);
                let second = unbox_block(&else_body);
                self.push_task(Task::Choose(first, second));
                self.push_task(Task::Eval(condition));
                self.go_on()
            },
            Statement::Expr(expr) => {
                if self.inside_function() {
                    self.push_task(Task::Discard);
                    self.push_task(Task::Eval(expr));
                    self.go_on()
                } else {
                    self.fail(RuntimeError::ExpressionOutsideFunction)
                }
            },
        }
    }
}

/// The value that was left, or the unit where nothing was left.
fn left_value(carry: Option<Literal>) -> (r: Literal)
    ensures
        literal_view(r) == left(carry_view(carry)),
{
    match carry {
        Some(value) => value,
        None => Literal::Unit,
    }
}

impl Interpreter {
    /// Sets the entries in the innermost scope, in their order.
    fn merge(&mut self, entries: Vec<(String, Literal)>)
        ensures
            final(self)@ == merged(old(self)@, table_view(entries@), 0),
    {
        let ghost views = table_view(entries@);
        let mut i: usize = 0;
        while i < entries.len()
            invariant
                i <= entries.len(),
                views == table_view(entries@),
                merged(old(self)@, views, 0) == merged(self@, views, i as int),
            decreases entries.len() - i,
        {
            self.push(entries[i].0.clone(), entries[i].1.clone());
            i += 1;
        }
    }

    /// Takes the host's reply to the request that is awaited.
    fn resume(&mut self, pending: Pending, reply: Reply) -> (signal: Signal)
        ensures
            (final(self)@, signal.deep_view()) == resumed(
                old(self)@,
                pending.deep_view(),
                reply.deep_view(),
            ),
    {
        match (pending, reply) {
            (_, Reply::Failed(message)) => self.fail(RuntimeError::Host(message)),
            (Pending::Float, Reply::Float(x)) => self.leave(Some(Literal::Float(x))),
            (Pending::Parsed(_), Reply::Float(x)) => self.leave(Some(Literal::Float(x))),
            (Pending::Parsed(text), Reply::Invalid) => self.fail(RuntimeError::InvalidFloat(text)),
            (Pending::Order(op), Reply::Order(order)) => self.leave(
                Some(Literal::Boolean(decide(op, order))),
            ),
            (Pending::Line, Reply::Line(line)) => self.leave(Some(Literal::String(line))),
            (Pending::Written, Reply::Empty) => self.leave(Some(Literal::Unit)),
            (Pending::Loaded, Reply::Bindings(entries)) => {
                self.merge(entries);
                self.leave(None)
            },
            (Pending::Loaded, Reply::Skipped) => self.leave(None),
            _ => self.fail(RuntimeError::UnexpectedReply),
        }
    }

    /// Goes to the condition of a while loop, or ends the loop where a
    /// `break` has asked for it.
    fn recheck(
        &mut self,
        scope: Vec<(String, Literal)>,
        stopped: bool,
        condition: Expr,
        body: Vec<Statement>,
        next: usize,
    ) -> (signal: Signal)
        ensures
            (final(self)@, signal.deep_view()) == rechecked(
                old(self)@,
                table_view(scope@),
                stopped,
                expr_view(condition),
                statements_view(body@),
                next,
            ),
    {
        if stopped {
            self.leave(None)
        } else {
            let again = condition.clone();
            self.push_task(Task::While { scope, stopped, condition, body, next, checking: true });
            self.push_task(Task::Eval(again));
            self.go_on()
        }
    }

    /// Goes on with a while loop, given what was left for it.
    fn eval_while(
        &mut self,
        scope: Vec<(String, Literal)>,
        stopped: bool,
        condition: Expr,
        body: Vec<Statement>,
        next: usize,
        checking: bool,
        carry: Option<Literal>,
    ) -> (signal: Signal)
        ensures
            (final(self)@, signal.deep_view()) == continued(
                old(self)@,
                TaskView::While {
                    scope: table_view(scope@),
                    stopped,
                    condition: expr_view(condition),
                    body: statements_view(body@),
                    next,
                    checking,
                },
                carry_view(carry),
                0,
            ),
    {
        if checking {
            match left_value(carry) {
                Literal::Boolean(true) => {
                    if next < body.len() {
                        let statement = body[next].clone();
                        self.push_task(
                            Task::While { scope, stopped, condition, body, next, checking: false },
                        );
                        self.push_task(Task::Exec(statement));
                        self.go_on()
                    } else {
                        self.recheck(scope, stopped, condition, body, 0)
                    }
                },
                Literal::Boolean(false) => self.leave(None),
                unexpected => self.fail(RuntimeError::ConditionNotBoolean(unexpected.kind())),
            }
        } else {
            match carry {
                Some(value) => self.leave(Some(value)),
                None => {
                    assert(statements_view(body@).len() == body.len());
                    let following: usize = if next < usize::MAX && next + 1 < body.len() {
                        next + 1
                    } else {
                        0
                    };
                    self.recheck(scope, stopped, condition, body, following)
                },
            }
        }
    }

    /// Goes on with a for loop, given what was left for it.
    fn eval_for(
        &mut self,
        scope: Vec<(String, Literal)>,
        stopped: bool,
        name: String,
        items: Vec<Literal>,
        index: usize,
        body: Vec<Statement>,
        next: usize,
        carry: Option<Literal>,
    ) -> (signal: Signal)
        ensures
            (final(self)@, signal.deep_view()) == continued(
                old(self)@,
                TaskView::For {
                    scope: table_view(scope@),
                    stopped,
                    name: name@,
                    items: literals_view(items@),
                    index,
                    body: statements_view(body@),
                    next,
                },
                carry_view(carry),
                0,
            ),
    {
        match carry {
            Some(value) => {
                return self.leave(Some(value));
            },
            None => {},
        }
        if body.len() == 0 || index >= items.len() {
            return self.leave(None);
        }
        let (item, statement): (usize, usize) = if next < body.len() {
            (index, next)
        } else {
            (index + 1, 0)
        };
        if item >= items.len() || (statement == 0 && stopped) || matches!(
            body[statement],
            Statement::Break
        ) {
            return self.leave(None);
        }
        let mut scope = scope;
        put_in(&mut scope, name.clone(), items[item].clone());
        let run = body[statement].clone();
        self.push_task(
            Task::For { scope, stopped, name, items, index: item, body, next: statement + 1 },
        );
        self.push_task(Task::Exec(run));
        self.go_on()
    }

    /// Goes on with a task, given what the task above it has left; and
    /// hands out the number that `random` drew where it drew one.
    fn go_on_with(&mut self, task: Task, carry: Option<Literal>) -> (r: (Signal, i32))
        ensures
            (final(self)@, r.0.deep_view()) == continued(
                old(self)@,
                task.deep_view(),
                carry_view(carry),
                r.1,
            ),
            within(draw_range(task.deep_view(), carry_view(carry)), r.1),
    {
        match task {
            Task::Exec(statement) => (self.eval_statement(statement), 0),
            Task::Eval(expr) => (self.get_literal(expr), 0),
            Task::Operands(apply, exprs, values) => {
                let mut values = values;
                let ghost before = literals_view(values@);
                let value = left_value(carry);
                values.push(value);
                assert(literals_view(values@) =~= before.push(literal_view(value)));
                if values.len() < exprs.len() {
                    let following = exprs[values.len()].clone();
                    self.push_task(Task::Operands(apply, exprs, values));
                    self.push_task(Task::Eval(following));
                    (self.go_on(), 0)
                } else {
                    self.apply(apply, values)
                }
            },
            Task::Define(name) => {
                self.push(name, left_value(carry));
                (self.leave(None), 0)
            },
            Task::Assign(name) => {
                let id = name.clone();
                match self.set_var(name, left_value(carry)) {
                    Ok(()) => (self.leave(None), 0),
                    Err(e) => (self.fail(e), 0),
                }
            },
            Task::Discard => (self.leave(None), 0),
            Task::Choose(if_body, else_body) => match left_value(carry) {
                Literal::Boolean(chosen) => {
                    let body = if chosen {
                        if_body
                    } else {
                        else_body
                    };
                    self.push_task(Task::Branch { body, next: 0 });
                    (self.go_on(), 0)
                },
                unexpected => (self.fail(RuntimeError::ConditionNotBoolean(unexpected.kind())), 0),
            },
            Task::Iterate(name, body) => match left_value(carry) {
                Literal::List(items) => {
                    proof {
                        lemma_list_literal_view(items);
                    }
                    let scope: Vec<(String, Literal)> = Vec::new();
                    assert(table_view(scope@) =~= Seq::empty());
                    self.push_task(
                        Task::For { scope, stopped: false, name, items, index: 0, body, next: 0 },
                    );
                    (self.go_on(), 0)
                },
                unexpected => (self.fail(RuntimeError::NotAList(unexpected.kind())), 0),
            },
            Task::Await(_) => (self.fail(RuntimeError::UnexpectedReply), 0),
            Task::Call { scope, body, next } => match carry {
                Some(value) => (self.leave(Some(value)), 0),
                None => {
                    if next < body.len() {
                        let statement = body[next].clone();
                        self.push_task(Task::Call { scope, body, next: next + 1 });
                        self.push_task(Task::Exec(statement));
                        (self.go_on(), 0)
                    } else {
                        (self.leave(Some(Literal::Unit)), 0)
                    }
                },
            },
            Task::Branch { body, next } => match carry {
                Some(value) => (self.leave(Some(value)), 0),
                None => {
                    if next < body.len() {
                        let statement = body[next].clone();
                        self.push_task(Task::Branch { body, next: next + 1 });
                        self.push_task(Task::Exec(statement));
                        (self.go_on(), 0)
                    } else {
                        (self.leave(None), 0)
                    }
                },
            },
            Task::While { scope, stopped, condition, body, next, checking } => (
                self.eval_while(scope, stopped, condition, body, next, checking, carry),
                0,
            ),
            Task::For { scope, stopped, name, items, index, body, next } => (
                self.eval_for(scope, stopped, name, items, index, body, next, carry),
                0,
            ),
        }
    }

    /// One step of the machine. `reply` is the host's answer to the request
    /// of the step before, and empty where that step asked for nothing.
    ///
    /// What the step does is a function of the state, of the reply and of
    /// the number that `random` draws, if this step has it draw one; that
    /// number lies in the range that was asked for.
    pub fn step(&mut self, reply: Reply) -> (signal: Signal)
        ensures
            steps(old(self)@, reply.deep_view(), final(self)@, signal.deep_view()),
    {
        let ghost before = self@;
        let ghost mut drawn: i32 = match drawing(before) {
            Some((min, _)) => min,
            None => 0,
        };
        let signal = if self.failure.is_some() {
            match &self.failure {
                Some(error) => Signal::Failed(error.clone()),
                None => Signal::Running,
            }
        } else if self.tasks.len() == 0 {
            if !matches!(reply, Reply::Empty) {
                self.fail(RuntimeError::UnexpectedReply)
            } else if self.position < self.statements.len() {
                let statement = self.statements[self.position].clone();
                self.position += 1;
                self.tasks.push(Task::Exec(statement));
                assert(tasks_view(self.tasks@) =~= seq![TaskView::Exec(statement_view(statement))]);
                self.go_on()
            } else {
                Signal::Finished
            }
        } else {
            let awaits = matches!(self.tasks[self.tasks.len() - 1], Task::Await(_));
            if awaits {
                match self.pop_task() {
                    (Task::Await(pending), _) => self.resume(pending, reply),
                    _ => Signal::Running,
                }
            } else if !matches!(reply, Reply::Empty) {
                self.fail(RuntimeError::UnexpectedReply)
            } else {
                let (task, carry) = self.pop_task();
                let (signal, number) = self.go_on_with(task, carry);
                proof {
                    drawn = number;
                }
                signal
            }
        };
        assert(step_of(before, reply.deep_view(), drawn) == (self@, signal.deep_view()));
        assert(within(drawing(before), drawn));
        signal
    }
}

/// Where the machine stands after a step that told `told`, with `budget`
/// steps still allowed: at the end, or before further steps.
spec fn goes_on(mid: State, told: SignalView, budget: nat, after: State, signal: SignalView) -> bool {
    if told is Running && budget > 0 {
        reaches(mid, ReplyView::Empty, (budget - 1) as nat, after, signal)
    } else {
        after == mid && signal == told
    }
}

impl Interpreter {
    /// Runs the program until it asks something of the host, has finished or
    /// has failed. The first step takes `reply`; after it the machine goes on
    /// for `budget` steps at most, and tells `Running` if it has not come to
    /// an end by then, so that the caller may go on with an empty reply.
    pub fn interpret(&mut self, reply: Reply, budget: usize) -> (signal: Signal)
        ensures
            reaches(
                old(self)@,
                reply.deep_view(),
                budget as nat,
                final(self)@,
                signal.deep_view(),
            ),
    {
        let ghost start = self@;
        let ghost first = reply.deep_view();
        let mut signal = self.step(reply);
        let mut allowed = budget;
        assert forall|after: State, last: SignalView|
            goes_on(self@, signal.deep_view(), allowed as nat, after, last) implies reaches(
            start,
            first,
            budget as nat,
            after,
            last,
        ) by {
            assert(steps(start, first, self@, signal.deep_view()));
        }
        while allowed > 0 && matches!(signal, Signal::Running)
            invariant
                forall|after: State, last: SignalView|
                    goes_on(self@, signal.deep_view(), allowed as nat, after, last) ==> reaches(
                        start,
                        first,
                        budget as nat,
                        after,
                        last,
                    ),
            decreases allowed,
        {
            let ghost mid = self@;
            let ghost left = allowed as nat;
            signal = self.step(Reply::Empty);
            allowed -= 1;
            assert forall|after: State, last: SignalView|
                goes_on(self@, signal.deep_view(), allowed as nat, after, last) implies reaches(
                start,
                first,
                budget as nat,
                after,
                last,
            ) by {
                assert(steps(mid, ReplyView::Empty, self@, signal.deep_view()));
                assert(reaches(mid, ReplyView::Empty, (left - 1) as nat, after, last));
                assert(goes_on(mid, SignalView::Running, left, after, last));
            }
        }
        assert(goes_on(self@, signal.deep_view(), allowed as nat, self@, signal.deep_view()));
        signal
    }
}

} // verus!
