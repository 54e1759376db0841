use vstd::prelude::*;

verus! {

/// The operators of a binary operation.
#[derive(Clone, Copy, Debug, PartialEq, Eq, Structural)]
pub enum BinOp {
    Add,
    Sub,
    Mul,
    Div,
    FloorDiv,
    Mod,
    Pow,
    Lt,
    Gt,
    Eq,
    Ne,
    Le,
    Ge,
}

/// An expression.
///
/// A `Float` carries the number's text: the literal as written, with a minus
/// sign in front where it was negated. The entries of a `Dictionnary` are in
/// the order in which they were written, each key once.
#[derive(Debug, PartialEq)]
pub enum Expr {
    String(String),
    Int(i32),
    Float(String),
    Boolean(bool),
    Var(String),
    Call(String, Vec<Box<Expr>>),
    List(Vec<Box<Expr>>),
    Dictionnary(Vec<(String, Box<Expr>)>),
    Index(Box<Expr>, Box<Expr>),
    BinOp(BinOp, Box<Expr>, Box<Expr>),
}

/// The mathematical value of an [`Expr`].
pub ghost enum ExprView {
    String(Seq<char>),
    Int(i32),
    Float(Seq<char>),
    Boolean(bool),
    Var(Seq<char>),
    Call(Seq<char>, Seq<ExprView>),
    List(Seq<ExprView>),
    Dictionnary(Seq<(Seq<char>, ExprView)>),
    Index(Box<ExprView>, Box<ExprView>),
    BinOp(BinOp, Box<ExprView>, Box<ExprView>),
}

/// A statement.
#[derive(Debug, PartialEq)]
pub enum Statement {
    If(Expr, Vec<Box<Statement>>, Vec<Box<Statement>>),
    VarDef(String, Expr),
    FuncDef(String, Vec<String>, Vec<Statement>),
    VarSet(String, Expr),
    IndexSet(Expr, Expr, Expr),
    Return(Expr),
    While(Expr, Vec<Box<Statement>>),
    For(String, Expr, Vec<Box<Statement>>),
    Break,
    Load(String),
    Expr(Expr),
}

/// The mathematical value of a [`Statement`].
pub ghost enum StatementView {
    If(ExprView, Seq<StatementView>, Seq<StatementView>),
    VarDef(Seq<char>, ExprView),
    FuncDef(Seq<char>, Seq<Seq<char>>, Seq<StatementView>),
    VarSet(Seq<char>, ExprView),
    IndexSet(ExprView, ExprView, ExprView),
    Return(ExprView),
    While(ExprView, Seq<StatementView>),
    For(Seq<char>, ExprView, Seq<StatementView>),
    Break,
    Load(Seq<char>),
    Expr(ExprView),
}

/// The mathematical value of an expression.
pub open spec fn expr_view(e: Expr) -> ExprView
    decreases e,
{
    match e {
        Expr::String(s) => ExprView::String(s@),
        Expr::Int(n) => ExprView::Int(n),
        Expr::Float(s) => ExprView::Float(s@),
        Expr::Boolean(b) => ExprView::Boolean(b),
        Expr::Var(s) => ExprView::Var(s@),
        Expr::Call(name, args) => ExprView::Call(
            name@,
            Seq::new(
                args@.len(),
                |i: int|
                    if 0 <= i < args@.len() {
                        expr_view(*args@[i])
                    } else {
                        arbitrary()
                    },
            ),
        ),
        Expr::List(items) => ExprView::List(
            Seq::new(
                items@.len(),
                |i: int|
                    if 0 <= i < items@.len() {
                        expr_view(*items@[i])
                    } else {
                        arbitrary()
                    },
            ),
        ),
        Expr::Dictionnary(entries) => ExprView::Dictionnary(
            Seq::new(
                entries@.len(),
                |i: int|
                    if 0 <= i < entries@.len() {
                        (entries@[i].0@, expr_view(*entries@[i].1))
                    } else {
                        arbitrary()
                    },
            ),
        ),
        Expr::Index(target, index) => ExprView::Index(
            Box::new(expr_view(*target)),
            Box::new(expr_view(*index)),
        ),
        Expr::BinOp(op, left, right) => ExprView::BinOp(
            op,
            Box::new(expr_view(*left)),
            Box::new(expr_view(*right)),
        ),
    }
}

impl DeepView for Expr {
    type V = ExprView;

    open spec fn deep_view(&self) -> ExprView {
        expr_view(*self)
    }
}

/// The mathematical values of a sequence of expressions.
pub open spec fn exprs_view(es: Seq<Box<Expr>>) -> Seq<ExprView> {
    Seq::new(es.len(), |i: int| expr_view(*es[i]))
}

/// The mathematical values of the entries of a dictionary literal.
pub open spec fn entries_view(es: Seq<(String, Box<Expr>)>) -> Seq<(Seq<char>, ExprView)> {
    Seq::new(es.len(), |i: int| (es[i].0@, expr_view(*es[i].1)))
}

/// The character sequences of a sequence of strings.
pub open spec fn names_view(names: Seq<String>) -> Seq<Seq<char>> {
    Seq::new(names.len(), |i: int| names[i]@)
}

/// The mathematical value of a statement.
pub open spec fn statement_view(s: Statement) -> StatementView
    decreases s,
{
    match s {
        Statement::If(condition, if_body, else_body) => StatementView::If(
            expr_view(condition),
            Seq::new(
                if_body@.len(),
                |i: int|
                    if 0 <= i < if_body@.len() {
                        statement_view(*if_body@[i])
                    } else {
                        arbitrary()
                    },
            ),
            Seq::new(
                else_body@.len(),
                |i: int|
                    if 0 <= i < else_body@.len() {
                        statement_view(*else_body@[i])
                    } else {
                        arbitrary()
                    },
            ),
        ),
        Statement::VarDef(name, e) => StatementView::VarDef(name@, expr_view(e)),
        Statement::FuncDef(name, params, body) => StatementView::FuncDef(
            name@,
            names_view(params@),
            Seq::new(
                body@.len(),
                |i: int|
                    if 0 <= i < body@.len() {
                        statement_view(body@[i])
                    } else {
                        arbitrary()
                    },
            ),
        ),
        Statement::VarSet(name, e) => StatementView::VarSet(name@, expr_view(e)),
        Statement::IndexSet(target, index, value) => StatementView::IndexSet(
            expr_view(target),
            expr_view(index),
            expr_view(value),
        ),
        Statement::Return(e) => StatementView::Return(expr_view(e)),
        Statement::While(condition, body) => StatementView::While(
            expr_view(condition),
            Seq::new(
                body@.len(),
                |i: int|
                    if 0 <= i < body@.len() {
                        statement_view(*body@[i])
                    } else {
                        arbitrary()
                    },
            ),
        ),
        Statement::For(name, e, body) => StatementView::For(
            name@,
            expr_view(e),
            Seq::new(
                body@.len(),
                |i: int|
                    if 0 <= i < body@.len() {
                        statement_view(*body@[i])
                    } else {
                        arbitrary()
                    },
            ),
        ),
        Statement::Break => StatementView::Break,
        Statement::Load(path) => StatementView::Load(path@),
        Statement::Expr(e) => StatementView::Expr(expr_view(e)),
    }
}

impl DeepView for Statement {
    type V = StatementView;

    open spec fn deep_view(&self) -> StatementView {
        statement_view(*self)
    }
}

/// The mathematical values of a sequence of statements.
pub open spec fn statements_view(ss: Seq<Statement>) -> Seq<StatementView> {
    Seq::new(ss.len(), |i: int| statement_view(ss[i]))
}

/// The mathematical values of the statements of a block.
pub open spec fn block_view(ss: Seq<Box<Statement>>) -> Seq<StatementView> {
    Seq::new(ss.len(), |i: int| statement_view(*ss[i]))
}

/// The view of a call is made of the views of its arguments.
pub proof fn lemma_call_view(name: String, args: Vec<Box<Expr>>)
    ensures
        expr_view(Expr::Call(name, args)) == ExprView::Call(name@, exprs_view(args@)),
{
    assert(expr_view(Expr::Call(name, args))->Call_1 =~= exprs_view(args@));
}

/// The view of a list literal is made of the views of its items.
pub proof fn lemma_list_view(items: Vec<Box<Expr>>)
    ensures
        expr_view(Expr::List(items)) == ExprView::List(exprs_view(items@)),
{
    assert(expr_view(Expr::List(items))->List_0 =~= exprs_view(items@));
}

/// The view of a dictionary literal is made of the views of its entries.
pub proof fn lemma_dictionary_view(entries: Vec<(String, Box<Expr>)>)
    ensures
        expr_view(Expr::Dictionnary(entries)) == ExprView::Dictionnary(entries_view(entries@)),
{
    assert(expr_view(Expr::Dictionnary(entries))->Dictionnary_0 =~= entries_view(entries@));
}

/// The view of a conditional is made of the views of its two blocks.
pub proof fn lemma_if_view(condition: Expr, first: Vec<Box<Statement>>, second: Vec<Box<Statement>>)
    ensures
        statement_view(Statement::If(condition, first, second)) == StatementView::If(
            expr_view(condition),
            block_view(first@),
            block_view(second@),
        ),
{
    assert(statement_view(Statement::If(condition, first, second))->If_1 =~= block_view(first@));
    assert(statement_view(Statement::If(condition, first, second))->If_2 =~= block_view(second@));
}

/// The view of a while loop is made of the view of its block.
pub proof fn lemma_while_view(condition: Expr, body: Vec<Box<Statement>>)
    ensures
        statement_view(Statement::While(condition, body)) == StatementView::While(
            expr_view(condition),
            block_view(body@),
        ),
{
    assert(statement_view(Statement::While(condition, body))->While_1 =~= block_view(body@));
}

/// The view of a for loop is made of the view of its block.
pub proof fn lemma_for_view(name: String, iterable: Expr, body: Vec<Box<Statement>>)
    ensures
        statement_view(Statement::For(name, iterable, body)) == StatementView::For(
            name@,
            expr_view(iterable),
            block_view(body@),
        ),
{
    assert(statement_view(Statement::For(name, iterable, body))->For_2 =~= block_view(body@));
}

/// The view of a function definition is made of the view of its body.
pub proof fn lemma_func_def_view(name: String, params: Vec<String>, body: Vec<Statement>)
    ensures
        statement_view(Statement::FuncDef(name, params, body)) == StatementView::FuncDef(
            name@,
            names_view(params@),
            statements_view(body@),
        ),
{
    assert(statement_view(Statement::FuncDef(name, params, body))->FuncDef_2 =~= statements_view(
        body@,
    ));
}

impl Clone for Expr {
    fn clone(&self) -> (r: Self)
        ensures
            r.deep_view() == self.deep_view(),
        decreases self,
    {
        match self {
            Expr::String(s) => Expr::String(s.clone()),
            Expr::Int(n) => Expr::Int(*n),
            Expr::Float(s) => Expr::Float(s.clone()),
            Expr::Boolean(b) => Expr::Boolean(*b),
            Expr::Var(s) => Expr::Var(s.clone()),
            Expr::Call(name, args) => {
                let copies = clone_exprs(args);
                proof {
                    lemma_call_view(*name, *args);
                    lemma_call_view(*name, copies);
                }
                Expr::Call(name.clone(), copies)
            },
            Expr::List(items) => {
                let copies = clone_exprs(items);
                proof {
                    lemma_list_view(*items);
                    lemma_list_view(copies);
                }
                Expr::List(copies)
            },
            Expr::Dictionnary(entries) => {
                let copies = clone_entries(entries);
                proof {
                    lemma_dictionary_view(*entries);
                    lemma_dictionary_view(copies);
                }
                Expr::Dictionnary(copies)
            },
            Expr::Index(target, index) => Expr::Index(
                Box::new((**target).clone()),
                Box::new((**index).clone()),
            ),
            Expr::BinOp(op, left, right) => Expr::BinOp(
                *op,
                Box::new((**left).clone()),
                Box::new((**right).clone()),
            ),
        }
    }
}

/// Copies of the entries of a dictionary literal.
pub fn clone_entries(es: &Vec<(String, Box<Expr>)>) -> (r: Vec<(String, Box<Expr>)>)
    ensures
        entries_view(r@) == entries_view(es@),
    decreases es,
{
    let mut copies: Vec<(String, Box<Expr>)> = Vec::new();
    let mut i: usize = 0;
    while i < es.len()
        invariant
            i <= es.len(),
            copies.len() == i,
            forall|j: int|
                0 <= j < i ==> (#[trigger] copies@[j]).0@ == es@[j].0@ && expr_view(*copies@[j].1)
                    == expr_view(*es@[j].1),
        decreases es.len() - i,
    {
        copies.push((es[i].0.clone(), Box::new((*es[i].1).clone())));
        i += 1;
    }
    assert(entries_view(copies@) =~= entries_view(es@));
    copies
}

/// Copies of the expressions of `es`.
pub fn clone_exprs(es: &Vec<Box<Expr>>) -> (r: Vec<Box<Expr>>)
    ensures
        exprs_view(r@) == exprs_view(es@),
    decreases es,
{
    let mut copies: Vec<Box<Expr>> = Vec::new();
    let mut i: usize = 0;
    while i < es.len()
        invariant
            i <= es.len(),
            copies.len() == i,
            forall|j: int| 0 <= j < i ==> expr_view(*#[trigger] copies@[j]) == expr_view(*es@[j]),
        decreases es.len() - i,
    {
        copies.push(Box::new((*es[i]).clone()));
        i += 1;
    }
    assert(exprs_view(copies@) =~= exprs_view(es@));
    copies
}

/// Copies of the strings of `names`.
pub fn clone_names(names: &Vec<String>) -> (r: Vec<String>)
    ensures
        names_view(r@) == names_view(names@),
{
    let mut copies: Vec<String> = Vec::new();
    let mut i: usize = 0;
    while i < names.len()
        invariant
            i <= names.len(),
            copies.len() == i,
            forall|j: int| 0 <= j < i ==> (#[trigger] copies@[j])@ == names@[j]@,
        decreases names.len() - i,
    {
        copies.push(names[i].clone());
        i += 1;
    }
    assert(names_view(copies@) =~= names_view(names@));
    copies
}

/// Copies of the statements of a block.
pub fn clone_block(ss: &Vec<Box<Statement>>) -> (r: Vec<Box<Statement>>)
    ensures
        block_view(r@) == block_view(ss@),
    decreases ss,
{
    let mut copies: Vec<Box<Statement>> = Vec::new();
    let mut i: usize = 0;
    while i < ss.len()
        invariant
            i <= ss.len(),
            copies.len() == i,
            forall|j: int|
                0 <= j < i ==> statement_view(*#[trigger] copies@[j]) == statement_view(*ss@[j]),
        decreases ss.len() - i,
    {
        copies.push(Box::new((*ss[i]).clone()));
        i += 1;
    }
    assert(block_view(copies@) =~= block_view(ss@));
    copies
}

/// Copies of the statements of `ss`.
pub fn clone_statements(ss: &Vec<Statement>) -> (r: Vec<Statement>)
    ensures
        statements_view(r@) == statements_view(ss@),
    decreases ss,
{
    let mut copies: Vec<Statement> = Vec::new();
    let mut i: usize = 0;
    while i < ss.len()
        invariant
            i <= ss.len(),
            copies.len() == i,
            forall|j: int|
                0 <= j < i ==> statement_view(#[trigger] copies@[j]) == statement_view(ss@[j]),
        decreases ss.len() - i,
    {
        copies.push(ss[i].clone());
        i += 1;
    }
    assert(statements_view(copies@) =~= statements_view(ss@));
    copies
}

impl Clone for Statement {
    fn clone(&self) -> (r: Self)
        ensures
            r.deep_view() == self.deep_view(),
        decreases self,
    {
        match self {
            Statement::If(condition, if_body, else_body) => {
                let first = clone_block(if_body);
                let second = clone_block(else_body);
                let e = condition.clone();
                proof {
                    lemma_if_view(*condition, *if_body, *else_body);
                    lemma_if_view(e, first, second);
                }
                Statement::If(e, first, second)
            },
            Statement::VarDef(name, e) => Statement::VarDef(name.clone(), e.clone()),
            Statement::FuncDef(name, params, body) => {
                let names = clone_names(params);
                let copies = clone_statements(body);
                proof {
                    lemma_func_def_view(*name, *params, *body);
                    lemma_func_def_view(*name, names, copies);
                }
                Statement::FuncDef(name.clone(), names, copies)
            },
            Statement::VarSet(name, e) => Statement::VarSet(name.clone(), e.clone()),
            Statement::IndexSet(target, index, value) => Statement::IndexSet(
                target.clone(),
                index.clone(),
                value.clone(),
            ),
            Statement::Return(e) => Statement::Return(e.clone()),
            Statement::While(condition, body) => {
                let copies = clone_block(body);
                let e = condition.clone();
                proof {
                    lemma_while_view(*condition, *body);
                    lemma_while_view(e, copies);
                }
                Statement::While(e, copies)
            },
            Statement::For(name, iterable, body) => {
                let copies = clone_block(body);
                let e = iterable.clone();
                proof {
                    lemma_for_view(*name, *iterable, *body);
                    lemma_for_view(*name, e, copies);
                }
                Statement::For(name.clone(), e, copies)
            },
            Statement::Break => Statement::Break,
            Statement::Load(path) => Statement::Load(path.clone()),
            Statement::Expr(e) => Statement::Expr(e.clone()),
        }
    }
}

} // verus!
