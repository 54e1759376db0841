use vstd::prelude::*;
use vstd::string::StringExecFns;
use crate::parsing::typing::{
    clone_names, clone_statements, names_view, statements_view, Statement, StatementView,
};
use crate::table::{get, keys_of, names_of, position, put};
use crate::text::{int_text, push_char, signed_decimal};

verus! {

/// A value.
///
/// A `Float` carries the number's decimal text; the library does not compute
/// on floats. The entries of a `Dictionnary` are in the order in which their
/// keys first came, each key once. A `Function` has a name, parameter names
/// and a body, and holds nothing of the place where it was defined. `Unit` is
/// what a call gives that returns nothing.
#[derive(Debug, PartialEq)]
pub enum Literal {
    String(String),
    Int(i32),
    Float(String),
    Boolean(bool),
    List(Vec<Literal>),
    Dictionnary(Vec<(String, Literal)>),
    Function(String, Vec<String>, Vec<Statement>),
    Unit,
}

/// The mathematical value of a [`Literal`].
pub ghost enum LiteralView {
    String(Seq<char>),
    Int(i32),
    Float(Seq<char>),
    Boolean(bool),
    List(Seq<LiteralView>),
    Dictionnary(Seq<(Seq<char>, LiteralView)>),
    Function(Seq<char>, Seq<Seq<char>>, Seq<StatementView>),
    Unit,
}

/// The kind of scope that is active.
#[derive(Clone, Copy, Debug, PartialEq, Eq, Structural)]
pub enum Context {
    Function,
    TopLevel,
    Loop,
}

/// The kinds of values, as errors name them.
#[derive(Clone, Copy, Debug, PartialEq, Eq, Structural)]
pub enum Kind {
    String,
    Int,
    Float,
    Boolean,
    List,
    Dictionnary,
    Function,
    Unit,
}

/// The mathematical value of a value.
pub open spec fn literal_view(v: Literal) -> LiteralView
    decreases v,
{
    match v {
        Literal::String(s) => LiteralView::String(s@),
        Literal::Int(n) => LiteralView::Int(n),
        Literal::Float(s) => LiteralView::Float(s@),
        Literal::Boolean(b) => LiteralView::Boolean(b),
        Literal::List(items) => LiteralView::List(
            Seq::new(
                items@.len(),
                |i: int|
                    if 0 <= i < items@.len() {
                        literal_view(items@[i])
                    } else {
                        arbitrary()
                    },
            ),
        ),
        Literal::Dictionnary(entries) => LiteralView::Dictionnary(
            Seq::new(
                entries@.len(),
                |i: int|
                    if 0 <= i < entries@.len() {
                        (entries@[i].0@, literal_view(entries@[i].1))
                    } else {
                        arbitrary()
                    },
            ),
        ),
        Literal::Function(name, params, body) => LiteralView::Function(
            name@,
            names_view(params@),
            statements_view(body@),
        ),
        Literal::Unit => LiteralView::Unit,
    }
}

impl DeepView for Literal {
    type V = LiteralView;

    open spec fn deep_view(&self) -> LiteralView {
        literal_view(*self)
    }
}

/// The mathematical values of a sequence of values.
pub open spec fn literals_view(vs: Seq<Literal>) -> Seq<LiteralView> {
    Seq::new(vs.len(), |i: int| literal_view(vs[i]))
}

/// The mathematical value of a table of values.
pub open spec fn table_view(entries: Seq<(String, Literal)>) -> Seq<(Seq<char>, LiteralView)> {
    Seq::new(entries.len(), |i: int| (entries[i].0@, literal_view(entries[i].1)))
}

/// The view of a list is made of the views of its items.
pub proof fn lemma_list_literal_view(items: Vec<Literal>)
    ensures
        literal_view(Literal::List(items)) == LiteralView::List(literals_view(items@)),
{
    assert(literal_view(Literal::List(items))->List_0 =~= literals_view(items@));
}

/// The view of a dictionary is made of the views of its entries.
pub proof fn lemma_dictionary_literal_view(entries: Vec<(String, Literal)>)
    ensures
        literal_view(Literal::Dictionnary(entries)) == LiteralView::Dictionnary(
            table_view(entries@),
        ),
{
    assert(literal_view(Literal::Dictionnary(entries))->Dictionnary_0 =~= table_view(entries@));
}

/// Copies of the values of `vs`.
pub fn clone_literals(vs: &Vec<Literal>) -> (r: Vec<Literal>)
    ensures
        literals_view(r@) == literals_view(vs@),
    decreases vs,
{
    let mut copies: Vec<Literal> = Vec::new();
    let mut i: usize = 0;
    while i < vs.len()
        invariant
            i <= vs.len(),
            copies.len() == i,
            forall|j: int|
                0 <= j < i ==> literal_view(#[trigger] copies@[j]) == literal_view(vs@[j]),
        decreases vs.len() - i,
    {
        copies.push(vs[i].clone());
        i += 1;
    }
    assert(literals_view(copies@) =~= literals_view(vs@));
    copies
}

/// A copy of a table of values.
pub fn clone_table(entries: &Vec<(String, Literal)>) -> (r: Vec<(String, Literal)>)
    ensures
        table_view(r@) == table_view(entries@),
    decreases entries,
{
    let mut copies: Vec<(String, Literal)> = Vec::new();
    let mut i: usize = 0;
    while i < entries.len()
        invariant
            i <= entries.len(),
            copies.len() == i,
            forall|j: int|
                0 <= j < i ==> (#[trigger] copies@[j]).0@ == entries@[j].0@ && literal_view(
                    copies@[j].1,
                ) == literal_view(entries@[j].1),
        decreases entries.len() - i,
    {
        copies.push((entries[i].0.clone(), entries[i].1.clone()));
        i += 1;
    }
    assert(table_view(copies@) =~= table_view(entries@));
    copies
}

impl Clone for Literal {
    fn clone(&self) -> (r: Self)
        ensures
            r.deep_view() == self.deep_view(),
        decreases self,
    {
        match self {
            Literal::String(s) => Literal::String(s.clone()),
            Literal::Int(n) => Literal::Int(*n),
            Literal::Float(s) => Literal::Float(s.clone()),
            Literal::Boolean(b) => Literal::Boolean(*b),
            Literal::List(items) => {
                let copies = clone_literals(items);
                proof {
                    lemma_list_literal_view(*items);
                    lemma_list_literal_view(copies);
                }
                Literal::List(copies)
            },
            Literal::Dictionnary(entries) => {
                let copies = clone_table(entries);
                proof {
                    lemma_dictionary_literal_view(*entries);
                    lemma_dictionary_literal_view(copies);
                }
                Literal::Dictionnary(copies)
            },
            Literal::Function(name, params, body) => Literal::Function(
                name.clone(),
                clone_names(params),
                clone_statements(body),
            ),
            Literal::Unit => Literal::Unit,
        }
    }
}

/// The kind of a value.
pub open spec fn kind_of(v: LiteralView) -> Kind {
    match v {
        LiteralView::String(_) => Kind::String,
        LiteralView::Int(_) => Kind::Int,
        LiteralView::Float(_) => Kind::Float,
        LiteralView::Boolean(_) => Kind::Boolean,
        LiteralView::List(_) => Kind::List,
        LiteralView::Dictionnary(_) => Kind::Dictionnary,
        LiteralView::Function(_, _, _) => Kind::Function,
        LiteralView::Unit => Kind::Unit,
    }
}

/// The texts `parts[from..]`, with `between` between each two.
pub open spec fn joined(parts: Seq<Seq<char>>, between: Seq<char>, from: int) -> Seq<char>
    decreases parts.len() - from,
{
    if 0 <= from < parts.len() {
        if from + 1 == parts.len() {
            parts[from]
        } else {
            parts[from] + between + joined(parts, between, from + 1)
        }
    } else {
        Seq::empty()
    }
}

/// The text shown for a value: a string in quotes, a list in brackets, a
/// dictionary in braces with its keys in quotes, a function by its name and
/// parameter names.
pub open spec fn shown(v: LiteralView) -> Seq<char>
    decreases v,
{
    match v {
        LiteralView::String(s) => seq!['"'] + s + seq!['"'],
        LiteralView::Int(n) => signed_decimal(n as int),
        LiteralView::Float(x) => x,
        LiteralView::Boolean(b) => if b {
            "true"@
        } else {
            "false"@
        },
        LiteralView::List(items) => seq!['['] + joined(all_shown(items), ", "@, 0) + seq![']'],
        LiteralView::Dictionnary(entries) => seq!['{'] + joined(
            entries_shown(entries),
            ", "@,
            0,
        ) + seq!['}'],
        LiteralView::Function(name, params, _) => "<function:"@ + name + seq!['#'] + joined(
            params,
            seq![','],
            0,
        ) + seq!['>'],
        LiteralView::Unit => "None"@,
    }
}

/// The texts shown for a sequence of values.
pub open spec fn all_shown(vs: Seq<LiteralView>) -> Seq<Seq<char>>
    decreases vs,
{
    Seq::new(
        vs.len(),
        |i: int|
            if 0 <= i < vs.len() {
                shown(vs[i])
            } else {
                Seq::empty()
            },
    )
}

/// The texts shown for the entries of a dictionary.
pub open spec fn entries_shown(entries: Seq<(Seq<char>, LiteralView)>) -> Seq<Seq<char>>
    decreases entries,
{
    Seq::new(
        entries.len(),
        |i: int|
            if 0 <= i < entries.len() {
                seq!['"'] + entries[i].0 + "\": "@ + shown(entries[i].1)
            } else {
                Seq::empty()
            },
    )
}

/// The texts shown for the values of `vs`.
pub fn show_all(vs: &Vec<Literal>) -> (r: Vec<String>)
    ensures
        names_view(r@) == all_shown(literals_view(vs@)),
    decreases vs,
{
    let mut parts: Vec<String> = Vec::new();
    let mut i: usize = 0;
    while i < vs.len()
        invariant
            i <= vs.len(),
            parts.len() == i,
            forall|j: int| 0 <= j < i ==> (#[trigger] parts@[j])@ == shown(literal_view(vs@[j])),
        decreases vs.len() - i,
    {
        parts.push(vs[i].to_string());
        i += 1;
    }
    assert(names_view(parts@) =~= all_shown(literals_view(vs@)));
    parts
}

/// The texts shown for the entries of a dictionary.
pub fn show_entries(entries: &Vec<(String, Literal)>) -> (r: Vec<String>)
    ensures
        names_view(r@) == entries_shown(table_view(entries@)),
    decreases entries,
{
    let mut parts: Vec<String> = Vec::new();
    let mut i: usize = 0;
    while i < entries.len()
        invariant
            i <= entries.len(),
            parts.len() == i,
            forall|j: int|
                0 <= j < i ==> (#[trigger] parts@[j])@ == seq!['"'] + entries@[j].0@ + "\": "@
                    + shown(literal_view(entries@[j].1)),
        decreases entries.len() - i,
    {
        let mut part = String::new();
        push_char(&mut part, '"');
        part.append(entries[i].0.as_str());
        part.append("\": ");
        part.append(entries[i].1.to_string().as_str());
        parts.push(part);
        i += 1;
    }
    assert(names_view(parts@) =~= entries_shown(table_view(entries@)));
    parts
}

/// Appends the texts of `parts`, with `between` between each two, to `out`.
pub fn push_joined(out: &mut String, parts: &Vec<String>, between: &str)
    ensures
        final(out)@ == old(out)@ + joined(names_view(parts@), between@, 0),
{
    let ghost texts = names_view(parts@);
    let mut i: usize = 0;
    while i < parts.len()
        invariant
            i <= parts.len(),
            texts == names_view(parts@),
            out@ + joined(texts, between@, i as int) =~= old(out)@ + joined(texts, between@, 0),
        decreases parts.len() - i,
    {
        out.append(parts[i].as_str());
        if i + 1 < parts.len() {
            out.append(between);
        }
        i += 1;
    }
}

impl Literal {
    /// The kind of this value.
    pub fn kind(&self) -> (k: Kind)
        ensures
            k == kind_of(self.deep_view()),
    {
        match self {
            Literal::String(_) => Kind::String,
            Literal::Int(_) => Kind::Int,
            Literal::Float(_) => Kind::Float,
            Literal::Boolean(_) => Kind::Boolean,
            Literal::List(_) => Kind::List,
            Literal::Dictionnary(_) => Kind::Dictionnary,
            Literal::Function(_, _, _) => Kind::Function,
            Literal::Unit => Kind::Unit,
        }
    }

    /// The text shown for this value.
    pub fn to_string(&self) -> (r: String)
        ensures
            r@ == shown(self.deep_view()),
        decreases self,
    {
        match self {
            Literal::String(string) => {
                let mut out = String::new();
                push_char(&mut out, '"');
                out.append(string.as_str());
                push_char(&mut out, '"');
                assert(out@ =~= seq!['"'] + string@ + seq!['"']);
                out
            },
            Literal::Int(number) => int_text(*number),
            Literal::Float(float) => float.clone(),
            Literal::Boolean(boolean) => {
                if *boolean {
                    String::from_str("true")
                } else {
                    String::from_str("false")
                }
            },
            Literal::List(list) => {
                let parts = show_all(list);
                let mut out = String::new();
                push_char(&mut out, '[');
                push_joined(&mut out, &parts, ", ");
                push_char(&mut out, ']');
                proof {
                    lemma_list_literal_view(*list);
                    assert(out@ =~= seq!['['] + joined(names_view(parts@), ", "@, 0) + seq![']']);
                }
                out
            },
            Literal::Dictionnary(dict) => {
                let parts = show_entries(dict);
                let mut out = String::new();
                push_char(&mut out, '{');
                push_joined(&mut out, &parts, ", ");
                push_char(&mut out, '}');
                proof {
                    lemma_dictionary_literal_view(*dict);
                    assert(out@ =~= seq!['{'] + joined(names_view(parts@), ", "@, 0) + seq!['}']);
                }
                out
            },
            Literal::Function(name, args, _) => {
                let mut out = String::from_str("<function:");
                out.append(name.as_str());
                push_char(&mut out, '#');
                push_joined(&mut out, args, ",");
                push_char(&mut out, '>');
                proof {
                    reveal_strlit(",");
                    assert(","@ =~= seq![',']);
                    assert(out@ =~= "<function:"@ + name@ + seq!['#'] + joined(
                        names_view(args@),
                        seq![','],
                        0,
                    ) + seq!['>']);
                }
                out
            },
            Literal::Unit => String::from_str("None"),
        }
    }
}

/// Sets `key` to `value` in a table: in place where the key was there, else at the end.
pub fn put_in(table: &mut Vec<(String, Literal)>, key: String, value: Literal)
    ensures
        table_view(final(table)@) == put(table_view(old(table)@), key@, literal_view(value)),
{
    let ghost before = table_view(table@);
    assert(keys_of(before) =~= names_of(table@));
    match position(table, &key) {
        Some(i) => {
            table[i] = (key, value);
            assert(table_view(table@) =~= before.update(i as int, (key@, literal_view(value))));
        },
        None => {
            table.push((key, value));
            assert(table_view(table@) =~= before.push((key@, literal_view(value))));
        },
    }
}

/// The value that `key` has in a table.
pub fn get_in<'a>(table: &'a Vec<(String, Literal)>, key: &String) -> (r: Option<&'a Literal>)
    ensures
        match r {
            Some(v) => get(table_view(table@), key@) == Some(literal_view(*v)),
            None => get(table_view(table@), key@) is None,
        },
{
    assert(keys_of(table_view(table@)) =~= names_of(table@));
    match position(table, key) {
        Some(i) => Some(&table[i].1),
        None => None,
    }
}

} // verus!
