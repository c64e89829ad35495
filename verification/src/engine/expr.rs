//! The expressions that the evaluator runs.

use crate::parsing::lexer::{push_char, Literal, LiteralView};
use crate::parsing::parser;
use crate::parsing::parser::{decimal_text, push_decimal};
use vstd::prelude::*;
use vstd::string::StringExecFns;

verus! {

/// An expression as the evaluator runs it.
///
/// A `Num` holds the bits of an IEEE-754 double.
#[derive(Debug, PartialEq)]
pub enum Expr {
    Bool(bool),
    Num(u64),
    Char(char),
    /// A name, looked up among the locals and then among the functions.
    Symbol(String),
    /// A literal whose value the host decides.
    Literal(Literal),
    /// Names for the values on top of the stack; the last name is the top.
    Local(Vec<String>),
    /// A code body that is pushed, not run.
    Quote(Vec<Expr>),
}

/// The mathematical value of an [`Expr`].
pub enum ExprView {
    Bool(bool),
    Num(u64),
    Char(char),
    Symbol(Seq<char>),
    Literal(LiteralView),
    Local(Seq<Seq<char>>),
    Quote(Seq<ExprView>),
}

pub open spec fn expr_view(e: Expr) -> ExprView
    decreases e,
{
    match e {
        Expr::Bool(b) => ExprView::Bool(b),
        Expr::Num(n) => ExprView::Num(n),
        Expr::Char(c) => ExprView::Char(c),
        Expr::Symbol(s) => ExprView::Symbol(s@),
        Expr::Literal(l) => ExprView::Literal(l@),
        Expr::Local(names) => ExprView::Local(parser::string_views(names@)),
        Expr::Quote(body) => ExprView::Quote(
            Seq::new(
                body@.len(),
                |i: int|
                    if 0 <= i < body@.len() {
                        expr_view(body@[i])
                    } else {
                        ExprView::Bool(false)
                    },
            ),
        ),
    }
}

impl View for Expr {
    type V = ExprView;

    open spec fn view(&self) -> ExprView {
        expr_view(*self)
    }
}

/// The views of a sequence of expressions, in order.
pub open spec fn expr_views(v: Seq<Expr>) -> Seq<ExprView> {
    Seq::new(v.len(), |i: int| v[i]@)
}

/// The view of a quotation is the quotation of its body's views.
pub proof fn lemma_quote_view(body: Vec<Expr>)
    ensures
        Expr::Quote(body)@ == ExprView::Quote(expr_views(body@)),
{
    assert(Expr::Quote(body)@->Quote_0 =~= expr_views(body@));
}

/// A copy of a sequence of strings.
pub fn clone_strings(v: &Vec<String>) -> (r: Vec<String>)
    ensures
        parser::string_views(r@) == parser::string_views(v@),
{
    let mut out: Vec<String> = Vec::new();
    let mut i: usize = 0;
    while i < v.len()
        invariant
            i <= v@.len(),
            out@.len() == i,
            forall|j: int| 0 <= j < i ==> (#[trigger] out@[j])@ == v@[j]@,
        decreases v@.len() - i,
    {
        out.push(v[i].clone());
        i = i + 1;
    }
    assert(parser::string_views(out@) =~= parser::string_views(v@));
    out
}

/// A copy of a sequence of expressions.
pub fn clone_exprs(v: &Vec<Expr>) -> (r: Vec<Expr>)
    ensures
        expr_views(r@) == expr_views(v@),
    decreases v,
{
    let mut out: Vec<Expr> = Vec::new();
    let mut i: usize = 0;
    while i < v.len()
        invariant
            i <= v@.len(),
            out@.len() == i,
            forall|j: int| 0 <= j < i ==> (#[trigger] out@[j])@ == v@[j]@,
        decreases v@.len() - i,
    {
        out.push(v[i].duplicate());
        i = i + 1;
    }
    assert(expr_views(out@) =~= expr_views(v@));
    out
}

impl Expr {
    pub fn bool(b: bool) -> (r: Self)
        ensures
            r@ == ExprView::Bool(b),
    {
        Expr::Bool(b)
    }

    pub fn char(c: char) -> (r: Self)
        ensures
            r@ == ExprView::Char(c),
    {
        Expr::Char(c)
    }

    /// The number whose IEEE-754 bits are `bits`.
    pub fn num(bits: u64) -> (r: Self)
        ensures
            r@ == ExprView::Num(bits),
    {
        Expr::Num(bits)
    }

    pub fn symbol(s: &str) -> (r: Self)
        ensures
            r@ == ExprView::Symbol(s@),
    {
        Expr::Symbol(String::from_str(s))
    }

    /// A copy of this expression.
    pub fn duplicate(&self) -> (r: Self)
        ensures
            r@ == self@,
        decreases self,
    {
        match self {
            Expr::Bool(b) => Expr::Bool(*b),
            Expr::Num(n) => Expr::Num(*n),
            Expr::Char(c) => Expr::Char(*c),
            Expr::Symbol(s) => Expr::Symbol(s.clone()),
            Expr::Literal(l) => Expr::Literal(l.clone()),
            Expr::Local(names) => Expr::Local(clone_strings(names)),
            Expr::Quote(body) => {
                let copy = clone_exprs(body);
                proof {
                    lemma_quote_view(copy);
                    lemma_quote_view(*body);
                }
                Expr::Quote(copy)
            },
        }
    }
}

/// The decimal text of a number: `-` in front of a negative one.
pub open spec fn signed_text(n: int) -> Seq<char> {
    if n < 0 {
        seq!['-'] + decimal_text((-n) as nat)
    } else {
        decimal_text(n as nat)
    }
}

/// The text that shows a literal: a number in decimal, a float as it was
/// written, a character as itself, a string as its characters.
pub open spec fn literal_text(l: LiteralView) -> Seq<char> {
    match l {
        LiteralView::Int(n) => signed_text(n as int),
        LiteralView::Float(t) => t,
        LiteralView::Char(c) => seq![c],
        LiteralView::String(t) => t,
    }
}

/// The text that shows a binding form: `->`, then its names, separated by
/// commas.
pub open spec fn local_text(names: Seq<Seq<char>>) -> Seq<char>
    decreases names.len(),
{
    if names.len() == 0 {
        "->"@
    } else if names.len() == 1 {
        "-> "@ + names[0]
    } else {
        local_text(names.drop_last()) + ", "@ + names.last()
    }
}

/// Whether `text` is what shows the expression `e`, where `show_num` is
/// what shows a number: a bool as `true` or `false`, a number as
/// `show_num` shows it, a character as itself, a symbol as its name, a
/// literal as its text, a binding form as `-> a, b`, and a quotation as
/// `{..}`.
pub open spec fn expr_shown<F: Fn(u64) -> String>(e: ExprView, show_num: F, text: Seq<char>) -> bool {
    match e {
        ExprView::Bool(b) => text == (if b {
            "true"@
        } else {
            "false"@
        }),
        ExprView::Num(bits) => exists|t: String| call_ensures(show_num, (bits,), t) && t@ == text,
        ExprView::Char(c) => text == seq![c],
        ExprView::Symbol(name) => text == name,
        ExprView::Literal(l) => text == literal_text(l),
        ExprView::Local(names) => text == local_text(names),
        ExprView::Quote(_) => text == "{..}"@,
    }
}

/// The text that shows a literal.
pub fn show_literal(l: &Literal) -> (r: String)
    ensures
        r@ == literal_text(l@),
{
    match l {
        Literal::Int(n) => {
            let mut out = String::new();
            if *n < 0 {
                push_char(&mut out, '-');
                let magnitude: u64 = (-(*n + 1)) as u64 + 1;
                push_decimal(&mut out, magnitude);
                assert(out@ =~= seq!['-'] + decimal_text((-(*n)) as nat));
            } else {
                push_decimal(&mut out, *n as u64);
                assert(out@ =~= decimal_text(*n as nat));
            }
            out
        },
        Literal::Float(t) => t.clone(),
        Literal::Char(c) => {
            let mut out = String::new();
            push_char(&mut out, *c);
            assert(out@ =~= seq![*c]);
            out
        },
        Literal::String(t) => t.clone(),
    }
}

impl Expr {
    /// A text that shows the expression. The host says how a number is
    /// shown.
    pub fn repr<F: Fn(u64) -> String>(&self, show_num: &F) -> (r: String)
        requires
            forall|bits: u64| call_requires(*show_num, (bits,)),
        ensures
            expr_shown(self@, *show_num, r@),
    {
        match self {
            Expr::Bool(b) => if *b {
                String::from_str("true")
            } else {
                String::from_str("false")
            },
            Expr::Num(bits) => show_num(*bits),
            Expr::Char(c) => {
                let mut out = String::new();
                push_char(&mut out, *c);
                assert(out@ =~= seq![*c]);
                out
            },
            Expr::Symbol(name) => name.clone(),
            Expr::Literal(l) => show_literal(l),
            Expr::Local(names) => {
                let ghost all = parser::string_views(names@);
                let mut out = String::from_str("->");
                let mut i: usize = 0;
                assert(all.take(0) =~= Seq::<Seq<char>>::empty());
                while i < names.len()
                    invariant
                        i <= names@.len(),
                        all == parser::string_views(names@),
                        out@ == local_text(all.take(i as int)),
                    decreases names@.len() - i,
                {
                    proof {
                        assert(all.take(i + 1).drop_last() =~= all.take(i as int));
                        assert(all.take(i + 1).last() == names@[i as int]@);
                        if i == 0 {
                            assert(all.take(1)[0] == names@[0]@);
                        }
                    }
                    if i == 0 {
                        out.append(" ");
                        proof {
                            reveal_strlit("->");
                            reveal_strlit(" ");
                            reveal_strlit("-> ");
                            assert("->"@ + " "@ =~= "-> "@);
                        }
                    } else {
                        out.append(", ");
                    }
                    out.append(names[i].as_str());
                    i = i + 1;
                }
                assert(all.take(i as int) =~= all);
                out
            },
            Expr::Quote(_) => String::from_str("{..}"),
        }
    }
}

impl Clone for Expr {
    fn clone(&self) -> (r: Self)
        ensures
            r@ == self@,
    {
        self.duplicate()
    }
}

/// The modules of a qualified name, each followed by a dot.
pub open spec fn dotted(module: Seq<Seq<char>>) -> Seq<char>
    decreases module.len(),
{
    if module.len() == 0 {
        Seq::empty()
    } else {
        (dotted(module.drop_last()) + module.last()).push('.')
    }
}

/// The fully qualified name of a term: its modules joined by dots, a dot,
/// and its name; or its bare name where it has no module.
pub open spec fn qualified_name(module: Seq<Seq<char>>, name: Seq<char>) -> Seq<char> {
    dotted(module) + name
}

/// The fully qualified name of a term.
pub fn qualified(module: &Vec<String>, name: &str) -> (r: String)
    ensures
        r@ == qualified_name(parser::string_views(module@), name@),
{
    let ghost all = parser::string_views(module@);
    let mut out = String::new();
    let mut i: usize = 0;
    assert(all.take(0) =~= Seq::<Seq<char>>::empty());
    while i < module.len()
        invariant
            i <= module@.len(),
            all == parser::string_views(module@),
            out@ == dotted(all.take(i as int)),
        decreases module@.len() - i,
    {
        proof {
            assert(all.take(i + 1).drop_last() =~= all.take(i as int));
            assert(all.take(i + 1).last() == module@[i as int]@);
        }
        out.append(module[i].as_str());
        push_char(&mut out, '.');
        i = i + 1;
    }
    assert(all.take(i as int) =~= all);
    out.append(name);
    out
}

/// What the evaluator runs for an expression of the parser: a character
/// literal is pushed as it is, a term becomes the symbol of its fully
/// qualified name, a quotation is compiled inside.
pub open spec fn compiled(e: parser::ExprView) -> ExprView
    decreases e,
{
    match e {
        parser::ExprView::Literal(LiteralView::Char(c)) => ExprView::Char(c),
        parser::ExprView::Literal(l) => ExprView::Literal(l),
        parser::ExprView::Term { name, module } => ExprView::Symbol(qualified_name(module, name)),
        parser::ExprView::Local(names) => ExprView::Local(names),
        parser::ExprView::Quote(body) => ExprView::Quote(
            Seq::new(
                body.len(),
                |i: int|
                    if 0 <= i < body.len() {
                        compiled(body[i])
                    } else {
                        ExprView::Bool(false)
                    },
            ),
        ),
    }
}

/// What the evaluator runs for a sequence of expressions of the parser.
pub open spec fn compiled_all(es: Seq<parser::ExprView>) -> Seq<ExprView> {
    Seq::new(es.len(), |i: int| compiled(es[i]))
}

/// Compiles a sequence of expressions of the parser.
pub fn compile_all(es: &Vec<parser::Expr>) -> (r: Vec<Expr>)
    ensures
        expr_views(r@) == compiled_all(parser::expr_views(es@)),
    decreases es,
{
    let mut out: Vec<Expr> = Vec::new();
    let mut i: usize = 0;
    while i < es.len()
        invariant
            i <= es@.len(),
            out@.len() == i,
            forall|j: int| 0 <= j < i ==> (#[trigger] out@[j])@ == compiled(es@[j]@),
        decreases es@.len() - i,
    {
        out.push(compile(&es[i]));
        i = i + 1;
    }
    assert(expr_views(out@) =~= compiled_all(parser::expr_views(es@)));
    out
}

/// Compiles an expression of the parser.
pub fn compile(e: &parser::Expr) -> (r: Expr)
    ensures
        r@ == compiled(e@),
    decreases e,
{
    match e {
        parser::Expr::Literal(Literal::Char(c)) => Expr::Char(*c),
        parser::Expr::Literal(l) => Expr::Literal(l.clone()),
        parser::Expr::Term { name, module } => Expr::Symbol(qualified(module, name.as_str())),
        parser::Expr::Local(names) => Expr::Local(clone_strings(names)),
        parser::Expr::Quote(body) => {
            let inner = compile_all(body);
            proof {
                lemma_quote_view(inner);
                parser::lemma_quote_view(*body);
                assert(compiled(e@)->Quote_0 =~= compiled_all(parser::expr_views(body@)));
            }
            Expr::Quote(inner)
        },
    }
}

} // verus!
