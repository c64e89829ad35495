//! The parser: a token sequence becomes definitions whose bodies are
//! postfix term sequences.
//!
//! Tuple, list, table and conditional forms have no node of their own: the
//! parser writes them out as the term sequences they stand for. Each parsing
//! function works on a slice of tokens and a start position; what it accepts
//! is given by a specification function of the same shape over
//! `Seq<TokenView>`, in which a choice takes the first alternative that
//! succeeds and a repetition takes as many items as it can.

use crate::parsing::lexer::chars_of;
use crate::parsing::lexer::{push_char, token_views, Literal, LiteralView, Span, Token, TokenView};
use vstd::prelude::*;
use vstd::string::StringExecFns;

verus! {

/// A sequence of expressions, as a function body or a quotation holds it.
pub type ExprList = Vec<Expr>;

/// An expression of the language.
#[derive(Debug, PartialEq)]
pub enum Expr {
    Literal(Literal),
    /// A reference to a named word, with the modules that qualify it.
    Term { name: String, module: Vec<String> },
    /// Names for the values on top of the stack; the last name is the top.
    Local(Vec<String>),
    /// A code body that is carried, not run.
    Quote(ExprList),
}

/// The mathematical value of an [`Expr`].
pub enum ExprView {
    Literal(LiteralView),
    Term { name: Seq<char>, module: Seq<Seq<char>> },
    Local(Seq<Seq<char>>),
    Quote(Seq<ExprView>),
}

/// The views of a sequence of strings, in order.
pub open spec fn string_views(v: Seq<String>) -> Seq<Seq<char>> {
    Seq::new(v.len(), |i: int| v[i]@)
}

pub open spec fn expr_view(e: Expr) -> ExprView
    decreases e,
{
    match e {
        Expr::Literal(l) => ExprView::Literal(l@),
        Expr::Term { name, module } => ExprView::Term { name: name@, module: string_views(module@) },
        Expr::Local(names) => ExprView::Local(string_views(names@)),
        Expr::Quote(body) => ExprView::Quote(
            Seq::new(
                body@.len(),
                |i: int|
                    if 0 <= i < body@.len() {
                        expr_view(body@[i])
                    } else {
                        ExprView::Local(Seq::empty())
                    },
            ),
        ),
    }
}

impl View for Expr {
    type V = ExprView;

    open spec fn view(&self) -> ExprView {
        expr_view(*self)
    }
}

/// The views of a sequence of expressions, in order.
pub open spec fn expr_views(v: Seq<Expr>) -> Seq<ExprView> {
    Seq::new(v.len(), |i: int| v[i]@)
}

/// The view of a quotation is the quotation of its body's views.
pub proof fn lemma_quote_view(body: Vec<Expr>)
    ensures
        Expr::Quote(body)@ == ExprView::Quote(expr_views(body@)),
{
    assert(Expr::Quote(body)@->Quote_0 =~= expr_views(body@));
}

/// The parts of a text between its dots: one more than it has dots.
pub open spec fn split_dots(s: Seq<char>) -> Seq<Seq<char>>
    decreases s.len(),
{
    if s.len() == 0 {
        seq![Seq::empty()]
    } else {
        let before = split_dots(s.drop_last());
        if s.last() == '.' {
            before.push(Seq::empty())
        } else {
            before.drop_last().push(before.last().push(s.last()))
        }
    }
}

/// The term that a dotted name stands for: its last part is the name, the
/// parts before it are the modules.
pub open spec fn term_of(full_name: Seq<char>) -> ExprView {
    let parts = split_dots(full_name);
    ExprView::Term { name: parts.last(), module: parts.drop_last() }
}

impl Expr {
    /// The term that a dotted name such as `Core.List.push` stands for.
    pub fn term(full_name: &str) -> (r: Expr)
        ensures
            r@ == term_of(full_name@),
    {
        let input = chars_of(full_name);
        let mut module: Vec<String> = Vec::new();
        let mut name = String::new();
        let mut i: usize = 0;
        assert(input@.take(0) =~= Seq::<char>::empty());
        assert(string_views(module@).push(name@) =~= seq![Seq::<char>::empty()]);
        while i < input.len()
            invariant
                i <= input@.len(),
                string_views(module@).push(name@) == split_dots(input@.take(i as int)),
            decreases input@.len() - i,
        {
            let c = input[i];
            proof {
                let next = input@.take(i + 1);
                assert(next.drop_last() =~= input@.take(i as int));
                assert(next.last() == c);
                let before = string_views(module@).push(name@);
                assert(before.drop_last() =~= string_views(module@));
                assert(before.last() == name@);
            }
            if c == '.' {
                let ghost old_module = module@;
                module.push(name);
                name = String::new();
                proof {
                    assert(string_views(module@) =~= string_views(old_module).push(module@.last()@));
                }
            } else {
                push_char(&mut name, c);
            }
            i = i + 1;
        }
        proof {
            assert(input@.take(i as int) =~= input@);
            let parts = string_views(module@).push(name@);
            assert(parts.drop_last() =~= string_views(module@));
        }
        Expr::Term { name, module }
    }
}

/// The decimal digit that stands for a number below ten.
pub open spec fn digit_char(d: nat) -> char {
    if d == 0 {
        '0'
    } else if d == 1 {
        '1'
    } else if d == 2 {
        '2'
    } else if d == 3 {
        '3'
    } else if d == 4 {
        '4'
    } else if d == 5 {
        '5'
    } else if d == 6 {
        '6'
    } else if d == 7 {
        '7'
    } else if d == 8 {
        '8'
    } else {
        '9'
    }
}

/// The decimal text of a number, without leading zeros.
pub open spec fn decimal_text(n: nat) -> Seq<char>
    decreases n,
{
    if n < 10 {
        seq![digit_char(n)]
    } else {
        decimal_text(n / 10).push(digit_char(n % 10))
    }
}

fn digit_of(d: u64) -> (c: char)
    requires
        d < 10,
    ensures
        c == digit_char(d as nat),
{
    if d == 0 {
        '0'
    } else if d == 1 {
        '1'
    } else if d == 2 {
        '2'
    } else if d == 3 {
        '3'
    } else if d == 4 {
        '4'
    } else if d == 5 {
        '5'
    } else if d == 6 {
        '6'
    } else if d == 7 {
        '7'
    } else if d == 8 {
        '8'
    } else {
        '9'
    }
}

/// Writes the decimal text of `n` behind `out`.
pub fn push_decimal(out: &mut String, n: u64)
    ensures
        final(out)@ == old(out)@ + decimal_text(n as nat),
    decreases n,
{
    if n >= 10 {
        push_decimal(out, n / 10);
    }
    push_char(out, digit_of(n % 10));
    proof {
        if n >= 10 {
            assert(final(out)@ =~= old(out)@ + decimal_text(n as nat));
        } else {
            assert(final(out)@ =~= old(out)@ + decimal_text(n as nat));
        }
    }
}

/// A text behind which stands the decimal text of a number.
pub fn numbered(prefix: &str, n: usize) -> (r: String)
    ensures
        r@ == prefix@ + decimal_text(n as nat),
{
    let mut out = String::from_str(prefix);
    push_decimal(&mut out, n as u64);
    out
}


/// Whether the token at position `i` is `t`.
pub open spec fn tok(s: Seq<TokenView>, i: int, t: TokenView) -> bool {
    0 <= i < s.len() && s[i] == t
}

/// A term name at `i`.
pub open spec fn lower_name_at(s: Seq<TokenView>, i: int) -> Option<(Seq<char>, int)> {
    if 0 <= i < s.len() && s[i] is Term {
        Some((s[i]->Term_0, i + 1))
    } else {
        None
    }
}

/// A module or type name at `i`.
pub open spec fn upper_name_at(s: Seq<TokenView>, i: int) -> Option<(Seq<char>, int)> {
    if 0 <= i < s.len() && s[i] is Module {
        Some((s[i]->Module_0, i + 1))
    } else {
        None
    }
}

/// A name of either kind at `i`.
pub open spec fn lower_or_upper_name_at(s: Seq<TokenView>, i: int) -> Option<(Seq<char>, int)> {
    match upper_name_at(s, i) {
        Some(found) => Some(found),
        None => lower_name_at(s, i),
    }
}

/// The modules that qualify a term at `i`: as many `Module .` pairs as
/// stand there.
pub open spec fn module_path_at(s: Seq<TokenView>, i: int) -> (Seq<Seq<char>>, int)
    decreases s.len() - i,
{
    if 0 <= i && i + 1 < s.len() && s[i] is Module && s[i + 1] == TokenView::Dot {
        let (rest, end) = module_path_at(s, i + 2);
        (seq![s[i]->Module_0] + rest, end)
    } else {
        (Seq::empty(), i)
    }
}

/// A term at `i`: modules, each followed by a dot, and a term name.
pub open spec fn term_at(s: Seq<TokenView>, i: int) -> Option<(ExprView, int)> {
    let (module, at_name) = module_path_at(s, i);
    match lower_name_at(s, at_name) {
        Some((name, end)) => Some((ExprView::Term { name, module }, end)),
        None => None,
    }
}

/// One or more term names at `i`, separated by commas.
pub open spec fn names_at(s: Seq<TokenView>, i: int) -> Option<(Seq<Seq<char>>, int)>
    decreases s.len() - i,
{
    match lower_name_at(s, i) {
        Some((name, end)) => if tok(s, end, TokenView::Comma) {
            match names_at(s, end + 1) {
                Some((rest, rest_end)) => Some((seq![name] + rest, rest_end)),
                None => Some((seq![name], end)),
            }
        } else {
            Some((seq![name], end))
        },
        None => None,
    }
}

/// A binding form at `i`: `->` and the names it binds.
pub open spec fn local_at(s: Seq<TokenView>, i: int) -> Option<(ExprView, int)> {
    if tok(s, i, TokenView::Arrow) {
        match names_at(s, i + 1) {
            Some((names, end)) => Some((ExprView::Local(names), end)),
            None => None,
        }
    } else {
        None
    }
}

/// A literal at `i`.
pub open spec fn literal_at(s: Seq<TokenView>, i: int) -> Option<(ExprView, int)> {
    if 0 <= i < s.len() && s[i] is Literal {
        Some((ExprView::Literal(s[i]->Literal_0), i + 1))
    } else {
        None
    }
}

/// A lambda at `i`: `\` and a literal or a term, which it quotes.
pub open spec fn lambda_at(s: Seq<TokenView>, i: int) -> Option<(ExprView, int)> {
    if tok(s, i, TokenView::Lambda) {
        if let Some((quoted, end)) = literal_at(s, i + 1) {
            Some((ExprView::Quote(seq![quoted]), end))
        } else if let Some((quoted, end)) = term_at(s, i + 1) {
            Some((ExprView::Quote(seq![quoted]), end))
        } else {
            None
        }
    } else {
        None
    }
}

/// The elements of a sequence of expression sequences, one after the other.
pub open spec fn joined(items: Seq<Seq<ExprView>>) -> Seq<ExprView>
    decreases items.len(),
{
    if items.len() == 0 {
        Seq::empty()
    } else {
        joined(items.drop_last()) + items.last()
    }
}

/// The items of a list literal: its elements, but none at all where its
/// brackets hold nothing.
pub open spec fn list_items(elements: Seq<Seq<ExprView>>) -> Seq<Seq<ExprView>> {
    if elements.len() == 1 && elements[0].len() == 0 {
        Seq::empty()
    } else {
        elements
    }
}

/// The pairs of a table literal: those written, but none at all where its
/// brackets hold a colon and nothing else.
pub open spec fn table_items(pairs: Seq<(Seq<ExprView>, Seq<ExprView>)>) -> Seq<
    (Seq<ExprView>, Seq<ExprView>),
> {
    if pairs.len() == 1 && pairs[0].0.len() == 0 && pairs[0].1.len() == 0 {
        Seq::empty()
    } else {
        pairs
    }
}

/// What a tuple of `items` stands for: the items, then `Core.TupleN`.
pub open spec fn tuple_terms(items: Seq<Seq<ExprView>>) -> Seq<ExprView> {
    joined(items).push(term_of("Core.Tuple"@ + decimal_text(items.len())))
}

/// What a list of `items` stands for: `Core.List.empty`, then each item
/// followed by `Core.List.push`.
pub open spec fn list_terms(items: Seq<Seq<ExprView>>) -> Seq<ExprView>
    decreases items.len(),
{
    if items.len() == 0 {
        seq![term_of("Core.List.empty"@)]
    } else {
        (list_terms(items.drop_last()) + items.last()).push(term_of("Core.List.push"@))
    }
}

/// What a table of `pairs` stands for: `Core.Table.empty`, then each key
/// and value followed by `Core.Table.set`.
pub open spec fn table_terms(pairs: Seq<(Seq<ExprView>, Seq<ExprView>)>) -> Seq<ExprView>
    decreases pairs.len(),
{
    if pairs.len() == 0 {
        seq![term_of("Core.Table.empty"@)]
    } else {
        (table_terms(pairs.drop_last()) + pairs.last().0 + pairs.last().1).push(
            term_of("Core.Table.set"@),
        )
    }
}

/// What a conditional stands for: both branches quoted, then `Core.??`.
pub open spec fn then_else_terms(yes: Seq<ExprView>, no: Seq<ExprView>) -> Seq<ExprView> {
    seq![ExprView::Quote(yes), ExprView::Quote(no), term_of("Core.??"@)]
}

/// A block at `i`: `{`, expressions, `}`. Gives the expressions.
pub open spec fn block_at(s: Seq<TokenView>, i: int) -> Option<(Seq<ExprView>, int)>
    decreases s.len() - i, 0int,
{
    if tok(s, i, TokenView::LBrace) {
        let (body, end) = exprs_at(s, i + 1);
        if tok(s, end, TokenView::RBrace) {
            Some((body, end + 1))
        } else {
            None
        }
    } else {
        None
    }
}

/// A tuple at `i`: `(`, at most nine elements separated by commas, `)`.
pub open spec fn tuple_at(s: Seq<TokenView>, i: int) -> Option<(Seq<ExprView>, int)>
    decreases s.len() - i, 0int,
{
    if tok(s, i, TokenView::LParen) {
        let (items, end) = elements_at(s, i + 1);
        if items.len() <= 9 && tok(s, end, TokenView::RParen) {
            Some((tuple_terms(items), end + 1))
        } else {
            None
        }
    } else {
        None
    }
}

/// A list at `i`: `[`, elements separated by commas, `]`. `[]` is the
/// empty list.
pub open spec fn list_at(s: Seq<TokenView>, i: int) -> Option<(Seq<ExprView>, int)>
    decreases s.len() - i, 0int,
{
    if tok(s, i, TokenView::LBracket) {
        let (items, end) = elements_at(s, i + 1);
        if tok(s, end, TokenView::RBracket) {
            Some((list_terms(list_items(items)), end + 1))
        } else {
            None
        }
    } else {
        None
    }
}

/// A table at `i`: `[`, `key : value` pairs separated by commas, `]`.
/// `[:]` is the empty table.
pub open spec fn table_at(s: Seq<TokenView>, i: int) -> Option<(Seq<ExprView>, int)>
    decreases s.len() - i, 0int,
{
    if tok(s, i, TokenView::LBracket) {
        let (pairs, end) = pairs_at(s, i + 1);
        if tok(s, end, TokenView::RBracket) {
            Some((table_terms(table_items(pairs)), end + 1))
        } else {
            None
        }
    } else {
        None
    }
}

/// A conditional at `i`: `then`, a block, `else`, a block.
pub open spec fn then_else_at(s: Seq<TokenView>, i: int) -> Option<(Seq<ExprView>, int)>
    decreases s.len() - i, 0int,
{
    if tok(s, i, TokenView::Then) {
        match block_at(s, i + 1) {
            Some((yes, at_else)) => if i < at_else && tok(s, at_else, TokenView::Else) {
                match block_at(s, at_else + 1) {
                    Some((no, end)) => Some((then_else_terms(yes, no), end)),
                    None => None,
                }
            } else {
                None
            },
            None => None,
        }
    } else {
        None
    }
}

/// One expression at `i`, as the term sequence it stands for: a literal, a
/// term, a binding, a quotation, a lambda, a tuple, a list, a table or a
/// conditional, whichever matches first.
pub open spec fn expr_at(s: Seq<TokenView>, i: int) -> Option<(Seq<ExprView>, int)>
    decreases s.len() - i, 1int,
{
    if let Some((e, end)) = literal_at(s, i) {
        Some((seq![e], end))
    } else if let Some((e, end)) = term_at(s, i) {
        Some((seq![e], end))
    } else if let Some((e, end)) = local_at(s, i) {
        Some((seq![e], end))
    } else if let Some((body, end)) = block_at(s, i) {
        Some((seq![ExprView::Quote(body)], end))
    } else if let Some((e, end)) = lambda_at(s, i) {
        Some((seq![e], end))
    } else if let Some(found) = tuple_at(s, i) {
        Some(found)
    } else if let Some(found) = list_at(s, i) {
        Some(found)
    } else if let Some(found) = table_at(s, i) {
        Some(found)
    } else {
        then_else_at(s, i)
    }
}

/// As many expressions as stand at `i`, as one term sequence.
pub open spec fn exprs_at(s: Seq<TokenView>, i: int) -> (Seq<ExprView>, int)
    decreases s.len() - i, 2int,
{
    match expr_at(s, i) {
        Some((first, next)) => if i < next <= s.len() {
            let (rest, end) = exprs_at(s, next);
            (first + rest, end)
        } else {
            (Seq::empty(), i)
        },
        None => (Seq::empty(), i),
    }
}

/// The elements at `i`: expression sequences separated by commas. There is
/// always one more element than there are commas.
pub open spec fn elements_at(s: Seq<TokenView>, i: int) -> (Seq<Seq<ExprView>>, int)
    decreases s.len() - i, 3int,
{
    let (first, next) = exprs_at(s, i);
    if i <= next && tok(s, next, TokenView::Comma) {
        let (rest, end) = elements_at(s, next + 1);
        (seq![first] + rest, end)
    } else {
        (seq![first], next)
    }
}

/// A `key : value` pair at `i`.
pub open spec fn pair_at(s: Seq<TokenView>, i: int) -> Option<
    ((Seq<ExprView>, Seq<ExprView>), int),
>
    decreases s.len() - i, 3int,
{
    let (key, colon) = exprs_at(s, i);
    if i <= colon && tok(s, colon, TokenView::Colon) {
        let (value, end) = exprs_at(s, colon + 1);
        Some(((key, value), end))
    } else {
        None
    }
}

/// The pairs at `i`, separated by commas. A comma that no pair follows is
/// not taken.
pub open spec fn pairs_at(s: Seq<TokenView>, i: int) -> (
    Seq<(Seq<ExprView>, Seq<ExprView>)>,
    int,
)
    decreases s.len() - i, 4int,
{
    match pair_at(s, i) {
        Some((first, next)) => if i <= next && tok(s, next, TokenView::Comma) {
            let (rest, end) = pairs_at(s, next + 1);
            if rest.len() > 0 {
                (seq![first] + rest, end)
            } else {
                (seq![first], next)
            }
        } else {
            (seq![first], next)
        },
        None => (Seq::empty(), i),
    }
}


/// An executable parse of a name agrees with a specified one.
pub open spec fn parsed_name(r: Option<(String, usize)>, spec: Option<(Seq<char>, int)>) -> bool {
    match (r, spec) {
        (Some((name, end)), Some((spec_name, spec_end))) => name@ == spec_name && end == spec_end,
        (None, None) => true,
        _ => false,
    }
}

/// An executable parse of one expression agrees with a specified one.
pub open spec fn parsed_one(r: Option<(Expr, usize)>, spec: Option<(ExprView, int)>) -> bool {
    match (r, spec) {
        (Some((e, end)), Some((spec_e, spec_end))) => e@ == spec_e && end == spec_end,
        (None, None) => true,
        _ => false,
    }
}

/// An executable parse of a term sequence agrees with a specified one.
pub open spec fn parsed(r: Option<(Vec<Expr>, usize)>, spec: Option<(Seq<ExprView>, int)>) -> bool {
    match (r, spec) {
        (Some((es, end)), Some((spec_es, spec_end))) => expr_views(es@) == spec_es && end
            == spec_end,
        (None, None) => true,
        _ => false,
    }
}

/// Whether the token at `pos` is `token`.
pub fn holds(input: &[Token], pos: usize, token: &Token) -> (r: bool)
    ensures
        r == tok(token_views(input@), pos as int, token@),
        r ==> pos < input@.len() && pos < usize::MAX,
{
    pos < input.len() && input[pos].same(token)
}

/// Takes the token at `pos` if it is `token`.
pub fn keyword(input: &[Token], pos: usize, token: &Token) -> (r: Option<(Token, usize)>)
    ensures
        match r {
            Some((t, end)) => tok(token_views(input@), pos as int, token@) && t@ == token@ && end
                == pos + 1,
            None => !tok(token_views(input@), pos as int, token@),
        },
{
    if holds(input, pos, token) {
        Some((input[pos].clone(), pos + 1))
    } else {
        None
    }
}

/// Parses a term name at `pos`.
pub fn lower_name(input: &[Token], pos: usize) -> (r: Option<(String, usize)>)
    ensures
        parsed_name(r, lower_name_at(token_views(input@), pos as int)),
        r matches Some((_, end)) ==> end == pos + 1 && end <= input@.len(),
{
    if pos < input.len() {
        match &input[pos] {
            Token::Term(name) => Some((name.clone(), pos + 1)),
            _ => None,
        }
    } else {
        None
    }
}

/// Parses a module or type name at `pos`.
pub fn upper_name(input: &[Token], pos: usize) -> (r: Option<(String, usize)>)
    ensures
        parsed_name(r, upper_name_at(token_views(input@), pos as int)),
        r matches Some((_, end)) ==> end == pos + 1 && end <= input@.len(),
{
    if pos < input.len() {
        match &input[pos] {
            Token::Module(name) => Some((name.clone(), pos + 1)),
            _ => None,
        }
    } else {
        None
    }
}

/// Parses a name of either kind at `pos`.
pub fn lower_or_upper_name(input: &[Token], pos: usize) -> (r: Option<(String, usize)>)
    ensures
        parsed_name(r, lower_or_upper_name_at(token_views(input@), pos as int)),
        r matches Some((_, end)) ==> end == pos + 1 && end <= input@.len(),
{
    match upper_name(input, pos) {
        Some(found) => Some(found),
        None => lower_name(input, pos),
    }
}

/// Parses the name of a term at `pos`.
pub fn term_name(input: &[Token], pos: usize) -> (r: Option<(String, usize)>)
    ensures
        parsed_name(r, lower_name_at(token_views(input@), pos as int)),
        r matches Some((_, end)) ==> end == pos + 1 && end <= input@.len(),
{
    lower_name(input, pos)
}

/// Parses the name of a module at `pos`.
pub fn module_name(input: &[Token], pos: usize) -> (r: Option<(String, usize)>)
    ensures
        parsed_name(r, upper_name_at(token_views(input@), pos as int)),
        r matches Some((_, end)) ==> end == pos + 1 && end <= input@.len(),
{
    upper_name(input, pos)
}

/// Parses the name of a type at `pos`.
pub fn type_title(input: &[Token], pos: usize) -> (r: Option<(String, usize)>)
    ensures
        parsed_name(r, upper_name_at(token_views(input@), pos as int)),
        r matches Some((_, end)) ==> end == pos + 1 && end <= input@.len(),
{
    upper_name(input, pos)
}

/// Parses the name of a type variable at `pos`.
pub fn type_var(input: &[Token], pos: usize) -> (r: Option<(String, usize)>)
    ensures
        parsed_name(r, lower_name_at(token_views(input@), pos as int)),
        r matches Some((_, end)) ==> end == pos + 1 && end <= input@.len(),
{
    lower_name(input, pos)
}

/// Parses a term at `pos`.
pub fn term(input: &[Token], pos: usize) -> (r: Option<(Expr, usize)>)
    requires
        pos <= input@.len(),
    ensures
        parsed_one(r, term_at(token_views(input@), pos as int)),
        r matches Some((_, end)) ==> pos < end <= input@.len(),
{
    let ghost s = token_views(input@);
    let mut module: Vec<String> = Vec::new();
    let mut at: usize = pos;
    assert(string_views(module@) =~= Seq::<Seq<char>>::empty());
    assert(Seq::<Seq<char>>::empty() + module_path_at(s, pos as int).0 =~= module_path_at(
        s,
        pos as int,
    ).0);
    loop
        invariant
            s == token_views(input@),
            pos <= at <= input@.len(),
            module_path_at(s, pos as int).0 == string_views(module@) + module_path_at(
                s,
                at as int,
            ).0,
            module_path_at(s, pos as int).1 == module_path_at(s, at as int).1,
        ensures
            pos <= at <= input@.len(),
            module_path_at(s, pos as int) == (string_views(module@), at as int),
        decreases input@.len() - at,
    {
        if input.len() - at < 2 {
            assert(string_views(module@) + Seq::<Seq<char>>::empty() =~= string_views(module@));
            break;
        }
        let name = match &input[at] {
            Token::Module(name) => name,
            _ => {
                assert(string_views(module@) + Seq::<Seq<char>>::empty() =~= string_views(
                    module@,
                ));
                break;
            },
        };
        if !holds(input, at + 1, &Token::Dot) {
            assert(string_views(module@) + Seq::<Seq<char>>::empty() =~= string_views(module@));
            break;
        }
        proof {
            let rest = module_path_at(s, at + 2).0;
            assert(string_views(module@.push(*name)) =~= string_views(module@).push(name@));
            assert(string_views(module@) + (seq![name@] + rest) =~= string_views(module@).push(
                name@,
            ) + rest);
        }
        module.push(name.clone());
        at = at + 2;
    }
    match lower_name(input, at) {
        Some((name, end)) => Some((Expr::Term { name, module }, end)),
        None => None,
    }
}

/// One or more term names at `pos`, separated by commas.
fn names(input: &[Token], pos: usize) -> (r: Option<(Vec<String>, usize)>)
    requires
        pos <= input@.len(),
    ensures
        match (r, names_at(token_views(input@), pos as int)) {
            (Some((found, end)), Some((spec_found, spec_end))) => string_views(found@)
                == spec_found && end == spec_end,
            (None, None) => true,
            _ => false,
        },
        r matches Some((_, end)) ==> pos < end <= input@.len(),
{
    let ghost s = token_views(input@);
    let (first, first_end) = match lower_name(input, pos) {
        Some(found) => found,
        None => { return None; },
    };
    let mut found: Vec<String> = Vec::new();
    found.push(first);
    let mut end: usize = first_end;
    assert(string_views(found@) =~= seq![found@[0]@]);
    assert(string_views(found@).drop_last() =~= Seq::<Seq<char>>::empty());
    assert(Seq::<Seq<char>>::empty() + names_at(s, pos as int).unwrap().0 =~= names_at(
        s,
        pos as int,
    ).unwrap().0);
    loop
        invariant
            s == token_views(input@),
            pos < end <= input@.len(),
            found@.len() > 0,
            lower_name_at(s, end - 1) == Some((found@.last()@, end as int)),
            names_at(s, pos as int) is Some,
            names_at(s, end - 1) is Some,
            names_at(s, pos as int).unwrap().0 == string_views(found@).drop_last() + names_at(
                s,
                end - 1,
            ).unwrap().0,
            names_at(s, pos as int).unwrap().1 == names_at(s, end - 1).unwrap().1,
        ensures
            pos < end <= input@.len(),
            names_at(s, pos as int) == Some((string_views(found@), end as int)),
        decreases input@.len() - end,
    {
        let ghost all = string_views(found@);
        if !holds(input, end, &Token::Comma) {
            assert(all.drop_last() + seq![all.last()] =~= all);
            break;
        }
        match lower_name(input, end + 1) {
            Some((name, next)) => {
                proof {
                    let after = string_views(found@.push(name));
                    assert(after.drop_last() =~= all);
                    assert(after.last() == name@);
                    let rest = names_at(s, end + 1).unwrap().0;
                    assert(all.drop_last() + (seq![all.last()] + rest) =~= all + rest);
                }
                found.push(name);
                end = next;
            },
            None => {
                assert(all.drop_last() + seq![all.last()] =~= all);
                break;
            },
        }
    }
    Some((found, end))
}

/// Parses a binding form at `pos`.
pub fn local(input: &[Token], pos: usize) -> (r: Option<(Expr, usize)>)
    requires
        pos <= input@.len(),
    ensures
        parsed_one(r, local_at(token_views(input@), pos as int)),
        r matches Some((_, end)) ==> pos < end <= input@.len(),
{
    if holds(input, pos, &Token::Arrow) {
        match names(input, pos + 1) {
            Some((found, end)) => Some((Expr::Local(found), end)),
            None => None,
        }
    } else {
        None
    }
}

/// Parses a literal at `pos`.
pub fn literal(input: &[Token], pos: usize) -> (r: Option<(Expr, usize)>)
    ensures
        parsed_one(r, literal_at(token_views(input@), pos as int)),
        r matches Some((_, end)) ==> pos < end <= input@.len(),
{
    if pos < input.len() {
        match &input[pos] {
            Token::Literal(l) => Some((Expr::Literal(l.clone()), pos + 1)),
            _ => None,
        }
    } else {
        None
    }
}

/// The sequence of one expression.
pub fn vec(expr: Expr) -> (r: ExprList)
    ensures
        expr_views(r@) == seq![expr@],
{
    let mut out: Vec<Expr> = Vec::new();
    out.push(expr);
    assert(expr_views(out@) =~= seq![expr@]);
    out
}

/// Parses a lambda at `pos`.
pub fn lambda(input: &[Token], pos: usize) -> (r: Option<(Expr, usize)>)
    requires
        pos <= input@.len(),
    ensures
        parsed_one(r, lambda_at(token_views(input@), pos as int)),
        r matches Some((_, end)) ==> pos < end <= input@.len(),
{
    if !holds(input, pos, &Token::Lambda) {
        return None;
    }
    let (quoted, end) = match literal(input, pos + 1) {
        Some(found) => found,
        None => match term(input, pos + 1) {
            Some(found) => found,
            None => { return None; },
        },
    };
    let body = vec(quoted);
    proof {
        lemma_quote_view(body);
    }
    Some((Expr::Quote(body), end))
}


/// The views of two sequences put together are the views put together.
pub proof fn lemma_expr_views_add(a: Seq<Expr>, b: Seq<Expr>)
    ensures
        expr_views(a + b) == expr_views(a) + expr_views(b),
{
    assert(expr_views(a + b) =~= expr_views(a) + expr_views(b));
}

/// The views of a sequence with one more expression.
pub proof fn lemma_expr_views_push(a: Seq<Expr>, e: Expr)
    ensures
        expr_views(a.push(e)) == expr_views(a).push(e@),
{
    assert(expr_views(a.push(e)) =~= expr_views(a).push(e@));
}

/// Parses a block at `pos` and gives the expressions between its braces.
pub fn block(input: &[Token], pos: usize) -> (r: Option<(ExprList, usize)>)
    requires
        pos <= input@.len(),
    ensures
        parsed(r, block_at(token_views(input@), pos as int)),
        r matches Some((_, end)) ==> pos < end <= input@.len(),
    decreases input@.len() - pos, 0int,
{
    if !holds(input, pos, &Token::LBrace) {
        return None;
    }
    let (body, end) = exprs(input, pos + 1);
    if holds(input, end, &Token::RBrace) {
        Some((body, end + 1))
    } else {
        None
    }
}

/// Parses a tuple at `pos` and gives the terms it stands for.
pub fn tuple(input: &[Token], pos: usize) -> (r: Option<(ExprList, usize)>)
    requires
        pos <= input@.len(),
    ensures
        parsed(r, tuple_at(token_views(input@), pos as int)),
        r matches Some((_, end)) ==> pos < end <= input@.len(),
    decreases input@.len() - pos, 0int,
{
    if !holds(input, pos, &Token::LParen) {
        return None;
    }
    let ghost s = token_views(input@);
    let ghost mut done: Seq<Seq<ExprView>> = Seq::empty();
    let mut out: Vec<Expr> = Vec::new();
    let mut count: usize = 0;
    let mut at: usize = pos + 1;
    let mut end: usize = at;
    proof {
        assert(expr_views(out@) =~= joined(done));
        assert(done + elements_at(s, at as int).0 =~= elements_at(s, at as int).0);
    }
    loop
        invariant_except_break
            elements_at(s, pos + 1).0 == done + elements_at(s, at as int).0,
            elements_at(s, pos + 1).1 == elements_at(s, at as int).1,
            count <= at - pos - 1,
        invariant
            s == token_views(input@),
            pos < at <= input@.len(),
            count == done.len(),
            expr_views(out@) == joined(done),
        ensures
            pos < end <= input@.len(),
            count == done.len(),
            expr_views(out@) == joined(done),
            elements_at(s, pos + 1) == (done, end as int),
        decreases input@.len() - at,
    {
        let (mut item, next) = exprs(input, at);
        proof {
            let before = done;
            done = done.push(expr_views(item@));
            assert(done.drop_last() =~= before);
            lemma_expr_views_add(out@, item@);
            let rest = elements_at(s, next + 1).0;
            assert(before + (seq![expr_views(item@)] + rest) =~= done + rest);
            assert(before + seq![expr_views(item@)] =~= done);
        }
        out.append(&mut item);
        count = count + 1;
        if holds(input, next, &Token::Comma) {
            at = next + 1;
        } else {
            end = next;
            break;
        }
    }
    if count <= 9 && holds(input, end, &Token::RParen) {
        let name = numbered("Core.Tuple", count);
        let last = Expr::term(name.as_str());
        proof {
            lemma_expr_views_push(out@, last);
        }
        out.push(last);
        Some((out, end + 1))
    } else {
        None
    }
}

/// Parses a list at `pos` and gives the terms it stands for.
pub fn list(input: &[Token], pos: usize) -> (r: Option<(ExprList, usize)>)
    requires
        pos <= input@.len(),
    ensures
        parsed(r, list_at(token_views(input@), pos as int)),
        r matches Some((_, end)) ==> pos < end <= input@.len(),
    decreases input@.len() - pos, 0int,
{
    if !holds(input, pos, &Token::LBracket) {
        return None;
    }
    let ghost s = token_views(input@);
    let ghost mut done: Seq<Seq<ExprView>> = Seq::empty();
    let mut out: Vec<Expr> = vec(Expr::term("Core.List.empty"));
    let mut count: usize = 0;
    let mut at: usize = pos + 1;
    let mut end: usize = at;
    proof {
        assert(done + elements_at(s, at as int).0 =~= elements_at(s, at as int).0);
        assert(out@.len() == expr_views(out@).len());
    }
    loop
        invariant_except_break
            elements_at(s, pos + 1).0 == done + elements_at(s, at as int).0,
            elements_at(s, pos + 1).1 == elements_at(s, at as int).1,
            count <= at - pos - 1,
        invariant
            s == token_views(input@),
            pos < at <= input@.len(),
            count == done.len(),
            expr_views(out@) == list_terms(done),
            out@.len() >= 1 + count,
            done.len() == 1 ==> out@.len() == 2 + done[0].len(),
        ensures
            pos < end <= input@.len(),
            count == done.len(),
            expr_views(out@) == list_terms(done),
            done.len() == 1 ==> out@.len() == 2 + done[0].len(),
            done.len() > 1 ==> out@.len() > 2,
            done.len() > 0,
            elements_at(s, pos + 1) == (done, end as int),
        decreases input@.len() - at,
    {
        let (mut item, next) = exprs(input, at);
        proof {
            let before = done;
            done = done.push(expr_views(item@));
            assert(done.drop_last() =~= before);
            lemma_expr_views_add(out@, item@);
            let rest = elements_at(s, next + 1).0;
            assert(before + (seq![expr_views(item@)] + rest) =~= done + rest);
            assert(before + seq![expr_views(item@)] =~= done);
        }
        out.append(&mut item);
        let push = Expr::term("Core.List.push");
        proof {
            lemma_expr_views_push(out@, push);
        }
        out.push(push);
        count = count + 1;
        if holds(input, next, &Token::Comma) {
            at = next + 1;
        } else {
            end = next;
            break;
        }
    }
    if holds(input, end, &Token::RBracket) {
        if count == 1 && out.len() == 2 {
            assert(done[0].len() == 0);
            Some((vec(Expr::term("Core.List.empty")), end + 1))
        } else {
            Some((out, end + 1))
        }
    } else {
        None
    }
}

/// Parses a `key : value` pair at `pos`.
fn pair(input: &[Token], pos: usize) -> (r: Option<(ExprList, ExprList, usize)>)
    requires
        pos <= input@.len(),
    ensures
        match (r, pair_at(token_views(input@), pos as int)) {
            (Some((key, value, end)), Some((spec_pair, spec_end))) => expr_views(key@)
                == spec_pair.0 && expr_views(value@) == spec_pair.1 && end == spec_end,
            (None, None) => true,
            _ => false,
        },
        r matches Some((_, _, end)) ==> pos < end <= input@.len(),
    decreases input@.len() - pos, 3int,
{
    let (key, colon) = exprs(input, pos);
    if holds(input, colon, &Token::Colon) {
        let (value, end) = exprs(input, colon + 1);
        Some((key, value, end))
    } else {
        None
    }
}

/// Parses a table at `pos` and gives the terms it stands for.
pub fn table(input: &[Token], pos: usize) -> (r: Option<(ExprList, usize)>)
    requires
        pos <= input@.len(),
    ensures
        parsed(r, table_at(token_views(input@), pos as int)),
        r matches Some((_, end)) ==> pos < end <= input@.len(),
    decreases input@.len() - pos, 0int,
{
    if !holds(input, pos, &Token::LBracket) {
        return None;
    }
    let ghost s = token_views(input@);
    let ghost mut done: Seq<(Seq<ExprView>, Seq<ExprView>)> = Seq::empty();
    let mut out: Vec<Expr> = vec(Expr::term("Core.Table.empty"));
    let mut count: usize = 0;
    let mut at: usize = pos + 1;
    let mut end: usize = at;
    proof {
        assert(done + pairs_at(s, at as int).0 =~= pairs_at(s, at as int).0);
        assert(out@.len() == expr_views(out@).len());
    }
    loop
        invariant_except_break
            pairs_at(s, pos + 1).0 == done + pairs_at(s, at as int).0,
            pairs_at(s, pos + 1).1 == (if pairs_at(s, at as int).0.len() > 0 || done.len() == 0 {
                pairs_at(s, at as int).1
            } else {
                at - 1
            }),
            done.len() > 0 ==> pos + 1 < at,
            count <= at - pos - 1,
        invariant
            s == token_views(input@),
            pos < at <= input@.len(),
            count == done.len(),
            expr_views(out@) == table_terms(done),
            out@.len() >= 1 + count,
            done.len() == 1 ==> out@.len() == 2 + done[0].0.len() + done[0].1.len(),
        ensures
            pos < end <= input@.len(),
            count == done.len(),
            expr_views(out@) == table_terms(done),
            out@.len() >= 1 + count,
            done.len() == 1 ==> out@.len() == 2 + done[0].0.len() + done[0].1.len(),
            pairs_at(s, pos + 1) == (done, end as int),
        decreases input@.len() - at,
    {
        match pair(input, at) {
            Some((mut key, mut value, next)) => {
                proof {
                    let before = done;
                    let this = (expr_views(key@), expr_views(value@));
                    done = done.push(this);
                    assert(done.drop_last() =~= before);
                    lemma_expr_views_add(out@, key@);
                    lemma_expr_views_add(out@ + key@, value@);
                    let rest = pairs_at(s, next + 1).0;
                    assert(before + (seq![this] + rest) =~= done + rest);
                    assert(before + seq![this] =~= done);
                    assert(done + Seq::<(Seq<ExprView>, Seq<ExprView>)>::empty() =~= done);
                }
                out.append(&mut key);
                out.append(&mut value);
                let set = Expr::term("Core.Table.set");
                proof {
                    lemma_expr_views_push(out@, set);
                }
                out.push(set);
                count = count + 1;
                if holds(input, next, &Token::Comma) {
                    at = next + 1;
                } else {
                    end = next;
                    break;
                }
            },
            None => {
                proof {
                    assert(done + Seq::<(Seq<ExprView>, Seq<ExprView>)>::empty() =~= done);
                }
                end = if at == pos + 1 {
                    at
                } else {
                    at - 1
                };
                break;
            },
        }
    }
    if holds(input, end, &Token::RBracket) {
        if count == 1 && out.len() == 2 {
            Some((vec(Expr::term("Core.Table.empty")), end + 1))
        } else {
            Some((out, end + 1))
        }
    } else {
        None
    }
}

/// Parses a conditional at `pos` and gives the terms it stands for.
pub fn then_else(input: &[Token], pos: usize) -> (r: Option<(ExprList, usize)>)
    requires
        pos <= input@.len(),
    ensures
        parsed(r, then_else_at(token_views(input@), pos as int)),
        r matches Some((_, end)) ==> pos < end <= input@.len(),
    decreases input@.len() - pos, 0int,
{
    if !holds(input, pos, &Token::Then) {
        return None;
    }
    let (yes, at_else) = match block(input, pos + 1) {
        Some(found) => found,
        None => { return None; },
    };
    if !holds(input, at_else, &Token::Else) {
        return None;
    }
    let (no, end) = match block(input, at_else + 1) {
        Some(found) => found,
        None => { return None; },
    };
    proof {
        lemma_quote_view(yes);
        lemma_quote_view(no);
    }
    let mut out: Vec<Expr> = Vec::new();
    out.push(Expr::Quote(yes));
    out.push(Expr::Quote(no));
    out.push(Expr::term("Core.??"));
    assert(expr_views(out@) =~= then_else_terms(expr_views(yes@), expr_views(no@)));
    Some((out, end))
}

/// Parses one expression at `pos` and gives the terms it stands for.
pub fn expr(input: &[Token], pos: usize) -> (r: Option<(ExprList, usize)>)
    requires
        pos <= input@.len(),
    ensures
        parsed(r, expr_at(token_views(input@), pos as int)),
        r matches Some((_, end)) ==> pos < end <= input@.len(),
    decreases input@.len() - pos, 1int,
{
    if let Some((e, end)) = literal(input, pos) {
        return Some((vec(e), end));
    }
    if let Some((e, end)) = term(input, pos) {
        return Some((vec(e), end));
    }
    if let Some((e, end)) = local(input, pos) {
        return Some((vec(e), end));
    }
    if let Some((body, end)) = block(input, pos) {
        proof {
            lemma_quote_view(body);
        }
        return Some((vec(Expr::Quote(body)), end));
    }
    if let Some((e, end)) = lambda(input, pos) {
        return Some((vec(e), end));
    }
    if let Some(found) = tuple(input, pos) {
        return Some(found);
    }
    if let Some(found) = list(input, pos) {
        return Some(found);
    }
    if let Some(found) = table(input, pos) {
        return Some(found);
    }
    then_else(input, pos)
}

/// Parses as many expressions as stand at `pos` and gives their terms.
pub fn exprs(input: &[Token], pos: usize) -> (r: (ExprList, usize))
    requires
        pos <= input@.len(),
    ensures
        expr_views(r.0@) == exprs_at(token_views(input@), pos as int).0,
        r.1 == exprs_at(token_views(input@), pos as int).1,
        pos <= r.1 <= input@.len(),
    decreases input@.len() - pos, 2int,
{
    let ghost s = token_views(input@);
    let mut out: Vec<Expr> = Vec::new();
    let mut at: usize = pos;
    proof {
        assert(expr_views(out@) + exprs_at(s, pos as int).0 =~= exprs_at(s, pos as int).0);
    }
    loop
        invariant
            s == token_views(input@),
            pos <= at <= input@.len(),
            exprs_at(s, pos as int).0 == expr_views(out@) + exprs_at(s, at as int).0,
            exprs_at(s, pos as int).1 == exprs_at(s, at as int).1,
        ensures
            pos <= at <= input@.len(),
            exprs_at(s, pos as int) == (expr_views(out@), at as int),
        decreases input@.len() - at,
    {
        match expr(input, at) {
            Some((mut found, next)) => {
                proof {
                    lemma_expr_views_add(out@, found@);
                    let rest = exprs_at(s, next as int).0;
                    assert(expr_views(out@) + (expr_views(found@) + rest) =~= (expr_views(out@)
                        + expr_views(found@)) + rest);
                }
                out.append(&mut found);
                at = next;
            },
            None => {
                assert(expr_views(out@) + Seq::<ExprView>::empty() =~= expr_views(out@));
                break;
            },
        }
    }
    (out, at)
}


/// The name of a value's type, with the modules that qualify it.
#[derive(Debug, PartialEq, Clone)]
pub struct ValueType {
    pub name: String,
    pub module: Vec<String>,
}

/// The mathematical value of a [`ValueType`].
pub struct ValueTypeView {
    pub name: Seq<char>,
    pub module: Seq<Seq<char>>,
}

impl View for ValueType {
    type V = ValueTypeView;

    open spec fn view(&self) -> ValueTypeView {
        ValueTypeView { name: self.name@, module: string_views(self.module@) }
    }
}

/// The type of a parameter: that of a value, or that of a function.
#[derive(Debug, PartialEq)]
pub enum ParamType {
    Function(FunctionType),
    Value(ValueType),
}

/// What a function takes from the stack and what it leaves there.
#[derive(Debug, PartialEq)]
pub struct FunctionType {
    pub inputs: Vec<ParamType>,
    pub output: Vec<ParamType>,
}

/// The mathematical value of a [`ParamType`].
pub enum ParamTypeView {
    Function(FunctionTypeView),
    Value(ValueTypeView),
}

/// The mathematical value of a [`FunctionType`].
pub struct FunctionTypeView {
    pub inputs: Seq<ParamTypeView>,
    pub output: Seq<ParamTypeView>,
}

pub open spec fn param_view(p: ParamType) -> ParamTypeView
    decreases p,
{
    match p {
        ParamType::Function(f) => ParamTypeView::Function(function_type_view(f)),
        ParamType::Value(v) => ParamTypeView::Value(v@),
    }
}

pub open spec fn function_type_view(f: FunctionType) -> FunctionTypeView
    decreases f,
{
    FunctionTypeView {
        inputs: Seq::new(
            f.inputs@.len(),
            |i: int|
                if 0 <= i < f.inputs@.len() {
                    param_view(f.inputs@[i])
                } else {
                    ParamTypeView::Value(ValueTypeView { name: Seq::empty(), module: Seq::empty() })
                },
        ),
        output: Seq::new(
            f.output@.len(),
            |i: int|
                if 0 <= i < f.output@.len() {
                    param_view(f.output@[i])
                } else {
                    ParamTypeView::Value(ValueTypeView { name: Seq::empty(), module: Seq::empty() })
                },
        ),
    }
}

impl View for ParamType {
    type V = ParamTypeView;

    open spec fn view(&self) -> ParamTypeView {
        param_view(*self)
    }
}

impl View for FunctionType {
    type V = FunctionTypeView;

    open spec fn view(&self) -> FunctionTypeView {
        function_type_view(*self)
    }
}

/// The views of a sequence of parameter types, in order.
pub open spec fn param_views(v: Seq<ParamType>) -> Seq<ParamTypeView> {
    Seq::new(v.len(), |i: int| v[i]@)
}

/// The view of a function type is made of the views of its parameters.
pub proof fn lemma_function_type_view(f: FunctionType)
    ensures
        f@ == (FunctionTypeView { inputs: param_views(f.inputs@), output: param_views(f.output@) }),
{
    assert(f@.inputs =~= param_views(f.inputs@));
    assert(f@.output =~= param_views(f.output@));
}

/// A function definition: `def name type? = body`.
#[derive(Debug, PartialEq)]
pub struct FunctionDefinition {
    pub name: String,
    pub ftype: Option<FunctionType>,
    pub body: ExprList,
}

/// The mathematical value of a [`FunctionDefinition`].
pub struct FunctionDefinitionView {
    pub name: Seq<char>,
    pub ftype: Option<FunctionTypeView>,
    pub body: Seq<ExprView>,
}

impl View for FunctionDefinition {
    type V = FunctionDefinitionView;

    open spec fn view(&self) -> FunctionDefinitionView {
        FunctionDefinitionView {
            name: self.name@,
            ftype: match self.ftype {
                Some(f) => Some(f@),
                None => None,
            },
            body: expr_views(self.body@),
        }
    }
}

/// A variant of a type: its name and its fields, each a name and the name
/// of its type, in the order in which they were written. Where a name
/// occurs twice the later entry counts.
#[derive(Debug, PartialEq, Clone)]
pub struct VariantDefinition {
    pub name: String,
    pub items: Vec<(String, String)>,
}

/// The mathematical value of a [`VariantDefinition`]: its fields as a map.
pub struct VariantDefinitionView {
    pub name: Seq<char>,
    pub items: Map<Seq<char>, Seq<char>>,
}

/// The views of a sequence of fields, in order.
pub open spec fn field_views(v: Seq<(String, String)>) -> Seq<(Seq<char>, Seq<char>)> {
    Seq::new(v.len(), |i: int| (v[i].0@, v[i].1@))
}

/// The map that a sequence of fields stands for: later entries overwrite
/// earlier ones.
pub open spec fn fields_map(fields: Seq<(Seq<char>, Seq<char>)>) -> Map<Seq<char>, Seq<char>>
    decreases fields.len(),
{
    if fields.len() == 0 {
        Map::empty()
    } else {
        fields_map(fields.drop_last()).insert(fields.last().0, fields.last().1)
    }
}

/// The fields of a tuple variant: the k-th is named `_k`.
pub open spec fn numbered_fields(types: Seq<Seq<char>>) -> Seq<(Seq<char>, Seq<char>)> {
    Seq::new(types.len(), |k: int| ("_"@ + decimal_text(k as nat), types[k]))
}

impl View for VariantDefinition {
    type V = VariantDefinitionView;

    open spec fn view(&self) -> VariantDefinitionView {
        VariantDefinitionView { name: self.name@, items: fields_map(field_views(self.items@)) }
    }
}

impl VariantDefinition {
    /// The type of the field `key`, if the variant has such a field.
    pub fn get(&self, key: &str) -> (r: Option<&String>)
        ensures
            match r {
                Some(t) => self@.items.contains_key(key@) && self@.items[key@] == t@,
                None => !self@.items.contains_key(key@),
            },
    {
        let ghost all = field_views(self.items@);
        let wanted = String::from_str(key);
        let mut i: usize = self.items.len();
        assert(all.take(i as int) =~= all);
        while i > 0
            invariant
                i <= self.items@.len(),
                wanted@ == key@,
                all == field_views(self.items@),
                fields_map(all).contains_key(key@) == fields_map(all.take(i as int)).contains_key(
                    key@,
                ),
                fields_map(all).contains_key(key@) ==> fields_map(all)[key@] == fields_map(
                    all.take(i as int),
                )[key@],
            decreases i,
        {
            proof {
                assert(all.take(i as int).drop_last() =~= all.take(i - 1));
                assert(all.take(i as int).last() == all[i - 1]);
            }
            i = i - 1;
            if self.items[i].0 == wanted {
                return Some(&self.items[i].1);
            }
        }
        None
    }
}

/// A type definition: `type Name vars = Variant | Variant ..`.
#[derive(Debug, PartialEq, Clone)]
pub struct TypeDefinition {
    pub name: String,
    pub vars: Vec<String>,
    pub variants: Vec<VariantDefinition>,
}

/// The mathematical value of a [`TypeDefinition`].
pub struct TypeDefinitionView {
    pub name: Seq<char>,
    pub vars: Seq<Seq<char>>,
    pub variants: Seq<VariantDefinitionView>,
}

/// The views of a sequence of variants, in order.
pub open spec fn variant_views(v: Seq<VariantDefinition>) -> Seq<VariantDefinitionView> {
    Seq::new(v.len(), |i: int| v[i]@)
}

impl View for TypeDefinition {
    type V = TypeDefinitionView;

    open spec fn view(&self) -> TypeDefinitionView {
        TypeDefinitionView {
            name: self.name@,
            vars: string_views(self.vars@),
            variants: variant_views(self.variants@),
        }
    }
}

/// A definition of a program.
#[derive(Debug, PartialEq)]
pub enum Definition {
    Function(FunctionDefinition),
    Type(TypeDefinition),
}

/// The mathematical value of a [`Definition`].
pub enum DefinitionView {
    Function(FunctionDefinitionView),
    Type(TypeDefinitionView),
}

impl View for Definition {
    type V = DefinitionView;

    open spec fn view(&self) -> DefinitionView {
        match self {
            Definition::Function(f) => DefinitionView::Function(f@),
            Definition::Type(t) => DefinitionView::Type(t@),
        }
    }
}

/// The views of a sequence of definitions, in order.
pub open spec fn definition_views(v: Seq<Definition>) -> Seq<DefinitionView> {
    Seq::new(v.len(), |i: int| v[i]@)
}

/// A program: its definitions in source order.
#[derive(Debug, PartialEq)]
pub struct Ast {
    pub defs: Vec<Definition>,
}

/// The mathematical value of an [`Ast`].
pub struct AstView {
    pub defs: Seq<DefinitionView>,
}

impl View for Ast {
    type V = AstView;

    open spec fn view(&self) -> AstView {
        AstView { defs: definition_views(self.defs@) }
    }
}

/// What the parser was looking for where it gave up.
#[derive(Clone, Copy, Debug, PartialEq, Eq, Structural)]
pub enum Expected {
    /// The rest of a function definition: the token there is `def`, but no
    /// function definition starts with it.
    FunctionDefinition,
    /// The rest of a type definition: the token there is `type`, but no
    /// type definition starts with it.
    TypeDefinition,
    /// A definition, an expression that continues the body before it, or
    /// the end of the input.
    Definition,
}

/// A failure of the parser: the position of the first token that it could
/// not take, and what was expected there.
#[derive(Clone, Copy, Debug, PartialEq, Eq, Structural)]
pub struct ParseError {
    pub span: Span,
    pub expected: Expected,
}


/// One or more module names at `i`, separated by dots. A dot that no name
/// follows is not taken.
pub open spec fn type_path_at(s: Seq<TokenView>, i: int) -> Option<(Seq<Seq<char>>, int)>
    decreases s.len() - i,
{
    match upper_name_at(s, i) {
        Some((name, end)) => if tok(s, end, TokenView::Dot) {
            match type_path_at(s, end + 1) {
                Some((rest, rest_end)) => Some((seq![name] + rest, rest_end)),
                None => Some((seq![name], end)),
            }
        } else {
            Some((seq![name], end))
        },
        None => None,
    }
}

/// The type of a value at `i`: module names separated by dots; the last
/// one names the type.
pub open spec fn value_type_at(s: Seq<TokenView>, i: int) -> Option<(ValueTypeView, int)> {
    match type_path_at(s, i) {
        Some((path, end)) => Some(
            (ValueTypeView { name: path.last(), module: path.drop_last() }, end),
        ),
        None => None,
    }
}

/// The type of a function at `i`: `(`, the parameters it takes, optionally
/// `->` and the parameters it leaves, `)`.
pub open spec fn function_type_at(s: Seq<TokenView>, i: int) -> Option<(FunctionTypeView, int)>
    decreases s.len() - i, 0int,
{
    if tok(s, i, TokenView::LParen) {
        let (inputs, arrow) = params_at(s, i + 1);
        if i < arrow && tok(s, arrow, TokenView::Arrow) {
            let (output, end) = params_at(s, arrow + 1);
            if tok(s, end, TokenView::RParen) {
                Some((FunctionTypeView { inputs, output }, end + 1))
            } else {
                None
            }
        } else if tok(s, arrow, TokenView::RParen) {
            Some((FunctionTypeView { inputs, output: Seq::empty() }, arrow + 1))
        } else {
            None
        }
    } else {
        None
    }
}

/// The type of a parameter at `i`: that of a value, else that of a function.
pub open spec fn param_at(s: Seq<TokenView>, i: int) -> Option<(ParamTypeView, int)>
    decreases s.len() - i, 1int,
{
    match value_type_at(s, i) {
        Some((v, end)) => Some((ParamTypeView::Value(v), end)),
        None => match function_type_at(s, i) {
            Some((f, end)) => Some((ParamTypeView::Function(f), end)),
            None => None,
        },
    }
}

/// The parameter types at `i`, separated by commas. A comma that no
/// parameter follows is not taken.
pub open spec fn params_at(s: Seq<TokenView>, i: int) -> (Seq<ParamTypeView>, int)
    decreases s.len() - i, 2int,
{
    match param_at(s, i) {
        Some((first, next)) => if i <= next && tok(s, next, TokenView::Comma) {
            let (rest, end) = params_at(s, next + 1);
            if rest.len() > 0 {
                (seq![first] + rest, end)
            } else {
                (seq![first], next)
            }
        } else {
            (seq![first], next)
        },
        None => (Seq::empty(), i),
    }
}

/// A function definition at `i`: `def`, a term name, optionally a function
/// type, `=`, and the body.
pub open spec fn function_def_at(s: Seq<TokenView>, i: int) -> Option<
    (FunctionDefinitionView, int),
> {
    if tok(s, i, TokenView::Def) {
        match lower_name_at(s, i + 1) {
            Some((name, after_name)) => {
                let (ftype, at_eq) = match function_type_at(s, after_name) {
                    Some((f, end)) => (Some(f), end),
                    None => (None, after_name),
                };
                if tok(s, at_eq, TokenView::Eq) {
                    let (body, end) = exprs_at(s, at_eq + 1);
                    Some((FunctionDefinitionView { name, ftype, body }, end))
                } else {
                    None
                }
            },
            None => None,
        }
    } else {
        None
    }
}

/// As many term names as stand at `i`.
pub open spec fn lower_names_at(s: Seq<TokenView>, i: int) -> (Seq<Seq<char>>, int)
    decreases s.len() - i,
{
    match lower_name_at(s, i) {
        Some((name, next)) => {
            let (rest, end) = lower_names_at(s, next);
            (seq![name] + rest, end)
        },
        None => (Seq::empty(), i),
    }
}

/// As many names of either kind as stand at `i`.
pub open spec fn any_names_at(s: Seq<TokenView>, i: int) -> (Seq<Seq<char>>, int)
    decreases s.len() - i,
{
    match lower_or_upper_name_at(s, i) {
        Some((name, next)) => {
            let (rest, end) = any_names_at(s, next);
            (seq![name] + rest, end)
        },
        None => (Seq::empty(), i),
    }
}

/// A field of a record variant at `i`: a term name, `:`, and a name.
pub open spec fn field_at(s: Seq<TokenView>, i: int) -> Option<((Seq<char>, Seq<char>), int)> {
    match lower_name_at(s, i) {
        Some((name, colon)) => if tok(s, colon, TokenView::Colon) {
            match lower_or_upper_name_at(s, colon + 1) {
                Some((of_type, end)) => Some(((name, of_type), end)),
                None => None,
            }
        } else {
            None
        },
        None => None,
    }
}

/// The fields at `i`, separated by commas. A comma that no field follows
/// is not taken.
pub open spec fn fields_at(s: Seq<TokenView>, i: int) -> (Seq<(Seq<char>, Seq<char>)>, int)
    decreases s.len() - i,
{
    match field_at(s, i) {
        Some((first, next)) => if i < next && tok(s, next, TokenView::Comma) {
            let (rest, end) = fields_at(s, next + 1);
            if rest.len() > 0 {
                (seq![first] + rest, end)
            } else {
                (seq![first], next)
            }
        } else {
            (seq![first], next)
        },
        None => (Seq::empty(), i),
    }
}

/// A variant at `i`: a type name and either fields in braces (a record), or
/// as many names as follow (a tuple, whose k-th field is named `_k`).
pub open spec fn type_variant_at(s: Seq<TokenView>, i: int) -> Option<
    (VariantDefinitionView, int),
> {
    match upper_name_at(s, i) {
        Some((name, after_name)) => {
            let (fields, close) = fields_at(s, after_name + 1);
            if tok(s, after_name, TokenView::LBrace) && tok(s, close, TokenView::RBrace) {
                Some((VariantDefinitionView { name, items: fields_map(fields) }, close + 1))
            } else {
                let (types, end) = any_names_at(s, after_name);
                Some(
                    (
                        VariantDefinitionView { name, items: fields_map(numbered_fields(types)) },
                        end,
                    ),
                )
            }
        },
        None => None,
    }
}

/// The variants at `i`, separated by `|`. A `|` that no variant follows is
/// not taken.
pub open spec fn variants_at(s: Seq<TokenView>, i: int) -> (Seq<VariantDefinitionView>, int)
    decreases s.len() - i,
{
    match type_variant_at(s, i) {
        Some((first, next)) => if i < next && tok(s, next, TokenView::Pipe) {
            let (rest, end) = variants_at(s, next + 1);
            if rest.len() > 0 {
                (seq![first] + rest, end)
            } else {
                (seq![first], next)
            }
        } else {
            (seq![first], next)
        },
        None => (Seq::empty(), i),
    }
}

/// A type definition at `i`: `type`, a type name, type variables, `=`, an
/// optional `|`, and one or more variants separated by `|`.
pub open spec fn type_def_at(s: Seq<TokenView>, i: int) -> Option<(TypeDefinitionView, int)> {
    if tok(s, i, TokenView::Type) {
        match upper_name_at(s, i + 1) {
            Some((name, after_name)) => {
                let (vars, at_eq) = lower_names_at(s, after_name);
                if tok(s, at_eq, TokenView::Eq) {
                    let first = if tok(s, at_eq + 1, TokenView::Pipe) {
                        at_eq + 2
                    } else {
                        at_eq + 1
                    };
                    let (variants, end) = variants_at(s, first);
                    if variants.len() > 0 {
                        Some((TypeDefinitionView { name, vars, variants }, end))
                    } else {
                        None
                    }
                } else {
                    None
                }
            },
            None => None,
        }
    } else {
        None
    }
}

/// A definition at `i`: that of a function, else that of a type.
pub open spec fn definition_at(s: Seq<TokenView>, i: int) -> Option<(DefinitionView, int)> {
    match function_def_at(s, i) {
        Some((f, end)) => Some((DefinitionView::Function(f), end)),
        None => match type_def_at(s, i) {
            Some((t, end)) => Some((DefinitionView::Type(t), end)),
            None => None,
        },
    }
}

/// As many definitions as stand at `i`.
pub open spec fn definitions_at(s: Seq<TokenView>, i: int) -> (Seq<DefinitionView>, int)
    decreases s.len() - i,
{
    match definition_at(s, i) {
        Some((first, next)) => if i < next <= s.len() {
            let (rest, end) = definitions_at(s, next);
            (seq![first] + rest, end)
        } else {
            (Seq::empty(), i)
        },
        None => (Seq::empty(), i),
    }
}

/// The failure at the token `i`, which no definition could take.
pub open spec fn failure_at(s: Seq<TokenView>, i: int) -> ParseError {
    ParseError {
        span: Span { start: i as usize, end: (i + 1) as usize },
        expected: if tok(s, i, TokenView::Def) {
            Expected::FunctionDefinition
        } else if tok(s, i, TokenView::Type) {
            Expected::TypeDefinition
        } else {
            Expected::Definition
        },
    }
}

/// The program that a token sequence stands for: its definitions, if they
/// take all of it, else the failure at the first token that they leave.
pub open spec fn parse(s: Seq<TokenView>) -> Result<AstView, ParseError> {
    let (defs, end) = definitions_at(s, 0);
    if end == s.len() {
        Ok(AstView { defs })
    } else {
        Err(failure_at(s, end))
    }
}


/// One or more module names at `pos`, separated by dots.
fn type_path(input: &[Token], pos: usize) -> (r: Option<(Vec<String>, usize)>)
    requires
        pos <= input@.len(),
    ensures
        match (r, type_path_at(token_views(input@), pos as int)) {
            (Some((found, end)), Some((spec_found, spec_end))) => string_views(found@)
                == spec_found && end == spec_end && found@.len() > 0,
            (None, None) => true,
            _ => false,
        },
        r matches Some((_, end)) ==> pos < end <= input@.len(),
{
    let ghost s = token_views(input@);
    let (first, first_end) = match upper_name(input, pos) {
        Some(found) => found,
        None => { return None; },
    };
    let mut found: Vec<String> = Vec::new();
    found.push(first);
    let mut end: usize = first_end;
    assert(string_views(found@) =~= seq![found@[0]@]);
    assert(string_views(found@).drop_last() =~= Seq::<Seq<char>>::empty());
    assert(Seq::<Seq<char>>::empty() + type_path_at(s, pos as int).unwrap().0 =~= type_path_at(
        s,
        pos as int,
    ).unwrap().0);
    loop
        invariant
            s == token_views(input@),
            pos < end <= input@.len(),
            found@.len() > 0,
            upper_name_at(s, end - 1) == Some((found@.last()@, end as int)),
            type_path_at(s, pos as int) is Some,
            type_path_at(s, end - 1) is Some,
            type_path_at(s, pos as int).unwrap().0 == string_views(found@).drop_last()
                + type_path_at(s, end - 1).unwrap().0,
            type_path_at(s, pos as int).unwrap().1 == type_path_at(s, end - 1).unwrap().1,
        ensures
            pos < end <= input@.len(),
            found@.len() > 0,
            type_path_at(s, pos as int) == Some((string_views(found@), end as int)),
        decreases input@.len() - end,
    {
        let ghost all = string_views(found@);
        if !holds(input, end, &Token::Dot) {
            assert(all.drop_last() + seq![all.last()] =~= all);
            break;
        }
        match upper_name(input, end + 1) {
            Some((name, next)) => {
                proof {
                    let after = string_views(found@.push(name));
                    assert(after.drop_last() =~= all);
                    assert(after.last() == name@);
                    let rest = type_path_at(s, end + 1).unwrap().0;
                    assert(all.drop_last() + (seq![all.last()] + rest) =~= all + rest);
                }
                found.push(name);
                end = next;
            },
            None => {
                assert(all.drop_last() + seq![all.last()] =~= all);
                break;
            },
        }
    }
    Some((found, end))
}

/// Parses the type of a value at `pos`.
pub fn value_type(input: &[Token], pos: usize) -> (r: Option<(ValueType, usize)>)
    requires
        pos <= input@.len(),
    ensures
        match (r, value_type_at(token_views(input@), pos as int)) {
            (Some((v, end)), Some((spec_v, spec_end))) => v@ == spec_v && end == spec_end,
            (None, None) => true,
            _ => false,
        },
        r matches Some((_, end)) ==> pos < end <= input@.len(),
{
    match type_path(input, pos) {
        Some((mut path, end)) => {
            let ghost all = string_views(path@);
            match path.pop() {
                Some(name) => {
                    assert(string_views(path@) =~= all.drop_last());
                    Some((ValueType { name, module: path }, end))
                },
                None => None,
            }
        },
        None => None,
    }
}

/// Parses the type of a function at `pos`.
pub fn function_type(input: &[Token], pos: usize) -> (r: Option<(FunctionType, usize)>)
    requires
        pos <= input@.len(),
    ensures
        match (r, function_type_at(token_views(input@), pos as int)) {
            (Some((f, end)), Some((spec_f, spec_end))) => f@ == spec_f && end == spec_end,
            (None, None) => true,
            _ => false,
        },
        r matches Some((_, end)) ==> pos < end <= input@.len(),
    decreases input@.len() - pos, 0int,
{
    if !holds(input, pos, &Token::LParen) {
        return None;
    }
    let (inputs, arrow) = params(input, pos + 1);
    if holds(input, arrow, &Token::Arrow) {
        let (output, end) = params(input, arrow + 1);
        if holds(input, end, &Token::RParen) {
            let f = FunctionType { inputs, output };
            proof {
                lemma_function_type_view(f);
            }
            Some((f, end + 1))
        } else {
            None
        }
    } else if holds(input, arrow, &Token::RParen) {
        let f = FunctionType { inputs, output: Vec::new() };
        proof {
            lemma_function_type_view(f);
            assert(param_views(f.output@) =~= Seq::<ParamTypeView>::empty());
        }
        Some((f, arrow + 1))
    } else {
        None
    }
}

/// Parses the type of a parameter at `pos`.
fn param(input: &[Token], pos: usize) -> (r: Option<(ParamType, usize)>)
    requires
        pos <= input@.len(),
    ensures
        match (r, param_at(token_views(input@), pos as int)) {
            (Some((p, end)), Some((spec_p, spec_end))) => p@ == spec_p && end == spec_end,
            (None, None) => true,
            _ => false,
        },
        r matches Some((_, end)) ==> pos < end <= input@.len(),
    decreases input@.len() - pos, 1int,
{
    match value_type(input, pos) {
        Some((v, end)) => Some((ParamType::Value(v), end)),
        None => match function_type(input, pos) {
            Some((f, end)) => Some((ParamType::Function(f), end)),
            None => None,
        },
    }
}

/// Parses the parameter types at `pos`.
fn params(input: &[Token], pos: usize) -> (r: (Vec<ParamType>, usize))
    requires
        pos <= input@.len(),
    ensures
        param_views(r.0@) == params_at(token_views(input@), pos as int).0,
        r.1 == params_at(token_views(input@), pos as int).1,
        pos <= r.1 <= input@.len(),
    decreases input@.len() - pos, 2int,
{
    let ghost s = token_views(input@);
    let mut out: Vec<ParamType> = Vec::new();
    let mut at: usize = pos;
    let mut end: usize = pos;
    proof {
        assert(param_views(out@) + params_at(s, at as int).0 =~= params_at(s, at as int).0);
    }
    loop
        invariant_except_break
            params_at(s, pos as int).0 == param_views(out@) + params_at(s, at as int).0,
            params_at(s, pos as int).1 == (if params_at(s, at as int).0.len() > 0 || out@.len()
                == 0 {
                params_at(s, at as int).1
            } else {
                at - 1
            }),
            out@.len() > 0 ==> pos < at,
        invariant
            s == token_views(input@),
            pos <= at <= input@.len(),
        ensures
            pos <= end <= input@.len(),
            params_at(s, pos as int) == (param_views(out@), end as int),
        decreases input@.len() - at,
    {
        match param(input, at) {
            Some((found, next)) => {
                proof {
                    let before = param_views(out@);
                    let after = param_views(out@.push(found));
                    assert(after =~= before.push(found@));
                    let rest = params_at(s, next + 1).0;
                    assert(before + (seq![found@] + rest) =~= after + rest);
                    assert(before + seq![found@] =~= after);
                    assert(after + Seq::<ParamTypeView>::empty() =~= after);
                }
                out.push(found);
                if holds(input, next, &Token::Comma) {
                    at = next + 1;
                } else {
                    end = next;
                    break;
                }
            },
            None => {
                proof {
                    assert(param_views(out@) + Seq::<ParamTypeView>::empty() =~= param_views(
                        out@,
                    ));
                }
                end = if out.len() == 0 {
                    at
                } else {
                    at - 1
                };
                break;
            },
        }
    }
    (out, end)
}

/// Parses a function definition at `pos`.
pub fn function_def(input: &[Token], pos: usize) -> (r: Option<(FunctionDefinition, usize)>)
    requires
        pos <= input@.len(),
    ensures
        match (r, function_def_at(token_views(input@), pos as int)) {
            (Some((f, end)), Some((spec_f, spec_end))) => f@ == spec_f && end == spec_end,
            (None, None) => true,
            _ => false,
        },
        r matches Some((_, end)) ==> pos < end <= input@.len(),
{
    if !holds(input, pos, &Token::Def) {
        return None;
    }
    let (name, after_name) = match lower_name(input, pos + 1) {
        Some(found) => found,
        None => { return None; },
    };
    let (ftype, at_eq) = match function_type(input, after_name) {
        Some((f, end)) => (Some(f), end),
        None => (None, after_name),
    };
    if holds(input, at_eq, &Token::Eq) {
        let (body, end) = exprs(input, at_eq + 1);
        Some((FunctionDefinition { name, ftype, body }, end))
    } else {
        None
    }
}

/// Parses as many names as stand at `pos`: term names only, or names of
/// either kind.
fn name_run(input: &[Token], pos: usize, either: bool) -> (r: (Vec<String>, usize))
    requires
        pos <= input@.len(),
    ensures
        (string_views(r.0@), r.1 as int) == (if either {
            any_names_at(token_views(input@), pos as int)
        } else {
            lower_names_at(token_views(input@), pos as int)
        }),
        pos <= r.1 <= input@.len(),
{
    let ghost s = token_views(input@);
    let mut out: Vec<String> = Vec::new();
    let mut at: usize = pos;
    proof {
        assert(string_views(out@) + any_names_at(s, pos as int).0 =~= any_names_at(s, pos as int).0);
        assert(string_views(out@) + lower_names_at(s, pos as int).0 =~= lower_names_at(
            s,
            pos as int,
        ).0);
    }
    loop
        invariant
            s == token_views(input@),
            pos <= at <= input@.len(),
            either ==> any_names_at(s, pos as int).0 == string_views(out@) + any_names_at(
                s,
                at as int,
            ).0,
            either ==> any_names_at(s, pos as int).1 == any_names_at(s, at as int).1,
            !either ==> lower_names_at(s, pos as int).0 == string_views(out@) + lower_names_at(
                s,
                at as int,
            ).0,
            !either ==> lower_names_at(s, pos as int).1 == lower_names_at(s, at as int).1,
        ensures
            pos <= at <= input@.len(),
            either ==> any_names_at(s, pos as int) == (string_views(out@), at as int),
            !either ==> lower_names_at(s, pos as int) == (string_views(out@), at as int),
        decreases input@.len() - at,
    {
        let found = if either {
            lower_or_upper_name(input, at)
        } else {
            lower_name(input, at)
        };
        match found {
            Some((name, next)) => {
                proof {
                    let before = string_views(out@);
                    let after = string_views(out@.push(name));
                    assert(after =~= before.push(name@));
                    let rest = if either {
                        any_names_at(s, next as int).0
                    } else {
                        lower_names_at(s, next as int).0
                    };
                    assert(before + (seq![name@] + rest) =~= after + rest);
                }
                out.push(name);
                at = next;
            },
            None => {
                assert(string_views(out@) + Seq::<Seq<char>>::empty() =~= string_views(out@));
                break;
            },
        }
    }
    (out, at)
}

/// Parses a field of a record variant at `pos`.
fn field(input: &[Token], pos: usize) -> (r: Option<((String, String), usize)>)
    requires
        pos <= input@.len(),
    ensures
        match (r, field_at(token_views(input@), pos as int)) {
            (Some((f, end)), Some((spec_f, spec_end))) => (f.0@, f.1@) == spec_f && end
                == spec_end,
            (None, None) => true,
            _ => false,
        },
        r matches Some((_, end)) ==> pos < end <= input@.len(),
{
    let (name, colon) = match lower_name(input, pos) {
        Some(found) => found,
        None => { return None; },
    };
    if !holds(input, colon, &Token::Colon) {
        return None;
    }
    match lower_or_upper_name(input, colon + 1) {
        Some((of_type, end)) => Some(((name, of_type), end)),
        None => None,
    }
}

/// Parses the fields at `pos`.
fn fields(input: &[Token], pos: usize) -> (r: (Vec<(String, String)>, usize))
    requires
        pos <= input@.len(),
    ensures
        field_views(r.0@) == fields_at(token_views(input@), pos as int).0,
        r.1 == fields_at(token_views(input@), pos as int).1,
        pos <= r.1 <= input@.len(),
{
    let ghost s = token_views(input@);
    let mut out: Vec<(String, String)> = Vec::new();
    let mut at: usize = pos;
    let mut end: usize = pos;
    proof {
        assert(field_views(out@) + fields_at(s, at as int).0 =~= fields_at(s, at as int).0);
    }
    loop
        invariant_except_break
            fields_at(s, pos as int).0 == field_views(out@) + fields_at(s, at as int).0,
            fields_at(s, pos as int).1 == (if fields_at(s, at as int).0.len() > 0 || out@.len()
                == 0 {
                fields_at(s, at as int).1
            } else {
                at - 1
            }),
            out@.len() > 0 ==> pos < at,
        invariant
            s == token_views(input@),
            pos <= at <= input@.len(),
        ensures
            pos <= end <= input@.len(),
            fields_at(s, pos as int) == (field_views(out@), end as int),
        decreases input@.len() - at,
    {
        match field(input, at) {
            Some((found, next)) => {
                proof {
                    let this = (found.0@, found.1@);
                    let before = field_views(out@);
                    let after = field_views(out@.push(found));
                    assert(after =~= before.push(this));
                    let rest = fields_at(s, next + 1).0;
                    assert(before + (seq![this] + rest) =~= after + rest);
                    assert(before + seq![this] =~= after);
                    assert(after + Seq::<(Seq<char>, Seq<char>)>::empty() =~= after);
                }
                out.push(found);
                if holds(input, next, &Token::Comma) {
                    at = next + 1;
                } else {
                    end = next;
                    break;
                }
            },
            None => {
                proof {
                    assert(field_views(out@) + Seq::<(Seq<char>, Seq<char>)>::empty()
                        =~= field_views(out@));
                }
                end = if out.len() == 0 {
                    at
                } else {
                    at - 1
                };
                break;
            },
        }
    }
    (out, end)
}

/// The fields of a tuple variant with the given field types.
fn tuple_fields(types: &Vec<String>) -> (r: Vec<(String, String)>)
    ensures
        field_views(r@) == numbered_fields(string_views(types@)),
{
    let mut out: Vec<(String, String)> = Vec::new();
    let mut k: usize = 0;
    while k < types.len()
        invariant
            k <= types@.len(),
            out@.len() == k,
            forall|j: int|
                0 <= j < k ==> (#[trigger] out@[j]).0@ == "_"@ + decimal_text(j as nat) && out@[j].1@
                    == types@[j]@,
        decreases types@.len() - k,
    {
        out.push((numbered("_", k), types[k].clone()));
        k = k + 1;
    }
    assert(field_views(out@) =~= numbered_fields(string_views(types@)));
    out
}

/// Parses a variant of a type at `pos`.
pub fn type_variant(input: &[Token], pos: usize) -> (r: Option<(VariantDefinition, usize)>)
    requires
        pos <= input@.len(),
    ensures
        match (r, type_variant_at(token_views(input@), pos as int)) {
            (Some((v, end)), Some((spec_v, spec_end))) => v@ == spec_v && end == spec_end,
            (None, None) => true,
            _ => false,
        },
        r matches Some((_, end)) ==> pos < end <= input@.len(),
{
    let (name, after_name) = match upper_name(input, pos) {
        Some(found) => found,
        None => { return None; },
    };
    if holds(input, after_name, &Token::LBrace) {
        let (items, close) = fields(input, after_name + 1);
        if holds(input, close, &Token::RBrace) {
            return Some((VariantDefinition { name, items }, close + 1));
        }
    }
    let (types, end) = name_run(input, after_name, true);
    Some((VariantDefinition { name, items: tuple_fields(&types) }, end))
}

/// Parses the variants at `pos`.
fn variants(input: &[Token], pos: usize) -> (r: (Vec<VariantDefinition>, usize))
    requires
        pos <= input@.len(),
    ensures
        variant_views(r.0@) == variants_at(token_views(input@), pos as int).0,
        r.1 == variants_at(token_views(input@), pos as int).1,
        pos <= r.1 <= input@.len(),
{
    let ghost s = token_views(input@);
    let mut out: Vec<VariantDefinition> = Vec::new();
    let mut at: usize = pos;
    let mut end: usize = pos;
    proof {
        assert(variant_views(out@) + variants_at(s, at as int).0 =~= variants_at(s, at as int).0);
    }
    loop
        invariant_except_break
            variants_at(s, pos as int).0 == variant_views(out@) + variants_at(s, at as int).0,
            variants_at(s, pos as int).1 == (if variants_at(s, at as int).0.len() > 0
                || out@.len() == 0 {
                variants_at(s, at as int).1
            } else {
                at - 1
            }),
            out@.len() > 0 ==> pos < at,
        invariant
            s == token_views(input@),
            pos <= at <= input@.len(),
        ensures
            pos <= end <= input@.len(),
            variants_at(s, pos as int) == (variant_views(out@), end as int),
        decreases input@.len() - at,
    {
        match type_variant(input, at) {
            Some((found, next)) => {
                proof {
                    let before = variant_views(out@);
                    let after = variant_views(out@.push(found));
                    assert(after =~= before.push(found@));
                    let rest = variants_at(s, next + 1).0;
                    assert(before + (seq![found@] + rest) =~= after + rest);
                    assert(before + seq![found@] =~= after);
                    assert(after + Seq::<VariantDefinitionView>::empty() =~= after);
                }
                out.push(found);
                if holds(input, next, &Token::Pipe) {
                    at = next + 1;
                } else {
                    end = next;
                    break;
                }
            },
            None => {
                proof {
                    assert(variant_views(out@) + Seq::<VariantDefinitionView>::empty()
                        =~= variant_views(out@));
                }
                end = if out.len() == 0 {
                    at
                } else {
                    at - 1
                };
                break;
            },
        }
    }
    (out, end)
}

/// Parses a type definition at `pos`.
pub fn type_def(input: &[Token], pos: usize) -> (r: Option<(TypeDefinition, usize)>)
    requires
        pos <= input@.len(),
    ensures
        match (r, type_def_at(token_views(input@), pos as int)) {
            (Some((t, end)), Some((spec_t, spec_end))) => t@ == spec_t && end == spec_end,
            (None, None) => true,
            _ => false,
        },
        r matches Some((_, end)) ==> pos < end <= input@.len(),
{
    if !holds(input, pos, &Token::Type) {
        return None;
    }
    let (name, after_name) = match upper_name(input, pos + 1) {
        Some(found) => found,
        None => { return None; },
    };
    let (vars, at_eq) = name_run(input, after_name, false);
    if !holds(input, at_eq, &Token::Eq) {
        return None;
    }
    let first = if holds(input, at_eq + 1, &Token::Pipe) {
        at_eq + 2
    } else {
        at_eq + 1
    };
    let (found, end) = variants(input, first);
    if found.len() > 0 {
        Some((TypeDefinition { name, vars, variants: found }, end))
    } else {
        None
    }
}

/// Parses a definition at `pos`.
pub fn definition(input: &[Token], pos: usize) -> (r: Option<(Definition, usize)>)
    requires
        pos <= input@.len(),
    ensures
        match (r, definition_at(token_views(input@), pos as int)) {
            (Some((d, end)), Some((spec_d, spec_end))) => d@ == spec_d && end == spec_end,
            (None, None) => true,
            _ => false,
        },
        r matches Some((_, end)) ==> pos < end <= input@.len(),
{
    match function_def(input, pos) {
        Some((f, end)) => Some((Definition::Function(f), end)),
        None => match type_def(input, pos) {
            Some((t, end)) => Some((Definition::Type(t), end)),
            None => None,
        },
    }
}

/// The parser: turns a token sequence into a program, or reports the first
/// token that no definition could take.
pub fn root(input: &[Token]) -> (r: Result<Ast, ParseError>)
    ensures
        match (r, parse(token_views(input@))) {
            (Ok(ast), Ok(spec_ast)) => ast@ == spec_ast,
            (Err(e), Err(spec_e)) => e == spec_e,
            _ => false,
        },
{
    let ghost s = token_views(input@);
    let mut defs: Vec<Definition> = Vec::new();
    let mut at: usize = 0;
    proof {
        assert(definition_views(defs@) + definitions_at(s, 0).0 =~= definitions_at(s, 0).0);
    }
    loop
        invariant
            s == token_views(input@),
            at <= input@.len(),
            definitions_at(s, 0).0 == definition_views(defs@) + definitions_at(s, at as int).0,
            definitions_at(s, 0).1 == definitions_at(s, at as int).1,
        ensures
            at <= input@.len(),
            definitions_at(s, 0) == (definition_views(defs@), at as int),
        decreases input@.len() - at,
    {
        match definition(input, at) {
            Some((found, next)) => {
                proof {
                    let before = definition_views(defs@);
                    let after = definition_views(defs@.push(found));
                    assert(after =~= before.push(found@));
                    let rest = definitions_at(s, next as int).0;
                    assert(before + (seq![found@] + rest) =~= after + rest);
                }
                defs.push(found);
                at = next;
            },
            None => {
                assert(definition_views(defs@) + Seq::<DefinitionView>::empty()
                    =~= definition_views(defs@));
                break;
            },
        }
    }
    if at == input.len() {
        Ok(Ast { defs })
    } else {
        let expected = if holds(input, at, &Token::Def) {
            Expected::FunctionDefinition
        } else if holds(input, at, &Token::Type) {
            Expected::TypeDefinition
        } else {
            Expected::Definition
        };
        Err(ParseError { span: Span { start: at, end: at + 1 }, expected })
    }
}


/// A tuple of more than nine elements does not parse: neither as a tuple
/// nor as any other expression.
pub proof fn lemma_tuple_of_ten(s: Seq<TokenView>, i: int)
    requires
        tok(s, i, TokenView::LParen),
        elements_at(s, i + 1).0.len() > 9,
    ensures
        tuple_at(s, i) is None,
        expr_at(s, i) is None,
{
}

/// Whether a text holds no dot.
pub open spec fn dotless(s: Seq<char>) -> bool {
    forall|i: int| 0 <= i < s.len() ==> s[i] != '.'
}

/// A text without a dot is its own and only part.
pub proof fn lemma_split_dots_plain(s: Seq<char>)
    requires
        dotless(s),
    ensures
        split_dots(s) == seq![s],
    decreases s.len(),
{
    if s.len() == 0 {
        assert(s =~= Seq::<char>::empty());
    } else {
        lemma_split_dots_plain(s.drop_last());
        assert(seq![s.drop_last()].drop_last().push(s.drop_last().push(s.last())) =~= seq![s]) by {
            assert(s.drop_last().push(s.last()) =~= s);
        }
    }
}

/// The parts of a text, a dot and a text without a dot are the parts of
/// the first text and the second text.
pub proof fn lemma_split_dots_append(a: Seq<char>, b: Seq<char>)
    requires
        dotless(b),
    ensures
        split_dots(a + seq!['.'] + b) == split_dots(a).push(b),
    decreases b.len(),
{
    let whole = a + seq!['.'] + b;
    if b.len() == 0 {
        assert(whole.drop_last() =~= a);
        assert(b =~= Seq::<char>::empty());
    } else {
        lemma_split_dots_append(a, b.drop_last());
        assert(whole.drop_last() =~= a + seq!['.'] + b.drop_last());
        assert(whole.last() == b.last());
        let before = split_dots(a).push(b.drop_last());
        assert(before.drop_last() =~= split_dots(a));
        assert(b.drop_last().push(b.last()) =~= b);
    }
}

/// The decimal text of a number holds no dot.
pub proof fn lemma_decimal_text_dotless(n: nat)
    ensures
        dotless(decimal_text(n)),
    decreases n,
{
    if n >= 10 {
        lemma_decimal_text_dotless(n / 10);
    }
}

/// The terms that the literal forms stand for: each is a word of the
/// module `Core`, or of `Core.List` or `Core.Table`.
pub proof fn lemma_core_terms(n: nat)
    ensures
        term_of("Core.List.empty"@) == (ExprView::Term {
            name: "empty"@,
            module: seq!["Core"@, "List"@],
        }),
        term_of("Core.List.push"@) == (ExprView::Term {
            name: "push"@,
            module: seq!["Core"@, "List"@],
        }),
        term_of("Core.Table.empty"@) == (ExprView::Term {
            name: "empty"@,
            module: seq!["Core"@, "Table"@],
        }),
        term_of("Core.Table.set"@) == (ExprView::Term {
            name: "set"@,
            module: seq!["Core"@, "Table"@],
        }),
        term_of("Core.??"@) == (ExprView::Term { name: "??"@, module: seq!["Core"@] }),
        term_of("Core.Tuple"@ + decimal_text(n)) == (ExprView::Term {
            name: "Tuple"@ + decimal_text(n),
            module: seq!["Core"@],
        }),
{
    reveal_strlit("Core");
    reveal_strlit("List");
    reveal_strlit("Table");
    reveal_strlit("Tuple");
    reveal_strlit("empty");
    reveal_strlit("push");
    reveal_strlit("set");
    reveal_strlit("??");
    reveal_strlit("Core.List.empty");
    reveal_strlit("Core.List.push");
    reveal_strlit("Core.Table.empty");
    reveal_strlit("Core.Table.set");
    reveal_strlit("Core.??");
    reveal_strlit("Core.Tuple");
    let dot = seq!['.'];
    lemma_split_dots_plain("Core"@);
    lemma_split_dots_append("Core"@, "List"@);
    lemma_split_dots_append("Core"@, "Table"@);
    lemma_split_dots_append("Core"@, "??"@);
    lemma_split_dots_append("Core"@ + dot + "List"@, "empty"@);
    lemma_split_dots_append("Core"@ + dot + "List"@, "push"@);
    lemma_split_dots_append("Core"@ + dot + "Table"@, "empty"@);
    lemma_split_dots_append("Core"@ + dot + "Table"@, "set"@);
    lemma_decimal_text_dotless(n);
    let tuple = "Tuple"@ + decimal_text(n);
    lemma_split_dots_append("Core"@, tuple);
    assert("Core.List.empty"@ =~= "Core"@ + dot + "List"@ + dot + "empty"@);
    assert("Core.List.push"@ =~= "Core"@ + dot + "List"@ + dot + "push"@);
    assert("Core.Table.empty"@ =~= "Core"@ + dot + "Table"@ + dot + "empty"@);
    assert("Core.Table.set"@ =~= "Core"@ + dot + "Table"@ + dot + "set"@);
    assert("Core.??"@ =~= "Core"@ + dot + "??"@);
    assert("Core.Tuple"@ + decimal_text(n) =~= "Core"@ + dot + tuple);
    assert(seq!["Core"@].push("List"@).push("empty"@).drop_last() =~= seq!["Core"@, "List"@]);
    assert(seq!["Core"@].push("List"@).push("push"@).drop_last() =~= seq!["Core"@, "List"@]);
    assert(seq!["Core"@].push("Table"@).push("empty"@).drop_last() =~= seq!["Core"@, "Table"@]);
    assert(seq!["Core"@].push("Table"@).push("set"@).drop_last() =~= seq!["Core"@, "Table"@]);
    assert(seq!["Core"@].push("??"@).drop_last() =~= seq!["Core"@]);
    assert(seq!["Core"@].push(tuple).drop_last() =~= seq!["Core"@]);
}

/// A conditional that parses stands for its two branches, each quoted, and
/// the word `??` of the module `Core`.
pub proof fn lemma_then_else_terms(s: Seq<TokenView>, i: int)
    requires
        then_else_at(s, i) is Some,
    ensures
        block_at(s, i + 1) is Some,
        block_at(s, block_at(s, i + 1).unwrap().1 + 1) is Some,
        then_else_at(s, i).unwrap().0 == seq![
            ExprView::Quote(block_at(s, i + 1).unwrap().0),
            ExprView::Quote(block_at(s, block_at(s, i + 1).unwrap().1 + 1).unwrap().0),
            ExprView::Term { name: "??"@, module: seq!["Core"@] },
        ],
{
    lemma_core_terms(0);
}

/// A list of three items stands for the word `empty` of `Core.List` and
/// then each item followed by the word `push` of `Core.List`; so does a
/// list of any other number of items, item by item.
pub proof fn lemma_list_terms(a: Seq<ExprView>, b: Seq<ExprView>, c: Seq<ExprView>)
    ensures
        list_terms(Seq::empty()) == seq![
            ExprView::Term { name: "empty"@, module: seq!["Core"@, "List"@] },
        ],
        forall|items: Seq<Seq<ExprView>>, last: Seq<ExprView>| #[trigger]
            list_terms(items.push(last)) == (list_terms(items) + last).push(
                ExprView::Term { name: "push"@, module: seq!["Core"@, "List"@] },
            ),
        list_terms(seq![a, b, c]) == seq![
            ExprView::Term { name: "empty"@, module: seq!["Core"@, "List"@] },
        ] + a + seq![ExprView::Term { name: "push"@, module: seq!["Core"@, "List"@] }] + b
            + seq![ExprView::Term { name: "push"@, module: seq!["Core"@, "List"@] }] + c
            + seq![ExprView::Term { name: "push"@, module: seq!["Core"@, "List"@] }],
{
    lemma_core_terms(0);
    assert forall|items: Seq<Seq<ExprView>>, last: Seq<ExprView>| #[trigger]
        list_terms(items.push(last)) == (list_terms(items) + last).push(
            ExprView::Term { name: "push"@, module: seq!["Core"@, "List"@] },
        ) by {
        assert(items.push(last).drop_last() =~= items);
    }
    let none = Seq::<Seq<ExprView>>::empty();
    assert(seq![a, b, c] =~= none.push(a).push(b).push(c));
    let push = ExprView::Term { name: "push"@, module: seq!["Core"@, "List"@] };
    let empty = ExprView::Term { name: "empty"@, module: seq!["Core"@, "List"@] };
    assert(list_terms(none.push(a).push(b).push(c)) =~= seq![empty] + a + seq![push] + b + seq![
        push,
    ] + c + seq![push]);
}

/// A tuple that parses stands for its elements, one after the other, and
/// the word `TupleN` of the module `Core`, where N is the number of its
/// elements and at most nine.
pub proof fn lemma_tuple_terms(s: Seq<TokenView>, i: int)
    requires
        tuple_at(s, i) is Some,
    ensures
        elements_at(s, i + 1).0.len() <= 9,
        tuple_at(s, i).unwrap().0 == joined(elements_at(s, i + 1).0).push(
            ExprView::Term {
                name: "Tuple"@ + decimal_text(elements_at(s, i + 1).0.len()),
                module: seq!["Core"@],
            },
        ),
{
    lemma_core_terms(elements_at(s, i + 1).0.len());
}

/// A tuple of three items stands for the three items and the word `Tuple3`
/// of the module `Core`.
pub proof fn lemma_tuple_of_three(a: Seq<ExprView>, b: Seq<ExprView>, c: Seq<ExprView>)
    ensures
        tuple_terms(seq![a, b, c]) == a + b + c + seq![
            ExprView::Term { name: "Tuple3"@, module: seq!["Core"@] },
        ],
{
    lemma_core_terms(3);
    reveal_strlit("Tuple");
    reveal_strlit("Tuple3");
    assert("Tuple"@ + decimal_text(3) =~= "Tuple3"@);
    let none = Seq::<Seq<ExprView>>::empty();
    assert(seq![a, b, c].drop_last() =~= seq![a, b]);
    assert(seq![a, b].drop_last() =~= seq![a]);
    assert(seq![a].drop_last() =~= none);
    assert(joined(none) =~= Seq::<ExprView>::empty());
    assert(joined(seq![a]) =~= a);
    assert(joined(seq![a, b]) =~= a + b);
    assert(joined(seq![a, b, c]) =~= a + b + c);
    assert(tuple_terms(seq![a, b, c]) =~= a + b + c + seq![
        ExprView::Term { name: "Tuple3"@, module: seq!["Core"@] },
    ]);
}

} // verus!
