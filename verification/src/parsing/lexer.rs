//! The lexer: a character sequence becomes a token sequence.
//!
//! Every scanner works on a slice of characters and a start position and
//! answers with what it recognised and the position just behind it. What each
//! scanner recognises is given by a specification function of the same shape
//! over `Seq<char>`.

use vstd::prelude::*;
use vstd::std_specs::iter::IteratorSpec;

verus! {

/// A half-open range of character positions in the source.
#[derive(Clone, Copy, Debug, PartialEq, Eq, Structural)]
pub struct Span {
    pub start: usize,
    pub end: usize,
}

/// A literal as written in the source.
///
/// A float keeps its decimal text (`-3.14`): the lexer checks its shape and
/// leaves the conversion to a binary number to the host.
#[derive(Debug, PartialEq, Eq, Hash)]
pub enum Literal {
    Int(i64),
    Float(String),
    Char(char),
    String(String),
}

/// The mathematical value of a [`Literal`].
pub enum LiteralView {
    Int(i64),
    Float(Seq<char>),
    Char(char),
    String(Seq<char>),
}

impl View for Literal {
    type V = LiteralView;

    open spec fn view(&self) -> LiteralView {
        match self {
            Literal::Int(n) => LiteralView::Int(*n),
            Literal::Float(t) => LiteralView::Float(t@),
            Literal::Char(c) => LiteralView::Char(*c),
            Literal::String(t) => LiteralView::String(t@),
        }
    }
}

impl Clone for Literal {
    fn clone(&self) -> (r: Self)
        ensures
            r@ == self@,
    {
        match self {
            Literal::Int(n) => Literal::Int(*n),
            Literal::Float(t) => Literal::Float(t.clone()),
            Literal::Char(c) => Literal::Char(*c),
            Literal::String(t) => Literal::String(t.clone()),
        }
    }
}

impl Literal {
    /// Whether two literals are the same: of one kind and with one value.
    pub fn same(&self, other: &Literal) -> (r: bool)
        ensures
            r == (self@ == other@),
    {
        match (self, other) {
            (Literal::Int(a), Literal::Int(b)) => *a == *b,
            (Literal::Float(a), Literal::Float(b)) => *a == *b,
            (Literal::Char(a), Literal::Char(b)) => *a == *b,
            (Literal::String(a), Literal::String(b)) => *a == *b,
            _ => false,
        }
    }
}

/// A token of the language.
#[derive(Debug, PartialEq, Eq, Hash)]
pub enum Token {
    Def,
    Type,
    Eq,
    Lambda,
    Dot,
    Comma,
    Colon,
    Pipe,
    Term(String),
    Module(String),
    Literal(Literal),
    LParen,
    RParen,
    LBrace,
    RBrace,
    LBracket,
    RBracket,
    Arrow,
    Then,
    Else,
}

/// The mathematical value of a [`Token`].
pub enum TokenView {
    Def,
    Type,
    Eq,
    Lambda,
    Dot,
    Comma,
    Colon,
    Pipe,
    Term(Seq<char>),
    Module(Seq<char>),
    Literal(LiteralView),
    LParen,
    RParen,
    LBrace,
    RBrace,
    LBracket,
    RBracket,
    Arrow,
    Then,
    Else,
}

impl View for Token {
    type V = TokenView;

    open spec fn view(&self) -> TokenView {
        match self {
            Token::Def => TokenView::Def,
            Token::Type => TokenView::Type,
            Token::Eq => TokenView::Eq,
            Token::Lambda => TokenView::Lambda,
            Token::Dot => TokenView::Dot,
            Token::Comma => TokenView::Comma,
            Token::Colon => TokenView::Colon,
            Token::Pipe => TokenView::Pipe,
            Token::Term(t) => TokenView::Term(t@),
            Token::Module(t) => TokenView::Module(t@),
            Token::Literal(l) => TokenView::Literal(l@),
            Token::LParen => TokenView::LParen,
            Token::RParen => TokenView::RParen,
            Token::LBrace => TokenView::LBrace,
            Token::RBrace => TokenView::RBrace,
            Token::LBracket => TokenView::LBracket,
            Token::RBracket => TokenView::RBracket,
            Token::Arrow => TokenView::Arrow,
            Token::Then => TokenView::Then,
            Token::Else => TokenView::Else,
        }
    }
}

impl Clone for Token {
    fn clone(&self) -> (r: Self)
        ensures
            r@ == self@,
    {
        match self {
            Token::Def => Token::Def,
            Token::Type => Token::Type,
            Token::Eq => Token::Eq,
            Token::Lambda => Token::Lambda,
            Token::Dot => Token::Dot,
            Token::Comma => Token::Comma,
            Token::Colon => Token::Colon,
            Token::Pipe => Token::Pipe,
            Token::Term(t) => Token::Term(t.clone()),
            Token::Module(t) => Token::Module(t.clone()),
            Token::Literal(l) => Token::Literal(l.clone()),
            Token::LParen => Token::LParen,
            Token::RParen => Token::RParen,
            Token::LBrace => Token::LBrace,
            Token::RBrace => Token::RBrace,
            Token::LBracket => Token::LBracket,
            Token::RBracket => Token::RBracket,
            Token::Arrow => Token::Arrow,
            Token::Then => Token::Then,
            Token::Else => Token::Else,
        }
    }
}

impl Token {
    /// Whether two tokens are the same: of one kind and with one payload.
    pub fn same(&self, other: &Token) -> (r: bool)
        ensures
            r == (self@ == other@),
    {
        match (self, other) {
            (Token::Def, Token::Def) => true,
            (Token::Type, Token::Type) => true,
            (Token::Eq, Token::Eq) => true,
            (Token::Lambda, Token::Lambda) => true,
            (Token::Dot, Token::Dot) => true,
            (Token::Comma, Token::Comma) => true,
            (Token::Colon, Token::Colon) => true,
            (Token::Pipe, Token::Pipe) => true,
            (Token::Term(a), Token::Term(b)) => *a == *b,
            (Token::Module(a), Token::Module(b)) => *a == *b,
            (Token::Literal(a), Token::Literal(b)) => a.same(b),
            (Token::LParen, Token::LParen) => true,
            (Token::RParen, Token::RParen) => true,
            (Token::LBrace, Token::LBrace) => true,
            (Token::RBrace, Token::RBrace) => true,
            (Token::LBracket, Token::LBracket) => true,
            (Token::RBracket, Token::RBracket) => true,
            (Token::Arrow, Token::Arrow) => true,
            (Token::Then, Token::Then) => true,
            (Token::Else, Token::Else) => true,
            _ => false,
        }
    }
}

/// The views of a sequence of tokens, in order.
pub open spec fn token_views(tokens: Seq<Token>) -> Seq<TokenView> {
    Seq::new(tokens.len(), |i: int| tokens[i]@)
}

/// What the lexer was looking for where it gave up.
#[derive(Clone, Copy, Debug, PartialEq, Eq, Structural)]
pub enum Expected {
    /// The start of any token.
    Token,
    /// The `"` that closes a string literal.
    StringEnd,
    /// A character and the `'` that closes a character literal.
    CharEnd,
    /// An integer literal that fits in 64 bits.
    IntInRange,
}

/// A failure of the lexer: where, and what was expected there.
#[derive(Clone, Copy, Debug, PartialEq, Eq, Structural)]
pub struct LexError {
    pub span: Span,
    pub expected: Expected,
}

pub open spec fn is_space(c: char) -> bool {
    c == ' ' || c == '\t' || c == '\n' || c == '\r'
}

pub open spec fn is_digit(c: char) -> bool {
    '0' <= c <= '9'
}

pub open spec fn is_lower(c: char) -> bool {
    'a' <= c <= 'z'
}

pub open spec fn is_upper(c: char) -> bool {
    'A' <= c <= 'Z'
}

/// The punctuation that may stand in a term name.
pub open spec fn is_term_symbol(c: char) -> bool {
    c == '>' || c == '<' || c == '_' || c == '=' || c == '-' || c == '+' || c == '?' || c == '!'
        || c == '*' || c == '/' || c == '%' || c == '|' || c == '~'
}

pub open spec fn is_term_start(c: char) -> bool {
    is_lower(c) || is_term_symbol(c)
}

pub open spec fn is_term_continue(c: char) -> bool {
    is_lower(c) || is_upper(c) || is_digit(c) || is_term_symbol(c)
}

pub open spec fn is_module_continue(c: char) -> bool {
    is_lower(c) || is_upper(c) || is_digit(c)
}

/// The classes of characters that a token may run over.
#[derive(Clone, Copy, Debug, PartialEq, Eq, Structural)]
pub enum CharClass {
    Digit,
    TermContinue,
    ModuleContinue,
    /// Anything but `"`.
    StringBody,
    /// Anything but a line feed.
    CommentBody,
}

pub open spec fn in_class(class: CharClass, c: char) -> bool {
    match class {
        CharClass::Digit => is_digit(c),
        CharClass::TermContinue => is_term_continue(c),
        CharClass::ModuleContinue => is_module_continue(c),
        CharClass::StringBody => c != '"',
        CharClass::CommentBody => c != '\n',
    }
}

/// The end of the longest run of characters of `class` that starts at `i`.
pub open spec fn run_end(s: Seq<char>, i: int, class: CharClass) -> int
    decreases s.len() - i,
{
    if 0 <= i < s.len() && in_class(class, s[i]) {
        run_end(s, i + 1, class)
    } else {
        i
    }
}

/// A run ends at or behind its start, inside the input, over characters of
/// its class only, and at a character that is not of its class.
pub proof fn lemma_run_end(s: Seq<char>, i: int, class: CharClass)
    requires
        0 <= i <= s.len(),
    ensures
        i <= run_end(s, i, class) <= s.len(),
        forall|j: int| i <= j < run_end(s, i, class) ==> in_class(class, #[trigger] s[j]),
        run_end(s, i, class) < s.len() ==> !in_class(class, s[run_end(s, i, class)]),
    decreases s.len() - i,
{
    if i < s.len() && in_class(class, s[i]) {
        lemma_run_end(s, i + 1, class);
    }
}

pub fn char_in_class(class: CharClass, c: char) -> (r: bool)
    ensures
        r == in_class(class, c),
{
    let lower = 'a' <= c && c <= 'z';
    let upper = 'A' <= c && c <= 'Z';
    let digit = '0' <= c && c <= '9';
    match class {
        CharClass::Digit => digit,
        CharClass::TermContinue => lower || upper || digit || term_symbol(c),
        CharClass::ModuleContinue => lower || upper || digit,
        CharClass::StringBody => c != '"',
        CharClass::CommentBody => c != '\n',
    }
}

pub fn term_symbol(c: char) -> (r: bool)
    ensures
        r == is_term_symbol(c),
{
    c == '>' || c == '<' || c == '_' || c == '=' || c == '-' || c == '+' || c == '?' || c == '!'
        || c == '*' || c == '/' || c == '%' || c == '|' || c == '~'
}

/// Walks over the longest run of characters of `class` from `pos`.
pub fn scan_run(input: &[char], pos: usize, class: CharClass) -> (end: usize)
    requires
        pos <= input@.len(),
    ensures
        end == run_end(input@, pos as int, class),
        pos <= end <= input@.len(),
{
    let mut i: usize = pos;
    while i < input.len() && char_in_class(class, input[i])
        invariant
            pos <= i <= input@.len(),
            run_end(input@, pos as int, class) == run_end(input@, i as int, class),
        decreases input@.len() - i,
    {
        i = i + 1;
    }
    i
}


/// Whether the character at position `i` is `c`.
pub open spec fn has(s: Seq<char>, i: int, c: char) -> bool {
    0 <= i < s.len() && s[i] == c
}

pub fn at(input: &[char], pos: usize, c: char) -> (r: bool)
    ensures
        r == has(input@, pos as int, c),
        r ==> pos < usize::MAX,
{
    pos < input.len() && input[pos] == c
}

/// `String::push`: the string grows by the one character at its end.
#[verifier::external_body]
pub(crate) fn push_char(text: &mut String, c: char)
    ensures
        final(text)@ == old(text)@.push(c),
{
    text.push(c)
}

/// The characters of `input` from `from` up to `to`, as a string.
pub fn text_of(input: &[char], from: usize, to: usize) -> (r: String)
    requires
        from <= to <= input@.len(),
    ensures
        r@ == input@.subrange(from as int, to as int),
{
    let mut out = String::new();
    let mut i: usize = from;
    while i < to
        invariant
            from <= i <= to <= input@.len(),
            out@ == input@.subrange(from as int, i as int),
        decreases to - i,
    {
        push_char(&mut out, input[i]);
        i = i + 1;
        assert(out@ =~= input@.subrange(from as int, i as int));
    }
    out
}

/// The characters of a string, in order.
pub fn chars_of(source: &str) -> (r: Vec<char>)
    ensures
        r@ == source@,
{
    broadcast use vstd::string::group_string_axioms;

    let mut out: Vec<char> = Vec::new();
    for c in it: source.chars()
        invariant
            it.seq() == source@,
            out@ == it.seq().take(it.index()),
    {
        out.push(c);
    }
    out
}

/// A reserved word stands at `i` when its letters do and no character that
/// could continue a term name follows them.
pub open spec fn word_ends(s: Seq<char>, i: int) -> bool {
    !(0 <= i < s.len() && is_term_continue(s[i]))
}

pub open spec fn reserved_at(s: Seq<char>, i: int) -> Option<(TokenView, int)> {
    if has(s, i, 'd') && has(s, i + 1, 'e') && has(s, i + 2, 'f') && word_ends(s, i + 3) {
        Some((TokenView::Def, i + 3))
    } else if has(s, i, 't') && has(s, i + 1, 'y') && has(s, i + 2, 'p') && has(s, i + 3, 'e')
        && word_ends(s, i + 4) {
        Some((TokenView::Type, i + 4))
    } else if has(s, i, 't') && has(s, i + 1, 'h') && has(s, i + 2, 'e') && has(s, i + 3, 'n')
        && word_ends(s, i + 4) {
        Some((TokenView::Then, i + 4))
    } else if has(s, i, 'e') && has(s, i + 1, 'l') && has(s, i + 2, 's') && has(s, i + 3, 'e')
        && word_ends(s, i + 4) {
        Some((TokenView::Else, i + 4))
    } else {
        None
    }
}

/// The punctuation tokens. `->` is tried before anything that starts with `-`.
pub open spec fn punctuation_at(s: Seq<char>, i: int) -> Option<(TokenView, int)> {
    if has(s, i, '-') && has(s, i + 1, '>') {
        Some((TokenView::Arrow, i + 2))
    } else if has(s, i, '=') {
        Some((TokenView::Eq, i + 1))
    } else if has(s, i, '\\') {
        Some((TokenView::Lambda, i + 1))
    } else if has(s, i, '.') {
        Some((TokenView::Dot, i + 1))
    } else if has(s, i, ',') {
        Some((TokenView::Comma, i + 1))
    } else if has(s, i, ':') {
        Some((TokenView::Colon, i + 1))
    } else if has(s, i, '|') {
        Some((TokenView::Pipe, i + 1))
    } else if has(s, i, '(') {
        Some((TokenView::LParen, i + 1))
    } else if has(s, i, ')') {
        Some((TokenView::RParen, i + 1))
    } else if has(s, i, '{') {
        Some((TokenView::LBrace, i + 1))
    } else if has(s, i, '}') {
        Some((TokenView::RBrace, i + 1))
    } else if has(s, i, '[') {
        Some((TokenView::LBracket, i + 1))
    } else if has(s, i, ']') {
        Some((TokenView::RBracket, i + 1))
    } else {
        None
    }
}

/// Reserved words and punctuation: the tokens without a payload.
pub open spec fn keyword_at(s: Seq<char>, i: int) -> Option<(TokenView, int)> {
    match reserved_at(s, i) {
        Some(found) => Some(found),
        None => punctuation_at(s, i),
    }
}

fn word_end(input: &[char], pos: usize) -> (r: bool)
    ensures
        r == word_ends(input@, pos as int),
{
    !(pos < input.len() && char_in_class(CharClass::TermContinue, input[pos]))
}

fn reserved(input: &[char], pos: usize) -> (r: Option<(Token, usize)>)
    requires
        pos <= input@.len(),
    ensures
        scanned(r, reserved_at(input@, pos as int)),
        r matches Some((_, end)) ==> pos < end <= input@.len(),
{
    if at(input, pos, 'd') && at(input, pos + 1, 'e') && at(input, pos + 2, 'f') && word_end(
        input,
        pos + 3,
    ) {
        Some((Token::Def, pos + 3))
    } else if at(input, pos, 't') && at(input, pos + 1, 'y') && at(input, pos + 2, 'p') && at(
        input,
        pos + 3,
        'e',
    ) && word_end(input, pos + 4) {
        Some((Token::Type, pos + 4))
    } else if at(input, pos, 't') && at(input, pos + 1, 'h') && at(input, pos + 2, 'e') && at(
        input,
        pos + 3,
        'n',
    ) && word_end(input, pos + 4) {
        Some((Token::Then, pos + 4))
    } else if at(input, pos, 'e') && at(input, pos + 1, 'l') && at(input, pos + 2, 's') && at(
        input,
        pos + 3,
        'e',
    ) && word_end(input, pos + 4) {
        Some((Token::Else, pos + 4))
    } else {
        None
    }
}

/// An executable scan agrees with a specified one: both fail, or both give
/// the same token and the same end.
pub open spec fn scanned(r: Option<(Token, usize)>, spec: Option<(TokenView, int)>) -> bool {
    match (r, spec) {
        (Some((token, end)), Some((view, spec_end))) => token@ == view && end == spec_end,
        (None, None) => true,
        _ => false,
    }
}

/// Scans a reserved word or a punctuation token at `pos`.
pub fn keyword(input: &[char], pos: usize) -> (r: Option<(Token, usize)>)
    requires
        pos <= input@.len(),
    ensures
        scanned(r, keyword_at(input@, pos as int)),
        r matches Some((_, end)) ==> pos < end <= input@.len(),
{
    match reserved(input, pos) {
        Some(found) => { return Some(found); },
        None => {},
    }
    if pos >= input.len() {
        return None;
    }
    let c = input[pos];
    if c == '-' && at(input, pos + 1, '>') {
        Some((Token::Arrow, pos + 2))
    } else if c == '=' {
        Some((Token::Eq, pos + 1))
    } else if c == '\\' {
        Some((Token::Lambda, pos + 1))
    } else if c == '.' {
        Some((Token::Dot, pos + 1))
    } else if c == ',' {
        Some((Token::Comma, pos + 1))
    } else if c == ':' {
        Some((Token::Colon, pos + 1))
    } else if c == '|' {
        Some((Token::Pipe, pos + 1))
    } else if c == '(' {
        Some((Token::LParen, pos + 1))
    } else if c == ')' {
        Some((Token::RParen, pos + 1))
    } else if c == '{' {
        Some((Token::LBrace, pos + 1))
    } else if c == '}' {
        Some((Token::RBrace, pos + 1))
    } else if c == '[' {
        Some((Token::LBracket, pos + 1))
    } else if c == ']' {
        Some((Token::RBracket, pos + 1))
    } else {
        None
    }
}

/// A term name: a lower-case letter or term punctuation, then letters,
/// digits and term punctuation.
pub open spec fn function_name_at(s: Seq<char>, i: int) -> Option<(Seq<char>, int)> {
    if 0 <= i < s.len() && is_term_start(s[i]) {
        let end = run_end(s, i + 1, CharClass::TermContinue);
        Some((s.subrange(i, end), end))
    } else {
        None
    }
}

/// A term token: a term name.
pub open spec fn term_at(s: Seq<char>, i: int) -> Option<(TokenView, int)> {
    match function_name_at(s, i) {
        Some((name, end)) => Some((TokenView::Term(name), end)),
        None => None,
    }
}

/// A module or type name: an upper-case letter, then letters and digits.
pub open spec fn module_at(s: Seq<char>, i: int) -> Option<(TokenView, int)> {
    if 0 <= i < s.len() && is_upper(s[i]) {
        let end = run_end(s, i + 1, CharClass::ModuleContinue);
        Some((TokenView::Module(s.subrange(i, end)), end))
    } else {
        None
    }
}

/// Scans a term name at `pos` and gives its text.
pub fn function_name(input: &[char], pos: usize) -> (r: Option<(String, usize)>)
    requires
        pos <= input@.len(),
    ensures
        match (r, function_name_at(input@, pos as int)) {
            (Some((name, end)), Some((spec_name, spec_end))) => name@ == spec_name && end
                == spec_end,
            (None, None) => true,
            _ => false,
        },
        r matches Some((_, end)) ==> pos < end <= input@.len(),
{
    if pos < input.len() && (('a' <= input[pos] && input[pos] <= 'z') || term_symbol(input[pos])) {
        let end = scan_run(input, pos + 1, CharClass::TermContinue);
        Some((text_of(input, pos, end), end))
    } else {
        None
    }
}

/// Scans a term token at `pos`.
pub fn term(input: &[char], pos: usize) -> (r: Option<(Token, usize)>)
    requires
        pos <= input@.len(),
    ensures
        scanned(r, term_at(input@, pos as int)),
        r matches Some((_, end)) ==> pos < end <= input@.len(),
{
    match function_name(input, pos) {
        Some((name, end)) => Some((Token::Term(name), end)),
        None => None,
    }
}

/// Scans a module or type name at `pos`.
pub fn module(input: &[char], pos: usize) -> (r: Option<(Token, usize)>)
    requires
        pos <= input@.len(),
    ensures
        scanned(r, module_at(input@, pos as int)),
        r matches Some((_, end)) ==> pos < end <= input@.len(),
{
    if pos < input.len() && 'A' <= input[pos] && input[pos] <= 'Z' {
        let end = scan_run(input, pos + 1, CharClass::ModuleContinue);
        Some((Token::Module(text_of(input, pos, end)), end))
    } else {
        None
    }
}

/// A comment runs from `#` through the end of its line, or to the end of
/// the input.
pub open spec fn comment_end(s: Seq<char>, i: int) -> Option<int> {
    if has(s, i, '#') {
        let stop = run_end(s, i + 1, CharClass::CommentBody);
        Some(if stop < s.len() { stop + 1 } else { stop })
    } else {
        None
    }
}

/// Scans a comment at `pos` and gives the position behind it.
pub fn comment(input: &[char], pos: usize) -> (r: Option<usize>)
    requires
        pos <= input@.len(),
    ensures
        match (r, comment_end(input@, pos as int)) {
            (Some(end), Some(spec_end)) => end == spec_end && pos < end <= input@.len(),
            (None, None) => true,
            _ => false,
        },
{
    if at(input, pos, '#') {
        let stop = scan_run(input, pos + 1, CharClass::CommentBody);
        if stop < input.len() {
            Some(stop + 1)
        } else {
            Some(stop)
        }
    } else {
        None
    }
}


/// The number that a decimal digit stands for.
pub open spec fn digit_value(c: char) -> nat {
    (c as int - '0' as int) as nat
}

/// The number that a sequence of decimal digits stands for.
pub open spec fn decimal_value(digits: Seq<char>) -> nat
    decreases digits.len(),
{
    if digits.len() == 0 {
        0
    } else {
        10 * decimal_value(digits.drop_last()) + digit_value(digits.last())
    }
}

/// Where the digits of a number at `i` start: behind its `-`, if it has one.
pub open spec fn number_start(s: Seq<char>, i: int) -> int {
    if has(s, i, '-') {
        i + 1
    } else {
        i
    }
}

/// The end of the integer text at `i`: an optional `-`, then either the
/// single digit `0` or a digit other than `0` followed by digits.
pub open spec fn integer_end(s: Seq<char>, i: int) -> Option<int> {
    let start = number_start(s, i);
    if has(s, start, '0') {
        Some(start + 1)
    } else if 0 <= start < s.len() && is_digit(s[start]) {
        Some(run_end(s, start, CharClass::Digit))
    } else {
        None
    }
}

/// The number that the integer text from `i` up to `end` stands for.
pub open spec fn integer_value(s: Seq<char>, i: int, end: int) -> int {
    let magnitude = decimal_value(s.subrange(number_start(s, i), end)) as int;
    if has(s, i, '-') {
        -magnitude
    } else {
        magnitude
    }
}

/// An integer literal at `i`: integer text whose number fits in 64 bits.
pub open spec fn integer_at(s: Seq<char>, i: int) -> Option<(i64, int)> {
    match integer_end(s, i) {
        Some(end) => if i64::MIN <= integer_value(s, i, end) <= i64::MAX {
            Some((integer_value(s, i, end) as i64, end))
        } else {
            None
        },
        None => None,
    }
}

/// A float literal at `i`: integer text, a `.`, and one or more digits. Its
/// value is its text.
pub open spec fn float_at(s: Seq<char>, i: int) -> Option<(Seq<char>, int)> {
    match integer_end(s, i) {
        Some(dot) => if has(s, dot, '.') && dot + 1 < s.len() && is_digit(s[dot + 1]) {
            let end = run_end(s, dot + 1, CharClass::Digit);
            Some((s.subrange(i, end), end))
        } else {
            None
        },
        None => None,
    }
}

/// A string literal at `i`: `"`, any characters but `"`, and `"`.
pub open spec fn string_at(s: Seq<char>, i: int) -> Option<(Seq<char>, int)> {
    if has(s, i, '"') {
        let stop = run_end(s, i + 1, CharClass::StringBody);
        if stop < s.len() {
            Some((s.subrange(i + 1, stop), stop + 1))
        } else {
            None
        }
    } else {
        None
    }
}

/// A character literal at `i`: `'`, any one character, and `'`.
pub open spec fn character_at(s: Seq<char>, i: int) -> Option<(char, int)> {
    if has(s, i, '\'') && has(s, i + 2, '\'') {
        Some((s[i + 1], i + 3))
    } else {
        None
    }
}

/// A literal at `i`: a float, else an integer, else a string, else a
/// character.
pub open spec fn literal_at(s: Seq<char>, i: int) -> Option<(TokenView, int)> {
    if let Some((text, end)) = float_at(s, i) {
        Some((TokenView::Literal(LiteralView::Float(text)), end))
    } else if let Some((n, end)) = integer_at(s, i) {
        Some((TokenView::Literal(LiteralView::Int(n)), end))
    } else if let Some((text, end)) = string_at(s, i) {
        Some((TokenView::Literal(LiteralView::String(text)), end))
    } else if let Some((c, end)) = character_at(s, i) {
        Some((TokenView::Literal(LiteralView::Char(c)), end))
    } else {
        None
    }
}

/// Appending a digit multiplies the number by ten and adds the digit.
pub proof fn lemma_decimal_value_push(s: Seq<char>, from: int, to: int)
    requires
        0 <= from <= to < s.len(),
    ensures
        decimal_value(s.subrange(from, to + 1)) == 10 * decimal_value(s.subrange(from, to))
            + digit_value(s[to]),
{
    assert(s.subrange(from, to + 1).drop_last() =~= s.subrange(from, to));
}

fn integer_text(input: &[char], pos: usize) -> (r: Option<usize>)
    requires
        pos <= input@.len(),
    ensures
        match (r, integer_end(input@, pos as int)) {
            (Some(end), Some(spec_end)) => end == spec_end && pos < end <= input@.len(),
            (None, None) => true,
            _ => false,
        },
        r is Some ==> forall|j: int|
            number_start(input@, pos as int) <= j < r.unwrap() ==> is_digit(#[trigger] input@[j]),
{
    let start = if at(input, pos, '-') {
        pos + 1
    } else {
        pos
    };
    if at(input, start, '0') {
        Some(start + 1)
    } else if start < input.len() && '0' <= input[start] && input[start] <= '9' {
        proof {
            lemma_run_end(input@, start as int, CharClass::Digit);
        }
        Some(scan_run(input, start, CharClass::Digit))
    } else {
        None
    }
}

/// The number that the digits from `from` up to `to` stand for, unless it
/// is over `u64::MAX`.
fn magnitude(input: &[char], from: usize, to: usize) -> (r: Option<u64>)
    requires
        from <= to <= input@.len(),
        forall|j: int| from <= j < to ==> is_digit(#[trigger] input@[j]),
    ensures
        match r {
            Some(m) => m == decimal_value(input@.subrange(from as int, to as int)),
            None => decimal_value(input@.subrange(from as int, to as int)) > u64::MAX,
        },
{
    let mut acc: u64 = 0;
    let mut fits = true;
    let mut i: usize = from;
    assert(input@.subrange(from as int, from as int) =~= Seq::<char>::empty());
    while i < to
        invariant
            from <= i <= to <= input@.len(),
            forall|j: int| from <= j < to ==> is_digit(#[trigger] input@[j]),
            fits ==> acc == decimal_value(input@.subrange(from as int, i as int)),
            !fits ==> decimal_value(input@.subrange(from as int, i as int)) > u64::MAX,
        decreases to - i,
    {
        let c = input[i];
        assert(is_digit(input@[i as int]));
        let d: u64 = (c as u32 - '0' as u32) as u64;
        proof {
            lemma_decimal_value_push(input@, from as int, i as int);
        }
        if fits {
            if acc > (u64::MAX - d) / 10 {
                fits = false;
            } else {
                acc = acc * 10 + d;
            }
        }
        i = i + 1;
    }
    if fits {
        Some(acc)
    } else {
        None
    }
}

/// Scans an integer literal at `pos`.
pub fn integer(input: &[char], pos: usize) -> (r: Option<(i64, usize)>)
    requires
        pos <= input@.len(),
    ensures
        match (r, integer_at(input@, pos as int)) {
            (Some((n, end)), Some((spec_n, spec_end))) => n == spec_n && end == spec_end,
            (None, None) => true,
            _ => false,
        },
        r matches Some((_, end)) ==> pos < end <= input@.len(),
{
    let end = match integer_text(input, pos) {
        Some(end) => end,
        None => { return None; },
    };
    let negative = at(input, pos, '-');
    let start = if negative {
        pos + 1
    } else {
        pos
    };
    match magnitude(input, start, end) {
        Some(m) => {
            if negative {
                if m < 0x8000_0000_0000_0000 {
                    Some((-(m as i64), end))
                } else if m == 0x8000_0000_0000_0000 {
                    Some((i64::MIN, end))
                } else {
                    None
                }
            } else if m <= 0x7fff_ffff_ffff_ffff {
                Some((m as i64, end))
            } else {
                None
            }
        },
        None => None,
    }
}

/// An executable scan of a text agrees with a specified one.
pub open spec fn scanned_text(r: Option<(String, usize)>, spec: Option<(Seq<char>, int)>) -> bool {
    match (r, spec) {
        (Some((text, end)), Some((spec_text, spec_end))) => text@ == spec_text && end == spec_end,
        (None, None) => true,
        _ => false,
    }
}

/// Scans a float literal at `pos` and gives its text.
pub fn float(input: &[char], pos: usize) -> (r: Option<(String, usize)>)
    requires
        pos <= input@.len(),
    ensures
        scanned_text(r, float_at(input@, pos as int)),
        r matches Some((_, end)) ==> pos < end <= input@.len(),
{
    let dot = match integer_text(input, pos) {
        Some(dot) => dot,
        None => { return None; },
    };
    if at(input, dot, '.') && dot + 1 < input.len() && '0' <= input[dot + 1] && input[dot + 1]
        <= '9' {
        let end = scan_run(input, dot + 1, CharClass::Digit);
        Some((text_of(input, pos, end), end))
    } else {
        None
    }
}

/// Scans a string literal at `pos` and gives what stands between its quotes.
pub fn string(input: &[char], pos: usize) -> (r: Option<(String, usize)>)
    requires
        pos <= input@.len(),
    ensures
        scanned_text(r, string_at(input@, pos as int)),
        r matches Some((_, end)) ==> pos < end <= input@.len(),
{
    if at(input, pos, '"') {
        let stop = scan_run(input, pos + 1, CharClass::StringBody);
        if stop < input.len() {
            Some((text_of(input, pos + 1, stop), stop + 1))
        } else {
            None
        }
    } else {
        None
    }
}

/// Scans a character literal at `pos`.
pub fn character(input: &[char], pos: usize) -> (r: Option<(char, usize)>)
    requires
        pos <= input@.len(),
    ensures
        match (r, character_at(input@, pos as int)) {
            (Some((c, end)), Some((spec_c, spec_end))) => c == spec_c && end == spec_end,
            (None, None) => true,
            _ => false,
        },
        r matches Some((_, end)) ==> pos < end <= input@.len(),
{
    if at(input, pos, '\'') && input.len() - pos > 2 && input[pos + 2] == '\'' {
        Some((input[pos + 1], pos + 3))
    } else {
        None
    }
}

/// Scans a literal at `pos`.
pub fn literal(input: &[char], pos: usize) -> (r: Option<(Token, usize)>)
    requires
        pos <= input@.len(),
    ensures
        scanned(r, literal_at(input@, pos as int)),
        r matches Some((_, end)) ==> pos < end <= input@.len(),
{
    if let Some((text, end)) = float(input, pos) {
        return Some((Token::Literal(Literal::Float(text)), end));
    }
    if let Some((n, end)) = integer(input, pos) {
        return Some((Token::Literal(Literal::Int(n)), end));
    }
    if let Some((text, end)) = string(input, pos) {
        return Some((Token::Literal(Literal::String(text)), end));
    }
    if let Some((c, end)) = character(input, pos) {
        return Some((Token::Literal(Literal::Char(c)), end));
    }
    None
}


/// The span from `start` up to `end`.
pub open spec fn span_of(start: int, end: int) -> Span {
    Span { start: start as usize, end: end as usize }
}

/// The token at `i`, or the reason why none stands there.
///
/// Reserved words and punctuation come first, then literals, then term
/// names, then module names. Integer text whose number does not fit in 64
/// bits is an error, not a term name.
pub open spec fn token_at(s: Seq<char>, i: int) -> Result<(TokenView, int), LexError> {
    if let Some(found) = keyword_at(s, i) {
        Ok(found)
    } else if let Some(found) = literal_at(s, i) {
        Ok(found)
    } else if let Some(end) = integer_end(s, i) {
        Err(LexError { span: span_of(i, end), expected: Expected::IntInRange })
    } else if let Some(found) = term_at(s, i) {
        Ok(found)
    } else if let Some(found) = module_at(s, i) {
        Ok(found)
    } else if has(s, i, '"') {
        Err(LexError { span: span_of(i, s.len() as int), expected: Expected::StringEnd })
    } else if has(s, i, '\'') {
        Err(LexError { span: span_of(i, i + 1), expected: Expected::CharEnd })
    } else {
        Err(LexError { span: span_of(i, i + 1), expected: Expected::Token })
    }
}

/// A token covers at least one character and ends inside the input.
pub proof fn lemma_token_at_advances(s: Seq<char>, i: int)
    ensures
        token_at(s, i) matches Ok((_, end)) ==> 0 <= i < end <= s.len(),
{
    if 0 <= i < s.len() {
        lemma_run_end(s, i + 1, CharClass::TermContinue);
        lemma_run_end(s, i + 1, CharClass::ModuleContinue);
        lemma_run_end(s, i + 1, CharClass::StringBody);
        let start = number_start(s, i);
        if start < s.len() {
            lemma_run_end(s, start, CharClass::Digit);
            if let Some(dot) = integer_end(s, i) {
                if dot + 1 <= s.len() {
                    lemma_run_end(s, dot + 1, CharClass::Digit);
                }
            }
        }
    }
}

/// Scans one token at `pos`.
pub fn token(input: &[char], pos: usize) -> (r: Result<(Token, usize), LexError>)
    requires
        pos < input@.len(),
    ensures
        match (r, token_at(input@, pos as int)) {
            (Ok((t, end)), Ok((view, spec_end))) => t@ == view && end == spec_end,
            (Err(e), Err(spec_e)) => e == spec_e,
            _ => false,
        },
        r matches Ok((_, end)) ==> pos < end <= input@.len(),
{
    if let Some(found) = keyword(input, pos) {
        return Ok(found);
    }
    if let Some(found) = literal(input, pos) {
        return Ok(found);
    }
    if let Some(end) = integer_text(input, pos) {
        return Err(LexError { span: Span { start: pos, end }, expected: Expected::IntInRange });
    }
    if let Some(found) = term(input, pos) {
        return Ok(found);
    }
    if let Some(found) = module(input, pos) {
        return Ok(found);
    }
    let len = input.len();
    if at(input, pos, '"') {
        Err(LexError { span: Span { start: pos, end: len }, expected: Expected::StringEnd })
    } else if at(input, pos, '\'') {
        Err(LexError { span: Span { start: pos, end: pos + 1 }, expected: Expected::CharEnd })
    } else {
        Err(LexError { span: Span { start: pos, end: pos + 1 }, expected: Expected::Token })
    }
}

/// The end of the whitespace and comments that start at `i`.
pub open spec fn trivia_end(s: Seq<char>, i: int) -> int
    decreases s.len() - i,
{
    if 0 <= i < s.len() && is_space(s[i]) {
        trivia_end(s, i + 1)
    } else if let Some(end) = comment_end(s, i) {
        proof {
            lemma_run_end(s, i + 1, CharClass::CommentBody);
        }
        trivia_end(s, end)
    } else {
        i
    }
}

/// Whitespace and comments end at or behind their start, inside the input,
/// and at a character that starts neither.
pub proof fn lemma_trivia_end(s: Seq<char>, i: int)
    requires
        0 <= i <= s.len(),
    ensures
        i <= trivia_end(s, i) <= s.len(),
        trivia_end(s, i) < s.len() ==> !is_space(s[trivia_end(s, i)]) && s[trivia_end(s, i)]
            != '#',
    decreases s.len() - i,
{
    if i < s.len() && is_space(s[i]) {
        lemma_trivia_end(s, i + 1);
    } else if let Some(end) = comment_end(s, i) {
        lemma_run_end(s, i + 1, CharClass::CommentBody);
        lemma_trivia_end(s, end);
    }
}

/// Walks over whitespace and comments from `pos`.
pub fn skip_trivia(input: &[char], pos: usize) -> (end: usize)
    requires
        pos <= input@.len(),
    ensures
        end == trivia_end(input@, pos as int),
        pos <= end <= input@.len(),
{
    let mut i: usize = pos;
    loop
        invariant
            pos <= i <= input@.len(),
            trivia_end(input@, pos as int) == trivia_end(input@, i as int),
        ensures
            pos <= i <= input@.len(),
            i == trivia_end(input@, pos as int),
        decreases input@.len() - i,
    {
        if i < input.len() && (input[i] == ' ' || input[i] == '\t' || input[i] == '\n' || input[i]
            == '\r') {
            i = i + 1;
        } else {
            match comment(input, i) {
                Some(end) => { i = end; },
                None => { break; },
            }
        }
    }
    i
}

/// The tokens of the input from `i` on, or the first failure.
pub open spec fn lex_from(s: Seq<char>, i: int) -> Result<Seq<TokenView>, LexError>
    decreases s.len() - i,
{
    let start = trivia_end(s, i);
    if 0 <= i <= start < s.len() {
        match token_at(s, start) {
            Ok((first, end)) => {
                proof {
                    lemma_token_at_advances(s, start);
                }
                match lex_from(s, end) {
                    Ok(rest) => Ok(seq![first] + rest),
                    Err(e) => Err(e),
                }
            },
            Err(e) => Err(e),
        }
    } else {
        Ok(Seq::empty())
    }
}

/// The tokens of a source text, or the first failure.
pub open spec fn lex(s: Seq<char>) -> Result<Seq<TokenView>, LexError> {
    lex_from(s, 0)
}

/// An executable lexer's answer agrees with the specified one.
pub open spec fn lexed(r: Result<Vec<Token>, LexError>, spec: Result<Seq<TokenView>, LexError>) -> bool {
    match (r, spec) {
        (Ok(tokens), Ok(views)) => token_views(tokens@) == views,
        (Err(e), Err(spec_e)) => e == spec_e,
        _ => false,
    }
}

/// What is still to come, put behind what was found already.
pub open spec fn found_then(
    found: Seq<TokenView>,
    rest: Result<Seq<TokenView>, LexError>,
) -> Result<Seq<TokenView>, LexError> {
    match rest {
        Ok(more) => Ok(found + more),
        Err(e) => Err(e),
    }
}

/// Turns a character sequence into its tokens.
pub fn tokens(input: &[char]) -> (r: Result<Vec<Token>, LexError>)
    ensures
        lexed(r, lex(input@)),
{
    let mut out: Vec<Token> = Vec::new();
    let mut pos: usize = 0;
    assert(found_then(token_views(out@), lex_from(input@, 0)) == lex(input@)) by {
        assert(token_views(out@) =~= Seq::<TokenView>::empty());
        match lex_from(input@, 0) {
            Ok(more) => { assert(Seq::<TokenView>::empty() + more =~= more); },
            Err(_) => {},
        }
    }
    loop
        invariant
            pos <= input@.len(),
            found_then(token_views(out@), lex_from(input@, pos as int)) == lex(input@),
        ensures
            lexed(Ok(out), lex(input@)),
        decreases input@.len() - pos,
    {
        let start = skip_trivia(input, pos);
        if start >= input.len() {
            proof {
                assert(lex_from(input@, pos as int) == Ok::<Seq<TokenView>, LexError>(Seq::empty()));
                assert(token_views(out@) + Seq::<TokenView>::empty() =~= token_views(out@));
            }
            break;
        }
        match token(input, start) {
            Ok((found, end)) => {
                proof {
                    let before = token_views(out@);
                    let after = token_views(out@.push(found));
                    assert(after =~= before + seq![found@]);
                    match lex_from(input@, end as int) {
                        Ok(rest) => {
                            assert(before + (seq![found@] + rest) =~= after + rest);
                        },
                        Err(_) => {},
                    }
                }
                out.push(found);
                pos = end;
            },
            Err(e) => {
                return Err(e);
            },
        }
    }
    Ok(out)
}

/// The lexer: turns a source text into its tokens, or reports where and
/// why it could not.
pub fn root(source: &str) -> (r: Result<Vec<Token>, LexError>)
    ensures
        lexed(r, lex(source@)),
{
    let input = chars_of(source);
    tokens(input.as_slice())
}


/// A text that is an integer literal from its first character to its last.
pub open spec fn is_integer_text(s: Seq<char>) -> bool {
    integer_end(s, 0) == Some(s.len() as int)
}

/// A text that is a float literal from its first character to its last.
pub open spec fn is_float_text(s: Seq<char>) -> bool {
    float_at(s, 0) matches Some((_, end)) && end == s.len()
}

/// Behind the last token of the input the lexer finds nothing more.
pub proof fn lemma_lex_at_end(s: Seq<char>)
    ensures
        lex_from(s, s.len() as int) == Ok::<Seq<TokenView>, LexError>(Seq::empty()),
{
}

/// The lexer turns a text that is an integer literal whose number fits in
/// 64 bits into that one literal.
pub proof fn lemma_lex_integer(s: Seq<char>)
    requires
        is_integer_text(s),
        i64::MIN <= integer_value(s, 0, s.len() as int) <= i64::MAX,
    ensures
        lex(s) == Ok::<Seq<TokenView>, LexError>(
            seq![
                TokenView::Literal(LiteralView::Int(integer_value(s, 0, s.len() as int) as i64)),
            ],
        ),
{
    let token = TokenView::Literal(LiteralView::Int(integer_value(s, 0, s.len() as int) as i64));
    assert(token_at(s, 0) == Ok::<(TokenView, int), LexError>((token, s.len() as int)));
    lemma_lex_at_end(s);
    assert(seq![token] + Seq::<TokenView>::empty() =~= seq![token]);
}

/// No integer literal starts with `+`, and none goes on behind a leading
/// `0`: a text that starts with `+`, or with `0` or `-0` and has more
/// characters, is no integer literal.
pub proof fn lemma_integer_rejects(s: Seq<char>)
    requires
        has(s, 0, '+') || (has(s, 0, '0') && s.len() > 1) || (has(s, 0, '-') && has(s, 1, '0')
            && s.len() > 2),
    ensures
        !is_integer_text(s),
        integer_at(s, 0) matches Some((_, end)) ==> end < s.len(),
{
}

/// The lexer turns a text that is a float literal into that one literal,
/// whose value is the text.
pub proof fn lemma_lex_float(s: Seq<char>)
    requires
        is_float_text(s),
    ensures
        lex(s) == Ok::<Seq<TokenView>, LexError>(seq![TokenView::Literal(LiteralView::Float(s))]),
{
    let token = TokenView::Literal(LiteralView::Float(s));
    assert(s.subrange(0, s.len() as int) =~= s);
    assert(token_at(s, 0) == Ok::<(TokenView, int), LexError>((token, s.len() as int)));
    lemma_lex_at_end(s);
    assert(seq![token] + Seq::<TokenView>::empty() =~= seq![token]);
}

/// No float literal starts with `+` or with `.`, and an integer literal is
/// no float literal.
pub proof fn lemma_float_rejects(s: Seq<char>)
    requires
        has(s, 0, '+') || has(s, 0, '.') || is_integer_text(s),
    ensures
        !is_float_text(s),
        is_integer_text(s) ==> float_at(s, 0) is None,
{
}

/// Any one character between two `'` is a character literal, and the lexer
/// turns it into that one literal.
pub proof fn lemma_lex_character(c: char)
    ensures
        character_at(seq!['\'', c, '\''], 0) == Some((c, 3int)),
        lex(seq!['\'', c, '\'']) == Ok::<Seq<TokenView>, LexError>(
            seq![TokenView::Literal(LiteralView::Char(c))],
        ),
{
    let s = seq!['\'', c, '\''];
    let token = TokenView::Literal(LiteralView::Char(c));
    assert(token_at(s, 0) == Ok::<(TokenView, int), LexError>((token, 3int)));
    lemma_lex_at_end(s);
    assert(seq![token] + Seq::<TokenView>::empty() =~= seq![token]);
}

/// What does not start with `'` is no character literal.
pub proof fn lemma_character_rejects(s: Seq<char>, i: int)
    requires
        has(s, i, '\'') == false,
    ensures
        character_at(s, i) is None,
{
}

/// A comment produces no tokens: the tokens from its `#` on are the
/// tokens from behind its line on.
pub proof fn lemma_comment_gives_no_tokens(s: Seq<char>, i: int)
    requires
        0 <= i,
        has(s, i, '#'),
    ensures
        comment_end(s, i) is Some,
        lex_from(s, i) == lex_from(s, comment_end(s, i).unwrap()),
{
    let end = comment_end(s, i).unwrap();
    lemma_run_end(s, i + 1, CharClass::CommentBody);
    lemma_trivia_end(s, end);
    assert(trivia_end(s, i) == trivia_end(s, end));
}

/// Whitespace produces no tokens.
pub proof fn lemma_space_gives_no_tokens(s: Seq<char>, i: int)
    requires
        0 <= i < s.len(),
        is_space(s[i]),
    ensures
        lex_from(s, i) == lex_from(s, i + 1),
{
    lemma_trivia_end(s, i + 1);
    assert(trivia_end(s, i) == trivia_end(s, i + 1));
}

/// A text that is nothing but one comment has no tokens.
pub proof fn lemma_lex_comment(s: Seq<char>)
    requires
        has(s, 0, '#'),
        forall|j: int| 0 < j < s.len() - 1 ==> s[j] != '\n',
    ensures
        lex(s) == Ok::<Seq<TokenView>, LexError>(Seq::empty()),
{
    lemma_comment_gives_no_tokens(s, 0);
    lemma_run_end(s, 1, CharClass::CommentBody);
    let stop = run_end(s, 1, CharClass::CommentBody);
    if stop < s.len() - 1 {
        assert(s[stop] == '\n');
    }
    assert(comment_end(s, 0).unwrap() == s.len());
    lemma_lex_at_end(s);
}

} // verus!
