//! The machine that runs term sequences.
//!
//! The machine works in steps. Each step carries out one expression of the
//! innermost code body, or hands control to the host: for an operation of
//! the host, and for a literal whose value the host decides. The host does
//! its part and asks for the next step. What a step does is given by a
//! function on a model of the machine's state.

use crate::engine::env::Env;
use crate::engine::error::{Error, ErrorView};
use crate::engine::expr::{compile_all, compiled_all, expr_views, lemma_quote_view, Expr, ExprView};
use crate::engine::function::{Function, FunctionView};
use crate::engine::stack::Stack;
use crate::engine::value::{NativeObject, Value, ValueView};
use crate::parsing::lexer::{Literal, LiteralView};
use crate::parsing::parser;
use crate::parsing::parser::{Ast, Definition};
use vstd::prelude::*;
use vstd::string::StringExecFns;

verus! {

/// A code body that is being run, and where in it the machine stands.
#[derive(Debug)]
pub struct Frame {
    body: Vec<Expr>,
    next: usize,
}

/// The mathematical value of a [`Frame`].
pub struct FrameView {
    pub body: Seq<ExprView>,
    pub next: int,
}

impl View for Frame {
    type V = FrameView;

    closed spec fn view(&self) -> FrameView {
        FrameView { body: expr_views(self.body@), next: self.next as int }
    }
}

/// How a step ended.
#[derive(Debug)]
pub enum Step<H> {
    /// The step was carried out; there may be more to run.
    Continue,
    /// Nothing is left to run.
    Done,
    /// The host is to run this handler, then to go on.
    Native(H),
    /// The host is to push the value of this literal, then to go on.
    Literal(Literal),
    /// The step failed; the machine is as it was before the step.
    Failed(Error),
}

/// The mathematical value of a [`Step`].
pub enum StepView<H> {
    Continue,
    Done,
    Native(H),
    Literal(LiteralView),
    Failed(ErrorView),
}

impl<H> View for Step<H> {
    type V = StepView<H>;

    open spec fn view(&self) -> StepView<H> {
        match self {
            Step::Continue => StepView::Continue,
            Step::Done => StepView::Done,
            Step::Native(h) => StepView::Native(*h),
            Step::Literal(l) => StepView::Literal(l@),
            Step::Failed(e) => StepView::Failed(e@),
        }
    }
}

/// The model of the machine's state.
#[verifier::ext_equal]
pub struct State<N, H> {
    /// The operand stack; the last value is the top.
    pub stack: Seq<ValueView<N>>,
    /// The locals that can be seen: names to values.
    pub locals: Map<Seq<char>, ValueView<N>>,
    /// The functions that can be seen: names to functions.
    pub definitions: Map<Seq<char>, FunctionView<H>>,
    /// The code bodies that are being run; the last one is the innermost.
    pub control: Seq<FrameView>,
}

/// The values that can be seen from a scope of locals.
pub open spec fn value_bindings<N: NativeObject>(env: Env<Value<N>>) -> Map<
    Seq<char>,
    ValueView<N>,
> {
    Map::new(
        |key: Seq<char>| env.lookup(key) is Some,
        |key: Seq<char>| env.lookup(key).unwrap()@,
    )
}

/// The functions that can be seen from a scope of the registry.
pub open spec fn function_bindings<H: Copy>(env: Env<Function<H>>) -> Map<
    Seq<char>,
    FunctionView<H>,
> {
    Map::new(
        |key: Seq<char>| env.lookup(key) is Some,
        |key: Seq<char>| env.lookup(key).unwrap()@,
    )
}

/// The views of a sequence of frames, in order.
pub open spec fn frame_views(v: Seq<Frame>) -> Seq<FrameView> {
    Seq::new(v.len(), |i: int| v[i]@)
}

/// The failure of a binding form that finds too few values.
pub open spec fn too_few_values() -> ErrorView {
    ErrorView::StackError("Not enough values to bind"@)
}

/// The state in which the innermost body stands one expression further.
pub open spec fn advanced_of<N, H>(s: State<N, H>) -> State<N, H> {
    let frame = s.control.last();
    State {
        control: s.control.drop_last().push(FrameView { body: frame.body, next: frame.next + 1 }),
        ..s
    }
}

/// The locals after each of `names` was bound to the value at its place in
/// `values`, the first name first: a name that occurs twice keeps the later
/// value.
pub open spec fn bound<N>(
    locals: Map<Seq<char>, ValueView<N>>,
    names: Seq<Seq<char>>,
    values: Seq<ValueView<N>>,
) -> Map<Seq<char>, ValueView<N>>
    decreases names.len(),
{
    if names.len() == 0 || values.len() == 0 {
        locals
    } else {
        bound(locals, names.drop_last(), values.drop_last()).insert(names.last(), values.last())
    }
}

/// What a binding form does: with k names it takes the k values on top of
/// the stack and binds the names to them, the last name to the top. With
/// fewer than k values it fails.
pub open spec fn bind_of<N, H>(s: State<N, H>, names: Seq<Seq<char>>) -> (State<N, H>, StepView<H>) {
    let k = names.len() as int;
    let n = s.stack.len() as int;
    if n < k {
        (s, StepView::Failed(too_few_values()))
    } else {
        (
            State {
                stack: s.stack.take(n - k),
                locals: bound(s.locals, names, s.stack.subrange(n - k, n)),
                ..advanced_of(s)
            },
            StepView::Continue,
        )
    }
}

/// What invoking the function `name` does: a function of the language has
/// its body run next, in the same locals; an operation of the host is
/// handed to the host. A name that the registry does not know fails.
pub open spec fn invoke_of<N, H>(s: State<N, H>, name: Seq<char>) -> (State<N, H>, StepView<H>) {
    if s.definitions.contains_key(name) {
        match s.definitions[name] {
            FunctionView::Fox { items, .. } => (
                State {
                    control: advanced_of(s).control.push(FrameView { body: items, next: 0 }),
                    ..s
                },
                StepView::Continue,
            ),
            FunctionView::Native { handler, .. } => (advanced_of(s), StepView::Native(handler)),
        }
    } else {
        (s, StepView::Failed(ErrorView::UnknownSymbol(name)))
    }
}

/// What a symbol does: a local that holds data has its value pushed; a
/// local that holds a symbol invokes the function of that name; a name
/// that is no local invokes the function of its own name.
pub open spec fn resolve_of<N, H>(s: State<N, H>, name: Seq<char>) -> (State<N, H>, StepView<H>) {
    if s.locals.contains_key(name) {
        match s.locals[name] {
            ValueView::Symbol(function) => invoke_of(s, function),
            data => (State { stack: s.stack.push(data), ..advanced_of(s) }, StepView::Continue),
        }
    } else {
        invoke_of(s, name)
    }
}

/// The state after pushing `value` and moving one expression further.
pub open spec fn pushed_of<N, H>(s: State<N, H>, value: ValueView<N>) -> State<N, H> {
    State { stack: s.stack.push(value), ..advanced_of(s) }
}

/// What one step does.
///
/// With nothing to run the machine is done. A body that has been run to its
/// end is left. Else the next expression of the innermost body is carried
/// out. A step that fails leaves the state as it is.
pub open spec fn step_of<N, H>(s: State<N, H>) -> (State<N, H>, StepView<H>) {
    if s.control.len() == 0 {
        (s, StepView::Done)
    } else {
        let frame = s.control.last();
        if 0 <= frame.next < frame.body.len() {
            match frame.body[frame.next] {
                ExprView::Bool(b) => (pushed_of(s, ValueView::Bool(b)), StepView::Continue),
                ExprView::Num(n) => (pushed_of(s, ValueView::Num(n)), StepView::Continue),
                ExprView::Char(c) => (pushed_of(s, ValueView::Char(c)), StepView::Continue),
                ExprView::Literal(LiteralView::Char(c)) => (
                    pushed_of(s, ValueView::Char(c)),
                    StepView::Continue,
                ),
                ExprView::Literal(l) => (advanced_of(s), StepView::Literal(l)),
                ExprView::Quote(body) => (pushed_of(s, ValueView::Quote(body)), StepView::Continue),
                ExprView::Local(names) => bind_of(s, names),
                ExprView::Symbol(name) => resolve_of(s, name),
            }
        } else {
            (State { control: s.control.drop_last(), ..s }, StepView::Continue)
        }
    }
}

/// What up to `limit` steps do: the machine steps until a step does not
/// end in `Continue`, or until it has made `limit` steps.
pub open spec fn run_of<N, H>(s: State<N, H>, limit: nat) -> (State<N, H>, StepView<H>)
    decreases limit,
{
    if limit == 0 {
        (s, StepView::Continue)
    } else {
        let (next, how) = step_of(s);
        if how is Continue {
            run_of(next, (limit - 1) as nat)
        } else {
            (next, how)
        }
    }
}

/// The state in which `body` is the only code to run and no local is bound.
pub open spec fn begun_of<N, H>(s: State<N, H>, body: Seq<ExprView>) -> State<N, H> {
    State { locals: Map::empty(), control: seq![FrameView { body, next: 0 }], ..s }
}

/// What calling `f` does: a function of the language has its body put in
/// front of what is being run; an operation of the host is handed to the
/// host.
pub open spec fn call_of<N, H>(s: State<N, H>, f: FunctionView<H>) -> (State<N, H>, StepView<H>) {
    match f {
        FunctionView::Fox { items, .. } => (
            State { control: s.control.push(FrameView { body: items, next: 0 }), ..s },
            StepView::Continue,
        ),
        FunctionView::Native { handler, .. } => (s, StepView::Native(handler)),
    }
}

/// The registry after the definitions of a program were added to it, in
/// order: each function definition binds its name to its compiled body, a
/// later one overwriting an earlier one; a type definition adds nothing.
pub open spec fn defined_of<H>(
    definitions: Map<Seq<char>, FunctionView<H>>,
    program: Seq<parser::DefinitionView>,
) -> Map<Seq<char>, FunctionView<H>>
    decreases program.len(),
{
    if program.len() == 0 {
        definitions
    } else {
        let before = defined_of(definitions, program.drop_last());
        match program.last() {
            parser::DefinitionView::Function(f) => before.insert(
                f.name,
                FunctionView::Fox { name: f.name, items: compiled_all(f.body) },
            ),
            parser::DefinitionView::Type(_) => before,
        }
    }
}

/// After a binding, a name that does not occur again behind its place is
/// bound to the value at its place.
pub proof fn lemma_bound<N>(
    locals: Map<Seq<char>, ValueView<N>>,
    names: Seq<Seq<char>>,
    values: Seq<ValueView<N>>,
    j: int,
)
    requires
        names.len() == values.len(),
        0 <= j < names.len(),
        forall|later: int| j < later < names.len() ==> names[later] != names[j],
    ensures
        bound(locals, names, values).contains_key(names[j]),
        bound(locals, names, values)[names[j]] == values[j],
    decreases names.len(),
{
    if j < names.len() - 1 {
        lemma_bound(locals, names.drop_last(), values.drop_last(), j);
    }
}

/// A binding leaves the names that it does not bind as they were.
pub proof fn lemma_bound_others<N>(
    locals: Map<Seq<char>, ValueView<N>>,
    names: Seq<Seq<char>>,
    values: Seq<ValueView<N>>,
    other: Seq<char>,
)
    requires
        names.len() == values.len(),
        forall|j: int| 0 <= j < names.len() ==> names[j] != other,
    ensures
        bound(locals, names, values).contains_key(other) == locals.contains_key(other),
        locals.contains_key(other) ==> bound(locals, names, values)[other] == locals[other],
    decreases names.len(),
{
    if names.len() > 0 {
        lemma_bound_others(locals, names.drop_last(), values.drop_last(), other);
    }
}

/// A binding form with k names, on a stack of at least k values, takes
/// exactly the k values on top; it binds the last name to the top of the
/// stack, and every name that does not occur again behind its place to the
/// value at its place among those k.
pub proof fn lemma_bind<N, H>(s: State<N, H>, names: Seq<Seq<char>>)
    requires
        s.control.len() > 0,
        0 <= s.control.last().next < s.control.last().body.len(),
        s.control.last().body[s.control.last().next] == ExprView::Local(names),
        0 < names.len() <= s.stack.len(),
    ensures
        step_of(s).1 == StepView::<H>::Continue,
        step_of(s).0.stack == s.stack.take(s.stack.len() - names.len()),
        step_of(s).0.definitions == s.definitions,
        step_of(s).0.locals.contains_key(names.last()),
        step_of(s).0.locals[names.last()] == s.stack.last(),
        forall|j: int|
            0 <= j < names.len() && (forall|later: int|
                j < later < names.len() ==> names[later] != names[j]) ==> step_of(
                s,
            ).0.locals.contains_key(#[trigger] names[j]) && step_of(s).0.locals[names[j]]
                == s.stack[s.stack.len() - names.len() + j],
{
    let n = s.stack.len() as int;
    let k = names.len() as int;
    let values = s.stack.subrange(n - k, n);
    lemma_bound(s.locals, names, values, k - 1);
    assert forall|j: int|
        0 <= j < names.len() && (forall|later: int|
            j < later < names.len() ==> names[later] != names[j]) implies step_of(
        s,
    ).0.locals.contains_key(#[trigger] names[j]) && step_of(s).0.locals[names[j]] == s.stack[n - k
        + j] by {
        lemma_bound(s.locals, names, values, j);
    }
}

/// A binding form with more names than there are values on the stack
/// fails and leaves the machine as it is.
pub proof fn lemma_bind_underflow<N, H>(s: State<N, H>, names: Seq<Seq<char>>)
    requires
        s.control.len() > 0,
        0 <= s.control.last().next < s.control.last().body.len(),
        s.control.last().body[s.control.last().next] == ExprView::Local(names),
        s.stack.len() < names.len(),
    ensures
        step_of(s) == (s, StepView::<H>::Failed(too_few_values())),
{
}

/// A symbol that neither the locals nor the registry know fails with
/// `UnknownSymbol` and its name, and leaves the machine, its stack too, as
/// it is; so does a run that reaches it.
pub proof fn lemma_unknown_symbol<N, H>(s: State<N, H>, name: Seq<char>, limit: nat)
    requires
        s.control.len() > 0,
        0 <= s.control.last().next < s.control.last().body.len(),
        s.control.last().body[s.control.last().next] == ExprView::Symbol(name),
        !s.locals.contains_key(name),
        !s.definitions.contains_key(name),
        limit > 0,
    ensures
        step_of(s) == (s, StepView::<H>::Failed(ErrorView::UnknownSymbol(name))),
        run_of(s, limit) == (s, StepView::<H>::Failed(ErrorView::UnknownSymbol(name))),
{
}

/// A local that holds the name of a function that the registry does not
/// know fails with `UnknownSymbol` and that name.
pub proof fn lemma_unknown_function<N, H>(s: State<N, H>, name: Seq<char>, function: Seq<char>)
    requires
        s.control.len() > 0,
        0 <= s.control.last().next < s.control.last().body.len(),
        s.control.last().body[s.control.last().next] == ExprView::Symbol(name),
        s.locals.contains_key(name),
        s.locals[name] == ValueView::<N>::Symbol(function),
        !s.definitions.contains_key(function),
    ensures
        step_of(s) == (s, StepView::<H>::Failed(ErrorView::UnknownSymbol(function))),
{
}

/// Evaluating an empty body does nothing: the machine is done after one
/// step, with the stack and the registry as they were.
pub proof fn lemma_empty_body<N, H>(s: State<N, H>, limit: nat)
    requires
        limit >= 2,
    ensures
        run_of(begun_of(s, Seq::empty()), limit).1 == StepView::<H>::Done,
        run_of(begun_of(s, Seq::empty()), limit).0.stack == s.stack,
        run_of(begun_of(s, Seq::empty()), limit).0.definitions == s.definitions,
        run_of(begun_of(s, Seq::empty()), limit).0.control == Seq::<FrameView>::empty(),
{
    let begun = begun_of(s, Seq::empty());
    let left = step_of(begun).0;
    assert(left.control =~= Seq::<FrameView>::empty());
    assert(step_of(begun).1 == StepView::<H>::Continue);
    assert(step_of(left) == (left, StepView::<H>::Done));
    assert(run_of(left, (limit - 1) as nat) == (left, StepView::<H>::Done));
}

/// No step changes the registry, and a step that fails changes nothing.
pub proof fn lemma_step_keeps<N, H>(s: State<N, H>)
    ensures
        step_of(s).0.definitions == s.definitions,
        step_of(s).1 is Failed ==> step_of(s).0 == s,
        step_of(s).1 is Done ==> step_of(s).0 == s,
{
}

/// The machine: the registry of functions, the operand stack, the locals,
/// and the code that is being run.
#[verifier::reject_recursive_types(N)]
#[verifier::reject_recursive_types(H)]
pub struct Engine<N, H> {
    pub definitions: Env<Function<H>>,
    pub stack: Stack<N>,
    pub locals: Env<Value<N>>,
    /// The code bodies that are being run; the last one is the innermost.
    pub control: Vec<Frame>,
}

impl<N: NativeObject, H: Copy> View for Engine<N, H> {
    type V = State<N, H>;

    open spec fn view(&self) -> State<N, H> {
        State {
            stack: self.stack@,
            locals: value_bindings(self.locals),
            definitions: function_bindings(self.definitions),
            control: frame_views(self.control@),
        }
    }
}

impl<N: NativeObject, H: Copy> Engine<N, H> {
    /// The code bodies that are being run; the last one is the innermost.
    pub open spec fn frames(&self) -> Seq<FrameView> {
        frame_views(self.control@)
    }

    /// A machine with an empty stack, no function, no local and nothing to
    /// run.
    pub fn new() -> (r: Self)
        ensures
            r@ == (State::<N, H> {
                stack: Seq::empty(),
                locals: Map::empty(),
                definitions: Map::empty(),
                control: Seq::empty(),
            }),
    {
        let r = Engine {
            definitions: Env::new(None),
            stack: Stack::new(),
            locals: Env::new(None),
            control: Vec::new(),
        };
        proof {
            assert(r@.locals =~= Map::<Seq<char>, ValueView<N>>::empty());
            assert(r@.definitions =~= Map::<Seq<char>, FunctionView<H>>::empty());
            assert(r@.control =~= Seq::<FrameView>::empty());
        }
        r
    }

    /// Moves the innermost body one expression further.
    fn advance(&mut self)
        requires
            old(self).frames().len() > 0,
            0 <= old(self).frames().last().next < old(self).frames().last().body.len(),
        ensures
            final(self)@ == advanced_of(old(self)@),
            final(self).stack == old(self).stack,
            final(self).locals == old(self).locals,
            final(self).definitions == old(self).definitions,
    {
        let ghost before = self.control@;
        match self.control.pop() {
            Some(frame) => {
                let next = if frame.next < frame.body.len() {
                    frame.next + 1
                } else {
                    frame.next
                };
                self.control.push(Frame { body: frame.body, next });
                assert(self@.control =~= advanced_of(old(self)@).control);
            },
            None => {},
        }
    }

    /// Carries out a binding form.
    fn bind(&mut self, names: &Vec<String>) -> (r: Option<Error>)
        requires
            old(self).frames().len() > 0,
            0 <= old(self).frames().last().next < old(self).frames().last().body.len(),
        ensures
            match r {
                Some(e) => bind_of(old(self)@, parser::string_views(names@)) == (
                    old(self)@,
                    StepView::<H>::Failed(e@),
                ) && final(self)@ == old(self)@,
                None => bind_of(old(self)@, parser::string_views(names@)) == (
                    final(self)@,
                    StepView::<H>::Continue,
                ),
            },
    {
        let k = names.len();
        if self.stack.len() < k {
            return Some(Error::StackError(String::from_str("Not enough values to bind")));
        }
        let ghost start = self@;
        let ghost before = self.stack@;
        let ghost n = before.len() as int;
        let ghost all = parser::string_views(names@);
        let ghost values = before.subrange(n - k, n);
        let mut taken: Vec<Value<N>> = Vec::new();
        assert(before.take(n) =~= before);
        while taken.len() < k
            invariant
                taken@.len() <= k <= n,
                n == before.len(),
                self.stack@ == before.take(n - taken@.len()),
                forall|i: int| 0 <= i < taken@.len() ==> (#[trigger] taken@[i])@ == before[n - 1 - i],
                self.locals == old(self).locals,
                self.definitions == old(self).definitions,
                self.control == old(self).control,
            decreases k - taken@.len(),
        {
            match self.stack.pop() {
                Ok(value) => {
                    assert(before.take(n - taken@.len()).drop_last() =~= before.take(
                        n - taken@.len() - 1,
                    ));
                    taken.push(value);
                },
                Err(e) => {
                    return Some(e);
                },
            }
        }
        let mut j: usize = 0;
        assert(all.take(0) =~= Seq::<Seq<char>>::empty());
        while j < k
            invariant
                j <= k,
                k == names@.len(),
                taken@.len() == k,
                k <= n,
                n == before.len(),
                all == parser::string_views(names@),
                values == before.subrange(n - k, n),
                forall|i: int| 0 <= i < k ==> (#[trigger] taken@[i])@ == before[n - 1 - i],
                value_bindings(self.locals) == bound(
                    start.locals,
                    all.take(j as int),
                    values.take(j as int),
                ),
                self.stack@ == before.take(n - k),
                self.definitions == old(self).definitions,
                self.control == old(self).control,
            decreases k - j,
        {
            proof {
                assert(all.take(j + 1).drop_last() =~= all.take(j as int));
                assert(values.take(j + 1).drop_last() =~= values.take(j as int));
                assert(all.take(j + 1).last() == names@[j as int]@);
                assert(values.take(j + 1).last() == before[n - k + j]);
            }
            let ghost seen = value_bindings(self.locals);
            let value = taken[k - 1 - j].clone();
            self.locals.set(names[j].clone(), value);
            assert(value_bindings(self.locals) =~= seen.insert(names@[j as int]@, value@));
            j = j + 1;
        }
        proof {
            assert(all.take(k as int) =~= all);
            assert(values.take(k as int) =~= values);
        }
        self.advance();
        None
    }

    /// Invokes the function `name`.
    fn invoke(&mut self, name: &str) -> (r: Step<H>)
        requires
            old(self).frames().len() > 0,
            0 <= old(self).frames().last().next < old(self).frames().last().body.len(),
        ensures
            (final(self)@, r@) == invoke_of(old(self)@, name@),
    {
        match self.definitions.get(name) {
            Some(Function::Fox { items, .. }) => {
                self.advance();
                let ghost before = self.control@;
                self.control.push(Frame { body: items, next: 0 });
                assert(self@.control =~= advanced_of(old(self)@).control.push(
                    FrameView { body: expr_views(items@), next: 0 },
                ));
                Step::Continue
            },
            Some(Function::Native { handler, .. }) => {
                self.advance();
                Step::Native(handler)
            },
            None => Step::Failed(Error::UnknownSymbol(String::from_str(name))),
        }
    }

    /// Carries out a symbol.
    fn resolve(&mut self, name: &str) -> (r: Step<H>)
        requires
            old(self).frames().len() > 0,
            0 <= old(self).frames().last().next < old(self).frames().last().body.len(),
        ensures
            (final(self)@, r@) == resolve_of(old(self)@, name@),
    {
        match self.locals.get(name) {
            Some(local) => {
                let function = match local.as_symbol() {
                    Ok(function) => Some(String::from_str(function)),
                    Err(_) => None,
                };
                match function {
                    Some(function) => self.invoke(function.as_str()),
                    None => {
                        self.stack.push(local);
                        self.advance();
                        Step::Continue
                    },
                }
            },
            None => self.invoke(name),
        }
    }

    /// Makes one step.
    pub fn step(&mut self) -> (r: Step<H>)
        ensures
            (final(self)@, r@) == step_of(old(self)@),
    {
        let n = self.control.len();
        if n == 0 {
            return Step::Done;
        }
        let next = self.control[n - 1].next;
        if next >= self.control[n - 1].body.len() {
            self.control.pop();
            assert(self@.control =~= old(self)@.control.drop_last());
            return Step::Continue;
        }
        let e = self.control[n - 1].body[next].duplicate();
        match e {
            Expr::Bool(b) => {
                self.stack.push_bool(b);
                self.advance();
                Step::Continue
            },
            Expr::Num(bits) => {
                self.stack.push_num(bits);
                self.advance();
                Step::Continue
            },
            Expr::Char(c) => {
                self.stack.push_char(c);
                self.advance();
                Step::Continue
            },
            Expr::Literal(Literal::Char(c)) => {
                self.stack.push_char(c);
                self.advance();
                Step::Continue
            },
            Expr::Literal(l) => {
                self.advance();
                Step::Literal(l)
            },
            Expr::Quote(body) => {
                proof {
                    lemma_quote_view(body);
                }
                self.stack.push(Value::quote(body));
                self.advance();
                Step::Continue
            },
            Expr::Local(names) => match self.bind(&names) {
                Some(e) => Step::Failed(e),
                None => Step::Continue,
            },
            Expr::Symbol(name) => self.resolve(name.as_str()),
        }
    }

    /// Makes steps until one does not end in `Continue`, and `limit` steps
    /// at most. An answer of `Continue` says that the limit was reached.
    pub fn run(&mut self, limit: usize) -> (r: Step<H>)
        ensures
            (final(self)@, r@) == run_of(old(self)@, limit as nat),
    {
        let mut left: usize = limit;
        while left > 0
            invariant
                run_of(old(self)@, limit as nat) == run_of(self@, left as nat),
            decreases left,
        {
            let how = self.step();
            match how {
                Step::Continue => {
                    left = left - 1;
                },
                _ => {
                    return how;
                },
            }
        }
        Step::Continue
    }

    /// Puts `body` in front of what is being run: it is run next, in the
    /// same locals, and what was being run goes on behind it.
    pub fn enter(&mut self, body: Vec<Expr>)
        ensures
            final(self)@ == (State {
                control: old(self)@.control.push(FrameView { body: expr_views(body@), next: 0 }),
                ..old(self)@
            }),
    {
        self.control.push(Frame { body, next: 0 });
        assert(self@.control =~= old(self)@.control.push(
            FrameView { body: expr_views(body@), next: 0 },
        ));
    }

    /// Calls `f`.
    pub fn call(&mut self, f: &Function<H>) -> (r: Step<H>)
        ensures
            (final(self)@, r@) == call_of(old(self)@, f@),
    {
        match f {
            Function::Fox { items, .. } => {
                self.enter(crate::engine::expr::clone_exprs(items));
                Step::Continue
            },
            Function::Native { handler, .. } => Step::Native(*handler),
        }
    }

    /// Adds the function definitions of a program to the registry.
    pub fn load(&mut self, program: &Ast)
        ensures
            final(self)@ == (State {
                definitions: defined_of(old(self)@.definitions, program@.defs),
                ..old(self)@
            }),
    {
        let ghost all = program@.defs;
        let mut i: usize = 0;
        assert(all.take(0) =~= Seq::<parser::DefinitionView>::empty());
        while i < program.defs.len()
            invariant
                i <= program.defs@.len(),
                all == program@.defs,
                self.stack == old(self).stack,
                self.locals == old(self).locals,
                self.control == old(self).control,
                function_bindings(self.definitions) == defined_of(
                    old(self)@.definitions,
                    all.take(i as int),
                ),
            decreases program.defs@.len() - i,
        {
            proof {
                assert(all.take(i + 1).drop_last() =~= all.take(i as int));
                assert(all.take(i + 1).last() == program.defs@[i as int]@);
            }
            match &program.defs[i] {
                Definition::Function(f) => {
                    let ghost seen = function_bindings(self.definitions);
                    let function = Function::fox(f.name.clone(), compile_all(&f.body));
                    self.definitions.set(f.name.clone(), function);
                    assert(function_bindings(self.definitions) =~= seen.insert(
                        f.name@,
                        function@,
                    ));
                },
                Definition::Type(_) => {},
            }
            i = i + 1;
        }
        assert(all.take(i as int) =~= all);
    }

    /// Starts to evaluate `exprs`: on the stack as it is, with no local
    /// bound and nothing else to run, and for `limit` steps at most.
    pub fn eval(&mut self, exprs: &[Expr], limit: usize) -> (r: Step<H>)
        ensures
            (final(self)@, r@) == run_of(begun_of(old(self)@, expr_views(exprs@)), limit as nat),
    {
        let mut body: Vec<Expr> = Vec::new();
        let mut i: usize = 0;
        while i < exprs.len()
            invariant
                i <= exprs@.len(),
                body@.len() == i,
                forall|j: int| 0 <= j < i ==> (#[trigger] body@[j])@ == exprs@[j]@,
            decreases exprs@.len() - i,
        {
            body.push(exprs[i].duplicate());
            i = i + 1;
        }
        assert(expr_views(body@) =~= expr_views(exprs@));
        self.locals = Env::new(None);
        self.control = Vec::new();
        self.control.push(Frame { body, next: 0 });
        proof {
            let begun = begun_of(old(self)@, expr_views(exprs@));
            assert(self@.locals =~= begun.locals);
            assert(self@.control =~= begun.control);
        }
        self.run(limit)
    }
}

impl<H: Copy> Function<H> {
    /// Calls this function on `engine`: a function of the language has its
    /// body put in front of what the machine runs; an operation of the host
    /// is handed to the host.
    pub fn call<N: NativeObject>(&self, engine: &mut Engine<N, H>) -> (r: Step<H>)
        ensures
            (final(engine)@, r@) == call_of(old(engine)@, self@),
    {
        engine.call(self)
    }
}

} // verus!
