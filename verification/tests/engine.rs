use fox::engine::engine::{Engine, Step};
use fox::engine::env::Env;
use fox::engine::error::Error;
use fox::engine::expr::{compile, compile_all, Expr};
use fox::engine::function::Function;
use fox::engine::stack::Stack;
use fox::engine::value::{NativeObject, Value, ValueData};
use fox::parsing::lexer;
use fox::parsing::lexer::Literal;
use fox::parsing::parser;

/// The objects of the test host.
#[derive(Debug)]
enum Obj {
    List(Vec<Value<Obj>>),
    Text(String),
}

fn show(v: &Value<Obj>) -> String {
    match v.data_ref() {
        ValueData::Bool(b) => b.to_string(),
        ValueData::Num(bits) => f64::from_bits(*bits).to_string(),
        ValueData::Char(c) => c.to_string(),
        ValueData::Symbol(s) => s.clone(),
        ValueData::Quote(_) => "{..}".to_string(),
        ValueData::Native(o) => o.repr(),
    }
}

impl NativeObject for Obj {
    fn repr(&self) -> String {
        match self {
            Obj::List(items) => {
                let items: Vec<String> = items.iter().map(show).collect();
                format!("[{}]", items.join(", "))
            }
            Obj::Text(t) => format!("{:?}", t),
        }
    }

    fn cloned(&self) -> Self {
        match self {
            Obj::List(items) => Obj::List(items.clone()),
            Obj::Text(t) => Obj::Text(t.clone()),
        }
    }
}

type Machine = Engine<Obj, Handler>;

#[derive(Clone, Copy, Debug)]
struct Handler(fn(&mut Machine) -> Result<(), Error>);

fn num(n: f64) -> Value<Obj> {
    Value::num(n.to_bits())
}

/// Runs the machine to its end: runs the handlers and pushes the literals.
fn drive(engine: &mut Machine, first: Step<Handler>) -> Result<(), Error> {
    let mut how = first;
    loop {
        match how {
            Step::Done => return Ok(()),
            Step::Failed(e) => return Err(e),
            Step::Continue => {}
            Step::Native(h) => (h.0)(engine)?,
            Step::Literal(Literal::Int(n)) => engine.stack.push(num(n as f64)),
            Step::Literal(Literal::Float(t)) => engine.stack.push(num(t.parse().unwrap())),
            Step::Literal(Literal::String(t)) => engine.stack.push_native(Obj::Text(t)),
            Step::Literal(Literal::Char(c)) => engine.stack.push_char(c),
        }
        how = engine.run(64);
    }
}

fn eval(engine: &mut Machine, exprs: &[Expr]) -> Result<(), Error> {
    let first = engine.eval(exprs, 64);
    drive(engine, first)
}

fn list_new(engine: &mut Machine) -> Result<(), Error> {
    engine.stack.push_native(Obj::List(vec![]));
    Ok(())
}

fn list_push(engine: &mut Machine) -> Result<(), Error> {
    let v = engine.stack.pop()?;
    let mut obj = engine.stack.pop()?;
    match obj.as_native_mut()? {
        Obj::List(items) => items.push(v),
        _ => return Err(Error::CastError("List".to_string())),
    }
    engine.stack.push(obj);
    Ok(())
}

fn push_true(engine: &mut Machine) -> Result<(), Error> {
    engine.stack.push_bool(true);
    Ok(())
}

fn push_false(engine: &mut Machine) -> Result<(), Error> {
    engine.stack.push_bool(false);
    Ok(())
}

/// Pops two quotations and a bool, and runs the first if the bool holds,
/// else the second.
fn branch(engine: &mut Machine) -> Result<(), Error> {
    let no = engine.stack.pop()?;
    let yes = engine.stack.pop()?;
    let b = engine.stack.pop()?.as_bool()?;
    let body = if b { yes.as_quote()? } else { no.as_quote()? };
    engine.enter(body.clone());
    Ok(())
}

fn host() -> Machine {
    let mut engine = Engine::new();
    let natives: [(&str, fn(&mut Machine) -> Result<(), Error>); 7] = [
        ("List.new", list_new),
        ("List.push", list_push),
        ("Core.List.empty", list_new),
        ("Core.List.push", list_push),
        ("Core.??", branch),
        ("true", push_true),
        ("false", push_false),
    ];
    for (name, f) in natives {
        engine
            .definitions
            .set(name.to_string(), Function::native(name, Handler(f)));
    }
    engine
}

/// Lexes, parses and loads `source`, then runs its `main`.
fn run_main(engine: &mut Machine, source: &str) -> Result<(), Error> {
    let tokens = lexer::root(source).unwrap();
    let ast = parser::root(&tokens).unwrap();
    engine.load(&ast);
    eval(engine, &[Expr::symbol("main")])
}

fn shown(engine: &mut Machine) -> Vec<String> {
    let mut out = vec![];
    while let Ok(v) = engine.stack.pop() {
        out.insert(0, show(&v));
    }
    out
}

#[test]
fn tests() {
    let mut engine = host();
    eval(
        &mut engine,
        &[
            Expr::symbol("List.new"),
            Expr::num(42.0f64.to_bits()),
            Expr::symbol("List.push"),
        ],
    )
    .unwrap();
    assert_eq!(shown(&mut engine), vec!["[42]".to_string()]);
}

#[test]
fn list_literal_runs() {
    let mut engine = host();
    run_main(&mut engine, "def main = [1, 2]").unwrap();
    assert_eq!(shown(&mut engine), vec!["[1, 2]".to_string()]);
}

#[test]
fn empty_list_literal_runs() {
    let mut engine = host();
    run_main(&mut engine, "def main = [] [[], [1]]").unwrap();
    assert_eq!(shown(&mut engine), vec!["[]", "[[], [1]]"]);
}

#[test]
fn conditional_runs_one_branch() {
    let mut engine = host();
    run_main(&mut engine, "def main = true then { 1 } else { 2 }").unwrap();
    assert_eq!(shown(&mut engine), vec!["1".to_string()]);
    run_main(&mut engine, "def main = false then { 1 } else { 2 } 3").unwrap();
    assert_eq!(shown(&mut engine), vec!["2".to_string(), "3".to_string()]);
}

#[test]
fn locals_bind_the_top_to_the_last_name() {
    let mut engine = host();
    run_main(&mut engine, "def main = 10 20 -> x, y x").unwrap();
    assert_eq!(shown(&mut engine), vec!["10".to_string()]);
    run_main(&mut engine, "def main = 10 20 -> x, y y x").unwrap();
    assert_eq!(shown(&mut engine), vec!["20".to_string(), "10".to_string()]);
    run_main(&mut engine, "def main = 1 2 -> x, x x").unwrap();
    assert_eq!(shown(&mut engine), vec!["2".to_string()]);
}

#[test]
fn unknown_symbol_fails() {
    let mut engine = host();
    assert_eq!(
        run_main(&mut engine, "def main = nope"),
        Err(Error::UnknownSymbol("nope".to_string()))
    );
    assert_eq!(engine.stack.len(), 0);
    assert_eq!(
        eval(&mut engine, &[Expr::bool(true), Expr::symbol("Core.nope")]),
        Err(Error::UnknownSymbol("Core.nope".to_string()))
    );
    assert_eq!(shown(&mut engine), vec!["true".to_string()]);
}

#[test]
fn binding_on_an_empty_stack_fails() {
    let mut engine = host();
    let r = run_main(&mut engine, "def main = -> a");
    assert!(matches!(r, Err(Error::StackError(_))));
    let r = run_main(&mut engine, "def main = 1 -> a, b");
    assert!(matches!(r, Err(Error::StackError(_))));
    assert_eq!(shown(&mut engine), vec!["1".to_string()]);
}

#[test]
fn empty_body_is_a_no_op() {
    let mut engine = host();
    engine.stack.push_char('x');
    eval(&mut engine, &[]).unwrap();
    assert_eq!(shown(&mut engine), vec!["x".to_string()]);
}

#[test]
fn words_are_inlined_and_nest() {
    let mut engine = host();
    run_main(
        &mut engine,
        "def two = 2\ndef pair = two two\ndef main = pair 'c' pair",
    )
    .unwrap();
    assert_eq!(shown(&mut engine), vec!["2", "2", "c", "2", "2"]);
}

#[test]
fn symbol_valued_local_invokes_the_function() {
    let mut engine = host();
    engine.load(&parser::root(&lexer::root("def two = 2").unwrap()).unwrap());
    let first = engine.eval(&[Expr::Local(vec!["f".to_string()]), Expr::symbol("f")], 64);
    // nothing to bind: the stack is empty
    assert!(matches!(first, Step::Failed(Error::StackError(_))));
    engine.stack.push_symbol("two".to_string());
    eval(
        &mut engine,
        &[Expr::Local(vec!["f".to_string()]), Expr::symbol("f")],
    )
    .unwrap();
    assert_eq!(shown(&mut engine), vec!["2".to_string()]);
    engine.stack.push_symbol("missing".to_string());
    assert_eq!(
        eval(
            &mut engine,
            &[Expr::Local(vec!["f".to_string()]), Expr::symbol("f")],
        ),
        Err(Error::UnknownSymbol("missing".to_string()))
    );
}

#[test]
fn quotation_is_pushed_not_run() {
    let mut engine = host();
    run_main(&mut engine, "def main = { nope } 'a'").unwrap();
    assert_eq!(shown(&mut engine), vec!["{..}", "a"]);
}

#[test]
fn run_stops_at_the_limit() {
    let mut engine = host();
    engine.load(&parser::root(&lexer::root("def spin = spin").unwrap()).unwrap());
    let how = engine.eval(&[Expr::symbol("spin")], 100);
    assert!(matches!(how, Step::Continue));
    let how = engine.run(100);
    assert!(matches!(how, Step::Continue));
}

#[test]
fn step_by_step() {
    let mut engine = host();
    let how = engine.eval(&[Expr::char('a'), Expr::symbol("true")], 0);
    assert!(matches!(how, Step::Continue));
    assert_eq!(engine.stack.len(), 0);
    assert!(matches!(engine.step(), Step::Continue));
    assert_eq!(engine.stack.len(), 1);
    assert!(matches!(engine.step(), Step::Native(_)));
    assert!(matches!(engine.step(), Step::Continue));
    assert!(matches!(engine.step(), Step::Done));
    assert!(matches!(engine.step(), Step::Done));
}

#[test]
fn push_then_pop() {
    let mut stack: Stack<Obj> = Stack::new();
    assert_eq!(stack.pop().unwrap_err(), Error::StackError("Stack is empty".to_string()));
    assert_eq!(stack.peek().unwrap_err(), Error::StackError("Stack is empty".to_string()));
    stack.push_num(7.5f64.to_bits());
    stack.push_bool(false);
    assert_eq!(stack.peek().unwrap().as_bool(), Ok(false));
    assert_eq!(stack.pop().unwrap().as_bool(), Ok(false));
    assert_eq!(stack.pop().unwrap().as_num(), Ok(7.5f64.to_bits()));
    assert_eq!(stack.len(), 0);
}

#[test]
fn copy_on_write() {
    let mut stack: Stack<Obj> = Stack::new();
    stack.push_native(Obj::List(vec![num(1.0)]));
    let seen = stack.peek().unwrap();
    let before = show(&seen);
    let mut popped = stack.pop().unwrap();
    match popped.as_native_mut().unwrap() {
        Obj::List(items) => items.push(num(2.0)),
        _ => unreachable!(),
    }
    assert_eq!(show(&popped), "[1, 2]");
    assert_eq!(show(&seen), before);
    assert_eq!(before, "[1]");
}

#[test]
fn unshared_value_is_mutated_in_place() {
    let mut v: Value<Obj> = Value::native(Obj::List(vec![]));
    match v.as_native_mut().unwrap() {
        Obj::List(items) => items.push(num(3.0)),
        _ => unreachable!(),
    }
    assert_eq!(show(&v), "[3]");
    let mut b: Value<Obj> = Value::bool(true);
    assert_eq!(
        b.as_native_mut().unwrap_err(),
        Error::CastError("Native".to_string())
    );
    assert_eq!(b.as_bool(), Ok(true));
}

#[test]
fn typed_accessors() {
    let v: Value<Obj> = Value::char('x');
    assert_eq!(v.as_char(), Ok('x'));
    assert_eq!(v.as_bool(), Err(Error::CastError("Bool".to_string())));
    assert_eq!(v.as_num(), Err(Error::CastError("Num".to_string())));
    assert_eq!(v.as_symbol(), Err(Error::CastError("Symbol".to_string())));
    assert_eq!(
        v.as_quote().unwrap_err(),
        Error::CastError("Quote".to_string())
    );
    assert_eq!(
        v.as_native().unwrap_err(),
        Error::CastError("Native".to_string())
    );
    let s: Value<Obj> = Value::symbol("f");
    assert_eq!(s.as_symbol(), Ok("f"));
    assert_eq!(s.as_char(), Err(Error::CastError("Char".to_string())));
}

#[test]
fn env_looks_through_parents() {
    let mut outer: Env<u64> = Env::new(None);
    outer.set("a".to_string(), 1);
    outer.set("b".to_string(), 2);
    let mut inner = Env::new(Some(Box::new(outer)));
    inner.set("a".to_string(), 10);
    assert_eq!(inner.get("a"), Some(10));
    assert_eq!(inner.get("b"), Some(2));
    assert_eq!(inner.get("c"), None);
    assert!(inner.has("b"));
    assert!(!inner.has("c"));
    inner.set("a".to_string(), 11);
    assert_eq!(inner.get("a"), Some(11));
}

#[test]
fn error_messages() {
    assert_eq!(
        Error::StackError("Stack is empty".to_string()).message(),
        "Stack error: Stack is empty"
    );
    assert_eq!(
        Error::CastError("Bool".to_string()).message(),
        "Downcast error: expected Bool"
    );
    assert_eq!(
        Error::UnknownSymbol("nope".to_string()).message(),
        "The symbol `nope` is not defined"
    );
}

#[test]
fn compile_qualifies_terms() {
    assert_eq!(
        compile(&parser::Expr::term("Core.List.push")),
        Expr::symbol("Core.List.push")
    );
    assert_eq!(compile(&parser::Expr::term("x")), Expr::symbol("x"));
    assert_eq!(
        compile_all(&vec![
            parser::Expr::Literal(Literal::Char('c')),
            parser::Expr::Literal(Literal::Int(3)),
            parser::Expr::Quote(vec![parser::Expr::term("A.b")]),
            parser::Expr::Local(vec!["n".to_string()]),
        ]),
        vec![
            Expr::char('c'),
            Expr::Literal(Literal::Int(3)),
            Expr::Quote(vec![Expr::symbol("A.b")]),
            Expr::Local(vec!["n".to_string()]),
        ]
    );
}

#[test]
fn call_enters_a_body_or_hands_back_the_handler() {
    let mut engine = host();
    let f: Function<Handler> = Function::fox("f".to_string(), vec![Expr::bool(true)]);
    assert_eq!(f.name(), "f");
    assert!(matches!(engine.call(&f), Step::Continue));
    assert!(matches!(engine.step(), Step::Continue));
    assert_eq!(engine.stack.len(), 1);
    let g = Function::native("g", Handler(push_true));
    assert!(matches!(g.call(&mut engine), Step::Native(_)));
}
