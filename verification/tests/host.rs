use fox::engine::error::Error;
use fox::engine::expr::{show_literal, Expr};
use fox::engine::value::{Cast, NativeObject, Value, ValueData};
use fox::parsing::lexer::Literal;
use fox::stdlib::list::List;

fn show_num(bits: u64) -> String {
    f64::from_bits(bits).to_string()
}

/// The objects of a host that carries lists and counters.
#[derive(Debug)]
enum Thing {
    Items(List<Thing>),
    Counter(u32),
}

impl NativeObject for Thing {
    fn repr(&self) -> String {
        match self {
            Thing::Items(list) => list.repr(&show_num),
            Thing::Counter(n) => format!("#{}", n),
        }
    }

    fn cloned(&self) -> Self {
        match self {
            Thing::Items(list) => Thing::Items(list.cloned()),
            Thing::Counter(n) => Thing::Counter(*n),
        }
    }
}

impl Cast<List<Thing>> for Thing {
    fn cast_ref(&self) -> Option<&List<Thing>> {
        match self {
            Thing::Items(list) => Some(list),
            _ => None,
        }
    }

    fn cast_mut(&mut self) -> Option<&mut List<Thing>> {
        match self {
            Thing::Items(list) => Some(list),
            _ => None,
        }
    }
}

impl Cast<u32> for Thing {
    fn cast_ref(&self) -> Option<&u32> {
        match self {
            Thing::Counter(n) => Some(n),
            _ => None,
        }
    }

    fn cast_mut(&mut self) -> Option<&mut u32> {
        match self {
            Thing::Counter(n) => Some(n),
            _ => None,
        }
    }
}

fn num(n: f64) -> Value<Thing> {
    Value::num(n.to_bits())
}

#[test]
fn value_repr() {
    let show = |v: Value<Thing>| v.data_ref().repr(&show_num);
    assert_eq!(show(Value::bool(true)), "true");
    assert_eq!(show(Value::bool(false)), "false");
    assert_eq!(show(num(42.0)), "42");
    assert_eq!(show(num(-1.5)), "-1.5");
    assert_eq!(show(Value::char('x')), "x");
    assert_eq!(show(Value::symbol("Core.f")), "Core.f");
    assert_eq!(show(Value::quote(vec![Expr::bool(true)])), "{..}");
    assert_eq!(show(Value::native(Thing::Counter(7))), "#7");
}

#[test]
fn list_repr() {
    assert_eq!(List::<Thing>(vec![]).repr(&show_num), "[]");
    assert_eq!(List::<Thing>(vec![num(1.0)]).repr(&show_num), "[1]");
    let inner = Value::native(Thing::Items(List(vec![Value::char('a'), Value::bool(true)])));
    assert_eq!(
        List(vec![num(1.0), inner, Value::symbol("s")]).repr(&show_num),
        "[1, [a, true], s]"
    );
}

#[test]
fn list_cloned_shares_its_values() {
    let list: List<Thing> = List(vec![num(1.0), Value::char('b')]);
    let copy = list.cloned();
    assert_eq!(copy.repr(&show_num), "[1, b]");
    assert_eq!(list.repr(&show_num), "[1, b]");
}

#[test]
fn expr_repr() {
    let show = |e: Expr| e.repr(&show_num);
    assert_eq!(show(Expr::bool(true)), "true");
    assert_eq!(show(Expr::num(2.5f64.to_bits())), "2.5");
    assert_eq!(show(Expr::char('c')), "c");
    assert_eq!(show(Expr::symbol("f")), "f");
    assert_eq!(show(Expr::Literal(Literal::Int(-120))), "-120");
    assert_eq!(show(Expr::Literal(Literal::Float("1.50".to_string()))), "1.50");
    assert_eq!(show(Expr::Literal(Literal::String("a b".to_string()))), "a b");
    assert_eq!(show(Expr::Local(vec![])), "->");
    assert_eq!(show(Expr::Local(vec!["a".to_string()])), "-> a");
    assert_eq!(
        show(Expr::Local(vec!["a".to_string(), "b".to_string(), "c".to_string()])),
        "-> a, b, c"
    );
    assert_eq!(show(Expr::Quote(vec![])), "{..}");
}

#[test]
fn literal_text() {
    assert_eq!(show_literal(&Literal::Int(0)), "0");
    assert_eq!(show_literal(&Literal::Int(7)), "7");
    assert_eq!(show_literal(&Literal::Int(i64::MAX)), "9223372036854775807");
    assert_eq!(show_literal(&Literal::Int(i64::MIN)), "-9223372036854775808");
    assert_eq!(show_literal(&Literal::Char('q')), "q");
}

#[test]
fn typed_access() {
    let v: Value<Thing> = Value::native(Thing::Counter(3));
    assert_eq!(v.as_native_typed::<u32>("u32"), Ok(&3));
    assert_eq!(
        v.as_native_typed::<List<Thing>>("List").unwrap_err(),
        Error::CastError("List".to_string())
    );
    let b: Value<Thing> = Value::bool(true);
    assert_eq!(
        b.as_native_typed::<u32>("u32"),
        Err(Error::CastError("Native".to_string()))
    );
}

#[test]
fn typed_mutation_leaves_other_handles_alone() {
    let mut v: Value<Thing> = Value::native(Thing::Counter(3));
    let other = v.clone();
    *v.as_native_typed_mut::<u32>("u32").unwrap() += 1;
    assert_eq!(v.as_native_typed::<u32>("u32"), Ok(&4));
    assert_eq!(other.as_native_typed::<u32>("u32"), Ok(&3));
    assert_eq!(
        v.as_native_typed_mut::<List<Thing>>("List").unwrap_err(),
        Error::CastError("List".to_string())
    );
    let mut b: Value<Thing> = Value::char('c');
    assert_eq!(
        b.as_native_typed_mut::<u32>("u32").unwrap_err(),
        Error::CastError("Native".to_string())
    );
    assert_eq!(b.as_char(), Ok('c'));
}

#[test]
fn data_mut_copies_shared_data() {
    let mut v: Value<Thing> = Value::bool(true);
    let other = v.clone();
    *v.data_mut() = ValueData::Char('z');
    assert_eq!(v.as_char(), Ok('z'));
    assert_eq!(other.as_bool(), Ok(true));
}
