//! Values: what the stack carries.
//!
//! A value is a counted handle to its data. A clone shares the data; a
//! mutable access first makes the handle the only one, copying the data if
//! it is shared, so that no other holder ever sees a mutation.

use crate::engine::error::{Error, ErrorView};
use crate::engine::expr::{clone_exprs, expr_views, Expr, ExprView};
use crate::parsing::lexer::push_char;
use std::rc::Rc;
use vstd::prelude::*;
use vstd::string::StringExecFns;

verus! {

/// An object of the host that a value can carry.
///
/// The evaluator never looks inside one. It asks for a text that shows it,
/// and for a copy when a shared value is about to change.
pub trait NativeObject: Sized {
    /// A text that shows the object.
    fn repr(&self) -> String;

    /// A copy that shares nothing with this object.
    fn cloned(&self) -> Self;
}

/// An object of the host that may be of the host type `T`.
///
/// A host that carries objects of several types in one type of its own
/// says here as which of them an object can be taken.
pub trait Cast<T>: Sized {
    /// The object as a `T`, if it is one.
    fn cast_ref(&self) -> Option<&T>;

    /// The object as a `T` that can be changed, if it is one.
    fn cast_mut(&mut self) -> Option<&mut T>;
}

/// The data of a value.
///
/// A `Num` holds the bits of an IEEE-754 double.
#[derive(Debug)]
pub enum ValueData<N> {
    Bool(bool),
    Num(u64),
    Char(char),
    /// The name of a function.
    Symbol(String),
    /// A quotation: a code body to be run later.
    Quote(Vec<Expr>),
    /// An object of the host.
    Native(N),
}

/// The mathematical value of a [`Value`] or of a [`ValueData`].
pub enum ValueView<N> {
    Bool(bool),
    Num(u64),
    Char(char),
    Symbol(Seq<char>),
    Quote(Seq<ExprView>),
    Native(N),
}

impl<N> View for ValueData<N> {
    type V = ValueView<N>;

    open spec fn view(&self) -> ValueView<N> {
        match self {
            ValueData::Bool(b) => ValueView::Bool(*b),
            ValueData::Num(n) => ValueView::Num(*n),
            ValueData::Char(c) => ValueView::Char(*c),
            ValueData::Symbol(s) => ValueView::Symbol(s@),
            ValueData::Quote(body) => ValueView::Quote(expr_views(body@)),
            ValueData::Native(o) => ValueView::Native(*o),
        }
    }
}

/// `b` is what a copy of the object `a` may be: `a` itself, or what its
/// `cloned` may return.
pub open spec fn native_copy<N: NativeObject>(a: N, b: N) -> bool {
    a == b || call_ensures(N::cloned, (&a,), b)
}

/// `b` is what a copy of the data `a` may be: the same value, where it is
/// an object of the host a copy of that object.
pub open spec fn data_copy<N: NativeObject>(a: ValueView<N>, b: ValueView<N>) -> bool {
    match (a, b) {
        (ValueView::Native(x), ValueView::Native(y)) => native_copy(x, y),
        _ => a == b,
    }
}

impl<N: NativeObject> Clone for ValueData<N> {
    fn clone(&self) -> (r: Self)
        ensures
            data_copy(self@, r@),
    {
        match self {
            ValueData::Bool(b) => ValueData::Bool(*b),
            ValueData::Num(n) => ValueData::Num(*n),
            ValueData::Char(c) => ValueData::Char(*c),
            ValueData::Symbol(s) => ValueData::Symbol(s.clone()),
            ValueData::Quote(body) => ValueData::Quote(clone_exprs(body)),
            ValueData::Native(o) => ValueData::Native(o.cloned()),
        }
    }
}

/// Whether `text` is what shows the value `v`, where `show_num` is what
/// shows a number: a bool as `true` or `false`, a number as `show_num`
/// shows it, a character as itself, a symbol as its name, a quotation as
/// `{..}`, and an object of the host as its `repr` shows it.
pub open spec fn shown<N: NativeObject, F: Fn(u64) -> String>(
    v: ValueView<N>,
    show_num: F,
    text: Seq<char>,
) -> bool {
    match v {
        ValueView::Bool(b) => text == (if b {
            "true"@
        } else {
            "false"@
        }),
        ValueView::Num(bits) => exists|t: String| call_ensures(show_num, (bits,), t) && t@ == text,
        ValueView::Char(c) => text == seq![c],
        ValueView::Symbol(name) => text == name,
        ValueView::Quote(_) => text == "{..}"@,
        ValueView::Native(o) => exists|t: String| call_ensures(N::repr, (&o,), t) && t@ == text,
    }
}

impl<N: NativeObject> ValueData<N> {
    /// A text that shows the data. The host says how a number is shown.
    pub fn repr<F: Fn(u64) -> String>(&self, show_num: &F) -> (r: String)
        requires
            forall|bits: u64| call_requires(*show_num, (bits,)),
        ensures
            shown(self@, *show_num, r@),
    {
        match self {
            ValueData::Bool(b) => if *b {
                String::from_str("true")
            } else {
                String::from_str("false")
            },
            ValueData::Num(bits) => show_num(*bits),
            ValueData::Char(c) => {
                let mut out = String::new();
                push_char(&mut out, *c);
                assert(out@ =~= seq![*c]);
                out
            },
            ValueData::Symbol(name) => name.clone(),
            ValueData::Quote(_) => String::from_str("{..}"),
            ValueData::Native(o) => o.repr(),
        }
    }
}

/// `Rc::make_mut`: gives mutable access to the data behind the handle.
/// The data is first what it was, or a clone of that where the handle was
/// shared; what the caller leaves there is what the handle holds afterwards.
#[verifier::external_body]
fn rc_make_mut<T: Clone>(rc: &mut Rc<T>) -> (r: &mut T)
    ensures
        cloned(**old(rc), *r),
        **final(rc) == *final(r),
{
    Rc::make_mut(rc)
}

/// `Rc::clone`: a second handle to the same data.
#[verifier::external_body]
fn rc_share<T>(rc: &Rc<T>) -> (r: Rc<T>)
    ensures
        *r == **rc,
{
    Rc::clone(rc)
}

/// A value: a shared handle to its data.
#[derive(Debug)]
pub struct Value<N>(Rc<ValueData<N>>);

impl<N> View for Value<N> {
    type V = ValueView<N>;

    closed spec fn view(&self) -> ValueView<N> {
        (*self.0)@
    }
}

impl<N: NativeObject> Clone for Value<N> {
    /// A second handle to the same data.
    fn clone(&self) -> (r: Self)
        ensures
            r == *self,
    {
        Value(rc_share(&self.0))
    }
}

impl<N: NativeObject> Value<N> {
    /// The data of this value.
    pub closed spec fn data(&self) -> ValueData<N> {
        *self.0
    }

    /// A value with the given data.
    pub fn from(data: ValueData<N>) -> (r: Self)
        ensures
            r.data() == data,
            r@ == data@,
    {
        Value(Rc::new(data))
    }

    pub fn bool(b: bool) -> (r: Self)
        ensures
            r@ == ValueView::<N>::Bool(b),
    {
        Value::from(ValueData::Bool(b))
    }

    pub fn char(c: char) -> (r: Self)
        ensures
            r@ == ValueView::<N>::Char(c),
    {
        Value::from(ValueData::Char(c))
    }

    /// The number whose IEEE-754 bits are `bits`.
    pub fn num(bits: u64) -> (r: Self)
        ensures
            r@ == ValueView::<N>::Num(bits),
    {
        Value::from(ValueData::Num(bits))
    }

    pub fn symbol(s: &str) -> (r: Self)
        ensures
            r@ == ValueView::<N>::Symbol(s@),
    {
        Value::from(ValueData::Symbol(String::from_str(s)))
    }

    pub fn quote(body: Vec<Expr>) -> (r: Self)
        ensures
            r@ == ValueView::<N>::Quote(expr_views(body@)),
    {
        Value::from(ValueData::Quote(body))
    }

    pub fn native(o: N) -> (r: Self)
        ensures
            r@ == ValueView::Native(o),
    {
        Value::from(ValueData::Native(o))
    }

    /// Read access to the data.
    pub fn data_ref(&self) -> (r: &ValueData<N>)
        ensures
            *r == self.data(),
            r@ == self@,
    {
        &*self.0
    }

    /// Mutable access to the data. Where other handles share the data, this
    /// value first gets a copy of its own: the data that the caller finds is
    /// what it was, or a copy of that, and what the caller leaves is this
    /// value's data afterwards.
    pub fn data_mut(&mut self) -> (r: &mut ValueData<N>)
        ensures
            data_copy(old(self)@, r@),
            final(self).data() == *final(r),
            final(self)@ == final(r)@,
    {
        rc_make_mut(&mut self.0)
    }

    pub fn as_bool(&self) -> (r: Result<bool, Error>)
        ensures
            match r {
                Ok(b) => self@ == ValueView::<N>::Bool(b),
                Err(e) => !(self@ is Bool) && e@ == ErrorView::CastError("Bool"@),
            },
    {
        match self.data_ref() {
            ValueData::Bool(b) => Ok(*b),
            _ => Err(Error::CastError(String::from_str("Bool"))),
        }
    }

    pub fn as_char(&self) -> (r: Result<char, Error>)
        ensures
            match r {
                Ok(c) => self@ == ValueView::<N>::Char(c),
                Err(e) => !(self@ is Char) && e@ == ErrorView::CastError("Char"@),
            },
    {
        match self.data_ref() {
            ValueData::Char(c) => Ok(*c),
            _ => Err(Error::CastError(String::from_str("Char"))),
        }
    }

    /// The IEEE-754 bits of this number.
    pub fn as_num(&self) -> (r: Result<u64, Error>)
        ensures
            match r {
                Ok(bits) => self@ == ValueView::<N>::Num(bits),
                Err(e) => !(self@ is Num) && e@ == ErrorView::CastError("Num"@),
            },
    {
        match self.data_ref() {
            ValueData::Num(n) => Ok(*n),
            _ => Err(Error::CastError(String::from_str("Num"))),
        }
    }

    pub fn as_symbol(&self) -> (r: Result<&str, Error>)
        ensures
            match r {
                Ok(s) => self@ == ValueView::<N>::Symbol(s@),
                Err(e) => !(self@ is Symbol) && e@ == ErrorView::CastError("Symbol"@),
            },
    {
        match self.data_ref() {
            ValueData::Symbol(s) => Ok(s.as_str()),
            _ => Err(Error::CastError(String::from_str("Symbol"))),
        }
    }

    /// The body of this quotation.
    pub fn as_quote(&self) -> (r: Result<&Vec<Expr>, Error>)
        ensures
            match r {
                Ok(body) => self@ == ValueView::<N>::Quote(expr_views(body@)),
                Err(e) => !(self@ is Quote) && e@ == ErrorView::CastError("Quote"@),
            },
    {
        match self.data_ref() {
            ValueData::Quote(body) => Ok(body),
            _ => Err(Error::CastError(String::from_str("Quote"))),
        }
    }

    pub fn as_native(&self) -> (r: Result<&N, Error>)
        ensures
            match r {
                Ok(o) => self@ == ValueView::Native(*o),
                Err(e) => !(self@ is Native) && e@ == ErrorView::CastError("Native"@),
            },
    {
        match self.data_ref() {
            ValueData::Native(o) => Ok(o),
            _ => Err(Error::CastError(String::from_str("Native"))),
        }
    }

    /// Mutable access to the object of the host that this value carries.
    ///
    /// The object that the caller finds is the one that was there, or a copy
    /// of it where other handles share it; what the caller leaves is what
    /// this value carries afterwards. A value that carries no such object is
    /// left as it is.
    pub fn as_native_mut(&mut self) -> (r: Result<&mut N, Error>)
        ensures
            match r {
                Ok(o) => old(self)@ matches ValueView::Native(before) && native_copy(before, *o)
                    && final(self)@ == ValueView::Native(*final(o)),
                Err(e) => !(old(self)@ is Native) && e@ == ErrorView::CastError("Native"@)
                    && final(self)@ == old(self)@,
            },
    {
        let is_native = match self.data_ref() {
            ValueData::Native(_) => true,
            _ => false,
        };
        if !is_native {
            return Err(Error::CastError(String::from_str("Native")));
        }
        match self.data_mut() {
            ValueData::Native(o) => Ok(o),
            _ => Err(Error::CastError(String::from_str("Native"))),
        }
    }
}

impl<N: NativeObject> Value<N> {
    /// The object of the host that this value carries, as the host type
    /// `T`. Fails with `Native` where the value carries no object of the
    /// host, and with `expected`, the name of `T`, where the object is not
    /// a `T`.
    pub fn as_native_typed<T>(&self, expected: &str) -> (r: Result<&T, Error>) where N: Cast<T>
        ensures
            match r {
                Ok(t) => self@ matches ValueView::Native(o) && call_ensures(
                    N::cast_ref,
                    (&o,),
                    Some(t),
                ),
                Err(e) => match self@ {
                    ValueView::Native(o) => call_ensures(N::cast_ref, (&o,), None::<&T>) && e@
                        == ErrorView::CastError(expected@),
                    _ => e@ == ErrorView::CastError("Native"@),
                },
            },
    {
        match self.as_native() {
            Ok(o) => match o.cast_ref() {
                Some(t) => Ok(t),
                None => Err(Error::CastError(String::from_str(expected))),
            },
            Err(e) => Err(e),
        }
    }

    /// The object of the host that this value carries, as the host type
    /// `T`, for the caller to change. Fails with `Native` where the value
    /// carries no object of the host, and is then left as it is; fails with
    /// `expected`, the name of `T`, where the object is not a `T`.
    ///
    /// Where other handles share the object, this value gets a copy of its
    /// own before the host is asked: whatever the caller does, the others
    /// keep what they had.
    pub fn as_native_typed_mut<T>(&mut self, expected: &str) -> (r: Result<&mut T, Error>) where
        N: Cast<T>,

        ensures
            match r {
                Ok(_) => old(self)@ is Native && final(self)@ is Native,
                Err(e) => if old(self)@ is Native {
                    e@ == ErrorView::CastError(expected@) && final(self)@ is Native
                } else {
                    e@ == ErrorView::CastError("Native"@) && final(self)@ == old(self)@
                },
            },
    {
        match self.as_native_mut() {
            Ok(o) => match o.cast_mut() {
                Some(t) => Ok(t),
                None => Err(Error::CastError(String::from_str(expected))),
            },
            Err(e) => Err(e),
        }
    }
}

} // verus!
