//! Functions: what a name in the registry stands for.

use crate::engine::expr::{clone_exprs, expr_views, Expr, ExprView};
use vstd::prelude::*;
use vstd::string::StringExecFns;

verus! {

/// A function of the registry.
///
/// `H` is the host's type of handlers. The evaluator never runs one: it
/// hands the handler back to the host, which runs it.
#[derive(Debug)]
pub enum Function<H> {
    /// A function defined in the language: a code body.
    Fox { name: String, items: Vec<Expr> },
    /// An operation of the host.
    Native { name: String, handler: H },
}

/// The mathematical value of a [`Function`].
pub enum FunctionView<H> {
    Fox { name: Seq<char>, items: Seq<ExprView> },
    Native { name: Seq<char>, handler: H },
}

impl<H> View for Function<H> {
    type V = FunctionView<H>;

    open spec fn view(&self) -> FunctionView<H> {
        match self {
            Function::Fox { name, items } => FunctionView::Fox {
                name: name@,
                items: expr_views(items@),
            },
            Function::Native { name, handler } => FunctionView::Native {
                name: name@,
                handler: *handler,
            },
        }
    }
}

impl<H: Copy> Clone for Function<H> {
    fn clone(&self) -> (r: Self)
        ensures
            r@ == self@,
    {
        match self {
            Function::Fox { name, items } => Function::Fox {
                name: name.clone(),
                items: clone_exprs(items),
            },
            Function::Native { name, handler } => Function::Native {
                name: name.clone(),
                handler: *handler,
            },
        }
    }
}

impl<H: Copy> Function<H> {
    /// A function defined in the language.
    pub fn fox(name: String, items: Vec<Expr>) -> (r: Self)
        ensures
            r@ == (FunctionView::<H>::Fox { name: name@, items: expr_views(items@) }),
    {
        Function::Fox { name, items }
    }

    /// An operation of the host.
    pub fn native(name: &str, handler: H) -> (r: Self)
        ensures
            r@ == (FunctionView::Native { name: name@, handler }),
    {
        Function::Native { name: String::from_str(name), handler }
    }

    /// The name under which the function was made.
    pub fn name(&self) -> (r: &str)
        ensures
            r@ == (match self@ {
                FunctionView::Fox { name, .. } => name,
                FunctionView::Native { name, .. } => name,
            }),
    {
        match self {
            Function::Fox { name, .. } => name.as_str(),
            Function::Native { name, .. } => name.as_str(),
        }
    }
}

} // verus!
