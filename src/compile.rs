//! Compilation state: a syntax tree transformed to a semantic one.
//!
//! Lowering the semantic tree to executable form happens outside this
//! library.
use vstd::prelude::*;

use crate::syntax;
use crate::text::SourceText;
use crate::transform::{transform_expression, transformable, result_view, transform_spec};
use crate::tree::Expression;

verus! {

/// A failed compilation
#[derive(PartialEq, Debug)]
pub enum Error {
    /// A failure described by its message
    Generic(String),
}

impl View for Error {
    type V = Seq<char>;

    /// The message of the error
    open spec fn view(&self) -> Seq<char> {
        match self {
            Error::Generic(m) => m@,
        }
    }
}

/// Compilation State
///
/// Holds the semantic tree being compiled.
pub struct Compilation {
    /// The expression being compiled
    expr: Expression,
}

impl Compilation {
    /// The semantic tree being compiled
    pub closed spec fn expr_spec(&self) -> crate::tree::SemExpr {
        self.expr@
    }

    /// Create a new compilation from a syntax tree
    ///
    /// Fails with the transform's error where the tree cannot be
    /// transformed.
    pub fn new(expr: &syntax::Expression, source: &SourceText) -> (r: Result<Compilation, Error>)
        requires
            transformable(source@, *expr),
        ensures
            match (r, transform_spec(source@, *expr)) {
                (Ok(c), Ok(e)) => c.expr_spec() == e,
                (Err(err), Err(m)) => err@ == m,
                _ => false,
            },
    {
        let sem_expr = transform_expression(expr, source);
        proof {
            assert(result_view(sem_expr) == transform_spec(source@, *expr));
        }
        match sem_expr {
            Ok(e) => Ok(Compilation { expr: e }),
            Err(err) => Err(err),
        }
    }

    /// The semantic tree being compiled
    pub fn expression(&self) -> (r: &Expression)
        ensures
            r@ == self.expr_spec(),
    {
        &self.expr
    }
}

} // verus!
