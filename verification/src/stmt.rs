use vstd::prelude::*;
use crate::expression::{Expr, ExprView};
use crate::token::{Token, TokenView};

verus! {

/// One statement: a bare expression, a `print` statement, or a variable
/// declaration with an optional initializer.
#[derive(Debug)]
pub enum Stmt {
    Expression(Expr),
    Print(Expr),
    Var(Token, Option<Expr>),
}

/// Ghost image of a statement.
pub ghost enum StmtView {
    Expression(ExprView),
    Print(ExprView),
    Var(TokenView, Option<ExprView>),
}

impl View for Stmt {
    type V = StmtView;

    open spec fn view(&self) -> StmtView {
        match self {
            Stmt::Expression(e) => StmtView::Expression(e@),
            Stmt::Print(e) => StmtView::Print(e@),
            Stmt::Var(t, init) => StmtView::Var(
                t@,
                match init {
                    Some(e) => Some(e@),
                    None => None,
                },
            ),
        }
    }
}

} // verus!
