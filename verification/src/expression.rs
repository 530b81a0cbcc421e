use vstd::prelude::*;
use crate::numbers::{double_text, spec_double_text};
use crate::token::{Token, TokenView};

verus! {

// Expressions are immutable trees: each non-leaf node owns its children,
// and the pretty printer renders them in fully parenthesized form.

/// The decoded payload of a literal expression.
#[derive(Debug)]
pub enum LiteralValue {
    Number(u64),
    Text(String),
    Boolean(bool),
    Nil,
}

/// Ghost image of a `LiteralValue`.
pub ghost enum LiteralValueView {
    Number(u64),
    Text(Seq<char>),
    Boolean(bool),
    Nil,
}

impl View for LiteralValue {
    type V = LiteralValueView;

    open spec fn view(&self) -> LiteralValueView {
        match self {
            LiteralValue::Number(b) => LiteralValueView::Number(*b),
            LiteralValue::Text(s) => LiteralValueView::Text(s@),
            LiteralValue::Boolean(b) => LiteralValueView::Boolean(*b),
            LiteralValue::Nil => LiteralValueView::Nil,
        }
    }
}

/// An expression node.
#[derive(Debug)]
pub enum Expr {
    Literal { value: LiteralValue },
    Grouping { expression: Box<Expr> },
    Unary { token: Token, expression: Box<Expr> },
    Binary { left_expr: Box<Expr>, operator: Token, right_expr: Box<Expr> },
    Variable { token: Token },
    Assignment { name: Token, value: Box<Expr> },
}

/// Ghost image of an expression tree.
pub ghost enum ExprView {
    Literal { value: LiteralValueView },
    Grouping { expression: Box<ExprView> },
    Unary { token: TokenView, expression: Box<ExprView> },
    Binary { left_expr: Box<ExprView>, operator: TokenView, right_expr: Box<ExprView> },
    Variable { token: TokenView },
    Assignment { name: TokenView, value: Box<ExprView> },
}

pub open spec fn view_expr(e: &Expr) -> ExprView
    decreases e,
{
    match e {
        Expr::Literal { value } => ExprView::Literal { value: value@ },
        Expr::Grouping { expression } => ExprView::Grouping {
            expression: Box::new(view_expr(expression)),
        },
        Expr::Unary { token, expression } => ExprView::Unary {
            token: token@,
            expression: Box::new(view_expr(expression)),
        },
        Expr::Binary { left_expr, operator, right_expr } => ExprView::Binary {
            left_expr: Box::new(view_expr(left_expr)),
            operator: operator@,
            right_expr: Box::new(view_expr(right_expr)),
        },
        Expr::Variable { token } => ExprView::Variable { token: token@ },
        Expr::Assignment { name, value } => ExprView::Assignment {
            name: name@,
            value: Box::new(view_expr(value)),
        },
    }
}

impl View for Expr {
    type V = ExprView;

    open spec fn view(&self) -> ExprView {
        view_expr(self)
    }
}

impl Expr {
    pub fn literal(value: LiteralValue) -> (r: Expr)
        ensures
            r@ == (ExprView::Literal { value: value@ }),
    {
        Expr::Literal { value }
    }

    pub fn grouping(expression: Expr) -> (r: Expr)
        ensures
            r@ == (ExprView::Grouping { expression: Box::new(expression@) }),
    {
        Expr::Grouping { expression: Box::new(expression) }
    }

    pub fn unary(token: Token, expression: Expr) -> (r: Expr)
        ensures
            r@ == (ExprView::Unary { token: token@, expression: Box::new(expression@) }),
    {
        Expr::Unary { token, expression: Box::new(expression) }
    }

    pub fn binary(left_expr: Expr, operator: Token, right_expr: Expr) -> (r: Expr)
        ensures
            r@ == (ExprView::Binary {
                left_expr: Box::new(left_expr@),
                operator: operator@,
                right_expr: Box::new(right_expr@),
            }),
    {
        Expr::Binary {
            left_expr: Box::new(left_expr),
            operator,
            right_expr: Box::new(right_expr),
        }
    }

    pub fn variable(token: Token) -> (r: Expr)
        ensures
            r@ == (ExprView::Variable { token: token@ }),
    {
        Expr::Variable { token }
    }

    pub fn assignment(name: Token, value: Expr) -> (r: Expr)
        ensures
            r@ == (ExprView::Assignment { name: name@, value: Box::new(value@) }),
    {
        Expr::Assignment { name, value: Box::new(value) }
    }
}

/// How a literal payload renders: a number by its canonical decimal text, a
/// string by its text between quotes, a boolean as `true` or `false`, nil
/// as `Nil`.
pub open spec fn spec_print_literal(v: LiteralValueView) -> Seq<char> {
    match v {
        LiteralValueView::Number(bits) => spec_double_text(bits),
        LiteralValueView::Text(s) => "\""@ + s + "\""@,
        LiteralValueView::Boolean(b) => if b {
            "true"@
        } else {
            "false"@
        },
        LiteralValueView::Nil => "Nil"@,
    }
}

/// The fully parenthesized rendering of an expression: `(l op r)` for a
/// binary node, `(op e)` for a unary node, `(group e)` for a grouping, the
/// payload's text for a literal, the name for a variable, and `(= name e)`
/// for an assignment.
pub open spec fn spec_print_expr(e: ExprView) -> Seq<char>
    decreases e,
{
    match e {
        ExprView::Literal { value } => spec_print_literal(value),
        ExprView::Grouping { expression } => "(group "@ + spec_print_expr(*expression) + ")"@,
        ExprView::Unary { token, expression } => "("@ + token.lexeme + " "@ + spec_print_expr(
            *expression,
        ) + ")"@,
        ExprView::Binary { left_expr, operator, right_expr } => "("@ + spec_print_expr(*left_expr)
            + " "@ + operator.lexeme + " "@ + spec_print_expr(*right_expr) + ")"@,
        ExprView::Variable { token } => token.lexeme,
        ExprView::Assignment { name, value } => "(= "@ + name.lexeme + " "@ + spec_print_expr(
            *value,
        ) + ")"@,
    }
}

impl Expr {
    /// Renders this expression in the fully parenthesized debug form.
    pub fn pretty_print(&self) -> (r: String)
        ensures
            r@ == spec_print_expr(self@),
        decreases *self,
    {
        match self {
            Expr::Literal { value } => {
                let mut s = String::new();
                match value {
                    LiteralValue::Number(bits) => {
                        let text = double_text(*bits);
                        s.append(text.as_str());
                    },
                    LiteralValue::Text(t) => {
                        s.append("\"");
                        s.append(t.as_str());
                        s.append("\"");
                    },
                    LiteralValue::Boolean(b) => {
                        if *b {
                            s.append("true");
                        } else {
                            s.append("false");
                        }
                    },
                    LiteralValue::Nil => {
                        s.append("Nil");
                    },
                }
                proof {
                    assert(s@ =~= spec_print_expr(self@));
                }
                s
            },
            Expr::Grouping { expression } => {
                let inner = expression.pretty_print();
                let mut s = String::new();
                s.append("(group ");
                s.append(inner.as_str());
                s.append(")");
                proof {
                    assert(s@ =~= spec_print_expr(self@));
                }
                s
            },
            Expr::Unary { token, expression } => {
                let inner = expression.pretty_print();
                let mut s = String::new();
                s.append("(");
                s.append(token.lexeme.as_str());
                s.append(" ");
                s.append(inner.as_str());
                s.append(")");
                proof {
                    assert(s@ =~= spec_print_expr(self@));
                }
                s
            },
            Expr::Binary { left_expr, operator, right_expr } => {
                let left = left_expr.pretty_print();
                let right = right_expr.pretty_print();
                let mut s = String::new();
                s.append("(");
                s.append(left.as_str());
                s.append(" ");
                s.append(operator.lexeme.as_str());
                s.append(" ");
                s.append(right.as_str());
                s.append(")");
                proof {
                    assert(s@ =~= spec_print_expr(self@));
                }
                s
            },
            Expr::Variable { token } => {
                let mut s = String::new();
                s.append(token.lexeme.as_str());
                proof {
                    assert(s@ =~= spec_print_expr(self@));
                }
                s
            },
            Expr::Assignment { name, value } => {
                let inner = value.pretty_print();
                let mut s = String::new();
                s.append("(= ");
                s.append(name.lexeme.as_str());
                s.append(" ");
                s.append(inner.as_str());
                s.append(")");
                proof {
                    assert(s@ =~= spec_print_expr(self@));
                }
                s
            },
        }
    }
}

} // verus!
