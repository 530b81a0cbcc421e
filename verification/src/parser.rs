use vstd::prelude::*;
use crate::error::{ErrorView, LoxError};
use crate::expression::{Expr, ExprView, LiteralValue, LiteralValueView};
use crate::scanner::{spec_static_error, views_of_errors};
use crate::stmt::{Stmt, StmtView};
use crate::token::{spec_kind_text, Literal, LiteralView, Token, TokenType, TokenView};

verus! {

// Recursive descent over the token stream, one specification function per
// grammar rule.  Each rule value carries the parse result and the position
// the cursor lands on; the executable parser is proved to return exactly
// these values.  The precedence chain, lowest first: equality, comparison,
// term, factor, unary, primary.

/// The outcome of one expression rule: the tree or the error, and where
/// the cursor stands afterwards.
pub ghost struct PExpr {
    pub result: Result<ExprView, ErrorView>,
    pub pos: int,
}

/// The outcome of one statement rule.
pub ghost struct PStmt {
    pub result: Result<StmtView, ErrorView>,
    pub pos: int,
}

/// The outcome of parsing a whole program.
pub ghost struct PProgram {
    pub result: Result<Seq<StmtView>, ErrorView>,
    pub pos: int,
}

/// Whether the cursor stands at the end: past the stream, or on the
/// end-of-input token.
pub open spec fn spec_at_end(ts: Seq<TokenView>, pos: int) -> bool {
    pos >= ts.len() || ts[pos].token_type == TokenType::Eof
}

/// The keywords that may begin a statement; synchronization stops in front
/// of them.
pub open spec fn spec_is_statement_keyword(tt: TokenType) -> bool {
    ||| tt == TokenType::Class
    ||| tt == TokenType::Fun
    ||| tt == TokenType::Var
    ||| tt == TokenType::For
    ||| tt == TokenType::If
    ||| tt == TokenType::While
    ||| tt == TokenType::Print
    ||| tt == TokenType::Return
}

/// Where synchronization lands, scanning forward from `p`: the first
/// position that follows a semicolon or stands on a statement keyword,
/// or the end of input.
pub open spec fn spec_sync_from(ts: Seq<TokenView>, p: int) -> int
    decreases spec_remaining(ts, p),
{
    if p < 1 || spec_at_end(ts, p) {
        p
    } else if ts[p - 1].token_type == TokenType::Semicolon {
        p
    } else if spec_is_statement_keyword(ts[p].token_type) {
        p
    } else {
        spec_sync_from(ts, p + 1)
    }
}

/// Panic-mode recovery after a parse error.  The policy, chosen here:
/// after an error the cursor already stands just past the token that
/// could not be used; tokens are then skipped until the one just passed
/// was a `;` (so the `;` is consumed) or the next token is one of
/// `class fun var for if while print return` (the keyword is kept), or
/// the input ends.
pub open spec fn spec_synchronize(ts: Seq<TokenView>, pos: int) -> int {
    spec_sync_from(ts, pos)
}

/// Whether the token at the cursor has the given kind.
pub open spec fn spec_check(ts: Seq<TokenView>, pos: int, tt: TokenType) -> bool {
    0 <= pos < ts.len() && ts[pos].token_type == tt
}

/// The line a parse error at this position is anchored at: the line of the
/// token under the cursor, or of the last token where the stream has run
/// out.
pub open spec fn spec_err_line(ts: Seq<TokenView>, pos: int) -> int {
    if 0 <= pos < ts.len() {
        ts[pos].line as int
    } else if ts.len() > 0 {
        ts[ts.len() - 1].line as int
    } else {
        0
    }
}

/// How many tokens are left; the termination measure of the rules.
pub open spec fn spec_remaining(ts: Seq<TokenView>, pos: int) -> int {
    if pos <= ts.len() {
        ts.len() - pos
    } else {
        0
    }
}

/// The later of two positions: rules never move the cursor backwards.
pub open spec fn spec_after(pos: int, next: int) -> int {
    if next > pos {
        next
    } else {
        pos
    }
}

pub open spec fn spec_primary(ts: Seq<TokenView>, pos: int) -> PExpr
    decreases spec_remaining(ts, pos), 2int,
{
    if pos < 0 || pos >= ts.len() {
        PExpr {
            result: Err(
                spec_static_error(
                    spec_err_line(ts, pos),
                    "unexpected token in primary expression: EOF"@,
                ),
            ),
            pos,
        }
    } else {
        let t = ts[pos];
        let npos = pos + 1;
        match t.token_type {
            TokenType::False => PExpr {
                result: Ok(ExprView::Literal { value: LiteralValueView::Boolean(false) }),
                pos: npos,
            },
            TokenType::True => PExpr {
                result: Ok(ExprView::Literal { value: LiteralValueView::Boolean(true) }),
                pos: npos,
            },
            TokenType::Nil => PExpr {
                result: Ok(ExprView::Literal { value: LiteralValueView::Nil }),
                pos: npos,
            },
            TokenType::NumLit => match t.literal {
                Some(LiteralView::Number(bits)) => PExpr {
                    result: Ok(ExprView::Literal { value: LiteralValueView::Number(bits) }),
                    pos: npos,
                },
                _ => PExpr {
                    result: Err(
                        spec_static_error(
                            t.line as int,
                            "number token without a number payload"@,
                        ),
                    ),
                    pos: npos,
                },
            },
            TokenType::StrLit => match t.literal {
                Some(LiteralView::Text(s)) => PExpr {
                    result: Ok(ExprView::Literal { value: LiteralValueView::Text(s) }),
                    pos: npos,
                },
                _ => PExpr {
                    result: Err(
                        spec_static_error(
                            t.line as int,
                            "string token without a string payload"@,
                        ),
                    ),
                    pos: npos,
                },
            },
            TokenType::LeftParen => {
                let inner = spec_expression(ts, npos);
                match inner.result {
                    Err(e) => PExpr { result: Err(e), pos: inner.pos },
                    Ok(ex) => {
                        if spec_check(ts, inner.pos, TokenType::RightParen) {
                            PExpr {
                                result: Ok(ExprView::Grouping { expression: Box::new(ex) }),
                                pos: inner.pos + 1,
                            }
                        } else {
                            PExpr {
                                result: Err(
                                    spec_static_error(
                                        spec_err_line(ts, inner.pos),
                                        "Expected ')' after expression"@,
                                    ),
                                ),
                                pos: inner.pos,
                            }
                        }
                    },
                }
            },
            _ => PExpr {
                result: Err(
                    spec_static_error(
                        t.line as int,
                        "unexpected token in primary expression: "@ + spec_kind_text(t.token_type),
                    ),
                ),
                pos: npos,
            },
        }
    }
}

pub open spec fn spec_unary(ts: Seq<TokenView>, pos: int) -> PExpr
    decreases spec_remaining(ts, pos), 3int,
{
    if spec_check(ts, pos, TokenType::Bang) || spec_check(ts, pos, TokenType::Minus) {
        let op = ts[pos];
        let r = spec_unary(ts, pos + 1);
        match r.result {
            Err(e) => PExpr { result: Err(e), pos: r.pos },
            Ok(right) => PExpr {
                result: Ok(ExprView::Unary { token: op, expression: Box::new(right) }),
                pos: r.pos,
            },
        }
    } else {
        spec_primary(ts, pos)
    }
}

pub open spec fn spec_factor_rest(ts: Seq<TokenView>, pos: int, acc: ExprView) -> PExpr
    decreases spec_remaining(ts, pos), 4int,
{
    if spec_check(ts, pos, TokenType::Star) || spec_check(ts, pos, TokenType::Slash) {
        let op = ts[pos];
        let r = spec_unary(ts, pos + 1);
        match r.result {
            Err(e) => PExpr { result: Err(e), pos: r.pos },
            Ok(right) => spec_factor_rest(
                ts,
                spec_after(pos + 1, r.pos),
                ExprView::Binary {
                    left_expr: Box::new(acc),
                    operator: op,
                    right_expr: Box::new(right),
                },
            ),
        }
    } else {
        PExpr { result: Ok(acc), pos }
    }
}

pub open spec fn spec_factor(ts: Seq<TokenView>, pos: int) -> PExpr
    decreases spec_remaining(ts, pos), 5int,
{
    let first = spec_unary(ts, pos);
    match first.result {
        Err(e) => PExpr { result: Err(e), pos: first.pos },
        Ok(e) => spec_factor_rest(ts, spec_after(pos, first.pos), e),
    }
}

pub open spec fn spec_term_rest(ts: Seq<TokenView>, pos: int, acc: ExprView) -> PExpr
    decreases spec_remaining(ts, pos), 6int,
{
    if spec_check(ts, pos, TokenType::Minus) || spec_check(ts, pos, TokenType::Plus) {
        let op = ts[pos];
        let r = spec_factor(ts, pos + 1);
        match r.result {
            Err(e) => PExpr { result: Err(e), pos: r.pos },
            Ok(right) => spec_term_rest(
                ts,
                spec_after(pos + 1, r.pos),
                ExprView::Binary {
                    left_expr: Box::new(acc),
                    operator: op,
                    right_expr: Box::new(right),
                },
            ),
        }
    } else {
        PExpr { result: Ok(acc), pos }
    }
}

pub open spec fn spec_term(ts: Seq<TokenView>, pos: int) -> PExpr
    decreases spec_remaining(ts, pos), 7int,
{
    let first = spec_factor(ts, pos);
    match first.result {
        Err(e) => PExpr { result: Err(e), pos: first.pos },
        Ok(e) => spec_term_rest(ts, spec_after(pos, first.pos), e),
    }
}

pub open spec fn spec_comparison_rest(ts: Seq<TokenView>, pos: int, acc: ExprView) -> PExpr
    decreases spec_remaining(ts, pos), 8int,
{
    if spec_check(ts, pos, TokenType::LessEqual) || spec_check(ts, pos, TokenType::Less)
        || spec_check(ts, pos, TokenType::Greater) || spec_check(
        ts,
        pos,
        TokenType::GreaterEqual,
    ) {
        let op = ts[pos];
        let r = spec_term(ts, pos + 1);
        match r.result {
            Err(e) => PExpr { result: Err(e), pos: r.pos },
            Ok(right) => spec_comparison_rest(
                ts,
                spec_after(pos + 1, r.pos),
                ExprView::Binary {
                    left_expr: Box::new(acc),
                    operator: op,
                    right_expr: Box::new(right),
                },
            ),
        }
    } else {
        PExpr { result: Ok(acc), pos }
    }
}

pub open spec fn spec_comparison(ts: Seq<TokenView>, pos: int) -> PExpr
    decreases spec_remaining(ts, pos), 9int,
{
    let first = spec_term(ts, pos);
    match first.result {
        Err(e) => PExpr { result: Err(e), pos: first.pos },
        Ok(e) => spec_comparison_rest(ts, spec_after(pos, first.pos), e),
    }
}

pub open spec fn spec_equality_rest(ts: Seq<TokenView>, pos: int, acc: ExprView) -> PExpr
    decreases spec_remaining(ts, pos), 10int,
{
    if spec_check(ts, pos, TokenType::BangEqual) || spec_check(ts, pos, TokenType::EqualEqual) {
        let op = ts[pos];
        let r = spec_comparison(ts, pos + 1);
        match r.result {
            Err(e) => PExpr { result: Err(e), pos: r.pos },
            Ok(right) => spec_equality_rest(
                ts,
                spec_after(pos + 1, r.pos),
                ExprView::Binary {
                    left_expr: Box::new(acc),
                    operator: op,
                    right_expr: Box::new(right),
                },
            ),
        }
    } else {
        PExpr { result: Ok(acc), pos }
    }
}

pub open spec fn spec_equality(ts: Seq<TokenView>, pos: int) -> PExpr
    decreases spec_remaining(ts, pos), 11int,
{
    let first = spec_comparison(ts, pos);
    match first.result {
        Err(e) => PExpr { result: Err(e), pos: first.pos },
        Ok(e) => spec_equality_rest(ts, spec_after(pos, first.pos), e),
    }
}

/// An expression is parsed at the lowest precedence level.
pub open spec fn spec_expression(ts: Seq<TokenView>, pos: int) -> PExpr
    decreases spec_remaining(ts, pos), 12int,
{
    spec_equality(ts, pos)
}

pub open spec fn spec_print_statement(ts: Seq<TokenView>, pos: int) -> PStmt
    decreases spec_remaining(ts, pos), 14int,
{
    let e = spec_expression(ts, pos);
    match e.result {
        Err(err) => PStmt { result: Err(err), pos: e.pos },
        Ok(ex) => {
            if spec_check(ts, e.pos, TokenType::Semicolon) {
                PStmt { result: Ok(StmtView::Print(ex)), pos: e.pos + 1 }
            } else {
                PStmt {
                    result: Err(
                        spec_static_error(
                            spec_err_line(ts, e.pos),
                            "Expected ';' after value"@,
                        ),
                    ),
                    pos: e.pos,
                }
            }
        },
    }
}

pub open spec fn spec_expression_statement(ts: Seq<TokenView>, pos: int) -> PStmt
    decreases spec_remaining(ts, pos), 14int,
{
    let e = spec_expression(ts, pos);
    match e.result {
        Err(err) => PStmt { result: Err(err), pos: e.pos },
        Ok(ex) => {
            if spec_check(ts, e.pos, TokenType::Semicolon) {
                PStmt { result: Ok(StmtView::Expression(ex)), pos: e.pos + 1 }
            } else {
                PStmt {
                    result: Err(
                        spec_static_error(
                            spec_err_line(ts, e.pos),
                            "Expected ';' after value"@,
                        ),
                    ),
                    pos: e.pos,
                }
            }
        },
    }
}

pub open spec fn spec_statement(ts: Seq<TokenView>, pos: int) -> PStmt
    decreases spec_remaining(ts, pos), 15int,
{
    if spec_check(ts, pos, TokenType::Print) {
        spec_print_statement(ts, pos + 1)
    } else {
        spec_expression_statement(ts, pos)
    }
}

/// A program: statements until the end of input, stopping at the first
/// parse error.
pub open spec fn spec_parse_program(ts: Seq<TokenView>, pos: int) -> PProgram
    decreases spec_remaining(ts, pos), 16int,
{
    if pos < 0 || spec_at_end(ts, pos) {
        PProgram { result: Ok(Seq::empty()), pos }
    } else {
        let st = spec_statement(ts, pos);
        match st.result {
            Err(e) => PProgram { result: Err(e), pos: st.pos },
            Ok(s) => {
                let rest = spec_parse_program(ts, spec_after(pos + 1, st.pos));
                match rest.result {
                    Err(e) => PProgram { result: Err(e), pos: rest.pos },
                    Ok(ss) => PProgram { result: Ok(seq![s] + ss), pos: rest.pos },
                }
            },
        }
    }
}

/// A program parsed with panic-mode recovery: every statement that parses,
/// and every parse error met, in order; after an error the cursor
/// synchronizes to the next statement boundary and parsing goes on.
pub open spec fn spec_parse_recover(ts: Seq<TokenView>, pos: int) -> (Seq<StmtView>, Seq<
    ErrorView,
>)
    decreases spec_remaining(ts, pos), 17int,
{
    if pos < 0 || spec_at_end(ts, pos) {
        (Seq::empty(), Seq::empty())
    } else {
        let st = spec_statement(ts, pos);
        match st.result {
            Ok(s) => {
                let rest = spec_parse_recover(ts, spec_after(pos + 1, st.pos));
                (seq![s] + rest.0, rest.1)
            },
            Err(e) => {
                let rest = spec_parse_recover(
                    ts,
                    spec_after(pos + 1, spec_synchronize(ts, st.pos)),
                );
                (rest.0, seq![e] + rest.1)
            },
        }
    }
}

pub open spec fn views_of_stmts(ss: Seq<Stmt>) -> Seq<StmtView> {
    ss.map_values(|s: Stmt| s@)
}

/// Whether an executable expression outcome shows exactly a specified one.
pub open spec fn expr_outcome_matches(r: Result<Expr, LoxError>, s: Result<
    ExprView,
    ErrorView,
>) -> bool {
    match r {
        Ok(e) => s matches Ok(v) && e@ == v,
        Err(err) => s matches Err(v) && err@ == v,
    }
}

/// Whether an executable statement outcome shows exactly a specified one.
pub open spec fn stmt_outcome_matches(r: Result<Stmt, LoxError>, s: Result<
    StmtView,
    ErrorView,
>) -> bool {
    match r {
        Ok(e) => s matches Ok(v) && e@ == v,
        Err(err) => s matches Err(v) && err@ == v,
    }
}

/// The recursive-descent parser: a token stream and a cursor into it.
pub struct Parser {
    tokens: Vec<Token>,
    current: usize,
}

impl Parser {
    pub closed spec fn wf(self) -> bool {
        self.current <= self.tokens@.len()
    }

    /// The images of the tokens this parser reads.
    pub closed spec fn spec_tokens(self) -> Seq<TokenView> {
        crate::scanner::views_of_tokens(self.tokens@)
    }

    /// Where the cursor stands.
    pub closed spec fn spec_pos(self) -> int {
        self.current as int
    }

    pub fn new(tokens: Vec<Token>) -> (p: Parser)
        ensures
            p.wf(),
            p.spec_tokens() == crate::scanner::views_of_tokens(tokens@),
            p.spec_pos() == 0,
    {
        Parser { tokens, current: 0 }
    }

    fn is_at_end(&self) -> (r: bool)
        requires
            self.wf(),
        ensures
            r == spec_at_end(self.spec_tokens(), self.spec_pos()),
    {
        self.current >= self.tokens.len() || matches!(
            self.tokens[self.current].token_type,
            TokenType::Eof
        )
    }

    fn check_current_type(&self, token_type: TokenType) -> (r: bool)
        requires
            self.wf(),
        ensures
            r == spec_check(self.spec_tokens(), self.spec_pos(), token_type),
    {
        if self.current >= self.tokens.len() {
            return false;
        }
        self.tokens[self.current].token_type == token_type
    }

    /// The line a parse error at the cursor is anchored at.
    fn err_line(&self) -> (r: usize)
        requires
            self.wf(),
        ensures
            r as int == spec_err_line(self.spec_tokens(), self.spec_pos()),
    {
        if self.current < self.tokens.len() {
            self.tokens[self.current].line
        } else if self.tokens.len() > 0 {
            self.tokens[self.tokens.len() - 1].line
        } else {
            0
        }
    }

    fn advance(&mut self) -> (t: Token)
        requires
            old(self).wf(),
            old(self).current < old(self).tokens@.len(),
        ensures
            final(self).wf(),
            t@ == old(self).spec_tokens()[old(self).spec_pos()],
            final(self).spec_tokens() == old(self).spec_tokens(),
            final(self).spec_pos() == old(self).spec_pos() + 1,
    {
        let n = self.tokens.len();
        let t = self.tokens[self.current].duplicate();
        self.current = self.current + 1;
        t
    }

    fn consume(&mut self, token_type: TokenType, msg: String) -> (r: Result<(), LoxError>)
        requires
            old(self).wf(),
        ensures
            final(self).wf(),
            final(self).spec_tokens() == old(self).spec_tokens(),
            spec_check(old(self).spec_tokens(), old(self).spec_pos(), token_type) ==> (r is Ok
                && final(self).spec_pos() == old(self).spec_pos() + 1),
            !spec_check(old(self).spec_tokens(), old(self).spec_pos(), token_type) ==> (r matches
                Err(e) && e@ == spec_static_error(
                spec_err_line(old(self).spec_tokens(), old(self).spec_pos()),
                msg@,
            ) && final(self).spec_pos() == old(self).spec_pos()),
    {
        if self.check_current_type(token_type) {
            self.advance();
            return Ok(());
        }
        Err(LoxError::new(self.err_line(), msg))
    }

    #[verifier::rlimit(100)]
    fn primary(&mut self) -> (r: Result<Expr, LoxError>)
        requires
            old(self).wf(),
        ensures
            final(self).wf(),
            final(self).spec_tokens() == old(self).spec_tokens(),
            old(self).spec_pos() <= final(self).spec_pos(),
            expr_outcome_matches(
                r,
                spec_primary(old(self).spec_tokens(), old(self).spec_pos()).result,
            ),
            final(self).spec_pos() == spec_primary(old(self).spec_tokens(), old(self).spec_pos()).pos,
            !spec_at_end(old(self).spec_tokens(), old(self).spec_pos()) ==> old(self).spec_pos()
                < final(self).spec_pos(),
        decreases spec_remaining(old(self).spec_tokens(), old(self).spec_pos()), 2int,
    {
        if self.current >= self.tokens.len() {
            let mut msg = String::new();
            msg.append("unexpected token in primary expression: EOF");
            return Err(LoxError::new(self.err_line(), msg));
        }
        let token = self.advance();
        match token.token_type {
            TokenType::False => Ok(Expr::literal(LiteralValue::Boolean(false))),
            TokenType::True => Ok(Expr::literal(LiteralValue::Boolean(true))),
            TokenType::Nil => Ok(Expr::literal(LiteralValue::Nil)),
            TokenType::NumLit => match token.literal {
                Some(Literal::Number(bits)) => Ok(Expr::literal(LiteralValue::Number(bits))),
                _ => {
                    let mut msg = String::new();
                    msg.append("number token without a number payload");
                    Err(LoxError::new(token.line, msg))
                },
            },
            TokenType::StrLit => match token.literal {
                Some(Literal::Text(s)) => Ok(Expr::literal(LiteralValue::Text(s))),
                _ => {
                    let mut msg = String::new();
                    msg.append("string token without a string payload");
                    Err(LoxError::new(token.line, msg))
                },
            },
            TokenType::LeftParen => {
                match self.expression() {
                    Err(e) => Err(e),
                    Ok(expr) => {
                        let mut msg = String::new();
                        msg.append("Expected ')' after expression");
                        match self.consume(TokenType::RightParen, msg) {
                            Ok(_) => Ok(Expr::grouping(expr)),
                            Err(e) => Err(e),
                        }
                    },
                }
            },
            _ => {
                let mut msg = String::new();
                msg.append("unexpected token in primary expression: ");
                msg.append(token.token_type.kind_text());
                Err(LoxError::new(token.line, msg))
            },
        }
    }

    #[verifier::rlimit(100)]
    fn unary(&mut self) -> (r: Result<Expr, LoxError>)
        requires
            old(self).wf(),
        ensures
            final(self).wf(),
            final(self).spec_tokens() == old(self).spec_tokens(),
            old(self).spec_pos() <= final(self).spec_pos(),
            expr_outcome_matches(
                r,
                spec_unary(old(self).spec_tokens(), old(self).spec_pos()).result,
            ),
            final(self).spec_pos() == spec_unary(old(self).spec_tokens(), old(self).spec_pos()).pos,
            !spec_at_end(old(self).spec_tokens(), old(self).spec_pos()) ==> old(self).spec_pos()
                < final(self).spec_pos(),
        decreases spec_remaining(old(self).spec_tokens(), old(self).spec_pos()), 3int,
    {
        if self.check_current_type(TokenType::Bang) || self.check_current_type(TokenType::Minus) {
            let op = self.advance();
            match self.unary() {
                Err(e) => Err(e),
                Ok(right) => Ok(Expr::unary(op, right)),
            }
        } else {
            self.primary()
        }
    }

    #[verifier::rlimit(100)]
    fn factor_rest(&mut self, acc: Expr) -> (r: Result<Expr, LoxError>)
        requires
            old(self).wf(),
        ensures
            final(self).wf(),
            final(self).spec_tokens() == old(self).spec_tokens(),
            old(self).spec_pos() <= final(self).spec_pos(),
            expr_outcome_matches(
                r,
                spec_factor_rest(old(self).spec_tokens(), old(self).spec_pos(), acc@).result,
            ),
            final(self).spec_pos() == spec_factor_rest(
                old(self).spec_tokens(),
                old(self).spec_pos(),
                acc@,
            ).pos,
        decreases spec_remaining(old(self).spec_tokens(), old(self).spec_pos()), 4int,
    {
        if self.check_current_type(TokenType::Star) || self.check_current_type(TokenType::Slash) {
            let op = self.advance();
            match self.unary() {
                Err(e) => Err(e),
                Ok(right) => self.factor_rest(Expr::binary(acc, op, right)),
            }
        } else {
            Ok(acc)
        }
    }

    #[verifier::rlimit(100)]
    fn factor(&mut self) -> (r: Result<Expr, LoxError>)
        requires
            old(self).wf(),
        ensures
            final(self).wf(),
            final(self).spec_tokens() == old(self).spec_tokens(),
            old(self).spec_pos() <= final(self).spec_pos(),
            expr_outcome_matches(
                r,
                spec_factor(old(self).spec_tokens(), old(self).spec_pos()).result,
            ),
            final(self).spec_pos() == spec_factor(old(self).spec_tokens(), old(self).spec_pos()).pos,
            !spec_at_end(old(self).spec_tokens(), old(self).spec_pos()) ==> old(self).spec_pos()
                < final(self).spec_pos(),
        decreases spec_remaining(old(self).spec_tokens(), old(self).spec_pos()), 5int,
    {
        match self.unary() {
            Err(e) => Err(e),
            Ok(e) => self.factor_rest(e),
        }
    }

    #[verifier::rlimit(100)]
    fn term_rest(&mut self, acc: Expr) -> (r: Result<Expr, LoxError>)
        requires
            old(self).wf(),
        ensures
            final(self).wf(),
            final(self).spec_tokens() == old(self).spec_tokens(),
            old(self).spec_pos() <= final(self).spec_pos(),
            expr_outcome_matches(
                r,
                spec_term_rest(old(self).spec_tokens(), old(self).spec_pos(), acc@).result,
            ),
            final(self).spec_pos() == spec_term_rest(
                old(self).spec_tokens(),
                old(self).spec_pos(),
                acc@,
            ).pos,
        decreases spec_remaining(old(self).spec_tokens(), old(self).spec_pos()), 6int,
    {
        if self.check_current_type(TokenType::Minus) || self.check_current_type(TokenType::Plus) {
            let op = self.advance();
            match self.factor() {
                Err(e) => Err(e),
                Ok(right) => self.term_rest(Expr::binary(acc, op, right)),
            }
        } else {
            Ok(acc)
        }
    }

    #[verifier::rlimit(100)]
    fn term(&mut self) -> (r: Result<Expr, LoxError>)
        requires
            old(self).wf(),
        ensures
            final(self).wf(),
            final(self).spec_tokens() == old(self).spec_tokens(),
            old(self).spec_pos() <= final(self).spec_pos(),
            expr_outcome_matches(r, spec_term(old(self).spec_tokens(), old(self).spec_pos()).result),
            final(self).spec_pos() == spec_term(old(self).spec_tokens(), old(self).spec_pos()).pos,
            !spec_at_end(old(self).spec_tokens(), old(self).spec_pos()) ==> old(self).spec_pos()
                < final(self).spec_pos(),
        decreases spec_remaining(old(self).spec_tokens(), old(self).spec_pos()), 7int,
    {
        match self.factor() {
            Err(e) => Err(e),
            Ok(e) => self.term_rest(e),
        }
    }

    #[verifier::rlimit(100)]
    fn comparison_rest(&mut self, acc: Expr) -> (r: Result<Expr, LoxError>)
        requires
            old(self).wf(),
        ensures
            final(self).wf(),
            final(self).spec_tokens() == old(self).spec_tokens(),
            old(self).spec_pos() <= final(self).spec_pos(),
            expr_outcome_matches(
                r,
                spec_comparison_rest(old(self).spec_tokens(), old(self).spec_pos(), acc@).result,
            ),
            final(self).spec_pos() == spec_comparison_rest(
                old(self).spec_tokens(),
                old(self).spec_pos(),
                acc@,
            ).pos,
        decreases spec_remaining(old(self).spec_tokens(), old(self).spec_pos()), 8int,
    {
        if self.check_current_type(TokenType::LessEqual) || self.check_current_type(
            TokenType::Less,
        ) || self.check_current_type(TokenType::Greater) || self.check_current_type(
            TokenType::GreaterEqual,
        ) {
            let op = self.advance();
            match self.term() {
                Err(e) => Err(e),
                Ok(right) => self.comparison_rest(Expr::binary(acc, op, right)),
            }
        } else {
            Ok(acc)
        }
    }

    #[verifier::rlimit(100)]
    fn comparison(&mut self) -> (r: Result<Expr, LoxError>)
        requires
            old(self).wf(),
        ensures
            final(self).wf(),
            final(self).spec_tokens() == old(self).spec_tokens(),
            old(self).spec_pos() <= final(self).spec_pos(),
            expr_outcome_matches(
                r,
                spec_comparison(old(self).spec_tokens(), old(self).spec_pos()).result,
            ),
            final(self).spec_pos() == spec_comparison(
                old(self).spec_tokens(),
                old(self).spec_pos(),
            ).pos,
            !spec_at_end(old(self).spec_tokens(), old(self).spec_pos()) ==> old(self).spec_pos()
                < final(self).spec_pos(),
        decreases spec_remaining(old(self).spec_tokens(), old(self).spec_pos()), 9int,
    {
        match self.term() {
            Err(e) => Err(e),
            Ok(e) => self.comparison_rest(e),
        }
    }

    #[verifier::rlimit(100)]
    fn equality_rest(&mut self, acc: Expr) -> (r: Result<Expr, LoxError>)
        requires
            old(self).wf(),
        ensures
            final(self).wf(),
            final(self).spec_tokens() == old(self).spec_tokens(),
            old(self).spec_pos() <= final(self).spec_pos(),
            expr_outcome_matches(
                r,
                spec_equality_rest(old(self).spec_tokens(), old(self).spec_pos(), acc@).result,
            ),
            final(self).spec_pos() == spec_equality_rest(
                old(self).spec_tokens(),
                old(self).spec_pos(),
                acc@,
            ).pos,
        decreases spec_remaining(old(self).spec_tokens(), old(self).spec_pos()), 10int,
    {
        if self.check_current_type(TokenType::BangEqual) || self.check_current_type(
            TokenType::EqualEqual,
        ) {
            let op = self.advance();
            match self.comparison() {
                Err(e) => Err(e),
                Ok(right) => self.equality_rest(Expr::binary(acc, op, right)),
            }
        } else {
            Ok(acc)
        }
    }

    #[verifier::rlimit(100)]
    fn equality(&mut self) -> (r: Result<Expr, LoxError>)
        requires
            old(self).wf(),
        ensures
            final(self).wf(),
            final(self).spec_tokens() == old(self).spec_tokens(),
            old(self).spec_pos() <= final(self).spec_pos(),
            expr_outcome_matches(
                r,
                spec_equality(old(self).spec_tokens(), old(self).spec_pos()).result,
            ),
            final(self).spec_pos() == spec_equality(old(self).spec_tokens(), old(self).spec_pos()).pos,
            !spec_at_end(old(self).spec_tokens(), old(self).spec_pos()) ==> old(self).spec_pos()
                < final(self).spec_pos(),
        decreases spec_remaining(old(self).spec_tokens(), old(self).spec_pos()), 11int,
    {
        match self.comparison() {
            Err(e) => Err(e),
            Ok(e) => self.equality_rest(e),
        }
    }

    fn expression(&mut self) -> (r: Result<Expr, LoxError>)
        requires
            old(self).wf(),
        ensures
            final(self).wf(),
            final(self).spec_tokens() == old(self).spec_tokens(),
            old(self).spec_pos() <= final(self).spec_pos(),
            expr_outcome_matches(
                r,
                spec_expression(old(self).spec_tokens(), old(self).spec_pos()).result,
            ),
            final(self).spec_pos() == spec_expression(old(self).spec_tokens(), old(self).spec_pos()).pos,
            !spec_at_end(old(self).spec_tokens(), old(self).spec_pos()) ==> old(self).spec_pos()
                < final(self).spec_pos(),
        decreases spec_remaining(old(self).spec_tokens(), old(self).spec_pos()), 12int,
    {
        self.equality()
    }

    /// Parses one expression from the cursor; what the tests and the
    /// round-trip property read.
    pub fn parse_expression(&mut self) -> (r: Result<Expr, LoxError>)
        requires
            old(self).wf(),
        ensures
            final(self).wf(),
            expr_outcome_matches(
                r,
                spec_expression(old(self).spec_tokens(), old(self).spec_pos()).result,
            ),
            final(self).spec_pos() == spec_expression(old(self).spec_tokens(), old(self).spec_pos()).pos,
            !spec_at_end(old(self).spec_tokens(), old(self).spec_pos()) ==> old(self).spec_pos()
                < final(self).spec_pos(),
    {
        self.expression()
    }

    #[verifier::rlimit(100)]
    fn print_statement(&mut self) -> (r: Result<Stmt, LoxError>)
        requires
            old(self).wf(),
        ensures
            final(self).wf(),
            final(self).spec_tokens() == old(self).spec_tokens(),
            old(self).spec_pos() <= final(self).spec_pos(),
            stmt_outcome_matches(
                r,
                spec_print_statement(old(self).spec_tokens(), old(self).spec_pos()).result,
            ),
            final(self).spec_pos() == spec_print_statement(
                old(self).spec_tokens(),
                old(self).spec_pos(),
            ).pos,
            r is Ok ==> old(self).spec_pos() < final(self).spec_pos(),
        decreases spec_remaining(old(self).spec_tokens(), old(self).spec_pos()), 14int,
    {
        let expression = match self.expression() {
            Ok(e) => e,
            Err(e) => {
                return Err(e);
            },
        };
        let mut msg = String::new();
        msg.append("Expected ';' after value");
        match self.consume(TokenType::Semicolon, msg) {
            Ok(_) => Ok(Stmt::Print(expression)),
            Err(e) => Err(e),
        }
    }

    #[verifier::rlimit(100)]
    fn expression_statement(&mut self) -> (r: Result<Stmt, LoxError>)
        requires
            old(self).wf(),
        ensures
            final(self).wf(),
            final(self).spec_tokens() == old(self).spec_tokens(),
            old(self).spec_pos() <= final(self).spec_pos(),
            stmt_outcome_matches(
                r,
                spec_expression_statement(old(self).spec_tokens(), old(self).spec_pos()).result,
            ),
            final(self).spec_pos() == spec_expression_statement(
                old(self).spec_tokens(),
                old(self).spec_pos(),
            ).pos,
            !spec_at_end(old(self).spec_tokens(), old(self).spec_pos()) ==> old(self).spec_pos()
                < final(self).spec_pos(),
            r is Ok ==> old(self).spec_pos() < final(self).spec_pos(),
        decreases spec_remaining(old(self).spec_tokens(), old(self).spec_pos()), 14int,
    {
        let expression = match self.expression() {
            Ok(e) => e,
            Err(e) => {
                return Err(e);
            },
        };
        let mut msg = String::new();
        msg.append("Expected ';' after value");
        match self.consume(TokenType::Semicolon, msg) {
            Ok(_) => Ok(Stmt::Expression(expression)),
            Err(e) => Err(e),
        }
    }

    #[verifier::rlimit(100)]
    fn statement(&mut self) -> (r: Result<Stmt, LoxError>)
        requires
            old(self).wf(),
        ensures
            final(self).wf(),
            final(self).spec_tokens() == old(self).spec_tokens(),
            old(self).spec_pos() <= final(self).spec_pos(),
            stmt_outcome_matches(
                r,
                spec_statement(old(self).spec_tokens(), old(self).spec_pos()).result,
            ),
            final(self).spec_pos() == spec_statement(old(self).spec_tokens(), old(self).spec_pos()).pos,
            !spec_at_end(old(self).spec_tokens(), old(self).spec_pos()) ==> old(self).spec_pos()
                < final(self).spec_pos(),
            r is Ok ==> old(self).spec_pos() < final(self).spec_pos(),
        decreases spec_remaining(old(self).spec_tokens(), old(self).spec_pos()), 15int,
    {
        if self.check_current_type(TokenType::Print) {
            self.advance();
            self.print_statement()
        } else {
            self.expression_statement()
        }
    }

    /// Parses statements until the end of input, stopping at the first
    /// parse error.
    #[verifier::rlimit(100)]
    pub fn parse(&mut self) -> (r: Result<Vec<Stmt>, LoxError>)
        requires
            old(self).wf(),
        ensures
            final(self).wf(),
            final(self).spec_tokens() == old(self).spec_tokens(),
            match r {
                Ok(stmts) => spec_parse_program(old(self).spec_tokens(), old(self).spec_pos()).result
                    matches Ok(ss) && views_of_stmts(stmts@) == ss,
                Err(e) => spec_parse_program(old(self).spec_tokens(), old(self).spec_pos()).result
                    matches Err(v) && e@ == v,
            },
        decreases spec_remaining(old(self).spec_tokens(), old(self).spec_pos()), 16int,
    {
        if self.is_at_end() {
            let empty: Vec<Stmt> = Vec::new();
            proof {
                assert(views_of_stmts(empty@) =~= Seq::<StmtView>::empty());
            }
            return Ok(empty);
        }
        let ghost ts = self.spec_tokens();
        let ghost pos0 = self.spec_pos();
        match self.statement() {
            Err(e) => Err(e),
            Ok(s) => {
                proof {
                    let st = spec_statement(ts, pos0);
                    assert(spec_after(pos0 + 1, st.pos) == st.pos);
                }
                match self.parse() {
                    Err(e) => Err(e),
                    Ok(mut rest) => {
                        let ghost tail = rest@;
                        rest.insert(0, s);
                        proof {
                            assert(views_of_stmts(rest@) =~= seq![s@] + views_of_stmts(tail));
                        }
                        Ok(rest)
                    },
                }
            },
        }
    }

    fn sync_loop(&mut self)
        requires
            old(self).wf(),
        ensures
            final(self).wf(),
            final(self).spec_tokens() == old(self).spec_tokens(),
            old(self).spec_pos() <= final(self).spec_pos(),
            final(self).spec_pos() == spec_sync_from(old(self).spec_tokens(), old(self).spec_pos()),
        decreases spec_remaining(old(self).spec_tokens(), old(self).spec_pos()),
    {
        if self.current < 1 {
            return ;
        }
        if self.is_at_end() {
            return ;
        }
        if self.tokens[self.current - 1].token_type == TokenType::Semicolon {
            return ;
        }
        if is_statement_keyword(self.tokens[self.current].token_type) {
            return ;
        }
        let n = self.tokens.len();
        self.current = self.current + 1;
        self.sync_loop()
    }

    /// Discards tokens after a parse error until the next statement
    /// boundary: past a `;`, or in front of a statement keyword, or to the
    /// end of input.
    fn synchronize(&mut self)
        requires
            old(self).wf(),
        ensures
            final(self).wf(),
            final(self).spec_tokens() == old(self).spec_tokens(),
            old(self).spec_pos() <= final(self).spec_pos(),
            final(self).spec_pos() == spec_synchronize(
                old(self).spec_tokens(),
                old(self).spec_pos(),
            ),
    {
        self.sync_loop()
    }

    /// Parses the whole input with panic-mode recovery: the statements
    /// that parsed and the parse errors met, in order.
    #[verifier::rlimit(100)]
    pub fn parse_with_recovery(&mut self) -> (r: (Vec<Stmt>, Vec<LoxError>))
        requires
            old(self).wf(),
        ensures
            final(self).wf(),
            views_of_stmts(r.0@) == spec_parse_recover(
                old(self).spec_tokens(),
                old(self).spec_pos(),
            ).0,
            views_of_errors(r.1@) == spec_parse_recover(
                old(self).spec_tokens(),
                old(self).spec_pos(),
            ).1,
        decreases spec_remaining(old(self).spec_tokens(), old(self).spec_pos()), 17int,
    {
        if self.is_at_end() {
            let stmts: Vec<Stmt> = Vec::new();
            let errs: Vec<LoxError> = Vec::new();
            proof {
                assert(views_of_stmts(stmts@) =~= Seq::<StmtView>::empty());
                assert(views_of_errors(errs@) =~= Seq::<ErrorView>::empty());
            }
            return (stmts, errs);
        }
        let ghost ts = self.spec_tokens();
        let ghost pos0 = self.spec_pos();
        match self.statement() {
            Ok(s) => {
                proof {
                    let st = spec_statement(ts, pos0);
                    assert(spec_after(pos0 + 1, st.pos) == st.pos);
                }
                let (mut stmts, errs) = self.parse_with_recovery();
                let ghost tail_views = stmts@;
                stmts.insert(0, s);
                proof {
                    assert(views_of_stmts(stmts@) =~= seq![s@] + views_of_stmts(tail_views));
                }
                (stmts, errs)
            },
            Err(e) => {
                self.synchronize();
                proof {
                    let st = spec_statement(ts, pos0);
                    assert(spec_after(pos0 + 1, spec_synchronize(ts, st.pos))
                        == spec_synchronize(ts, st.pos));
                }
                let (stmts, mut errs) = self.parse_with_recovery();
                let ghost tail_errs = errs@;
                errs.insert(0, e);
                proof {
                    assert(views_of_errors(errs@) =~= seq![e@] + views_of_errors(tail_errs));
                }
                (stmts, errs)
            },
        }
    }
}

fn is_statement_keyword(tt: TokenType) -> (r: bool)
    ensures
        r == spec_is_statement_keyword(tt),
{
    match tt {
        TokenType::Class => true,
        TokenType::Fun => true,
        TokenType::Var => true,
        TokenType::For => true,
        TokenType::If => true,
        TokenType::While => true,
        TokenType::Print => true,
        TokenType::Return => true,
        _ => false,
    }
}

} // verus!
