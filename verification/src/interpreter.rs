use vstd::prelude::*;
use crate::environment::Environment;
use crate::error::{ErrorKind, ErrorView, LoxError};
use crate::expression::{Expr, ExprView, LiteralValue, LiteralValueView};
use crate::numbers::{
    add_double, div_double, double_le, double_lt, double_neg, mul_double, spec_add_double,
    spec_div_double, spec_double_le, spec_double_lt, spec_double_neg, spec_mul_double,
    spec_sub_double, sub_double,
};
use crate::parser::{spec_parse_recover, views_of_stmts, Parser};
use crate::scanner::{spec_scan, Scanner};
use crate::stmt::{Stmt, StmtView};
use crate::token::{spec_kind_text, Token, TokenType, TokenView};
use crate::values::{
    spec_is_truthy, spec_value_eq, spec_value_text, Value, ValueView,
};

verus! {

// The tree-walking evaluator.  `spec_eval_expr` and `spec_exec_stmt` give
// the meaning of expressions and statements over a ghost environment map;
// the executable evaluator is proved to produce exactly those values,
// errors, outputs and environment updates.

/// A runtime error anchored at a line.
pub open spec fn spec_runtime_error(line: nat, message: Seq<char>) -> ErrorView {
    ErrorView { line, message, kind: ErrorKind::Runtime }
}

/// What evaluating an expression yields: a value or a runtime error, and
/// the environment afterwards.
pub ghost struct EvalOut {
    pub result: Result<ValueView, ErrorView>,
    pub env: Map<Seq<char>, ValueView>,
}

/// The message for an arithmetic or comparison on something non-numeric.
pub open spec fn spec_non_numeric_msg(op: TokenType) -> Seq<char> {
    "'"@ + spec_kind_text(op) + "' operation attempted on non numeric types"@
}

/// The message for `+` on operands where neither side is a string and not
/// both are numbers.
pub open spec fn spec_bad_plus_msg(op: TokenType) -> Seq<char> {
    spec_kind_text(op) + " operation attempted on binary in which neither are of type String or Number"@
}

/// The message for a unary or binary node carrying an operator token no
/// such node can carry.
pub open spec fn spec_bad_operator_msg(op: TokenType) -> Seq<char> {
    "invalid operator in expression: "@ + spec_kind_text(op)
}

/// The value a literal node evaluates to.
pub open spec fn spec_literal_value(v: LiteralValueView) -> ValueView {
    match v {
        LiteralValueView::Nil => ValueView::Nil,
        LiteralValueView::Number(bits) => ValueView::Number(bits),
        LiteralValueView::Boolean(b) => ValueView::Boolean(b),
        LiteralValueView::Text(s) => ValueView::Text(s),
    }
}

/// The value of a unary node applied to an already evaluated operand.
pub open spec fn spec_apply_unary(token: TokenView, v: ValueView) -> Result<ValueView, ErrorView> {
    match token.token_type {
        TokenType::Minus => if v is Number {
            Ok(ValueView::Number(spec_double_neg(v->Number_0)))
        } else {
            Err(spec_runtime_error(token.line, "{-} operation attempted on non numeric type"@))
        },
        TokenType::Bang => Ok(ValueView::Boolean(!spec_is_truthy(v))),
        _ => Err(spec_runtime_error(token.line, spec_bad_operator_msg(token.token_type))),
    }
}

/// The value of a binary node applied to already evaluated operands:
/// comparisons and `- * /` demand numbers, equality is structural, and `+`
/// adds numbers or concatenates display forms when either side is a string.
pub open spec fn spec_apply_binary(op: TokenView, l: ValueView, r: ValueView) -> Result<
    ValueView,
    ErrorView,
> {
    let both = l is Number && r is Number;
    match op.token_type {
        TokenType::Greater => if both {
            Ok(ValueView::Boolean(spec_double_lt(r->Number_0, l->Number_0)))
        } else {
            Err(spec_runtime_error(op.line, spec_non_numeric_msg(op.token_type)))
        },
        TokenType::GreaterEqual => if both {
            Ok(ValueView::Boolean(spec_double_le(r->Number_0, l->Number_0)))
        } else {
            Err(spec_runtime_error(op.line, spec_non_numeric_msg(op.token_type)))
        },
        TokenType::Less => if both {
            Ok(ValueView::Boolean(spec_double_lt(l->Number_0, r->Number_0)))
        } else {
            Err(spec_runtime_error(op.line, spec_non_numeric_msg(op.token_type)))
        },
        TokenType::LessEqual => if both {
            Ok(ValueView::Boolean(spec_double_le(l->Number_0, r->Number_0)))
        } else {
            Err(spec_runtime_error(op.line, spec_non_numeric_msg(op.token_type)))
        },
        TokenType::EqualEqual => Ok(ValueView::Boolean(spec_value_eq(l, r))),
        TokenType::BangEqual => Ok(ValueView::Boolean(!spec_value_eq(l, r))),
        TokenType::Minus => if both {
            Ok(ValueView::Number(spec_sub_double(l->Number_0, r->Number_0)))
        } else {
            Err(spec_runtime_error(op.line, spec_non_numeric_msg(op.token_type)))
        },
        TokenType::Slash => if both {
            Ok(ValueView::Number(spec_div_double(l->Number_0, r->Number_0)))
        } else {
            Err(spec_runtime_error(op.line, spec_non_numeric_msg(op.token_type)))
        },
        TokenType::Star => if both {
            Ok(ValueView::Number(spec_mul_double(l->Number_0, r->Number_0)))
        } else {
            Err(spec_runtime_error(op.line, spec_non_numeric_msg(op.token_type)))
        },
        TokenType::Plus => if both {
            Ok(ValueView::Number(spec_add_double(l->Number_0, r->Number_0)))
        } else if l is Text || r is Text {
            Ok(ValueView::Text(spec_value_text(l) + spec_value_text(r)))
        } else {
            Err(spec_runtime_error(op.line, spec_bad_plus_msg(op.token_type)))
        },
        _ => Err(spec_runtime_error(op.line, spec_bad_operator_msg(op.token_type))),
    }
}

/// The meaning of an expression: depth first, left to right, stopping at
/// the first error; only assignments change the environment.
pub open spec fn spec_eval_expr(e: ExprView, env: Map<Seq<char>, ValueView>) -> EvalOut
    decreases e,
{
    match e {
        ExprView::Literal { value } => EvalOut { result: Ok(spec_literal_value(value)), env },
        ExprView::Grouping { expression } => spec_eval_expr(*expression, env),
        ExprView::Unary { token, expression } => {
            let r = spec_eval_expr(*expression, env);
            match r.result {
                Err(e) => r,
                Ok(v) => EvalOut { result: spec_apply_unary(token, v), env: r.env },
            }
        },
        ExprView::Binary { left_expr, operator, right_expr } => {
            let l = spec_eval_expr(*left_expr, env);
            match l.result {
                Err(e) => l,
                Ok(lv) => {
                    let r = spec_eval_expr(*right_expr, l.env);
                    match r.result {
                        Err(e) => r,
                        Ok(rv) => EvalOut {
                            result: spec_apply_binary(operator, lv, rv),
                            env: r.env,
                        },
                    }
                },
            }
        },
        ExprView::Variable { token } => {
            if env.contains_key(token.lexeme) {
                EvalOut { result: Ok(env[token.lexeme]), env }
            } else {
                EvalOut {
                    result: Err(
                        spec_runtime_error(token.line, "Undefined Variable "@ + token.lexeme),
                    ),
                    env,
                }
            }
        },
        ExprView::Assignment { name, value } => {
            let r = spec_eval_expr(*value, env);
            match r.result {
                Err(e) => r,
                Ok(v) => {
                    if r.env.contains_key(name.lexeme) {
                        EvalOut { result: Ok(v), env: r.env.insert(name.lexeme, v) }
                    } else {
                        EvalOut {
                            result: Err(
                                spec_runtime_error(name.line, "invalid assignment target"@),
                            ),
                            env: r.env,
                        }
                    }
                },
            }
        },
    }
}

/// What one statement leaves behind: nothing, one printed line, or the
/// error it was stopped by.
pub enum StmtOutcome {
    Nothing,
    Printed(String),
    Failed(LoxError),
}

/// Ghost image of a statement outcome.
pub ghost enum OutcomeView {
    Nothing,
    Printed(Seq<char>),
    Failed(ErrorView),
}

impl View for StmtOutcome {
    type V = OutcomeView;

    open spec fn view(&self) -> OutcomeView {
        match self {
            StmtOutcome::Nothing => OutcomeView::Nothing,
            StmtOutcome::Printed(s) => OutcomeView::Printed(s@),
            StmtOutcome::Failed(e) => OutcomeView::Failed(e@),
        }
    }
}

/// What executing a statement yields.
pub ghost struct ExecOut {
    pub outcome: OutcomeView,
    pub env: Map<Seq<char>, ValueView>,
}

/// The meaning of one statement: an expression statement for its effects, a
/// print statement for its one line of output, a declaration for its new
/// binding (nil when uninitialized).
pub open spec fn spec_exec_stmt(s: StmtView, env: Map<Seq<char>, ValueView>) -> ExecOut {
    match s {
        StmtView::Expression(e) => {
            let r = spec_eval_expr(e, env);
            match r.result {
                Ok(_) => ExecOut { outcome: OutcomeView::Nothing, env: r.env },
                Err(err) => ExecOut { outcome: OutcomeView::Failed(err), env: r.env },
            }
        },
        StmtView::Print(e) => {
            let r = spec_eval_expr(e, env);
            match r.result {
                Ok(v) => ExecOut { outcome: OutcomeView::Printed(spec_value_text(v)), env: r.env },
                Err(err) => ExecOut { outcome: OutcomeView::Failed(err), env: r.env },
            }
        },
        StmtView::Var(name, init) => {
            match init {
                Some(e) => {
                    let r = spec_eval_expr(e, env);
                    match r.result {
                        Ok(v) => ExecOut {
                            outcome: OutcomeView::Nothing,
                            env: r.env.insert(name.lexeme, v),
                        },
                        Err(err) => ExecOut { outcome: OutcomeView::Failed(err), env: r.env },
                    }
                },
                None => ExecOut {
                    outcome: OutcomeView::Nothing,
                    env: env.insert(name.lexeme, ValueView::Nil),
                },
            }
        },
    }
}

/// The meaning of a program: statements in order, each against the
/// environment the one before left, an outcome for each; an error stops
/// the statement it arose in and the next statement still runs.
pub open spec fn spec_run(ss: Seq<StmtView>, env: Map<Seq<char>, ValueView>) -> (Seq<
    OutcomeView,
>, Map<Seq<char>, ValueView>)
    decreases ss.len(),
{
    if ss.len() == 0 {
        (Seq::empty(), env)
    } else {
        let first = spec_exec_stmt(ss[0], env);
        let rest = spec_run(ss.subrange(1, ss.len() as int), first.env);
        (seq![first.outcome] + rest.0, rest.1)
    }
}

pub open spec fn views_of_outcomes(os: Seq<StmtOutcome>) -> Seq<OutcomeView> {
    os.map_values(|o: StmtOutcome| o@)
}

/// The tree-walking evaluator with its one global environment.
pub struct Interpreter {
    env: Environment,
}

impl View for Interpreter {
    type V = Map<Seq<char>, ValueView>;

    closed spec fn view(&self) -> Map<Seq<char>, ValueView> {
        self.env@
    }
}

impl Interpreter {
    /// An interpreter over a fresh, empty environment.
    pub fn new() -> (i: Interpreter)
        ensures
            i@ == Map::<Seq<char>, ValueView>::empty(),
    {
        Interpreter { env: Environment::new() }
    }

    fn literal_to_value(&self, literal: &LiteralValue) -> (v: Value)
        ensures
            v@ == spec_literal_value(literal@),
    {
        match literal {
            LiteralValue::Nil => Value::Nil,
            LiteralValue::Number(n) => Value::Number(*n),
            LiteralValue::Boolean(b) => Value::Boolean(*b),
            LiteralValue::Text(s) => Value::Text(s.clone()),
        }
    }

    /// Both operands must be numbers; otherwise the runtime error naming
    /// the operator.
    fn both_are_numeric(&self, left_val: &Value, operator: &Token, right_val: &Value) -> (r: Result<
        bool,
        LoxError,
    >)
        ensures
            match r {
                Ok(b) => b && left_val@ is Number && right_val@ is Number,
                Err(e) => !(left_val@ is Number && right_val@ is Number) && e@
                    == spec_runtime_error(
                    operator@.line,
                    spec_non_numeric_msg(operator@.token_type),
                ),
            },
    {
        if left_val.is_numeric() && right_val.is_numeric() {
            Ok(true)
        } else {
            let mut msg = String::new();
            msg.append("'");
            msg.append(operator.token_type.kind_text());
            msg.append("' operation attempted on non numeric types");
            Err(LoxError::runtime(operator.duplicate(), msg))
        }
    }

    /// If either side is a string, the concatenation of both display
    /// forms; otherwise the runtime error naming the operator.
    fn concatenate_strings(&self, left_val: Value, operator: &Token, right_val: Value) -> (r:
        Result<String, LoxError>)
        ensures
            match r {
                Ok(s) => (left_val@ is Text || right_val@ is Text) && s@ == spec_value_text(
                    left_val@,
                ) + spec_value_text(right_val@),
                Err(e) => !(left_val@ is Text || right_val@ is Text) && e@ == spec_runtime_error(
                    operator@.line,
                    spec_bad_plus_msg(operator@.token_type),
                ),
            },
    {
        if left_val.is_stringy() || right_val.is_stringy() {
            let mut s = left_val.as_string();
            let right_text = right_val.as_string();
            s.append(right_text.as_str());
            Ok(s)
        } else {
            let mut msg = String::new();
            msg.append(operator.token_type.kind_text());
            msg.append(" operation attempted on binary in which neither are of type String or Number");
            Err(LoxError::runtime(operator.duplicate(), msg))
        }
    }

    #[verifier::rlimit(100)]
    fn evaluate_unary(&mut self, operator: Token, expression: &Expr) -> (r: Result<Value, LoxError>)
        requires
            true,
        ensures
            ({
                let out = spec_eval_expr(
                    ExprView::Unary { token: operator@, expression: Box::new(expression@) },
                    old(self)@,
                );
                &&& final(self)@ == out.env
                &&& match r {
                    Ok(v) => out.result matches Ok(vv) && v@ == vv,
                    Err(e) => out.result matches Err(ev) && e@ == ev,
                }
            }),
        decreases expression@, 3int,
    {
        let right_val = match self.evaluate_expression(expression) {
            Ok(v) => v,
            Err(e) => {
                return Err(e);
            },
        };
        match operator.token_type {
            TokenType::Minus => {
                if right_val.is_numeric() {
                    Ok(Value::Number(double_neg(right_val.as_number())))
                } else {
                    let mut msg = String::new();
                    msg.append("{-} operation attempted on non numeric type");
                    Err(LoxError::runtime(operator, msg))
                }
            },
            TokenType::Bang => Ok(Value::Boolean(!right_val.is_truthy())),
            _ => {
                let mut msg = String::new();
                msg.append("invalid operator in expression: ");
                msg.append(operator.token_type.kind_text());
                Err(LoxError::runtime(operator, msg))
            },
        }
    }

    #[verifier::rlimit(100)]
    fn evaluate_binary(
        &mut self,
        left_expr: &Expr,
        operator: Token,
        right_expr: &Expr,
        parent: Ghost<ExprView>,
    ) -> (r: Result<Value, LoxError>)
        requires
            parent@ == (ExprView::Binary {
                left_expr: Box::new(left_expr@),
                operator: operator@,
                right_expr: Box::new(right_expr@),
            }),
        ensures
            ({
                let out = spec_eval_expr(
                    ExprView::Binary {
                        left_expr: Box::new(left_expr@),
                        operator: operator@,
                        right_expr: Box::new(right_expr@),
                    },
                    old(self)@,
                );
                &&& final(self)@ == out.env
                &&& match r {
                    Ok(v) => out.result matches Ok(vv) && v@ == vv,
                    Err(e) => out.result matches Err(ev) && e@ == ev,
                }
            }),
        decreases parent@, 1int,
    {
        let left_val = match self.evaluate_expression(left_expr) {
            Ok(v) => v,
            Err(e) => {
                return Err(e);
            },
        };
        let right_val = match self.evaluate_expression(right_expr) {
            Ok(v) => v,
            Err(e) => {
                return Err(e);
            },
        };
        match operator.token_type {
            TokenType::Greater => {
                match self.both_are_numeric(&left_val, &operator, &right_val) {
                    Err(e) => Err(e),
                    Ok(_) => Ok(
                        Value::Boolean(double_lt(right_val.as_number(), left_val.as_number())),
                    ),
                }
            },
            TokenType::GreaterEqual => {
                match self.both_are_numeric(&left_val, &operator, &right_val) {
                    Err(e) => Err(e),
                    Ok(_) => Ok(
                        Value::Boolean(double_le(right_val.as_number(), left_val.as_number())),
                    ),
                }
            },
            TokenType::Less => {
                match self.both_are_numeric(&left_val, &operator, &right_val) {
                    Err(e) => Err(e),
                    Ok(_) => Ok(
                        Value::Boolean(double_lt(left_val.as_number(), right_val.as_number())),
                    ),
                }
            },
            TokenType::LessEqual => {
                match self.both_are_numeric(&left_val, &operator, &right_val) {
                    Err(e) => Err(e),
                    Ok(_) => Ok(
                        Value::Boolean(double_le(left_val.as_number(), right_val.as_number())),
                    ),
                }
            },
            TokenType::EqualEqual => Ok(Value::Boolean(left_val.equals(&right_val))),
            TokenType::BangEqual => Ok(Value::Boolean(!left_val.equals(&right_val))),
            TokenType::Minus => {
                match self.both_are_numeric(&left_val, &operator, &right_val) {
                    Err(e) => Err(e),
                    Ok(_) => Ok(
                        Value::Number(sub_double(left_val.as_number(), right_val.as_number())),
                    ),
                }
            },
            TokenType::Slash => {
                match self.both_are_numeric(&left_val, &operator, &right_val) {
                    Err(e) => Err(e),
                    Ok(_) => Ok(
                        Value::Number(div_double(left_val.as_number(), right_val.as_number())),
                    ),
                }
            },
            TokenType::Star => {
                match self.both_are_numeric(&left_val, &operator, &right_val) {
                    Err(e) => Err(e),
                    Ok(_) => Ok(
                        Value::Number(mul_double(left_val.as_number(), right_val.as_number())),
                    ),
                }
            },
            TokenType::Plus => {
                if left_val.is_numeric() && right_val.is_numeric() {
                    Ok(Value::Number(add_double(left_val.as_number(), right_val.as_number())))
                } else {
                    match self.concatenate_strings(left_val, &operator, right_val) {
                        Ok(s) => Ok(Value::Text(s)),
                        Err(e) => Err(e),
                    }
                }
            },
            _ => {
                let mut msg = String::new();
                msg.append("invalid operator in expression: ");
                msg.append(operator.token_type.kind_text());
                Err(LoxError::runtime(operator, msg))
            },
        }
    }

    /// Evaluates an expression against the interpreter's environment,
    /// yielding exactly what `spec_eval_expr` describes.
    #[verifier::rlimit(100)]
    pub fn evaluate_expression(&mut self, expr: &Expr) -> (r: Result<Value, LoxError>)
        ensures
            ({
                let out = spec_eval_expr(expr@, old(self)@);
                &&& final(self)@ == out.env
                &&& match r {
                    Ok(v) => out.result matches Ok(vv) && v@ == vv,
                    Err(e) => out.result matches Err(ev) && e@ == ev,
                }
            }),
        decreases expr@, 2int,
    {
        match expr {
            Expr::Literal { value } => Ok(self.literal_to_value(value)),
            Expr::Grouping { expression } => self.evaluate_expression(expression),
            Expr::Unary { token, expression } => self.evaluate_unary(token.duplicate(), expression),
            Expr::Binary { left_expr, operator, right_expr } => self.evaluate_binary(
                left_expr,
                operator.duplicate(),
                right_expr,
                Ghost(expr@),
            ),
            Expr::Variable { token } => self.env.get(token),
            Expr::Assignment { name, value } => {
                let v = match self.evaluate_expression(value) {
                    Ok(v) => v,
                    Err(e) => {
                        return Err(e);
                    },
                };
                match self.env.assign(name.duplicate(), &v) {
                    Ok(_) => Ok(v),
                    Err(e) => Err(e),
                }
            },
        }
    }

    /// Executes one statement, yielding its outcome and leaving the
    /// environment as `spec_exec_stmt` describes.
    #[verifier::rlimit(100)]
    pub fn evaluate_statement(&mut self, stmt: &Stmt) -> (o: StmtOutcome)
        ensures
            ({
                let out = spec_exec_stmt(stmt@, old(self)@);
                &&& final(self)@ == out.env
                &&& o@ == out.outcome
            }),
    {
        match stmt {
            Stmt::Expression(expr) => {
                match self.evaluate_expression(expr) {
                    Ok(_) => StmtOutcome::Nothing,
                    Err(e) => StmtOutcome::Failed(e),
                }
            },
            Stmt::Print(expr) => {
                match self.evaluate_expression(expr) {
                    Ok(value) => StmtOutcome::Printed(value.as_string()),
                    Err(e) => StmtOutcome::Failed(e),
                }
            },
            Stmt::Var(name, init) => {
                match init {
                    Some(expr) => {
                        match self.evaluate_expression(expr) {
                            Ok(value) => {
                                self.env.define(name.lexeme.clone(), value);
                                StmtOutcome::Nothing
                            },
                            Err(e) => StmtOutcome::Failed(e),
                        }
                    },
                    None => {
                        self.env.define(name.lexeme.clone(), Value::Nil);
                        StmtOutcome::Nothing
                    },
                }
            },
        }
    }

    /// Executes the statements in order against the one environment,
    /// collecting one outcome per statement; an error ends its own
    /// statement only.
    #[verifier::rlimit(100)]
    pub fn interpret(&mut self, statements: Vec<Stmt>) -> (outcomes: Vec<StmtOutcome>)
        ensures
            views_of_outcomes(outcomes@) == spec_run(
                views_of_stmts(statements@),
                old(self)@,
            ).0,
            final(self)@ == spec_run(views_of_stmts(statements@), old(self)@).1,
    {
        let ghost all = views_of_stmts(statements@);
        let ghost env0 = self@;
        let mut outcomes: Vec<StmtOutcome> = Vec::new();
        let mut i: usize = 0;
        proof {
            assert(views_of_outcomes(outcomes@) =~= Seq::<OutcomeView>::empty());
            assert(all.subrange(0, all.len() as int) =~= all);
        }
        while i < statements.len()
            invariant
                0 <= i <= statements.len(),
                all == views_of_stmts(statements@),
                spec_run(all, env0).0 == views_of_outcomes(outcomes@) + spec_run(
                    all.subrange(i as int, all.len() as int),
                    self@,
                ).0,
                spec_run(all, env0).1 == spec_run(
                    all.subrange(i as int, all.len() as int),
                    self@,
                ).1,
            decreases statements.len() - i,
        {
            let ghost envi = self@;
            let ghost rest = all.subrange(i as int, all.len() as int);
            let o = self.evaluate_statement(&statements[i]);
            outcomes.push(o);
            proof {
                assert(rest[0] == all[i as int]);
                assert(rest.subrange(1, rest.len() as int) =~= all.subrange(
                    i + 1,
                    all.len() as int,
                ));
                assert(views_of_outcomes(outcomes@) =~= views_of_outcomes(
                    outcomes@.subrange(0, outcomes@.len() - 1),
                ).push(o@));
                assert(views_of_outcomes(outcomes@.subrange(0, outcomes@.len() - 1)) + (seq![o@]
                    + spec_run(all.subrange(i + 1, all.len() as int), self@).0)
                    =~= views_of_outcomes(outcomes@) + spec_run(
                    all.subrange(i + 1, all.len() as int),
                    self@,
                ).0);
            }
            i = i + 1;
        }
        proof {
            assert(all.subrange(all.len() as int, all.len() as int) =~= Seq::<StmtView>::empty());
            assert(views_of_outcomes(outcomes@) + Seq::<OutcomeView>::empty() =~= views_of_outcomes(
                outcomes@,
            ));
        }
        outcomes
    }
}

/// What running a source text comes to: the lexical errors where scanning
/// found any, else every parse error the recovering parser met, else the
/// outcome of every statement.
pub enum RunResult {
    ScanErrors(Vec<LoxError>),
    ParseErrors(Vec<LoxError>),
    Executed(Vec<StmtOutcome>),
}

/// Runs a source text through the scanner, the parser and the evaluator
/// against a fresh environment.  Scanning errors stop the run before
/// parsing; the parser recovers at statement boundaries and reports every
/// parse error, which stops the run before evaluation; and otherwise every
/// statement runs in order.
pub fn run_source(source: String) -> (r: RunResult)
    requires
        source@.len() < usize::MAX,
    ensures
        ({
            let (toks, serrs) = spec_scan(source@, 0, 1);
            let parsed = spec_parse_recover(toks, 0);
            if serrs.len() > 0 {
                r matches RunResult::ScanErrors(es)
                    && crate::scanner::views_of_errors(es@) == serrs
            } else if parsed.1.len() > 0 {
                r matches RunResult::ParseErrors(es)
                    && crate::scanner::views_of_errors(es@) == parsed.1
            } else {
                r matches RunResult::Executed(os) && views_of_outcomes(os@) == spec_run(
                    parsed.0,
                    Map::empty(),
                ).0
            }
        }),
{
    let scanner = Scanner::new(source);
    let (tokens, errors) = scanner.scan_tokens();
    if errors.len() > 0 {
        return RunResult::ScanErrors(errors);
    }
    let mut parser = Parser::new(tokens);
    let (statements, parse_errors) = parser.parse_with_recovery();
    if parse_errors.len() > 0 {
        return RunResult::ParseErrors(parse_errors);
    }
    let mut interpreter = Interpreter::new();
    RunResult::Executed(interpreter.interpret(statements))
}

} // verus!
