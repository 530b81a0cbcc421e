use rlox::environment::Environment;
use rlox::error::ErrorKind;
use rlox::expression::{Expr, LiteralValue};
use rlox::interpreter::{run_source, Interpreter, RunResult, StmtOutcome};
use rlox::stmt::Stmt;
use rlox::token::{Token, TokenType};
use rlox::values::Value;

fn printed_lines(source: &str) -> Vec<String> {
    match run_source(source.to_string()) {
        RunResult::Executed(outcomes) => outcomes
            .into_iter()
            .map(|o| match o {
                StmtOutcome::Printed(s) => s,
                StmtOutcome::Nothing => panic!("statement printed nothing"),
                StmtOutcome::Failed(e) => panic!("statement failed: {}", e.display_text()),
            })
            .collect(),
        RunResult::ScanErrors(_) => panic!("scanning failed"),
        RunResult::ParseErrors(_) => panic!("parsing failed"),
    }
}

fn first_failure(source: &str) -> rlox::error::LoxError {
    match run_source(source.to_string()) {
        RunResult::Executed(outcomes) => {
            for o in outcomes {
                if let StmtOutcome::Failed(e) = o {
                    return e;
                }
            }
            panic!("no statement failed");
        },
        _ => panic!("the source did not reach evaluation"),
    }
}

#[test]
fn truthiness_follows_nil_and_false_only() {
    assert!(!Value::Nil.is_truthy());
    assert!(!Value::Boolean(false).is_truthy());
    assert!(Value::Boolean(true).is_truthy());
    assert!(Value::Number(0f64.to_bits()).is_truthy());
    assert!(Value::Text(String::new()).is_truthy());
}

#[test]
fn arithmetic_evaluates_to_exact_values() {
    assert_eq!(printed_lines("print(1+2);"), vec!["3"]);
    assert_eq!(printed_lines("print(5-2);"), vec!["3"]);
    assert_eq!(printed_lines("print(2*3);"), vec!["6"]);
    assert_eq!(printed_lines("print(10/4);"), vec!["2.5"]);
    assert_eq!(printed_lines("print(-(1+2));"), vec!["-3"]);
}

#[test]
fn precedence_groups_factors_before_terms() {
    assert_eq!(printed_lines("print(1+2*3);"), vec!["7"]);
    assert_eq!(printed_lines("print(1+(2*3));"), vec!["7"]);
    assert_eq!(printed_lines("print((1+2)*3);"), vec!["9"]);
}

#[test]
fn division_follows_ieee_semantics() {
    assert_eq!(printed_lines("print(1/0);"), vec!["inf"]);
    assert_eq!(printed_lines("print(-1/0);"), vec!["-inf"]);
    assert_eq!(printed_lines("print(0/0);"), vec!["NaN"]);
}

#[test]
fn comparisons_demand_numbers() {
    assert_eq!(printed_lines("print(1<2);"), vec!["true"]);
    assert_eq!(printed_lines("print(2<=1);"), vec!["false"]);
    assert_eq!(printed_lines("print(3>2);"), vec!["true"]);
    assert_eq!(printed_lines("print(2>=3);"), vec!["false"]);
    let err = first_failure("true<1;");
    assert!(matches!(err.kind, ErrorKind::Runtime));
    assert_eq!(err.message, "'Less' operation attempted on non numeric types");
}

#[test]
fn string_minus_number_is_a_runtime_error() {
    let err = first_failure("\"a\"-1;");
    assert!(matches!(err.kind, ErrorKind::Runtime));
    assert_eq!(err.message, "'Minus' operation attempted on non numeric types");
}

#[test]
fn number_plus_string_concatenates() {
    assert_eq!(printed_lines("print(1+\"a\");"), vec!["1a"]);
    assert_eq!(printed_lines("print(\"a\"+\"b\");"), vec!["ab"]);
    assert_eq!(printed_lines("print(\"v=\"+nil);"), vec!["v=NIL"]);
    assert_eq!(printed_lines("print(true+\"!\");"), vec!["true!"]);
}

#[test]
fn plus_on_nil_and_boolean_is_a_runtime_error() {
    let err = first_failure("nil+true;");
    assert!(matches!(err.kind, ErrorKind::Runtime));
    assert_eq!(
        err.message,
        "Plus operation attempted on binary in which neither are of type String or Number"
    );
}

#[test]
fn equality_is_structural_and_never_coerces() {
    assert_eq!(printed_lines("print(1==\"1\");"), vec!["false"]);
    assert_eq!(printed_lines("print(1==1);"), vec!["true"]);
    assert_eq!(printed_lines("print(1!=2);"), vec!["true"]);
    assert_eq!(printed_lines("print(nil==nil);"), vec!["true"]);
    assert_eq!(printed_lines("print(\"a\"==\"a\");"), vec!["true"]);
    assert_eq!(printed_lines("print(0/0==0/0);"), vec!["false"]);
}

#[test]
fn unary_minus_demands_a_number() {
    assert_eq!(printed_lines("print(-3);"), vec!["-3"]);
    let err = first_failure("-\"a\";");
    assert!(matches!(err.kind, ErrorKind::Runtime));
    assert_eq!(err.message, "{-} operation attempted on non numeric type");
}

#[test]
fn bang_negates_truthiness() {
    assert_eq!(printed_lines("print(!nil);"), vec!["true"]);
    assert_eq!(printed_lines("print(!0);"), vec!["false"]);
    assert_eq!(printed_lines("print(!\"\");"), vec!["false"]);
    assert_eq!(printed_lines("print(!false);"), vec!["true"]);
}

#[test]
fn an_error_stops_its_statement_only() {
    match run_source("print(1);\"a\"-1;print(2);".to_string()) {
        RunResult::Executed(outcomes) => {
            assert_eq!(outcomes.len(), 3);
            assert!(matches!(&outcomes[0], StmtOutcome::Printed(s) if s == "1"));
            assert!(matches!(&outcomes[1], StmtOutcome::Failed(_)));
            assert!(matches!(&outcomes[2], StmtOutcome::Printed(s) if s == "2"));
        },
        _ => panic!("the source did not reach evaluation"),
    }
}

#[test]
fn parse_errors_are_all_reported_and_stop_the_run() {
    match run_source("1+;print(2;".to_string()) {
        RunResult::ParseErrors(errors) => {
            assert_eq!(errors.len(), 2);
            assert!(matches!(errors[0].kind, ErrorKind::Static));
        },
        _ => panic!("parsing should have failed"),
    }
}

#[test]
fn large_numbers_print_in_plain_decimal() {
    assert_eq!(
        printed_lines("print(100000000000000000000);"),
        vec!["100000000000000000000"]
    );
    assert_eq!(printed_lines("print(100000000000000000);"), vec!["100000000000000000"]);
}

#[test]
fn scan_errors_stop_the_run_before_parsing() {
    match run_source("print(1);@".to_string()) {
        RunResult::ScanErrors(errors) => {
            assert_eq!(errors.len(), 1);
            assert_eq!(errors[0].message, "unexpected token: @");
        },
        _ => panic!("scanning should have failed"),
    }
}

fn identifier(name: &str) -> Token {
    Token::new(TokenType::Identifier, name.to_string(), None, 1)
}

#[test]
fn environment_defines_and_reads_bindings() {
    let mut env = Environment::new();
    env.define("x".to_string(), Value::Number(5f64.to_bits()));
    match env.get(&identifier("x")) {
        Ok(Value::Number(bits)) => assert_eq!(bits, 5f64.to_bits()),
        _ => panic!("x should be bound to 5"),
    }
    // Redeclaration silently shadows the prior value.
    env.define("x".to_string(), Value::Boolean(true));
    assert!(matches!(env.get(&identifier("x")), Ok(Value::Boolean(true))));
}

#[test]
fn reading_an_undefined_variable_is_a_runtime_error() {
    let env = Environment::new();
    let err = env.get(&identifier("ghostly")).unwrap_err();
    assert!(matches!(err.kind, ErrorKind::Runtime));
    assert_eq!(err.message, "Undefined Variable ghostly");
}

#[test]
fn assigning_an_unbound_name_is_a_runtime_error() {
    let mut env = Environment::new();
    let err = env.assign(identifier("y"), &Value::Nil).unwrap_err();
    assert!(matches!(err.kind, ErrorKind::Runtime));
    assert_eq!(err.message, "invalid assignment target");

    env.define("y".to_string(), Value::Nil);
    assert!(env.assign(identifier("y"), &Value::Number(2f64.to_bits())).is_ok());
    assert!(matches!(env.get(&identifier("y")), Ok(Value::Number(_))));
}

#[test]
fn var_statements_bind_in_the_interpreter() {
    let mut interpreter = Interpreter::new();
    let declare = Stmt::Var(
        identifier("x"),
        Some(Expr::literal(LiteralValue::Number(4f64.to_bits()))),
    );
    assert!(matches!(interpreter.evaluate_statement(&declare), StmtOutcome::Nothing));

    let read = Expr::variable(identifier("x"));
    match interpreter.evaluate_expression(&read) {
        Ok(Value::Number(bits)) => assert_eq!(bits, 4f64.to_bits()),
        _ => panic!("x should be bound to 4"),
    }

    // An uninitialized declaration binds nil.
    let bare = Stmt::Var(identifier("z"), None);
    assert!(matches!(interpreter.evaluate_statement(&bare), StmtOutcome::Nothing));
    assert!(matches!(
        interpreter.evaluate_expression(&Expr::variable(identifier("z"))),
        Ok(Value::Nil)
    ));
}

#[test]
fn assignment_expressions_rebind_and_yield_the_value() {
    let mut interpreter = Interpreter::new();
    let declare = Stmt::Var(
        identifier("x"),
        Some(Expr::literal(LiteralValue::Number(1f64.to_bits()))),
    );
    interpreter.evaluate_statement(&declare);

    let assign = Expr::assignment(
        identifier("x"),
        Expr::literal(LiteralValue::Text("fresh".to_string())),
    );
    match interpreter.evaluate_expression(&assign) {
        Ok(Value::Text(s)) => assert_eq!(s, "fresh"),
        _ => panic!("assignment should yield the assigned value"),
    }
    match interpreter.evaluate_expression(&Expr::variable(identifier("x"))) {
        Ok(Value::Text(s)) => assert_eq!(s, "fresh"),
        _ => panic!("x should hold the fresh value"),
    }

    let bad = Expr::assignment(identifier("nowhere"), Expr::literal(LiteralValue::Nil));
    let err = interpreter.evaluate_expression(&bad).unwrap_err();
    assert_eq!(err.message, "invalid assignment target");
}

#[test]
fn error_text_carries_kind_and_line() {
    let static_err = rlox::error::LoxError::new(3, "boom".to_string());
    assert_eq!(static_err.display_text(), "[line 3] Error: boom");
    let err = first_failure("\"a\"-1;");
    assert_eq!(
        err.display_text(),
        "[line 1] Runtime Error: 'Minus' operation attempted on non numeric types"
    );
}
