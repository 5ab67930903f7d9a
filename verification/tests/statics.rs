use vyn::ast::Expr;
use vyn::span::{Span, Spanned};
use vyn::tokens::Token;
use vyn::errors::ErrorCollector;
use vyn::lexer::Lexer;
use vyn::parser::Parser;
use vyn::static_evaluator::{StaticEvaluator, StaticValue};
use vyn::tokens::TokenType;

fn float_op(a: String, op: TokenType, b: String) -> Option<String> {
    let x: f64 = a.parse().unwrap();
    let y: f64 = b.parse().unwrap();
    match op {
        TokenType::Plus => Some(format!("{}", x + y)),
        TokenType::Minus => Some(format!("{}", x - y)),
        TokenType::Asterisk => Some(format!("{}", x * y)),
        TokenType::Slash => {
            if y == 0.0 {
                None
            } else {
                Some(format!("{}", x / y))
            }
        }
        _ => None,
    }
}

fn evaluate(src: &str) -> (StaticEvaluator, Result<(), ()>, ErrorCollector) {
    let mut lexer = Lexer::new(src);
    let mut parser = Parser::new(lexer.tokenize());
    let program = parser.parse_program().expect("program parses");
    let mut eval = StaticEvaluator::new();
    let mut errors = ErrorCollector::new();
    let r = eval.evaluate_program(&program, &mut errors, &float_op);
    (eval, r, errors)
}

#[test]
fn statics_are_evaluated_in_order() {
    let (eval, r, errors) = evaluate("static A: Int = 2;\nstatic B: Int = A * 3 + 1;\n");
    assert!(r.is_ok());
    assert!(!errors.has_errors());
    assert_eq!(eval.get_static_int("A"), Some(2));
    assert_eq!(eval.get_static_int("B"), Some(7));
    assert_eq!(eval.get_static_int("C"), None);
}

#[test]
fn later_statics_are_not_yet_known() {
    let (eval, r, errors) = evaluate("static B: Int = A;\nstatic A: Int = 1;\n");
    assert!(r.is_err());
    assert!(errors.has_errors());
    assert_eq!(eval.get_static_int("B"), None);
    assert_eq!(eval.get_static_int("A"), Some(1));
}

#[test]
fn redeclared_statics_keep_the_first_value() {
    let (eval, r, _) = evaluate("static A: Int = 1;\nstatic A: Int = 5;\n");
    assert!(r.is_err());
    assert_eq!(eval.get_static_int("A"), Some(1));
}

#[test]
fn overflow_and_division_by_zero_fail() {
    let (eval, r, _) = evaluate("static A: Int = 2147483647 + 1;\n");
    assert!(r.is_err());
    assert_eq!(eval.get_static_int("A"), None);
    let (_, r, _) = evaluate("static Z: Int = 4 / 0;\n");
    assert!(r.is_err());
}

#[test]
fn float_statics_use_the_host_arithmetic() {
    let (eval, r, _) = evaluate("static F: Float = 1.5 + 2.25;\n");
    assert!(r.is_ok());
    assert_eq!(eval.get_static("F"), Some(&StaticValue::Float("3.75".to_string())));
    let (_, r, _) = evaluate("static G: Float = 1.5 / 0.0;\n");
    assert!(r.is_err());
}

#[test]
fn unary_statics() {
    let (eval, r, _) = evaluate("static N: Int = -4;\nstatic M: Int = -N;\n");
    assert!(r.is_ok());
    assert_eq!(eval.get_static_int("N"), Some(-4));
    assert_eq!(eval.get_static_int("M"), Some(4));
    // `not` parses as a unary operator but is no static operation
    let (eval, r, _) = evaluate("static T: Bool = not true;\n");
    assert!(r.is_err());
    assert_eq!(eval.get_static("T"), None);
}

#[test]
fn a_single_error_names_the_fault() {
    let s = Span::default();
    let sp = Span { line: 3, start_column: 1, end_column: 9 };
    let e = Spanned {
        node: Expr::BinaryOperation {
            left: Box::new(Spanned { node: Expr::IntegerLiteral(2147483647), span: s }),
            operator: Token::Plus,
            right: Box::new(Spanned { node: Expr::IntegerLiteral(1), span: s }),
        },
        span: sp,
    };
    let mut se = StaticEvaluator::new();
    let mut ec = ErrorCollector::new();
    assert!(se.evaluate_static_expr(&e, &mut ec, &float_op).is_err());
    assert_eq!(ec.errors.len(), 1);
    assert!(matches!(ec.errors[0], vyn::errors::VynError::StaticOverflow { span } if span == sp));
    let e = Spanned {
        node: Expr::BinaryOperation {
            left: Box::new(Spanned { node: Expr::IntegerLiteral(1), span: s }),
            operator: Token::Slash,
            right: Box::new(Spanned { node: Expr::IntegerLiteral(0), span: s }),
        },
        span: sp,
    };
    let mut ec = ErrorCollector::new();
    assert!(se.evaluate_static_expr(&e, &mut ec, &float_op).is_err());
    assert_eq!(ec.errors.len(), 1);
    assert!(matches!(ec.errors[0], vyn::errors::VynError::DivisionByZero { span } if span == sp));
}
