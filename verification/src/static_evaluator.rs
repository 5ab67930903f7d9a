use vstd::prelude::*;
use vstd::std_specs::iter::IteratorSpec;
use crate::ast::{Expr, Expression, Program, Statement, Stmt};
use crate::errors::{ErrorCollector, VynError};
use crate::span::{Span, Spanned};
use crate::tokens::{Token, TokenType, spec_token_type};
use vstd::arithmetic::power::pow;
use crate::vm::{checked_pow_spec, fits_i32};

verus! {

/// A value known at compile time. A float is held as the text of its value.
#[derive(Debug, PartialEq)]
pub enum StaticValue {
    Int(i32),
    Float(String),
    Bool(bool),
    String(String),
    Nil,
}

impl StaticValue {
    /// The integer held, if any.
    pub fn as_int(&self) -> (r: Option<i32>)
        ensures
            r == (match *self {
                StaticValue::Int(n) => Some(n),
                _ => None,
            }),
    {
        match self {
            StaticValue::Int(n) => Some(*n),
            _ => None,
        }
    }

    /// The text of the float held, if any.
    pub fn as_float(&self) -> (r: Option<String>)
        ensures
            r matches Some(t) ==> *self == StaticValue::Float(t),
            r is None ==> !(*self is Float),
    {
        match self {
            StaticValue::Float(f) => Some(f.clone()),
            _ => None,
        }
    }

    /// The boolean held, if any.
    pub fn as_bool(&self) -> (r: Option<bool>)
        ensures
            r == (match *self {
                StaticValue::Bool(b) => Some(b),
                _ => None,
            }),
    {
        match self {
            StaticValue::Bool(b) => Some(*b),
            _ => None,
        }
    }

    /// A copy of this value.
    pub fn copy(&self) -> (v: StaticValue)
        ensures
            v == *self,
    {
        match self {
            StaticValue::Int(n) => StaticValue::Int(*n),
            StaticValue::Float(f) => StaticValue::Float(f.clone()),
            StaticValue::Bool(b) => StaticValue::Bool(*b),
            StaticValue::String(s) => StaticValue::String(s.clone()),
            StaticValue::Nil => StaticValue::Nil,
        }
    }
}

/// What a static value denotes: a float or string by its characters.
pub enum StaticView {
    Int(i32),
    Float(Seq<char>),
    Bool(bool),
    Str(Seq<char>),
    Nil,
}

impl View for StaticValue {
    type V = StaticView;

    open spec fn view(&self) -> StaticView {
        match *self {
            StaticValue::Int(n) => StaticView::Int(n),
            StaticValue::Float(f) => StaticView::Float(f@),
            StaticValue::Bool(b) => StaticView::Bool(b),
            StaticValue::String(s) => StaticView::Str(s@),
            StaticValue::Nil => StaticView::Nil,
        }
    }
}

/// What evaluating a static expression gives, as far as the library decides
/// it: a value, a failure, or a result that rests on float arithmetic done
/// by the host.
pub enum StaticOutcome {
    Known(StaticView),
    Fails,
    FloatDependent,
}

/// The text of the negation of a float's text.
pub open spec fn negated_text(t: Seq<char>) -> Seq<char> {
    if t.len() > 0 && t[0] == '-' {
        t.drop_first()
    } else {
        seq!['-'] + t
    }
}

/// The result of a unary operator on a static value.
pub open spec fn unary_static(op: TokenType, v: StaticView) -> StaticOutcome {
    if op == TokenType::Minus {
        match v {
            StaticView::Int(n) => match 0i32.checked_sub(n) {
                Some(m) => StaticOutcome::Known(StaticView::Int(m)),
                None => StaticOutcome::Fails,
            },
            StaticView::Float(f) => StaticOutcome::Known(StaticView::Float(negated_text(f))),
            _ => StaticOutcome::Fails,
        }
    } else if op == TokenType::Plus {
        match v {
            StaticView::Int(_) => StaticOutcome::Known(v),
            StaticView::Float(_) => StaticOutcome::Known(v),
            _ => StaticOutcome::Fails,
        }
    } else if op == TokenType::Bang {
        match v {
            StaticView::Bool(b) => StaticOutcome::Known(StaticView::Bool(!b)),
            StaticView::Int(n) => StaticOutcome::Known(StaticView::Bool(n == 0)),
            _ => StaticOutcome::Fails,
        }
    } else {
        StaticOutcome::Fails
    }
}

/// The integer result of an integer operator, when it is defined and fits.
pub open spec fn int_static(a: i32, op: TokenType, b: i32) -> Option<i32> {
    if op == TokenType::Plus {
        a.checked_add(b)
    } else if op == TokenType::Minus {
        a.checked_sub(b)
    } else if op == TokenType::Asterisk {
        a.checked_mul(b)
    } else if op == TokenType::Slash {
        if b == 0 { None } else { a.checked_div(b) }
    } else if op == TokenType::Caret {
        if b < 0 { None } else { checked_pow_spec(a, b as u32) }
    } else {
        None
    }
}

/// The result of a binary operator on two static values.
pub open spec fn binary_static(l: StaticView, op: TokenType, r: StaticView) -> StaticOutcome {
    match (l, r) {
        (StaticView::Int(a), StaticView::Int(b)) => match int_static(a, op, b) {
            Some(v) => StaticOutcome::Known(StaticView::Int(v)),
            None => StaticOutcome::Fails,
        },
        (StaticView::Float(_), StaticView::Float(_)) => if op == TokenType::Plus || op == TokenType::Minus
            || op == TokenType::Asterisk || op == TokenType::Slash {
            StaticOutcome::FloatDependent
        } else {
            StaticOutcome::Fails
        },
        (StaticView::Bool(a), StaticView::Bool(b)) => if op == TokenType::And {
            StaticOutcome::Known(StaticView::Bool(a && b))
        } else if op == TokenType::Or {
            StaticOutcome::Known(StaticView::Bool(a || b))
        } else {
            StaticOutcome::Fails
        },
        _ => StaticOutcome::Fails,
    }
}

/// Why a static evaluation fails.
pub enum StaticFault {
    UndefinedStatic(Seq<char>),
    Overflow,
    DivisionByZero,
    NegativeExponent,
    InvalidOperation,
    NotStatic,
    FloatDependent,
}

/// Why a unary operator fails on a static value.
pub open spec fn unary_fault(op: TokenType, v: StaticView) -> StaticFault {
    if op == TokenType::Minus && v is Int {
        StaticFault::Overflow
    } else {
        StaticFault::InvalidOperation
    }
}

/// Why a binary operator fails on two static values: a zero divisor, a
/// negative exponent, an integer result that does not fit; a float result
/// depends on the float arithmetic; any other pairing is invalid.
pub open spec fn binary_fault(l: StaticView, op: TokenType, r: StaticView) -> StaticFault {
    let arith = op == TokenType::Plus || op == TokenType::Minus || op == TokenType::Asterisk || op == TokenType::Slash;
    match (l, r) {
        (StaticView::Int(_), StaticView::Int(b)) => if op == TokenType::Slash && b == 0 {
            StaticFault::DivisionByZero
        } else if op == TokenType::Caret && b < 0 {
            StaticFault::NegativeExponent
        } else if arith || op == TokenType::Caret {
            StaticFault::Overflow
        } else {
            StaticFault::InvalidOperation
        },
        (StaticView::Float(_), StaticView::Float(_)) => if arith {
            StaticFault::FloatDependent
        } else {
            StaticFault::InvalidOperation
        },
        _ => StaticFault::InvalidOperation,
    }
}

/// Where and why evaluating `e` fails, when it does: the innermost failing
/// operand first.
pub open spec fn static_fault(statics: Seq<(String, StaticValue, Span)>, e: Expression) -> (StaticFault, Span)
    decreases e.node,
{
    match e.node {
        Expr::Identifier(name) => (StaticFault::UndefinedStatic(name@), e.span),
        Expr::Unary { operator, right } => match static_eval_spec(statics, right.node) {
            StaticOutcome::Known(v) => (unary_fault(spec_token_type(operator), v), e.span),
            _ => static_fault(statics, *right),
        },
        Expr::BinaryOperation { left, operator, right } => match static_eval_spec(statics, left.node) {
            StaticOutcome::Known(a) => match static_eval_spec(statics, right.node) {
                StaticOutcome::Known(b) => (binary_fault(a, spec_token_type(operator), b), e.span),
                _ => static_fault(statics, *right),
            },
            _ => static_fault(statics, *left),
        },
        _ => (StaticFault::NotStatic, e.span),
    }
}

/// An evaluation that depends on float arithmetic fails, if at all, for a
/// reason that depends on it too.
pub proof fn lemma_fault_float(statics: Seq<(String, StaticValue, Span)>, e: Expression)
    requires
        static_eval_spec(statics, e.node) is FloatDependent,
    ensures
        static_fault(statics, e).0 is FloatDependent,
    decreases e.node,
{
    match e.node {
        Expr::Unary { operator, right } => {
            lemma_fault_float(statics, *right);
        },
        Expr::BinaryOperation { left, operator, right } => {
            match static_eval_spec(statics, left.node) {
                StaticOutcome::Known(a) => {
                    match static_eval_spec(statics, right.node) {
                        StaticOutcome::Known(b) => {},
                        _ => lemma_fault_float(statics, *right),
                    }
                },
                _ => lemma_fault_float(statics, *left),
            }
        },
        _ => {},
    }
}

/// `err` is the error recorded for fault `f`.
pub open spec fn fault_matches(err: VynError, f: (StaticFault, Span)) -> bool {
    match f.0 {
        StaticFault::UndefinedStatic(n) => err matches VynError::UndefinedStatic { name, span } && name@ == n && span == f.1,
        StaticFault::Overflow => err == VynError::StaticOverflow { span: f.1 },
        StaticFault::DivisionByZero => err == VynError::DivisionByZero { span: f.1 },
        StaticFault::NegativeExponent => err == VynError::NegativeExponent { span: f.1 },
        StaticFault::InvalidOperation => err matches VynError::InvalidStaticOperation { span, .. } && span == f.1,
        StaticFault::NotStatic => err == VynError::NotStaticExpression { span: f.1 },
        StaticFault::FloatDependent => true,
    }
}

/// The value recorded first for `name`.
pub open spec fn lookup_static(statics: Seq<(String, StaticValue, Span)>, name: Seq<char>) -> Option<StaticValue>
    decreases statics.len(),
{
    if statics.len() == 0 {
        None
    } else if statics[0].0@ == name {
        Some(statics[0].1)
    } else {
        lookup_static(statics.drop_first(), name)
    }
}

/// What evaluating `e` against the recorded statics gives.
pub open spec fn static_eval_spec(statics: Seq<(String, StaticValue, Span)>, e: Expr) -> StaticOutcome
    decreases e,
{
    match e {
        Expr::IntegerLiteral(n) => StaticOutcome::Known(StaticView::Int(n)),
        Expr::FloatLiteral(f) => StaticOutcome::Known(StaticView::Float(f@)),
        Expr::BooleanLiteral(b) => StaticOutcome::Known(StaticView::Bool(b)),
        Expr::StringLiteral(s) => StaticOutcome::Known(StaticView::Str(s@)),
        Expr::NilLiteral => StaticOutcome::Known(StaticView::Nil),
        Expr::Identifier(name) => match lookup_static(statics, name@) {
            Some(v) => StaticOutcome::Known(v@),
            None => StaticOutcome::Fails,
        },
        Expr::Unary { operator, right } => match static_eval_spec(statics, right.node) {
            StaticOutcome::Known(v) => unary_static(spec_token_type(operator), v),
            other => other,
        },
        Expr::BinaryOperation { left, operator, right } => match static_eval_spec(statics, left.node) {
            StaticOutcome::Known(a) => match static_eval_spec(statics, right.node) {
                StaticOutcome::Known(b) => binary_static(a, spec_token_type(operator), b),
                other => other,
            },
            other => other,
        },
        _ => StaticOutcome::Fails,
    }
}

/// A static binary operation on two integers `a` (left) and `b` (right)
/// has the value of the sum, the difference left minus right, the product,
/// the quotient (rounded toward zero) or the power when that fits in 32
/// bits, and fails otherwise: on a zero divisor, a negative exponent or a
/// result out of range. On two booleans, `and` and `or` are the logical
/// operations.
pub proof fn law_static_binary_values(
    statics: Seq<(String, StaticValue, Span)>,
    left: Expression,
    operator: Token,
    right: Expression,
    a: i32,
    b: i32,
)
    requires
        static_eval_spec(statics, left.node) == StaticOutcome::Known(StaticView::Int(a)),
        static_eval_spec(statics, right.node) == StaticOutcome::Known(StaticView::Int(b)),
    ensures
        ({
            let v = static_eval_spec(statics, Expr::BinaryOperation { left: Box::new(left), operator, right: Box::new(right) });
            let op = spec_token_type(operator);
            &&& op == TokenType::Plus ==> v == if fits_i32(a + b) {
                StaticOutcome::Known(StaticView::Int((a + b) as i32))
            } else {
                StaticOutcome::Fails
            }
            &&& op == TokenType::Minus ==> v == if fits_i32(a - b) {
                StaticOutcome::Known(StaticView::Int((a - b) as i32))
            } else {
                StaticOutcome::Fails
            }
            &&& op == TokenType::Asterisk ==> v == if fits_i32(a * b) {
                StaticOutcome::Known(StaticView::Int((a * b) as i32))
            } else {
                StaticOutcome::Fails
            }
            &&& op == TokenType::Slash && b == 0 ==> v == StaticOutcome::Fails
            &&& op == TokenType::Slash && a >= 0 && b > 0 ==> v == StaticOutcome::Known(StaticView::Int((a / b) as i32))
            &&& op == TokenType::Caret && b < 0 ==> v == StaticOutcome::Fails
            &&& op == TokenType::Caret && b >= 0 ==> v == if fits_i32(pow(a as int, b as nat)) {
                StaticOutcome::Known(StaticView::Int(pow(a as int, b as nat) as i32))
            } else {
                StaticOutcome::Fails
            }
        }),
{
    if a >= 0 && b > 0 {
        assert(0 <= a / b <= a) by (nonlinear_arith)
            requires
                a >= 0,
                b > 0,
        ;
    }
}

/// A static unary operation: `-` negates an integer (failing where the
/// negation does not fit), `+` keeps it, and `!` negates a boolean.
pub proof fn law_static_unary_values(statics: Seq<(String, StaticValue, Span)>, operator: Token, right: Expression, n: i32, x: bool)
    ensures
        ({
            let v = static_eval_spec(statics, Expr::Unary { operator, right: Box::new(right) });
            let w = static_eval_spec(statics, right.node);
            let op = spec_token_type(operator);
            &&& (op == TokenType::Minus && w == StaticOutcome::Known(StaticView::Int(n))) ==> v == if fits_i32(-n) {
                StaticOutcome::Known(StaticView::Int((-n) as i32))
            } else {
                StaticOutcome::Fails
            }
            &&& (op == TokenType::Plus && w == StaticOutcome::Known(StaticView::Int(n))) ==> v == w
            &&& (op == TokenType::Bang && w == StaticOutcome::Known(StaticView::Bool(x))) ==> v
                == StaticOutcome::Known(StaticView::Bool(!x))
        }),
{
}

/// On two booleans, the static `and` and `or` are the logical operations.
pub proof fn law_static_logic_values(
    statics: Seq<(String, StaticValue, Span)>,
    left: Expression,
    operator: Token,
    right: Expression,
    a: bool,
    b: bool,
)
    requires
        static_eval_spec(statics, left.node) == StaticOutcome::Known(StaticView::Bool(a)),
        static_eval_spec(statics, right.node) == StaticOutcome::Known(StaticView::Bool(b)),
    ensures
        ({
            let v = static_eval_spec(statics, Expr::BinaryOperation { left: Box::new(left), operator, right: Box::new(right) });
            let op = spec_token_type(operator);
            &&& op == TokenType::And ==> v == StaticOutcome::Known(StaticView::Bool(a && b))
            &&& op == TokenType::Or ==> v == StaticOutcome::Known(StaticView::Bool(a || b))
        }),
{
}

/// `r` is what outcome `o` says: the value, a failure, or (for a result
/// resting on float arithmetic) anything.
pub open spec fn outcome_matches(r: Result<StaticValue, ()>, o: StaticOutcome) -> bool {
    match o {
        StaticOutcome::Known(v) => r matches Ok(x) && x@ == v,
        StaticOutcome::Fails => r is Err,
        StaticOutcome::FloatDependent => true,
    }
}

/// The text of the negation of a float's text: a leading minus sign is
/// dropped, or one is put in front.
fn negate_text(t: &String) -> (r: String)
    ensures
        r@ == negated_text(t@),
{
    broadcast use vstd::string::axiom_spec_iter, vstd::string::next_postcondition;
    let mut out = String::new();
    let mut it = t.as_str().chars();
    let mut first = true;
    let mut dropped = false;
    let ghost mut seen: Seq<char> = Seq::empty();
    loop
        invariant
            seen + it.remaining() == t@,
            it.decrease() is Some,
            first == (seen.len() == 0),
            dropped == (seen.len() > 0 && seen[0] == '-'),
            !dropped ==> out@ == (if seen.len() == 0 { Seq::<char>::empty() } else { seq!['-'] + seen }),
            dropped ==> out@ == seen.drop_first(),
        ensures
            seen == t@,
        decreases it.decrease()->0,
    {
        let ghost before = it.remaining();
        match it.next() {
            Some(c) => {
                proof {
                    assert(seen.push(c) + it.remaining() =~= seen + before);
                }
                if first {
                    if c == '-' {
                        dropped = true;
                    } else {
                        crate::lexer::push_char(&mut out, '-');
                        crate::lexer::push_char(&mut out, c);
                    }
                    first = false;
                } else {
                    crate::lexer::push_char(&mut out, c);
                }
                proof {
                    let s2 = seen.push(c);
                    if seen.len() > 0 {
                        assert(s2.drop_first() =~= seen.drop_first().push(c));
                        assert(seq!['-'] + s2 =~= (seq!['-'] + seen).push(c));
                    } else {
                        assert(s2.drop_first() =~= Seq::<char>::empty());
                        assert(seq!['-'] + s2 =~= seq!['-', c]);
                    }
                    seen = s2;
                }
            },
            None => {
                proof {
                    assert(seen =~= t@);
                }
                break;
            },
        }
    }
    if first {
        crate::lexer::push_char(&mut out, '-');
        proof {
            assert(out@ =~= seq!['-'] + t@);
        }
    }
    out
}

/// The static declarations of statement `s` (at `span`): its own, or those
/// of a block's statements, as name, value and span.
pub open spec fn stmt_static_decls(s: Stmt, span: Span) -> Seq<(Seq<char>, Expr, Span)>
    decreases s, 0nat,
{
    match s {
        Stmt::StaticVariableDeclaration { identifier, value, .. } => match identifier.node {
            Expr::Identifier(n) => seq![(n@, value.node, span)],
            _ => Seq::empty(),
        },
        Stmt::Block { statements } => stmts_static_decls(statements@, statements@.len()),
        _ => Seq::empty(),
    }
}

/// The static declarations of the first `n` statements, in order.
pub open spec fn stmts_static_decls(ss: Seq<Statement>, n: nat) -> Seq<(Seq<char>, Expr, Span)>
    decreases ss, n,
{
    if n == 0 || n > ss.len() {
        Seq::empty()
    } else {
        stmts_static_decls(ss, (n - 1) as nat) + stmt_static_decls(ss[n - 1].node, ss[n - 1].span)
    }
}

/// `after` is `before` with `name`'s value recorded at `span`.
pub open spec fn pushed_static(
    before: Seq<(String, StaticValue, Span)>,
    after: Seq<(String, StaticValue, Span)>,
    name: Seq<char>,
    span: Span,
) -> bool {
    &&& after.len() == before.len() + 1
    &&& after.drop_last() == before
    &&& after.last().0@ == name
    &&& after.last().2 == span
}

/// Evaluating declaration `d` moves the recorded statics from `before` to
/// `after`: a name recorded before is refused; a known value is recorded; a
/// failing one is not; one resting on float arithmetic may be either.
pub open spec fn static_step(
    before: Seq<(String, StaticValue, Span)>,
    d: (Seq<char>, Expr, Span),
    after: Seq<(String, StaticValue, Span)>,
) -> bool {
    if lookup_static(before, d.0) is Some {
        after == before
    } else {
        match static_eval_spec(before, d.1) {
            StaticOutcome::Known(v) => pushed_static(before, after, d.0, d.2) && after.last().1@ == v,
            StaticOutcome::Fails => after == before,
            StaticOutcome::FloatDependent => after == before || pushed_static(before, after, d.0, d.2),
        }
    }
}

/// `trace` lists the recorded statics before each of `decls` is evaluated
/// and after the last: each declaration takes one state to the next.
pub open spec fn steps_through(
    trace: Seq<Seq<(String, StaticValue, Span)>>,
    decls: Seq<(Seq<char>, Expr, Span)>,
) -> bool {
    &&& trace.len() == decls.len() + 1
    &&& forall|i: int| #![trigger decls[i]] 0 <= i < decls.len() ==> static_step(trace[i], decls[i], trace[i + 1])
}

/// Evaluating the declarations `decls` in order moves the recorded statics
/// from `before` to `after`.
pub open spec fn records_decls(
    before: Seq<(String, StaticValue, Span)>,
    decls: Seq<(Seq<char>, Expr, Span)>,
    after: Seq<(String, StaticValue, Span)>,
) -> bool {
    exists|trace: Seq<Seq<(String, StaticValue, Span)>>|
        #[trigger] steps_through(trace, decls) && trace[0] == before && trace.last() == after
}

/// The declarations as name, value and span.
pub open spec fn decl_views(d: Seq<(&String, &Expression, Span)>) -> Seq<(Seq<char>, Expr, Span)> {
    d.map_values(|x: (&String, &Expression, Span)| (x.0@, x.1.node, x.2))
}

/// Evaluates `static` declarations before type checking, so that array
/// sizes may name them. Float arithmetic is done by the host, through a
/// function handed in.
pub struct StaticEvaluator {
    statics: Vec<(String, StaticValue, Span)>,
    evaluating: Vec<String>,
}

impl StaticEvaluator {
    /// The statics recorded so far, in order.
    pub closed spec fn recorded(&self) -> Seq<(String, StaticValue, Span)> {
        self.statics@
    }

    /// No static is being evaluated.
    pub closed spec fn wf(&self) -> bool {
        self.evaluating@.len() == 0
    }

    /// An evaluator with nothing recorded.
    pub fn new() -> (s: StaticEvaluator)
        ensures
            s.recorded().len() == 0,
            s.wf(),
    {
        StaticEvaluator { statics: Vec::new(), evaluating: Vec::new() }
    }

    /// The index of the first static named `name`, if any.
    fn find(&self, name: &str) -> (r: Option<usize>)
        ensures
            r is None ==> lookup_static(self.recorded(), name@) is None,
            r matches Some(i) ==> i < self.recorded().len() && lookup_static(self.recorded(), name@)
                == Some(self.recorded()[i as int].1) && self.recorded()[i as int].0@ == name@,
    {
        let mut i: usize = 0;
        proof {
            assert(self.recorded().skip(0) =~= self.recorded());
        }
        while i < self.statics.len()
            invariant
                0 <= i <= self.recorded().len(),
                self.recorded() == self.statics@,
                lookup_static(self.recorded(), name@) == lookup_static(self.recorded().skip(i as int), name@),
            decreases self.recorded().len() - i,
        {
            proof {
                let rest = self.recorded().skip(i as int);
                assert(rest.drop_first() =~= self.recorded().skip(i + 1));
                assert(rest[0] == self.recorded()[i as int]);
            }
            if crate::tokens::str_eq(self.statics[i].0.as_str(), name) {
                return Some(i);
            }
            i = i + 1;
        }
        None
    }

    /// The value of static `name`, if one was recorded.
    pub fn get_static(&self, name: &str) -> (r: Option<&StaticValue>)
        ensures
            r matches Some(v) ==> lookup_static(self.recorded(), name@) == Some(*v),
            r is None ==> lookup_static(self.recorded(), name@) is None,
    {
        match self.find(name) {
            Some(i) => Some(&self.statics[i].1),
            None => None,
        }
    }

    /// The value of static `name` as an integer, if it is one.
    pub fn get_static_int(&self, name: &str) -> (r: Option<i32>)
        ensures
            r == (match lookup_static(self.recorded(), name@) {
                Some(StaticValue::Int(n)) => Some(n),
                _ => None,
            }),
    {
        match self.get_static(name) {
            Some(v) => v.as_int(),
            None => None,
        }
    }

    /// Combines two static values with a binary operator. Integer overflow,
    /// division by zero and a negative exponent are errors; float arithmetic
    /// is done by `float_op`, which answers `None` for a division by zero.
    fn evaluate_binary_op<F: Fn(String, TokenType, String) -> Option<String>>(
        &self,
        left: StaticValue,
        op: TokenType,
        right: StaticValue,
        span: Span,
        errors: &mut ErrorCollector,
        float_op: &F,
    ) -> (r: Result<StaticValue, ()>)
        requires
            forall|a: String, o: TokenType, b: String| #[trigger] float_op.requires((a, o, b)),
        ensures
            outcome_matches(r, binary_static(left@, op, right@)),
            r is Err ==> fault_matches(final(errors).errors@.last(), (binary_fault(left@, op, right@), span)),
            r is Ok ==> final(errors).errors@ == old(errors).errors@,
            r is Err ==> final(errors).errors@.len() == old(errors).errors@.len() + 1
                && final(errors).errors@.drop_last() == old(errors).errors@,
    {
        let ghost e0 = errors.errors@;
        let result = match (&left, &right) {
            (StaticValue::Int(l), StaticValue::Int(r)) => {
                let (l, r) = (*l, *r);
                if op == TokenType::Plus {
                    match l.checked_add(r) {
                        Some(v) => Ok(StaticValue::Int(v)),
                        None => { errors.add(VynError::StaticOverflow { span }); Err(()) },
                    }
                } else if op == TokenType::Minus {
                    match l.checked_sub(r) {
                        Some(v) => Ok(StaticValue::Int(v)),
                        None => { errors.add(VynError::StaticOverflow { span }); Err(()) },
                    }
                } else if op == TokenType::Asterisk {
                    match l.checked_mul(r) {
                        Some(v) => Ok(StaticValue::Int(v)),
                        None => { errors.add(VynError::StaticOverflow { span }); Err(()) },
                    }
                } else if op == TokenType::Slash {
                    if r == 0 {
                        errors.add(VynError::DivisionByZero { span });
                        Err(())
                    } else {
                        match l.checked_div(r) {
                            Some(v) => Ok(StaticValue::Int(v)),
                            None => { errors.add(VynError::StaticOverflow { span }); Err(()) },
                        }
                    }
                } else if op == TokenType::Caret {
                    if r < 0 {
                        errors.add(VynError::NegativeExponent { span });
                        Err(())
                    } else {
                        match crate::vm::checked_pow_i32(l, r as u32) {
                            Some(v) => Ok(StaticValue::Int(v)),
                            None => { errors.add(VynError::StaticOverflow { span }); Err(()) },
                        }
                    }
                } else {
                    errors.add(VynError::InvalidStaticOperation { operation: op.name().to_string(), span });
                    Err(())
                }
            },
            (StaticValue::Float(l), StaticValue::Float(r)) => {
                if op == TokenType::Plus || op == TokenType::Minus || op == TokenType::Asterisk || op == TokenType::Slash {
                    match float_op(l.clone(), op, r.clone()) {
                        Some(v) => Ok(StaticValue::Float(v)),
                        None => { errors.add(VynError::DivisionByZero { span }); Err(()) },
                    }
                } else {
                    errors.add(VynError::InvalidStaticOperation { operation: op.name().to_string(), span });
                    Err(())
                }
            },
            (StaticValue::Bool(l), StaticValue::Bool(r)) => {
                if op == TokenType::And {
                    Ok(StaticValue::Bool(*l && *r))
                } else if op == TokenType::Or {
                    Ok(StaticValue::Bool(*l || *r))
                } else {
                    errors.add(VynError::InvalidStaticOperation { operation: op.name().to_string(), span });
                    Err(())
                }
            },
            _ => {
                errors.add(VynError::InvalidStaticOperation { operation: op.name().to_string(), span });
                Err(())
            },
        };
        proof {
            if result is Err {
                assert(errors.errors@.drop_last() =~= e0);
            }
        }
        result
    }

    /// Evaluates a static expression: literals, recorded statics, and unary
    /// and binary operators over them.
    pub fn evaluate_static_expr<F: Fn(String, TokenType, String) -> Option<String>>(
        &mut self,
        expr: &Expression,
        errors: &mut ErrorCollector,
        float_op: &F,
    ) -> (r: Result<StaticValue, ()>)
        requires
            forall|a: String, o: TokenType, b: String| #[trigger] float_op.requires((a, o, b)),
        ensures
            *final(self) == *old(self),
            outcome_matches(r, static_eval_spec(old(self).recorded(), expr.node)),
            final(errors).errors@.len() >= old(errors).errors@.len(),
            forall|i: int| 0 <= i < old(errors).errors@.len() ==> #[trigger] final(errors).errors@[i] == old(errors).errors@[i],
            r is Err ==> final(errors).errors@.len() == old(errors).errors@.len() + 1,
            r is Err ==> fault_matches(final(errors).errors@.last(), static_fault(old(self).recorded(), *expr)),
            r is Ok ==> final(errors).errors@ == old(errors).errors@,
        decreases expr.node,
    {
        let span = expr.span;
        match &expr.node {
            Expr::IntegerLiteral(n) => Ok(StaticValue::Int(*n)),
            Expr::FloatLiteral(f) => Ok(StaticValue::Float(f.clone())),
            Expr::BooleanLiteral(b) => Ok(StaticValue::Bool(*b)),
            Expr::StringLiteral(s) => Ok(StaticValue::String(s.clone())),
            Expr::NilLiteral => Ok(StaticValue::Nil),
            Expr::Identifier(name) => {
                match self.get_static(name.as_str()) {
                    Some(v) => Ok(v.copy()),
                    None => {
                        errors.add(VynError::UndefinedStatic { name: name.clone(), span });
                        Err(())
                    },
                }
            },
            Expr::Unary { operator, right } => {
                let right_val = match self.evaluate_static_expr(right, errors, float_op) {
                    Ok(v) => v,
                    Err(()) => return Err(()),
                };
                proof {
                    if static_eval_spec(old(self).recorded(), right.node) is FloatDependent {
                        lemma_fault_float(old(self).recorded(), **right);
                    }
                }
                let tt = operator.get_token_type();
                if tt == TokenType::Minus {
                    match right_val {
                        StaticValue::Int(n) => match 0i32.checked_sub(n) {
                            Some(m) => Ok(StaticValue::Int(m)),
                            None => {
                                errors.add(VynError::StaticOverflow { span });
                                Err(())
                            },
                        },
                        StaticValue::Float(f) => Ok(StaticValue::Float(negate_text(&f))),
                        _ => {
                            errors.add(VynError::InvalidStaticOperation { operation: "unary minus".to_string(), span });
                            Err(())
                        },
                    }
                } else if tt == TokenType::Plus {
                    match right_val {
                        StaticValue::Int(_) | StaticValue::Float(_) => Ok(right_val),
                        _ => {
                            errors.add(VynError::InvalidStaticOperation { operation: "unary plus".to_string(), span });
                            Err(())
                        },
                    }
                } else if tt == TokenType::Bang {
                    match right_val {
                        StaticValue::Bool(b) => Ok(StaticValue::Bool(!b)),
                        StaticValue::Int(n) => Ok(StaticValue::Bool(n == 0)),
                        _ => {
                            errors.add(VynError::InvalidStaticOperation { operation: "logical not".to_string(), span });
                            Err(())
                        },
                    }
                } else {
                    errors.add(VynError::InvalidStaticOperation { operation: "unknown unary".to_string(), span });
                    Err(())
                }
            },
            Expr::BinaryOperation { left, operator, right } => {
                let left_val = match self.evaluate_static_expr(left, errors, float_op) {
                    Ok(v) => v,
                    Err(()) => return Err(()),
                };
                proof {
                    if static_eval_spec(old(self).recorded(), left.node) is FloatDependent {
                        lemma_fault_float(old(self).recorded(), **left);
                    }
                }
                let right_val = match self.evaluate_static_expr(right, errors, float_op) {
                    Ok(v) => v,
                    Err(()) => return Err(()),
                };
                proof {
                    if static_eval_spec(old(self).recorded(), right.node) is FloatDependent {
                        lemma_fault_float(old(self).recorded(), **right);
                    }
                }
                let ghost mid = errors.errors@;
                let r = self.evaluate_binary_op(left_val, operator.get_token_type(), right_val, span, errors, float_op);
                proof {
                    assert forall|i: int| 0 <= i < mid.len() implies #[trigger] errors.errors@[i] == mid[i] by {
                        if r is Err {
                            assert(errors.errors@.drop_last()[i] == errors.errors@[i]);
                        }
                    }
                }
                r
            },
            _ => {
                errors.add(VynError::NotStaticExpression { span });
                Err(())
            },
        }
    }

    /// Evaluates static `name` and records its value. A name recorded before,
    /// or one being evaluated, is an error; so is a value that cannot be
    /// evaluated (reported after the evaluation's own error).
    fn evaluate_and_store_static<F: Fn(String, TokenType, String) -> Option<String>>(
        &mut self,
        name: &String,
        expr: &Expression,
        span: Span,
        errors: &mut ErrorCollector,
        float_op: &F,
    ) -> (r: Result<(), ()>)
        requires
            old(self).wf(),
            forall|a: String, o: TokenType, b: String| #[trigger] float_op.requires((a, o, b)),
        ensures
            final(self).wf(),
            static_step(old(self).recorded(), (name@, expr.node, span), final(self).recorded()),
            r is Ok <==> final(self).recorded().len() == old(self).recorded().len() + 1,
            final(errors).errors@.len() >= old(errors).errors@.len(),
            forall|i: int| 0 <= i < old(errors).errors@.len() ==> #[trigger] final(errors).errors@[i] == old(errors).errors@[i],
            r is Err <==> final(errors).errors@.len() > old(errors).errors@.len(),
            lookup_static(old(self).recorded(), name@) is Some ==> r is Err && final(self).recorded() == old(self).recorded(),
            r is Err ==> final(self).recorded() == old(self).recorded(),
            r is Ok ==> final(self).recorded().len() == old(self).recorded().len() + 1
                && final(self).recorded().drop_last() == old(self).recorded()
                && final(self).recorded().last().0@ == name@
                && final(self).recorded().last().2 == span
                && outcome_matches(Ok(final(self).recorded().last().1), static_eval_spec(old(self).recorded(), expr.node)),
    {
        match self.find(name.as_str()) {
            Some(i) => {
                let original_span = self.statics[i].2;
                errors.add(VynError::VariableRedeclaration { name: name.clone(), original_span, redeclaration_span: span });
                return Err(());
            },
            None => {},
        }
        let mut k: usize = 0;
        while k < self.evaluating.len()
            invariant
                0 <= k <= self.evaluating@.len(),
                self.recorded() == old(self).recorded(),
                errors.errors@ == old(errors).errors@,
                lookup_static(self.recorded(), name@) is None,
                self.wf(),
            decreases self.evaluating@.len() - k,
        {
            if self.evaluating[k].eq(name) {
                errors.add(VynError::CircularStaticDependency { name: name.clone(), span });
                return Err(());
            }
            k = k + 1;
        }
        let ghost pending0 = self.evaluating@;
        self.evaluating.push(name.clone());
        let result = self.evaluate_static_expr(expr, errors, float_op);
        self.evaluating.pop();
        proof {
            assert(self.evaluating@ =~= pending0);
        }
        match result {
            Ok(value) => {
                let ghost before = self.statics@;
                self.statics.push((name.clone(), value, span));
                proof {
                    assert(self.statics@.drop_last() =~= before);
                }
                Ok(())
            },
            Err(()) => {
                errors.add(VynError::StaticEvaluationFailed { name: name.clone(), span: expr.span });
                Err(())
            },
        }
    }

    /// Evaluates every static declaration of the program (top level, and
    /// inside blocks), in order, going on after one that fails. `Err` when
    /// the collector holds any error afterwards.
    pub fn evaluate_program<F: Fn(String, TokenType, String) -> Option<String>>(
        &mut self,
        program: &Program,
        errors: &mut ErrorCollector,
        float_op: &F,
    ) -> (r: Result<(), ()>)
        requires
            old(self).wf(),
            forall|a: String, o: TokenType, b: String| #[trigger] float_op.requires((a, o, b)),
        ensures
            final(self).wf(),
            records_decls(
                old(self).recorded(),
                stmts_static_decls(program.statements@, program.statements@.len()),
                final(self).recorded(),
            ),
            r is Ok <==> old(errors).errors@.len() == 0 && final(self).recorded().len() == old(self).recorded().len()
                + stmts_static_decls(program.statements@, program.statements@.len()).len(),
            r is Err <==> final(errors).errors@.len() > 0,
            final(errors).errors@.len() >= old(errors).errors@.len(),
            forall|i: int| 0 <= i < old(errors).errors@.len() ==> #[trigger] final(errors).errors@[i] == old(errors).errors@[i],
    {
        let mut decls: Vec<(&String, &Expression, Span)> = Vec::new();
        self.collect_static_decls(program, &mut decls);
        let ghost all = decl_views(decls@);
        let ghost r0 = self.recorded();
        proof {
            assert(all =~= stmts_static_decls(program.statements@, program.statements@.len()));
            assert(all.take(0) =~= Seq::<(Seq<char>, Expr, Span)>::empty());
        }
        let ghost mut trace: Seq<Seq<(String, StaticValue, Span)>> = seq![r0];
        let mut k: usize = 0;
        while k < decls.len()
            invariant
                0 <= k <= decls@.len(),
                self.wf(),
                all == decl_views(decls@),
                r0 == old(self).recorded(),
                forall|a: String, o: TokenType, b: String| #[trigger] float_op.requires((a, o, b)),
                errors.errors@.len() >= old(errors).errors@.len(),
                forall|i: int| 0 <= i < old(errors).errors@.len() ==> #[trigger] errors.errors@[i] == old(errors).errors@[i],
                steps_through(trace, all.take(k as int)),
                trace[0] == r0,
                trace.last() == self.recorded(),
                self.recorded().len() <= r0.len() + k,
                (self.recorded().len() == r0.len() + k) <==> errors.errors@.len() == old(errors).errors@.len(),
            decreases decls@.len() - k,
        {
            let ghost before = errors.errors@;
            let ghost rec_before = self.recorded();
            let _ = self.evaluate_and_store_static(&decls[k].0, &decls[k].1, decls[k].2, errors, float_op);
            proof {
                assert forall|i: int| 0 <= i < old(errors).errors@.len() implies #[trigger] errors.errors@[i] == old(errors).errors@[i] by {
                    assert(errors.errors@[i] == before[i]);
                }
                let next = all.take(k + 1);
                assert(all[k as int] == (decls@[k as int].0@, decls@[k as int].1.node, decls@[k as int].2));
                let t2 = trace.push(self.recorded());
                assert(steps_through(t2, next)) by {
                    assert forall|i: int| #![trigger next[i]] 0 <= i < next.len() implies static_step(t2[i], next[i], t2[i + 1]) by {
                        if i < k {
                            assert(next[i] == all.take(k as int)[i]);
                        } else {
                            assert(next[i] == all[k as int]);
                        }
                    }
                }
                trace = t2;
            }
            k = k + 1;
        }
        proof {
            assert(all.take(k as int) =~= all);
            assert(records_decls(old(self).recorded(), all, self.recorded()));
        }
        if errors.has_errors() {
            Err(())
        } else {
            Ok(())
        }
    }

    /// The static declarations of the program, in order.
    fn collect_static_decls<'p>(&self, program: &'p Program, decls: &mut Vec<(&'p String, &'p Expression, Span)>)
        ensures
            decl_views(final(decls)@) == decl_views(old(decls)@) + stmts_static_decls(
                program.statements@,
                program.statements@.len(),
            ),
    {
        let mut k: usize = 0;
        proof {
            assert(decl_views(decls@) =~= decl_views(old(decls)@) + stmts_static_decls(program.statements@, 0));
        }
        while k < program.statements.len()
            invariant
                0 <= k <= program.statements@.len(),
                decl_views(decls@) == decl_views(old(decls)@) + stmts_static_decls(program.statements@, k as nat),
            decreases program.statements@.len() - k,
        {
            self.collect_static_decls_from_stmt(&program.statements[k], decls);
            proof {
                assert(stmts_static_decls(program.statements@, (k + 1) as nat) == stmts_static_decls(
                    program.statements@,
                    k as nat,
                ) + stmt_static_decls(program.statements@[k as int].node, program.statements@[k as int].span));
            }
            k = k + 1;
        }
    }

    fn collect_static_decls_from_stmt<'p>(&self, stmt: &'p Statement, decls: &mut Vec<(&'p String, &'p Expression, Span)>)
        ensures
            decl_views(final(decls)@) == decl_views(old(decls)@) + stmt_static_decls(stmt.node, stmt.span),
        decreases stmt.node,
    {
        match &stmt.node {
            Stmt::StaticVariableDeclaration { identifier, value, .. } => {
                let name = match &identifier.node {
                    Expr::Identifier(n) => n,
                    _ => return,
                };
                let ghost d0 = decls@;
                decls.push((name, value, stmt.span));
                proof {
                    assert(decl_views(decls@) =~= decl_views(d0) + stmt_static_decls(stmt.node, stmt.span));
                }
            },
            Stmt::Block { statements } => {
                let mut k: usize = 0;
                proof {
                    assert(decl_views(decls@) =~= decl_views(old(decls)@) + stmts_static_decls(statements@, 0));
                }
                while k < statements.len()
                    invariant
                        0 <= k <= statements@.len(),
                        stmt.node is Block,
                        stmt.node->Block_statements == *statements,
                        decl_views(decls@) == decl_views(old(decls)@) + stmts_static_decls(statements@, k as nat),
                    decreases statements@.len() - k,
                {
                    proof {
                        broadcast use vstd::std_specs::vec::axiom_vec_index_decreases;
                        assert(decreases_to!(stmt.node => stmt.node->Block_statements));
                        assert(decreases_to!(stmt.node->Block_statements => stmt.node->Block_statements[k as int]));
                        assert(decreases_to!(stmt.node => stmt.node->Block_statements[k as int].node));
                    }
                    self.collect_static_decls_from_stmt(&statements[k], decls);
                    proof {
                        assert(stmts_static_decls(statements@, (k + 1) as nat) == stmts_static_decls(statements@, k as nat)
                            + stmt_static_decls(statements@[k as int].node, statements@[k as int].span));
                    }
                    k = k + 1;
                }
            },
            _ => {
                proof {
                    assert(decl_views(decls@) =~= decl_views(old(decls)@) + stmt_static_decls(stmt.node, stmt.span));
                }
            },
        }
    }
}

} // verus!
