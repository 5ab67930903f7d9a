use vstd::prelude::*;
use crate::ast::{Expr, Expression, Program, Statement, Stmt, TypeAnnotation};
use crate::bytecode::OpCode;
use crate::compiler::{VynIR, ir_opcode};
use crate::vm::{VmError, fits_i32, int_arith, int_compare, is_int_arith, is_int_compare};
use crate::errors::{ErrorCollector, VynError};
use crate::ir::{Label, VReg, VynIROC, VynIROpCode, spec_def, spec_uses};
use crate::ir_symbols::{Symbol, SymbolScope, SymbolTable, find_in_scope, resolve_in_scopes};
use crate::span::{Span, Spanned};
use crate::static_evaluator::{StaticEvaluator, StaticValue};
use crate::tokens::Token;
use crate::type_checker::{SymbolTypeTable, annotation_clean, annotation_type};
use crate::types::Type;

verus! {

/// Operators the IR has instructions for.
pub open spec fn is_ir_binary_op(t: Token) -> bool {
    t is Plus || t is Minus || t is Asterisk || t is Slash || t is Caret || t is LessThan || t is GreaterThan
        || t is LessThanEqual || t is GreaterThanEqual || t is Equal || t is NotEqual
}

/// Expressions the IR builder translates.
pub open spec fn ir_expr_supported(e: Expr) -> bool
    decreases e,
{
    match e {
        Expr::IntegerLiteral(_) | Expr::FloatLiteral(_) | Expr::BooleanLiteral(_) | Expr::StringLiteral(_)
        | Expr::Identifier(_) => true,
        Expr::VariableAssignment { identifier, new_value } => identifier.node is Identifier
            && ir_expr_supported(new_value.node),
        Expr::BinaryOperation { left, operator, right } => is_ir_binary_op(operator) && ir_expr_supported(left.node)
            && ir_expr_supported(right.node),
        _ => false,
    }
}

/// Annotations whose default value the IR builder can load.
pub open spec fn primitive_annotation(t: TypeAnnotation) -> bool {
    t is StringType || t is IntegerType || t is FloatType || t is BooleanType
}

/// Statements the IR builder translates; `break` and `continue` only
/// inside a loop.
pub open spec fn ir_stmt_supported(s: Stmt, in_loop: bool) -> bool
    decreases s,
{
    match s {
        Stmt::Expression { expression } => ir_expr_supported(expression.node),
        Stmt::VariableDeclaration { identifier, value, annotated_type, .. } => identifier.node is Identifier
            && match value {
            Some(v) => ir_expr_supported(v.node),
            None => primitive_annotation(annotated_type),
        },
        Stmt::Loop { body } => ir_stmt_supported(body.node, true),
        Stmt::WhenLoop { condition, body } => ir_expr_supported(condition.node) && ir_stmt_supported(body.node, true),
        Stmt::Break | Stmt::Continue => in_loop,
        Stmt::Scope { statements } => forall|i: int|
            0 <= i < statements@.len() ==> ir_stmt_supported(#[trigger] statements@[i].node, in_loop),
        Stmt::IfDeclaration { condition, consequence, alternate } => ir_expr_supported(condition.node)
            && ir_stmt_supported(consequence.node, in_loop) && match *alternate {
            Some(a) => ir_stmt_supported(a.node, in_loop),
            None => true,
        },
        Stmt::StdoutLog { log_value } => ir_expr_supported(log_value.node),
        _ => false,
    }
}

/// Every top-level statement of the program can be translated.
pub open spec fn ir_program_supported(p: Program) -> bool {
    forall|i: int| 0 <= i < p.statements@.len() ==> ir_stmt_supported(#[trigger] p.statements@[i].node, false)
}

/// Whether the IR builder translates `e`.
pub fn expr_supported(e: &Expression) -> (b: bool)
    ensures
        b == ir_expr_supported(e.node),
    decreases e.node,
{
    match &e.node {
        Expr::IntegerLiteral(_) | Expr::FloatLiteral(_) | Expr::BooleanLiteral(_) | Expr::StringLiteral(_)
        | Expr::Identifier(_) => true,
        Expr::VariableAssignment { identifier, new_value } => {
            let ident = match &identifier.node {
                Expr::Identifier(_) => true,
                _ => false,
            };
            ident && expr_supported(new_value)
        },
        Expr::BinaryOperation { left, operator, right } => {
            let op = match operator {
                Token::Plus | Token::Minus | Token::Asterisk | Token::Slash | Token::Caret | Token::LessThan
                | Token::GreaterThan | Token::LessThanEqual | Token::GreaterThanEqual | Token::Equal
                | Token::NotEqual => true,
                _ => false,
            };
            op && expr_supported(left) && expr_supported(right)
        },
        _ => false,
    }
}

/// Whether the IR builder translates `s` (inside a loop when `in_loop`).
pub fn stmt_supported(s: &Statement, in_loop: bool) -> (b: bool)
    ensures
        b == ir_stmt_supported(s.node, in_loop),
    decreases s.node,
{
    match &s.node {
        Stmt::Expression { expression } => expr_supported(expression),
        Stmt::VariableDeclaration { identifier, value, annotated_type, .. } => {
            let ident = match &identifier.node {
                Expr::Identifier(_) => true,
                _ => false,
            };
            ident && match value {
                Some(v) => expr_supported(v),
                None => match annotated_type {
                    TypeAnnotation::StringType | TypeAnnotation::IntegerType | TypeAnnotation::FloatType
                    | TypeAnnotation::BooleanType => true,
                    _ => false,
                },
            }
        },
        Stmt::Loop { body } => stmt_supported(body, true),
        Stmt::WhenLoop { condition, body } => expr_supported(condition) && stmt_supported(body, true),
        Stmt::Break | Stmt::Continue => in_loop,
        Stmt::Scope { statements } => {
            let mut k: usize = 0;
            while k < statements.len()
                invariant
                    0 <= k <= statements@.len(),
                    s.node is Scope,
                    s.node->Scope_statements == *statements,
                    forall|i: int| 0 <= i < k ==> ir_stmt_supported(#[trigger] statements@[i].node, in_loop),
                decreases statements@.len() - k,
            {
                proof {
                    broadcast use vstd::std_specs::vec::axiom_vec_index_decreases;
                    assert(decreases_to!(s.node => s.node->Scope_statements));
                    assert(decreases_to!(s.node->Scope_statements => s.node->Scope_statements[k as int]));
                    assert(decreases_to!(s.node => s.node->Scope_statements[k as int].node));
                }
                if !stmt_supported(&statements[k], in_loop) {
                    return false;
                }
                k = k + 1;
            }
            true
        },
        Stmt::IfDeclaration { condition, consequence, alternate } => {
            expr_supported(condition) && stmt_supported(consequence, in_loop) && match &**alternate {
                Some(a) => {
                    proof {
                        assert(decreases_to!(s.node => s.node->IfDeclaration_alternate));
                        assert(decreases_to!(*s.node->IfDeclaration_alternate => (*s.node->IfDeclaration_alternate)->Some_0));
                    }
                    stmt_supported(a, in_loop)
                },
                None => true,
            }
        },
        Stmt::StdoutLog { log_value } => expr_supported(log_value),
        _ => false,
    }
}

/// Whether the IR builder translates every statement of the program.
pub fn program_supported(p: &Program) -> (b: bool)
    ensures
        b == ir_program_supported(*p),
{
    let mut k: usize = 0;
    while k < p.statements.len()
        invariant
            0 <= k <= p.statements@.len(),
            forall|i: int| 0 <= i < k ==> ir_stmt_supported(#[trigger] p.statements@[i].node, false),
        decreases p.statements@.len() - k,
    {
        if !stmt_supported(&p.statements[k], false) {
            return false;
        }
        k = k + 1;
    }
    true
}


/// A statement after which control never falls through.
pub open spec fn terminating(s: Stmt) -> bool
    decreases s,
{
    match s {
        Stmt::Break | Stmt::Continue => true,
        Stmt::Scope { statements } => statements@.len() > 0 && terminating(statements@.last().node),
        _ => false,
    }
}

/// What the builder translates outside a loop it also translates inside one.
pub proof fn lemma_supported_mono(s: Stmt, a: bool, b: bool)
    requires
        ir_stmt_supported(s, a),
        a ==> b,
    ensures
        ir_stmt_supported(s, b),
    decreases s,
{
    match s {
        Stmt::Scope { statements } => {
            assert forall|i: int| 0 <= i < statements@.len() implies ir_stmt_supported(#[trigger] statements@[i].node, b) by {
                lemma_supported_mono(statements@[i].node, a, b);
            }
        },
        Stmt::IfDeclaration { condition, consequence, alternate } => {
            lemma_supported_mono(consequence.node, a, b);
            match *alternate {
                Some(x) => lemma_supported_mono(x.node, a, b),
                None => {},
            }
        },
        _ => {},
    }
}

/// What the IR builder keeps besides its instructions and errors: the next
/// fresh virtual register, the number of labels made, the variable scopes
/// with their registers (and the register marks saved on entering scopes),
/// and where `break` and `continue` jump.
pub struct BuildCtx {
    pub vreg: VReg,
    pub labels: usize,
    pub scopes: Seq<Seq<Symbol>>,
    pub next_reg: u8,
    pub marks: Seq<u8>,
    pub brk: Option<Label>,
    pub cont: Option<Label>,
}

/// The context a new builder starts from: no registers or labels used, one
/// empty scope, no loop.
pub open spec fn start_ctx() -> BuildCtx {
    BuildCtx {
        vreg: 0,
        labels: 0,
        scopes: seq![Seq::<Symbol>::empty()],
        next_reg: 0,
        marks: seq![0u8],
        brk: None,
        cont: None,
    }
}

/// An instruction at a source span.
pub open spec fn at(node: VynIROC, span: Span) -> VynIROpCode {
    VynIROpCode { node, span }
}

/// The register a variable lives in.
pub open spec fn reg_of(sym: Symbol) -> VReg {
    sym.scope->Register_0 as VReg
}

/// A string whose text is `text`.
pub open spec fn text(t: Seq<char>) -> String {
    choose|s: String| s@ == t
}

/// Two instructions alike: equal, but for constant strings, which need only
/// have the same text.
pub open spec fn same_op(x: VynIROpCode, y: VynIROpCode) -> bool {
    &&& x.span == y.span
    &&& match x.node {
        VynIROC::LoadString { dest, value } => y.node matches VynIROC::LoadString { dest: d, value: v } && dest == d
            && value@ == v@,
        VynIROC::LoadConstFloat { dest, value } => y.node matches VynIROC::LoadConstFloat { dest: d, value: v } && dest
            == d && value@ == v@,
        _ => x.node == y.node,
    }
}

/// Two instruction lists alike, instruction by instruction.
pub open spec fn same_insts(a: Seq<VynIROpCode>, b: Seq<VynIROpCode>) -> bool {
    &&& a.len() == b.len()
    &&& forall|i: int| 0 <= i < a.len() ==> #[trigger] same_op(a[i], b[i])
}

/// The type the builder gives an expression (a binary operation has its left
/// operand's type), and whether finding it recorded no error (an unknown
/// variable is an error).
pub open spec fn ir_type_of(scopes: Seq<Seq<Symbol>>, e: Expr) -> (Option<Type>, bool)
    decreases e,
{
    match e {
        Expr::IntegerLiteral(_) => (Some(Type::Integer), true),
        Expr::FloatLiteral(_) => (Some(Type::Float), true),
        Expr::BooleanLiteral(_) => (Some(Type::Bool), true),
        Expr::StringLiteral(_) => (Some(Type::String), true),
        Expr::Identifier(name) => match resolve_in_scopes(scopes, name@) {
            Some(sym) => (Some(sym.symbol_type), true),
            None => (None, false),
        },
        Expr::BinaryOperation { left, .. } => ir_type_of(scopes, left.node),
        _ => (None, true),
    }
}

/// The arithmetic instruction for `op`: the integer one for integers, the
/// float one otherwise.
pub open spec fn arith_op(t: Type, left: VReg, op: Token, right: VReg, dest: VReg) -> VynIROC {
    let is_int = t == Type::Integer;
    match op {
        Token::Plus => if is_int { VynIROC::AddInt { dest, left, right } } else { VynIROC::AddFloat { dest, left, right } },
        Token::Minus => if is_int { VynIROC::SubInt { dest, left, right } } else { VynIROC::SubFloat { dest, left, right } },
        Token::Asterisk => if is_int { VynIROC::MulInt { dest, left, right } } else { VynIROC::MulFloat { dest, left, right } },
        Token::Slash => if is_int { VynIROC::DivInt { dest, left, right } } else { VynIROC::DivFloat { dest, left, right } },
        _ => if is_int { VynIROC::ExpInt { dest, left, right } } else { VynIROC::ExpFloat { dest, left, right } },
    }
}

/// The comparison instruction for `op`: the integer one for integers, the
/// float one otherwise; equality is untyped.
pub open spec fn comp_op(t: Type, left: VReg, op: Token, right: VReg, dest: VReg) -> VynIROC {
    let is_int = t == Type::Integer;
    match op {
        Token::LessThan => if is_int {
            VynIROC::CompareLessInt { dest, left, right }
        } else {
            VynIROC::CompareLessFloat { dest, left, right }
        },
        Token::GreaterThan => if is_int {
            VynIROC::CompareGreaterInt { dest, left, right }
        } else {
            VynIROC::CompareGreaterFloat { dest, left, right }
        },
        Token::GreaterThanEqual => if is_int {
            VynIROC::CompareGreaterEqualInt { dest, left, right }
        } else {
            VynIROC::CompareGreaterEqualFloat { dest, left, right }
        },
        Token::LessThanEqual => if is_int {
            VynIROC::CompareLessEqualInt { dest, left, right }
        } else {
            VynIROC::CompareLessEqualFloat { dest, left, right }
        },
        Token::Equal => VynIROC::CompareEqual { dest, left, right },
        _ => VynIROC::CompareNotEqual { dest, left, right },
    }
}

/// The instruction for binary operator `op`.
pub open spec fn binary_op(t: Type, left: VReg, op: Token, right: VReg, dest: VReg) -> VynIROC {
    if op is Plus || op is Minus || op is Asterisk || op is Slash || op is Caret {
        arith_op(t, left, op, right, dest)
    } else {
        comp_op(t, left, op, right, dest)
    }
}

/// The instruction for a binary operator reads its left operand first and
/// its right operand second and writes the destination; on integers it
/// computes, once compiled and run, the sum, the difference left minus
/// right, the product, the quotient (rounded toward zero) or the power, and
/// compares in the strict or non-strict order of the integers, left against
/// right.
pub proof fn law_binary_instruction_meaning(l: VReg, op: Token, r: VReg, d: VReg, a: i32, b: i32)
    ensures
        spec_uses(binary_op(Type::Integer, l, op, r, d)) == seq![l, r],
        spec_def(binary_op(Type::Integer, l, op, r, d)) == Some(d),
        spec_uses(binary_op(Type::Float, l, op, r, d)) == seq![l, r],
        spec_def(binary_op(Type::Float, l, op, r, d)) == Some(d),
        ({
            let code = ir_opcode(binary_op(Type::Integer, l, op, r, d))->Some_0;
            &&& op is Plus ==> int_arith(code, a, b) == if fits_i32(a + b) {
                Ok::<i32, VmError>((a + b) as i32)
            } else {
                Err(VmError::IntegerOverflow)
            }
            &&& op is Minus ==> int_arith(code, a, b) == if fits_i32(a - b) {
                Ok::<i32, VmError>((a - b) as i32)
            } else {
                Err(VmError::IntegerOverflow)
            }
            &&& op is Asterisk ==> int_arith(code, a, b) == if fits_i32(a * b) {
                Ok::<i32, VmError>((a * b) as i32)
            } else {
                Err(VmError::IntegerOverflow)
            }
            &&& op is Slash && b == 0 ==> int_arith(code, a, b) == Err::<i32, VmError>(VmError::DivisionByZero)
            &&& op is Slash && a >= 0 && b > 0 ==> int_arith(code, a, b) == Ok::<i32, VmError>((a / b) as i32)
            &&& op is Caret && b < 0 ==> int_arith(code, a, b) == Err::<i32, VmError>(VmError::NegativeExponent)
            &&& op is LessThan ==> is_int_compare(code) && int_compare(code, a, b) == (a < b)
            &&& op is LessThanEqual ==> is_int_compare(code) && int_compare(code, a, b) == (a <= b)
            &&& op is GreaterThan ==> is_int_compare(code) && int_compare(code, a, b) == (a > b)
            &&& op is GreaterThanEqual ==> is_int_compare(code) && int_compare(code, a, b) == (a >= b)
            &&& (op is Plus || op is Minus || op is Asterisk || op is Slash || op is Caret) ==> is_int_arith(code)
        }),
        ({
            let fcode = ir_opcode(binary_op(Type::Float, l, op, r, d));
            &&& op is Plus ==> fcode == Some(OpCode::AddFloat)
            &&& op is Minus ==> fcode == Some(OpCode::SubtractFloat)
            &&& op is Asterisk ==> fcode == Some(OpCode::MultiplyFloat)
            &&& op is Slash ==> fcode == Some(OpCode::DivideFloat)
            &&& op is Caret ==> fcode == Some(OpCode::ExponentFloat)
            &&& op is LessThan ==> fcode == Some(OpCode::LessFloat)
            &&& op is LessThanEqual ==> fcode == Some(OpCode::LessEqualFloat)
            &&& op is GreaterThan ==> fcode == Some(OpCode::GreaterFloat)
            &&& op is GreaterThanEqual ==> fcode == Some(OpCode::GreaterEqualFloat)
        }),
        op is Equal ==> ir_opcode(binary_op(Type::Integer, l, op, r, d)) == Some(OpCode::Equal)
            && ir_opcode(binary_op(Type::Float, l, op, r, d)) == Some(OpCode::Equal),
        op is NotEqual ==> ir_opcode(binary_op(Type::Integer, l, op, r, d)) == Some(OpCode::NotEqual)
            && ir_opcode(binary_op(Type::Float, l, op, r, d)) == Some(OpCode::NotEqual),
{
    if a >= 0 && b > 0 {
        assert(0 <= a / b <= a) by (nonlinear_arith)
            requires
                a >= 0,
                b > 0,
        ;
    }
}

/// Translating `left op right` emits the code of `left`, then that of
/// `right`, then one instruction that reads the register holding the value
/// of `left` as its left operand and the register holding the value of
/// `right` as its right operand, and writes the register the whole
/// expression's value is in.
pub proof fn law_binary_operands_in_order(c: BuildCtx, left: Expression, operator: Token, right: Expression, span: Span)
    ensures
        ({
            let e = Expression { node: Expr::BinaryOperation { left: Box::new(left), operator, right: Box::new(right) }, span };
            let (c1, i1, lv, k1) = expr_eval(c, left);
            let (c2, i2, rv, k2) = expr_eval(c1, right);
            let (c3, insts, v, k) = expr_eval(c, e);
            v is Some ==> {
                &&& lv is Some && rv is Some
                &&& insts.len() == i1.len() + i2.len() + 1
                &&& insts.subrange(0, i1.len() as int) == i1
                &&& insts.subrange(i1.len() as int, (i1.len() + i2.len()) as int) == i2
                &&& spec_uses(insts.last().node) == seq![lv->Some_0, rv->Some_0]
                &&& spec_def(insts.last().node) == v
                &&& insts.last().span == span
            }
        }),
{
    let e = Expression { node: Expr::BinaryOperation { left: Box::new(left), operator, right: Box::new(right) }, span };
    let (c1, i1, lv, k1) = expr_eval(c, left);
    let (c2, i2, rv, k2) = expr_eval(c1, right);
    let (c3, insts, v, k) = expr_eval(c, e);
    if v is Some {
        let dest = c2.vreg;
        let t = ir_type_of(BuildCtx { vreg: (dest + 1) as VReg, ..c2 }.scopes, e.node).0->Some_0;
        law_binary_instruction_meaning(lv->Some_0, operator, rv->Some_0, dest, 0, 0);
        assert(spec_uses(binary_op(t, lv->Some_0, operator, rv->Some_0, dest)) == seq![lv->Some_0, rv->Some_0]);
        assert(insts == (i1 + i2).push(at(binary_op(t, lv->Some_0, operator, rv->Some_0, dest), span)));
        assert(insts.subrange(0, i1.len() as int) =~= i1);
        assert(insts.subrange(i1.len() as int, (i1.len() + i2.len()) as int) =~= i2);
    }
}

/// Loading a constant into a fresh register: out of registers is an error.
pub open spec fn load(c: BuildCtx, node: spec_fn(VReg) -> VynIROC, span: Span) -> (BuildCtx, Seq<VynIROpCode>, Option<VReg>, bool) {
    if c.vreg == u32::MAX {
        (c, Seq::empty(), None, false)
    } else {
        (BuildCtx { vreg: (c.vreg + 1) as VReg, ..c }, seq![at(node(c.vreg), span)], Some(c.vreg), true)
    }
}

/// What translating `e` does from context `c`: the context after, the
/// instructions it emits, the register that holds its value (`None` when it
/// fails), and whether it recorded no error.
pub open spec fn expr_eval(c: BuildCtx, e: Expression) -> (BuildCtx, Seq<VynIROpCode>, Option<VReg>, bool)
    decreases e.node,
{
    match e.node {
        Expr::IntegerLiteral(n) => load(c, |d: VReg| VynIROC::LoadConstInt { dest: d, value: n }, e.span),
        Expr::FloatLiteral(f) => load(c, |d: VReg| VynIROC::LoadConstFloat { dest: d, value: f }, e.span),
        Expr::BooleanLiteral(b) => load(c, |d: VReg| VynIROC::LoadBool { dest: d, value: b }, e.span),
        Expr::StringLiteral(t) => load(c, |d: VReg| VynIROC::LoadString { dest: d, value: t }, e.span),
        Expr::Identifier(name) => match resolve_in_scopes(c.scopes, name@) {
            Some(sym) => (c, Seq::empty(), Some(reg_of(sym)), true),
            None => (c, Seq::empty(), None, false),
        },
        Expr::VariableAssignment { identifier, new_value } => {
            let (c1, i1, v, k1) = expr_eval(c, *new_value);
            match v {
                None => (c1, i1, None, k1),
                Some(v) => match identifier.node {
                    Expr::Identifier(name) => match resolve_in_scopes(c1.scopes, name@) {
                        Some(sym) => (c1, i1.push(at(VynIROC::Move { dest: reg_of(sym), src: v }, e.span)), Some(reg_of(sym)), k1),
                        None => (c1, i1, None, false),
                    },
                    _ => (c1, i1, None, k1),
                },
            }
        },
        Expr::BinaryOperation { left, operator, right } => {
            let (c1, i1, l, k1) = expr_eval(c, *left);
            match l {
                None => (c1, i1, None, k1),
                Some(l) => {
                    let (c2, i2, r, k2) = expr_eval(c1, *right);
                    match r {
                        None => (c2, i1 + i2, None, k1 && k2),
                        Some(r) => if c2.vreg == u32::MAX {
                            (c2, i1 + i2, None, false)
                        } else {
                            let dest = c2.vreg;
                            let c3 = BuildCtx { vreg: (dest + 1) as VReg, ..c2 };
                            let (t, tk) = ir_type_of(c3.scopes, e.node);
                            match t {
                                None => (c3, i1 + i2, None, k1 && k2 && tk),
                                Some(t) => (
                                    c3,
                                    (i1 + i2).push(at(binary_op(t, l, operator, r, dest), e.span)),
                                    Some(dest),
                                    k1 && k2 && tk,
                                ),
                            }
                        },
                    }
                },
            }
        },
        _ => (c, Seq::empty(), None, true),
    }
}

/// Loading the value a declaration of type `t` without one starts with:
/// 0, false, the empty string or 0.0 (no other type has one here).
pub open spec fn default_eval(c: BuildCtx, t: Type) -> (BuildCtx, Seq<VynIROpCode>, Option<VReg>, bool) {
    match t {
        Type::Integer => load(c, |d: VReg| VynIROC::LoadConstInt { dest: d, value: 0 }, Span::zero()),
        Type::Bool => load(c, |d: VReg| VynIROC::LoadBool { dest: d, value: false }, Span::zero()),
        Type::String => load(c, |d: VReg| VynIROC::LoadString { dest: d, value: text(Seq::empty()) }, Span::zero()),
        Type::Float => load(c, |d: VReg| VynIROC::LoadConstFloat { dest: d, value: text("0.0"@) }, Span::zero()),
        _ => (c, Seq::empty(), None, true),
    }
}

/// The context with `break` and `continue` jumping to those of `c`.
pub open spec fn with_targets(c2: BuildCtx, c: BuildCtx) -> BuildCtx {
    BuildCtx { brk: c.brk, cont: c.cont, ..c2 }
}

/// What translating statement `s` with span `span` does from context `c`
/// (the statics being `statics`): the context after, the instructions it
/// emits, whether it succeeds, and whether it recorded no error. The body of
/// a loop or a conditional is translated with the span of the statement
/// around it.
pub open spec fn stmt_eval(c: BuildCtx, s: Statement, span: Span, statics: Seq<(String, StaticValue, Span)>) -> (
    BuildCtx,
    Seq<VynIROpCode>,
    bool,
    bool,
)
    decreases s.node, 1int, 0int,
{
    let zero = Span::zero();
    let no_labels = c.labels >= usize::MAX - 2;
    match s.node {
        Stmt::Expression { expression } => {
            let (c1, i1, _, k1) = expr_eval(c, expression);
            (c1, i1, true, k1)
        },
        Stmt::VariableDeclaration { identifier, value, annotated_type, mutable } => match identifier.node {
            Expr::Identifier(n) => {
                let t = annotation_type(annotated_type, statics);
                let ac = annotation_clean(annotated_type, statics);
                let (c1, i1, v, k1) = match value {
                    Some(val) => expr_eval(c, val),
                    None => default_eval(c, t),
                };
                match v {
                    None => (c1, i1, false, ac && k1),
                    Some(v) => {
                        let reg = (v % 256) as u8;
                        if find_in_scope(c1.scopes.last(), n@) is Some {
                            (c1, i1, true, false)
                        } else {
                            let sym = Symbol { name: n, symbol_type: t, span, mutable, scope: SymbolScope::Register(reg) };
                            (
                                BuildCtx {
                                    scopes: c1.scopes.update(c1.scopes.len() - 1, c1.scopes.last().push(sym)),
                                    next_reg: if reg >= c1.next_reg {
                                        ((reg as int + 1) % 256) as u8
                                    } else {
                                        c1.next_reg
                                    },
                                    ..c1
                                },
                                i1,
                                true,
                                ac && k1,
                            )
                        }
                    },
                }
            },
            _ => (c, Seq::empty(), false, true),
        },
        Stmt::Loop { body } => if no_labels {
            (c, Seq::empty(), false, false)
        } else {
            let ls = Label(c.labels);
            let le = Label((c.labels + 1) as usize);
            let c1 = BuildCtx { labels: (c.labels + 2) as usize, brk: Some(le), cont: Some(ls), ..c };
            let head = seq![at(VynIROC::Label(ls), zero)];
            let (c2, i2, ok2, k2) = stmt_eval(c1, *body, span, statics);
            if !ok2 {
                (c2, head + i2, false, k2)
            } else {
                (
                    with_targets(c2, c),
                    head + i2 + seq![at(VynIROC::JumpUncond { label: ls }, span), at(VynIROC::Label(le), zero)],
                    true,
                    k2,
                )
            }
        },
        Stmt::WhenLoop { body, condition } => if no_labels {
            (c, Seq::empty(), false, false)
        } else {
            let ls = Label(c.labels);
            let le = Label((c.labels + 1) as usize);
            let c1 = BuildCtx { labels: (c.labels + 2) as usize, brk: Some(le), cont: Some(ls), ..c };
            let head = seq![at(VynIROC::Label(ls), zero)];
            let (c2, i2, v, k2) = expr_eval(c1, condition);
            match v {
                None => (c2, head + i2, false, k2),
                Some(cr) => {
                    let jump = seq![at(VynIROC::JumpIfFalse { condition_reg: cr, label: le }, span)];
                    let (c3, i3, ok3, k3) = stmt_eval(c2, *body, span, statics);
                    if !ok3 {
                        (c3, head + i2 + jump + i3, false, k2 && k3)
                    } else {
                        (
                            with_targets(c3, c),
                            head + i2 + jump + i3 + seq![at(VynIROC::JumpUncond { label: ls }, span), at(VynIROC::Label(le), zero)],
                            true,
                            k2 && k3,
                        )
                    }
                },
            }
        },
        Stmt::Break => match c.brk {
            Some(l) => (c, seq![at(VynIROC::JumpUncond { label: l }, span)], true, true),
            None => (c, Seq::empty(), false, true),
        },
        Stmt::Continue => match c.cont {
            Some(l) => (c, seq![at(VynIROC::JumpUncond { label: l }, span)], true, true),
            None => (c, Seq::empty(), false, true),
        },
        Stmt::Scope { statements } => {
            proof {
                assert(decreases_to!(s.node => s.node->Scope_statements));
                assert(decreases_to!(s.node->Scope_statements => s.node->Scope_statements@));
            }
            let c1 = BuildCtx { scopes: c.scopes.push(Seq::empty()), marks: c.marks.push(c.next_reg), ..c };
            let (c2, i2, k2) = stmts_eval(c1, statements@, 0, statics);
            let c3 = if c2.scopes.len() > 1 {
                BuildCtx { scopes: c2.scopes.drop_last(), marks: c2.marks.drop_last(), next_reg: c2.marks.last(), ..c2 }
            } else {
                c2
            };
            (c3, i2, true, k2)
        },
        Stmt::IfDeclaration { condition, consequence, alternate } => {
            let (c1, i1, v, k1) = expr_eval(c, condition);
            match v {
                None => (c1, i1, false, k1),
                Some(cr) => if c1.labels >= usize::MAX - 2 {
                    (c1, i1, false, false)
                } else {
                    let le = Label(c1.labels);
                    let lend = Label((c1.labels + 1) as usize);
                    let c2 = BuildCtx { labels: (c1.labels + 2) as usize, ..c1 };
                    let jump = seq![at(VynIROC::JumpIfFalse { condition_reg: cr, label: le }, span)];
                    let (c3, i3, ok3, k3) = stmt_eval(c2, *consequence, span, statics);
                    if !ok3 {
                        (c3, i1 + jump + i3, false, k1 && k3)
                    } else {
                        let skip = if terminating(consequence.node) {
                            Seq::empty()
                        } else {
                            seq![at(VynIROC::JumpUncond { label: lend }, span)]
                        };
                        let mid = i1 + jump + i3 + skip + seq![at(VynIROC::Label(le), zero)];
                        match *alternate {
                            Some(alt) => {
                                let (c4, i4, ok4, k4) = stmt_eval(c3, alt, span, statics);
                                if !ok4 {
                                    (c4, mid + i4, false, k1 && k3 && k4)
                                } else {
                                    (c4, mid + i4 + seq![at(VynIROC::Label(lend), zero)], true, k1 && k3 && k4)
                                }
                            },
                            None => (c3, mid + seq![at(VynIROC::Label(lend), zero)], true, k1 && k3),
                        }
                    }
                },
            }
        },
        Stmt::StdoutLog { log_value } => {
            let (c1, i1, v, k1) = expr_eval(c, log_value);
            match v {
                None => (c1, i1, false, k1),
                Some(a) => (c1, i1.push(at(VynIROC::LogAddr { addr: a }, span)), true, k1),
            }
        },
        _ => (c, Seq::empty(), false, true),
    }
}

/// Translating `stmts` from position `k` on, in order, each with its own
/// span (whatever each gives): the context after, the instructions, and
/// whether no error was recorded.
pub open spec fn stmts_eval(c: BuildCtx, stmts: Seq<Statement>, k: int, statics: Seq<(String, StaticValue, Span)>) -> (
    BuildCtx,
    Seq<VynIROpCode>,
    bool,
)
    decreases stmts, 0int, stmts.len() - k,
{
    if 0 <= k < stmts.len() {
        proof {
            assert(decreases_to!(stmts => stmts[k]));
            assert(decreases_to!(stmts[k] => stmts[k].node));
        }
        let (c1, i1, _, k1) = stmt_eval(c, stmts[k], stmts[k].span, statics);
        let (c2, i2, k2) = stmts_eval(c1, stmts, k + 1, statics);
        (c2, i1 + i2, k1 && k2)
    } else {
        (c, Seq::empty(), true)
    }
}

proof fn lemma_same_refl(a: Seq<VynIROpCode>)
    ensures
        same_insts(a, a),
{
    assert forall|i: int| 0 <= i < a.len() implies #[trigger] same_op(a[i], a[i]) by {
        match a[i].node {
            VynIROC::LoadString { .. } => {},
            VynIROC::LoadConstFloat { .. } => {},
            _ => {},
        }
    }
}

proof fn lemma_same_trans(a: Seq<VynIROpCode>, b: Seq<VynIROpCode>, c: Seq<VynIROpCode>)
    requires
        same_insts(a, b),
        same_insts(b, c),
    ensures
        same_insts(a, c),
{
    assert forall|i: int| 0 <= i < a.len() implies #[trigger] same_op(a[i], c[i]) by {
        assert(same_op(a[i], b[i]) && same_op(b[i], c[i]));
    }
}

proof fn lemma_same_append(a: Seq<VynIROpCode>, b: Seq<VynIROpCode>, c: Seq<VynIROpCode>, d: Seq<VynIROpCode>)
    requires
        same_insts(a, b),
        same_insts(c, d),
    ensures
        same_insts(a + c, b + d),
{
    assert forall|i: int| 0 <= i < (a + c).len() implies #[trigger] same_op((a + c)[i], (b + d)[i]) by {
        if i < a.len() {
            assert(same_op(a[i], b[i]));
        } else {
            assert(same_op(c[i - a.len()], d[i - a.len()]));
        }
    }
}

/// Translates a checked program into IR over fresh virtual registers, with
/// labels for control flow.
pub struct VynIRBuilder<'a> {
    instructions: Vec<VynIROpCode>,
    next_register: VReg,
    label_counter: usize,
    error_collector: ErrorCollector,
    static_eval: &'a StaticEvaluator,
    symbol_type_table: &'a SymbolTypeTable,
    symbol_table: SymbolTable,
    break_jump_pos: Option<Label>,
    continue_jump_pos: Option<Label>,
}

impl<'a> VynIRBuilder<'a> {
    /// The instructions emitted so far.
    pub closed spec fn insts(&self) -> Seq<VynIROpCode> {
        self.instructions@
    }

    /// The errors recorded so far.
    pub closed spec fn errs(&self) -> Seq<VynError> {
        self.error_collector.errors@
    }

    /// The next fresh virtual register.
    pub closed spec fn next_vreg(&self) -> VReg {
        self.next_register
    }

    /// How many labels were made.
    pub closed spec fn labels(&self) -> usize {
        self.label_counter
    }

    /// Where `break` and `continue` jump, inside a loop.
    pub closed spec fn loop_targets(&self) -> (Option<Label>, Option<Label>) {
        (self.break_jump_pos, self.continue_jump_pos)
    }

    /// What the builder keeps besides instructions and errors.
    pub closed spec fn ctx(&self) -> BuildCtx {
        BuildCtx {
            vreg: self.next_register,
            labels: self.label_counter,
            scopes: self.symbol_table.scopes(),
            next_reg: self.symbol_table.next_reg(),
            marks: self.symbol_table.watermarks(),
            brk: self.break_jump_pos,
            cont: self.continue_jump_pos,
        }
    }

    /// The statics array sizes are read from.
    pub closed spec fn statics(&self) -> Seq<(String, StaticValue, Span)> {
        self.static_eval.recorded()
    }

    /// The builder's invariant.
    pub closed spec fn wf(&self) -> bool {
        &&& self.symbol_table.wf()
        &&& (self.break_jump_pos is Some <==> self.continue_jump_pos is Some)
    }

    /// A builder with nothing emitted.
    pub fn new(static_eval: &'a StaticEvaluator, symbol_type_table: &'a SymbolTypeTable) -> (b: VynIRBuilder<'a>)
        ensures
            b.wf(),
            b.insts().len() == 0,
            b.errs().len() == 0,
            b.next_vreg() == 0,
            b.labels() == 0,
            b.loop_targets() == (None::<Label>, None::<Label>),
            b.ctx() == start_ctx(),
            b.statics() == static_eval.recorded(),
    {
        VynIRBuilder {
            instructions: Vec::new(),
            error_collector: ErrorCollector::new(),
            next_register: 0,
            label_counter: 0,
            static_eval,
            break_jump_pos: None,
            continue_jump_pos: None,
            symbol_type_table,
            symbol_table: SymbolTable::new(),
        }
    }

    /// Appends an instruction.
    fn emit(&mut self, opcode: VynIROpCode)
        ensures
            final(self).insts() == old(self).insts().push(opcode),
            final(self).errs() == old(self).errs(),
            final(self).next_vreg() == old(self).next_vreg(),
            final(self).labels() == old(self).labels(),
            final(self).loop_targets() == old(self).loop_targets(),
            final(self).symbol_table == old(self).symbol_table,
            final(self).static_eval == old(self).static_eval,
    {
        self.instructions.push(opcode);
    }

    /// Appends the marker of `label`.
    fn emit_label(&mut self, label: Label)
        ensures
            final(self).insts() == old(self).insts().push(VynIROpCode { node: VynIROC::Label(label), span: Span::zero() }),
            final(self).errs() == old(self).errs(),
            final(self).next_vreg() == old(self).next_vreg(),
            final(self).labels() == old(self).labels(),
            final(self).loop_targets() == old(self).loop_targets(),
            final(self).symbol_table == old(self).symbol_table,
            final(self).static_eval == old(self).static_eval,
    {
        self.instructions.push(VynIROC::Label(label).spanned(Span::default_span()));
    }

    /// A fresh virtual register.
    fn allocate_vreg(&mut self) -> (r: VReg)
        requires
            old(self).next_vreg() < u32::MAX,
        ensures
            r == old(self).next_vreg(),
            final(self).next_vreg() == old(self).next_vreg() + 1,
            final(self).insts() == old(self).insts(),
            final(self).errs() == old(self).errs(),
            final(self).labels() == old(self).labels(),
            final(self).loop_targets() == old(self).loop_targets(),
            final(self).symbol_table == old(self).symbol_table,
            final(self).static_eval == old(self).static_eval,
    {
        let reg = self.next_register;
        self.next_register = self.next_register + 1;
        reg
    }

    /// A fresh label.
    fn next_label(&mut self) -> (l: Label)
        requires
            old(self).labels() < usize::MAX,
        ensures
            l == Label(old(self).labels()),
            final(self).labels() == old(self).labels() + 1,
            final(self).insts() == old(self).insts(),
            final(self).errs() == old(self).errs(),
            final(self).next_vreg() == old(self).next_vreg(),
            final(self).loop_targets() == old(self).loop_targets(),
            final(self).symbol_table == old(self).symbol_table,
            final(self).static_eval == old(self).static_eval,
    {
        let label = Label(self.label_counter);
        self.label_counter = self.label_counter + 1;
        label
    }

    /// Hands out what was emitted, leaving the builder empty.
    fn finish(&mut self) -> (ir: VynIR)
        ensures
            ir.instructions@ == old(self).insts(),
    {
        let mut instructions: Vec<VynIROpCode> = Vec::new();
        std::mem::swap(&mut instructions, &mut self.instructions);
        VynIR { instructions }
    }

    /// From `old` to `self` the builder only added instructions and errors,
    /// used fresh registers and labels, and kept its loop targets.
    pub closed spec fn extends(&self, old: Self) -> bool {
        &&& self.wf()
        &&& self.insts().len() >= old.insts().len()
        &&& forall|i: int| 0 <= i < old.insts().len() ==> #[trigger] self.insts()[i] == old.insts()[i]
        &&& self.errs().len() >= old.errs().len()
        &&& forall|i: int| 0 <= i < old.errs().len() ==> #[trigger] self.errs()[i] == old.errs()[i]
        &&& self.next_vreg() >= old.next_vreg()
        &&& self.labels() >= old.labels()
        &&& self.static_eval == old.static_eval
    }

    /// Translates an expression; its value ends up in the returned register.
    fn build_expr(&mut self, expr: &Expression) -> (r: Option<VReg>)
        requires
            old(self).wf(),
            ir_expr_supported(expr.node),
        ensures
            final(self).extends(*old(self)),
            final(self).symbol_table == old(self).symbol_table,
            final(self).loop_targets() == old(self).loop_targets(),
            final(self).labels() == old(self).labels(),
            ({
                let e = expr_eval(old(self).ctx(), *expr);
                &&& final(self).ctx() == e.0
                &&& final(self).insts() == old(self).insts() + e.1
                &&& r == e.2
                &&& (final(self).errs().len() == old(self).errs().len()) == e.3
            }),
        decreases expr.node, 1int,
    {
        let span = expr.span;
        match &expr.node {
            Expr::IntegerLiteral(i) => {
                if self.next_register == u32::MAX {
                    self.error_collector.add(VynError::RegisterOverflow { span });
                    return None;
                }
                let dest = self.allocate_vreg();
                self.emit(VynIROC::LoadConstInt { dest, value: *i }.spanned(span));
                Some(dest)
            },
            Expr::FloatLiteral(f) => {
                if self.next_register == u32::MAX {
                    self.error_collector.add(VynError::RegisterOverflow { span });
                    return None;
                }
                let dest = self.allocate_vreg();
                self.emit(VynIROC::LoadConstFloat { dest, value: f.clone() }.spanned(span));
                Some(dest)
            },
            Expr::BooleanLiteral(b) => {
                if self.next_register == u32::MAX {
                    self.error_collector.add(VynError::RegisterOverflow { span });
                    return None;
                }
                let dest = self.allocate_vreg();
                self.emit(VynIROC::LoadBool { dest, value: *b }.spanned(span));
                Some(dest)
            },
            Expr::StringLiteral(st) => {
                if self.next_register == u32::MAX {
                    self.error_collector.add(VynError::RegisterOverflow { span });
                    return None;
                }
                let dest = self.allocate_vreg();
                self.emit(VynIROC::LoadString { dest, value: st.clone() }.spanned(span));
                Some(dest)
            },
            Expr::VariableAssignment { identifier, new_value } => {
                let new_value_vreg = match self.build_expr(new_value) {
                    Some(v) => v,
                    None => return None,
                };
                let var_name = match &identifier.node {
                    Expr::Identifier(n) => n,
                    _ => return None,
                };
                let dest_reg = match self.symbol_table.resolve_symbol(var_name.as_str(), span, &mut self.error_collector) {
                    Some(symbol) => match symbol.scope {
                        SymbolScope::Register(r) => r,
                    },
                    None => return None,
                };
                self.emit(VynIROC::Move { dest: dest_reg as VReg, src: new_value_vreg }.spanned(span));
                Some(dest_reg as VReg)
            },
            Expr::Identifier(name) => {
                match self.symbol_table.resolve_symbol(name.as_str(), span, &mut self.error_collector) {
                    Some(symbol) => match symbol.scope {
                        SymbolScope::Register(r) => Some(r as VReg),
                    },
                    None => None,
                }
            },
            Expr::BinaryOperation { left, operator, right } => self.build_binary_expr(left, operator, right, expr),
            _ => None,
        }
    }

    /// Translates `left operator right` into one arithmetic or comparison
    /// instruction, integer or float by the left operand's type.
    fn build_binary_expr(&mut self, left: &Expression, operator: &Token, right: &Expression, expr: &Expression) -> (r: Option<u32>)
        requires
            old(self).wf(),
            expr.node is BinaryOperation,
            *expr.node->BinaryOperation_left == *left,
            *expr.node->BinaryOperation_right == *right,
            expr.node->BinaryOperation_operator == *operator,
            ir_expr_supported(expr.node),
        ensures
            final(self).extends(*old(self)),
            final(self).symbol_table == old(self).symbol_table,
            final(self).loop_targets() == old(self).loop_targets(),
            final(self).labels() == old(self).labels(),
            ({
                let e = expr_eval(old(self).ctx(), *expr);
                &&& final(self).ctx() == e.0
                &&& final(self).insts() == old(self).insts() + e.1
                &&& r == e.2
                &&& (final(self).errs().len() == old(self).errs().len()) == e.3
            }),
        decreases expr.node, 0int,
    {
        proof {
            assert(decreases_to!(expr.node => expr.node->BinaryOperation_left));
            assert(decreases_to!(expr.node => expr.node->BinaryOperation_right));
        }
        let b_left = match self.build_expr(left) {
            Some(v) => v,
            None => return None,
        };
        let b_right = match self.build_expr(right) {
            Some(v) => v,
            None => return None,
        };
        if self.next_register == u32::MAX {
            self.error_collector.add(VynError::RegisterOverflow { span: expr.span });
            return None;
        }
        let dest = self.allocate_vreg();
        let expr_type = match self.get_expr_type(expr) {
            Some(t) => t,
            None => return None,
        };
        let opcode = match operator {
            Token::Plus | Token::Minus | Token::Asterisk | Token::Slash | Token::Caret => {
                Self::build_arith_expr(expr_type, b_left, operator, b_right, dest)
            },
            _ => Self::build_comp_expr(expr_type, b_left, operator, b_right, dest),
        };
        self.emit(opcode.spanned(expr.span));
        Some(dest)
    }

    /// The type of a literal, a variable, or (by its left operand) a binary
    /// operation; `None` for anything else.
    fn get_expr_type(&mut self, expr: &Expression) -> (r: Option<Type>)
        requires
            old(self).wf(),
        ensures
            final(self).wf(),
            final(self).insts() == old(self).insts(),
            final(self).next_vreg() == old(self).next_vreg(),
            final(self).labels() == old(self).labels(),
            final(self).loop_targets() == old(self).loop_targets(),
            final(self).symbol_table == old(self).symbol_table,
            final(self).static_eval == old(self).static_eval,
            final(self).errs().len() >= old(self).errs().len(),
            forall|i: int| 0 <= i < old(self).errs().len() ==> #[trigger] final(self).errs()[i] == old(self).errs()[i],
            (r, final(self).errs().len() == old(self).errs().len()) == ir_type_of(old(self).ctx().scopes, expr.node),
        decreases expr.node,
    {
        match &expr.node {
            Expr::IntegerLiteral(_) => Some(Type::Integer),
            Expr::FloatLiteral(_) => Some(Type::Float),
            Expr::BooleanLiteral(_) => Some(Type::Bool),
            Expr::StringLiteral(_) => Some(Type::String),
            Expr::Identifier(name) => {
                match self.symbol_table.resolve_symbol(name.as_str(), expr.span, &mut self.error_collector) {
                    Some(symbol) => Some(symbol.symbol_type.copy()),
                    None => None,
                }
            },
            Expr::BinaryOperation { left, .. } => self.get_expr_type(left),
            _ => None,
        }
    }

    /// The arithmetic instruction for `operator`, integer when the type is.
    fn build_arith_expr(expr_type: Type, b_left: u32, operator: &Token, b_right: u32, dest: u32) -> (op: VynIROC)
        requires
            *operator is Plus || *operator is Minus || *operator is Asterisk || *operator is Slash || *operator is Caret,
        ensures
            op == arith_op(expr_type, b_left, *operator, b_right, dest),
    {
        let is_op_int = match expr_type {
            Type::Integer => true,
            _ => false,
        };
        match operator {
            Token::Plus => if is_op_int {
                VynIROC::AddInt { dest, left: b_left, right: b_right }
            } else {
                VynIROC::AddFloat { dest, left: b_left, right: b_right }
            },
            Token::Minus => if is_op_int {
                VynIROC::SubInt { dest, left: b_left, right: b_right }
            } else {
                VynIROC::SubFloat { dest, left: b_left, right: b_right }
            },
            Token::Asterisk => if is_op_int {
                VynIROC::MulInt { dest, left: b_left, right: b_right }
            } else {
                VynIROC::MulFloat { dest, left: b_left, right: b_right }
            },
            Token::Slash => if is_op_int {
                VynIROC::DivInt { dest, left: b_left, right: b_right }
            } else {
                VynIROC::DivFloat { dest, left: b_left, right: b_right }
            },
            _ => if is_op_int {
                VynIROC::ExpInt { dest, left: b_left, right: b_right }
            } else {
                VynIROC::ExpFloat { dest, left: b_left, right: b_right }
            },
        }
    }

    /// The comparison instruction for `operator`, integer when the type is.
    fn build_comp_expr(expr_type: Type, b_left: u32, operator: &Token, b_right: u32, dest: u32) -> (op: VynIROC)
        ensures
            op == comp_op(expr_type, b_left, *operator, b_right, dest),
    {
        let is_op_int = match expr_type {
            Type::Integer => true,
            _ => false,
        };
        match operator {
            Token::LessThan => if is_op_int {
                VynIROC::CompareLessInt { dest, left: b_left, right: b_right }
            } else {
                VynIROC::CompareLessFloat { dest, left: b_left, right: b_right }
            },
            Token::GreaterThan => if is_op_int {
                VynIROC::CompareGreaterInt { dest, left: b_left, right: b_right }
            } else {
                VynIROC::CompareGreaterFloat { dest, left: b_left, right: b_right }
            },
            Token::GreaterThanEqual => if is_op_int {
                VynIROC::CompareGreaterEqualInt { dest, left: b_left, right: b_right }
            } else {
                VynIROC::CompareGreaterEqualFloat { dest, left: b_left, right: b_right }
            },
            Token::LessThanEqual => if is_op_int {
                VynIROC::CompareLessEqualInt { dest, left: b_left, right: b_right }
            } else {
                VynIROC::CompareLessEqualFloat { dest, left: b_left, right: b_right }
            },
            Token::Equal => VynIROC::CompareEqual { dest, left: b_left, right: b_right },
            _ => VynIROC::CompareNotEqual { dest, left: b_left, right: b_right },
        }
    }

    /// A statement after which control never falls through: `break`,
    /// `continue`, or a scope whose last statement is one.
    fn is_terminating_stmt(&self, stmt: &Statement) -> (b: bool)
        ensures
            b == terminating(stmt.node),
        decreases stmt.node,
    {
        match &stmt.node {
            Stmt::Break | Stmt::Continue => true,
            Stmt::Scope { statements } => {
                if statements.len() == 0 {
                    false
                } else {
                    proof {
                        broadcast use vstd::std_specs::vec::axiom_vec_index_decreases;
                        let k = statements@.len() - 1;
                        assert(decreases_to!(stmt.node => stmt.node->Scope_statements));
                        assert(decreases_to!(stmt.node->Scope_statements => stmt.node->Scope_statements[k]));
                        assert(decreases_to!(stmt.node => stmt.node->Scope_statements[k].node));
                    }
                    self.is_terminating_stmt(&statements[statements.len() - 1])
                }
            },
            _ => false,
        }
    }

    /// Translates a statement. Loops and conditionals become labels and
    /// jumps; `break` and `continue` jump to the enclosing loop's end and
    /// start; a declaration binds the register of its value.
    fn build_stmt(&mut self, stmt: &Statement, span: Span) -> (r: Option<()>)
        requires
            old(self).wf(),
            ir_stmt_supported(stmt.node, old(self).loop_targets().0 is Some),
        ensures
            final(self).extends(*old(self)),
            old(self).loop_targets().0 is Some ==> final(self).loop_targets().0 is Some,
            ({
                let e = stmt_eval(old(self).ctx(), *stmt, span, old(self).statics());
                &&& final(self).ctx() == e.0
                &&& same_insts(final(self).insts(), old(self).insts() + e.1)
                &&& (r is Some) == e.2
                &&& (final(self).errs().len() == old(self).errs().len()) == e.3
            }),
        decreases stmt.node, 1int,
    {
        let ghost i0 = self.insts();
        match &stmt.node {
            Stmt::Expression { expression } => {
                self.build_expr(expression);
                proof {
                    lemma_same_refl(self.insts());
                }
            },
            Stmt::VariableDeclaration { .. } => return self.build_var_decl(stmt, span),
            Stmt::Loop { .. } => return self.build_loop(stmt, span),
            Stmt::WhenLoop { .. } => return self.build_when_loop(stmt, span),
            Stmt::Break => {
                let target = match self.break_jump_pos {
                    Some(l) => l,
                    None => return None,
                };
                self.emit(VynIROC::JumpUncond { label: target }.spanned(span));
                proof {
                    assert(self.insts() =~= i0 + seq![at(VynIROC::JumpUncond { label: target }, span)]);
                    lemma_same_refl(self.insts());
                }
            },
            Stmt::Continue => {
                let target = match self.continue_jump_pos {
                    Some(l) => l,
                    None => return None,
                };
                self.emit(VynIROC::JumpUncond { label: target }.spanned(span));
                proof {
                    assert(self.insts() =~= i0 + seq![at(VynIROC::JumpUncond { label: target }, span)]);
                    lemma_same_refl(self.insts());
                }
            },
            Stmt::Scope { .. } => return self.build_scope(stmt, span),
            Stmt::IfDeclaration { .. } => return self.build_if(stmt, span),
            Stmt::StdoutLog { log_value } => {
                let vreg = match self.build_expr(log_value) {
                    Some(v) => v,
                    None => {
                        proof {
                            lemma_same_refl(self.insts());
                        }
                        return None;
                    },
                };
                self.emit(VynIROC::LogAddr { addr: vreg }.spanned(span));
                proof {
                    let e = expr_eval(old(self).ctx(), *log_value);
                    assert(self.insts() =~= i0 + e.1.push(at(VynIROC::LogAddr { addr: vreg }, span)));
                    lemma_same_refl(self.insts());
                }
            },
            _ => {
                proof {
                    assert(self.insts() =~= i0 + Seq::empty());
                    lemma_same_refl(self.insts());
                }
                return None;
            },
        }
        Some(())
    }

    /// Translates a declaration: its value (or the default of its type) goes to
    /// a register, which the variable is bound to.
    fn build_var_decl(&mut self, stmt: &Statement, span: Span) -> (r: Option<()>)
        requires
            old(self).wf(),
            stmt.node is VariableDeclaration,
            ir_stmt_supported(stmt.node, old(self).loop_targets().0 is Some),
        ensures
            final(self).extends(*old(self)),
            old(self).loop_targets().0 is Some ==> final(self).loop_targets().0 is Some,
            ({
                let e = stmt_eval(old(self).ctx(), *stmt, span, old(self).statics());
                &&& final(self).ctx() == e.0
                &&& same_insts(final(self).insts(), old(self).insts() + e.1)
                &&& (r is Some) == e.2
                &&& (final(self).errs().len() == old(self).errs().len()) == e.3
            }),
        decreases stmt.node, 0int,
    {
        match &stmt.node {
            Stmt::VariableDeclaration { identifier, value, annotated_type, mutable } => {
                let ghost i0 = self.insts();
                let var_name = match &identifier.node {
                    Expr::Identifier(n) => n.clone(),
                    _ => {
                        proof {
                            assert(self.insts() =~= i0 + Seq::empty());
                            lemma_same_refl(self.insts());
                        }
                        return None;
                    },
                };
                let symbol_type = Type::from_anotated_type(annotated_type, self.static_eval, &mut self.error_collector);
                let value_vreg = match value {
                    Some(val) => match self.build_expr(val) {
                        Some(v) => v,
                        None => {
                            proof {
                                lemma_same_refl(self.insts());
                            }
                            return None;
                        },
                    },
                    None => {
                        let val_type = Type::from_anotated_type(annotated_type, self.static_eval, &mut self.error_collector);
                        let ghost i2 = self.insts();
                        let ghost c2 = self.ctx();
                        let default_value = Type::get_type_default_value(&val_type);
                        proof {
                            if default_value.node is StringLiteral {
                                let st = default_value.node->StringLiteral_0;
                                assert(st@ == Seq::<char>::empty());
                            }
                            if default_value.node is FloatLiteral {
                                let f = default_value.node->FloatLiteral_0;
                                assert(f@ == "0.0"@);
                            }
                        }
                        let dv = self.build_expr(&default_value);
                        proof {
                            let e = expr_eval(c2, default_value);
                            let d = default_eval(c2, val_type);
                            assert(e.0 == d.0 && e.2 == d.2 && e.3 == d.3);
                            assert(same_insts(e.1, d.1));
                            lemma_same_append(i2, i2, e.1, d.1);
                        }
                        match dv {
                            Some(v) => v,
                            None => return None,
                        }
                    },
                };
                let ghost i3 = self.insts();
                let declared = self.symbol_table.declare_ident_with_register(
                    symbol_type,
                    var_name,
                    *mutable,
                    (value_vreg % 256) as u8,
                    span,
                    &mut self.error_collector,
                );
                proof {
                    lemma_same_refl(i3);
                    assert forall|i: int| 0 <= i < old(self).errs().len() implies #[trigger] self.errs()[i] == old(self).errs()[i] by {
                        if declared is None {
                            assert(self.errs().drop_last()[i] == self.errs()[i]);
                        }
                    }
                }
                Some(())
            },
            _ => None,
        }
    }

    /// Translates `loop`: a start label, the body, a jump back, an end label.
    fn build_loop(&mut self, stmt: &Statement, span: Span) -> (r: Option<()>)
        requires
            old(self).wf(),
            stmt.node is Loop,
            ir_stmt_supported(stmt.node, old(self).loop_targets().0 is Some),
        ensures
            final(self).extends(*old(self)),
            old(self).loop_targets().0 is Some ==> final(self).loop_targets().0 is Some,
            ({
                let e = stmt_eval(old(self).ctx(), *stmt, span, old(self).statics());
                &&& final(self).ctx() == e.0
                &&& same_insts(final(self).insts(), old(self).insts() + e.1)
                &&& (r is Some) == e.2
                &&& (final(self).errs().len() == old(self).errs().len()) == e.3
            }),
        decreases stmt.node, 0int,
    {
        match &stmt.node {
            Stmt::Loop { body } => {
                let ghost i0 = self.insts();
                if self.label_counter >= usize::MAX - 2 {
                    self.error_collector.add(VynError::NotImplemented { feature: "more labels".to_string(), span });
                    proof {
                        assert(self.insts() =~= i0 + Seq::empty());
                        lemma_same_refl(self.insts());
                    }
                    return None;
                }
                let loop_start = self.next_label();
                let loop_end = self.next_label();
                let prev_break = self.break_jump_pos;
                let prev_continue = self.continue_jump_pos;
                self.break_jump_pos = Some(loop_end);
                self.continue_jump_pos = Some(loop_start);
                self.emit_label(loop_start);
                let ghost head = seq![at(VynIROC::Label(loop_start), Span::zero())];
                let ghost i1 = self.insts();
                proof {
                    assert(i1 =~= i0 + head);
                }
                let rb = self.build_stmt(body, span);
                let ghost i2 = self.insts();
                let ghost e2 = stmt_eval(
                    BuildCtx { labels: (old(self).labels() + 2) as usize, brk: Some(loop_end), cont: Some(loop_start), ..old(self).ctx() },
                    **body,
                    span,
                    old(self).statics(),
                );
                proof {
                    assert((i0 + head) + e2.1 =~= i0 + (head + e2.1));
                }
                match rb {
                    Some(()) => {},
                    None => return None,
                }
                let ghost tail = seq![at(VynIROC::JumpUncond { label: loop_start }, span), at(VynIROC::Label(loop_end), Span::zero())];
                self.emit(VynIROC::JumpUncond { label: loop_start }.spanned(span));
                self.emit_label(loop_end);
                self.break_jump_pos = prev_break;
                self.continue_jump_pos = prev_continue;
                proof {
                    assert(self.insts() =~= i2 + tail);
                    lemma_same_refl(tail);
                    lemma_same_append(i2, i0 + (head + e2.1), tail, tail);
                    assert((i0 + (head + e2.1)) + tail =~= i0 + (head + e2.1 + tail));
                }
                Some(())
            },
            _ => None,
        }
    }

    /// Translates `when`: a start label, the condition with a jump to the end
    /// when false, the body, a jump back, an end label.
    fn build_when_loop(&mut self, stmt: &Statement, span: Span) -> (r: Option<()>)
        requires
            old(self).wf(),
            stmt.node is WhenLoop,
            ir_stmt_supported(stmt.node, old(self).loop_targets().0 is Some),
        ensures
            final(self).extends(*old(self)),
            old(self).loop_targets().0 is Some ==> final(self).loop_targets().0 is Some,
            ({
                let e = stmt_eval(old(self).ctx(), *stmt, span, old(self).statics());
                &&& final(self).ctx() == e.0
                &&& same_insts(final(self).insts(), old(self).insts() + e.1)
                &&& (r is Some) == e.2
                &&& (final(self).errs().len() == old(self).errs().len()) == e.3
            }),
        decreases stmt.node, 0int,
    {
        match &stmt.node {
            Stmt::WhenLoop { body, condition } => {
                let ghost i0 = self.insts();
                if self.label_counter >= usize::MAX - 2 {
                    self.error_collector.add(VynError::NotImplemented { feature: "more labels".to_string(), span });
                    proof {
                        assert(self.insts() =~= i0 + Seq::empty());
                        lemma_same_refl(self.insts());
                    }
                    return None;
                }
                let loop_start = self.next_label();
                let loop_end = self.next_label();
                let prev_break = self.break_jump_pos;
                let prev_continue = self.continue_jump_pos;
                self.break_jump_pos = Some(loop_end);
                self.continue_jump_pos = Some(loop_start);
                self.emit_label(loop_start);
                let ghost head = seq![at(VynIROC::Label(loop_start), Span::zero())];
                let ghost c1 = self.ctx();
                let ghost i1 = self.insts();
                proof {
                    assert(i1 =~= i0 + head);
                }
                let cond = self.build_expr(condition);
                let ghost e2 = expr_eval(c1, *condition);
                proof {
                    assert((i0 + head) + e2.1 =~= i0 + (head + e2.1));
                }
                let cond_reg = match cond {
                    Some(v) => v,
                    None => {
                        proof {
                            lemma_same_refl(self.insts());
                        }
                        return None;
                    },
                };
                let ghost jump = seq![at(VynIROC::JumpIfFalse { condition_reg: cond_reg, label: loop_end }, span)];
                self.emit(VynIROC::JumpIfFalse { condition_reg: cond_reg, label: loop_end }.spanned(span));
                let ghost i3 = self.insts();
                proof {
                    assert(i3 =~= i0 + (head + e2.1 + jump));
                }
                let rb = self.build_stmt(body, span);
                let ghost i4 = self.insts();
                let ghost e3 = stmt_eval(e2.0, **body, span, old(self).statics());
                proof {
                    assert((i0 + (head + e2.1 + jump)) + e3.1 =~= i0 + (head + e2.1 + jump + e3.1));
                }
                match rb {
                    Some(()) => {},
                    None => return None,
                }
                let ghost tail = seq![at(VynIROC::JumpUncond { label: loop_start }, span), at(VynIROC::Label(loop_end), Span::zero())];
                self.emit(VynIROC::JumpUncond { label: loop_start }.spanned(span));
                self.emit_label(loop_end);
                self.break_jump_pos = prev_break;
                self.continue_jump_pos = prev_continue;
                proof {
                    assert(self.insts() =~= i4 + tail);
                    lemma_same_refl(tail);
                    lemma_same_append(i4, i0 + (head + e2.1 + jump + e3.1), tail, tail);
                    assert((i0 + (head + e2.1 + jump + e3.1)) + tail =~= i0 + (head + e2.1 + jump + e3.1 + tail));
                }
                Some(())
            },
            _ => None,
        }
    }

    /// Translates a scope: its statements (whatever each gives) with a
    /// variable scope of their own.
    fn build_scope(&mut self, stmt: &Statement, span: Span) -> (r: Option<()>)
        requires
            old(self).wf(),
            stmt.node is Scope,
            ir_stmt_supported(stmt.node, old(self).loop_targets().0 is Some),
        ensures
            final(self).extends(*old(self)),
            old(self).loop_targets().0 is Some ==> final(self).loop_targets().0 is Some,
            ({
                let e = stmt_eval(old(self).ctx(), *stmt, span, old(self).statics());
                &&& final(self).ctx() == e.0
                &&& same_insts(final(self).insts(), old(self).insts() + e.1)
                &&& (r is Some) == e.2
                &&& (final(self).errs().len() == old(self).errs().len()) == e.3
            }),
        decreases stmt.node, 0int,
    {
        match &stmt.node {
            Stmt::Scope { statements } => {
                let ghost i0 = self.insts();
                let ghost n0 = self.errs().len();
                self.symbol_table.enter_scope();
                let ghost c1 = self.ctx();
                let ghost whole = stmts_eval(c1, statements@, 0, old(self).statics());
                proof {
                    lemma_same_refl(i0);
                    assert(i0 =~= i0 + Seq::<VynIROpCode>::empty());
                    assert(whole.1 =~= Seq::<VynIROpCode>::empty() + whole.1);
                    assert(same_insts(self.insts(), i0 + Seq::<VynIROpCode>::empty()));
                }
                let mut k: usize = 0;
                while k < statements.len()
                    invariant
                        0 <= k <= statements@.len(),
                        self.extends(*old(self)),
                        old(self).loop_targets().0 is Some ==> self.loop_targets().0 is Some,
                        stmt.node is Scope,
                        stmt.node->Scope_statements == *statements,
                        forall|i: int| 0 <= i < statements@.len() ==> ir_stmt_supported(
                            #[trigger] statements@[i].node, old(self).loop_targets().0 is Some),
                        self.statics() == old(self).statics(),
                        n0 == old(self).errs().len(),
                        i0 == old(self).insts(),
                        whole == stmts_eval(c1, statements@, 0, old(self).statics()),
                        ({
                            let rest = stmts_eval(self.ctx(), statements@, k as int, old(self).statics());
                            &&& rest.0 == whole.0
                            &&& exists|done: Seq<VynIROpCode>| same_insts(self.insts(), i0 + done) && whole.1 == done + rest.1
                            &&& whole.2 == (self.errs().len() == n0 && rest.2)
                        }),
                    decreases statements@.len() - k,
                {
                    proof {
                        broadcast use vstd::std_specs::vec::axiom_vec_index_decreases;
                        assert(decreases_to!(stmt.node => stmt.node->Scope_statements));
                        assert(decreases_to!(stmt.node->Scope_statements => stmt.node->Scope_statements[k as int]));
                        assert(decreases_to!(stmt.node => stmt.node->Scope_statements[k as int].node));
                        lemma_supported_mono(statements@[k as int].node, old(self).loop_targets().0 is Some,
                            self.loop_targets().0 is Some);
                    }
                    let ghost cb = self.ctx();
                    let ghost ib = self.insts();
                    let ghost nb = self.errs().len();
                    let ghost done_b = choose|done: Seq<VynIROpCode>| same_insts(ib, i0 + done) && whole.1 == done + stmts_eval(cb, statements@, k as int, old(self).statics()).1;
                    let st = &statements[k];
                    self.build_stmt(st, st.span);
                    proof {
                        let e = stmt_eval(cb, statements@[k as int], statements@[k as int].span, old(self).statics());
                        let rest_b = stmts_eval(cb, statements@, k as int, old(self).statics());
                        let rest_a = stmts_eval(self.ctx(), statements@, k + 1, old(self).statics());
                        assert(rest_b.1 == e.1 + rest_a.1);
                        lemma_same_refl(e.1);
                        lemma_same_append(ib, i0 + done_b, e.1, e.1);
                        lemma_same_trans(self.insts(), ib + e.1, (i0 + done_b) + e.1);
                        assert((i0 + done_b) + e.1 =~= i0 + (done_b + e.1));
                        assert(whole.1 =~= (done_b + e.1) + rest_a.1);
                        assert(same_insts(self.insts(), i0 + (done_b + e.1)) && whole.1 == (done_b + e.1) + rest_a.1);
                        assert(rest_b.0 == rest_a.0 && rest_b.2 == (e.3 && rest_a.2));
                    }
                    k = k + 1;
                }
                proof {
                    let rest = stmts_eval(self.ctx(), statements@, k as int, old(self).statics());
                    assert(rest.1 =~= Seq::<VynIROpCode>::empty());
                    let done = choose|done: Seq<VynIROpCode>| same_insts(self.insts(), i0 + done) && whole.1 == done + rest.1;
                    assert(done + rest.1 =~= done);
                }
                self.symbol_table.exit_scope();
                Some(())
            },
            _ => None,
        }
    }

    /// Translates a conditional: a jump to the alternative when the condition
    /// is false, the consequence, a jump past the alternative unless the
    /// consequence never falls through, and the alternative.
    #[verifier::rlimit(50)]
    #[verifier::spinoff_prover]
    fn build_if(&mut self, stmt: &Statement, span: Span) -> (r: Option<()>)
        requires
            old(self).wf(),
            stmt.node is IfDeclaration,
            ir_stmt_supported(stmt.node, old(self).loop_targets().0 is Some),
        ensures
            final(self).extends(*old(self)),
            old(self).loop_targets().0 is Some ==> final(self).loop_targets().0 is Some,
            ({
                let e = stmt_eval(old(self).ctx(), *stmt, span, old(self).statics());
                &&& final(self).ctx() == e.0
                &&& same_insts(final(self).insts(), old(self).insts() + e.1)
                &&& (r is Some) == e.2
                &&& (final(self).errs().len() == old(self).errs().len()) == e.3
            }),
        decreases stmt.node, 0int,
    {
        match &stmt.node {
            Stmt::IfDeclaration { condition, consequence, alternate } => {
                let ghost i0 = self.insts();
                let cond = self.build_expr(condition);
                let ghost e1 = expr_eval(old(self).ctx(), *condition);
                let condition_reg = match cond {
                    Some(v) => v,
                    None => {
                        proof {
                            lemma_same_refl(self.insts());
                        }
                        return None;
                    },
                };
                if self.label_counter >= usize::MAX - 2 {
                    self.error_collector.add(VynError::NotImplemented { feature: "more labels".to_string(), span });
                    proof {
                        lemma_same_refl(self.insts());
                    }
                    return None;
                }
                let else_label = self.next_label();
                let if_end_label = self.next_label();
                let ghost jump = seq![at(VynIROC::JumpIfFalse { condition_reg, label: else_label }, span)];
                self.emit(VynIROC::JumpIfFalse { condition_reg, label: else_label }.spanned(span));
                let ghost c2 = self.ctx();
                let ghost i2 = self.insts();
                proof {
                    assert(i2 =~= i0 + (e1.1 + jump));
                }
                let rc = self.build_stmt(consequence, span);
                let ghost e3 = stmt_eval(c2, **consequence, span, old(self).statics());
                let ghost i3 = self.insts();
                proof {
                    assert((i0 + (e1.1 + jump)) + e3.1 =~= i0 + (e1.1 + jump + e3.1));
                }
                match rc {
                    Some(()) => {},
                    None => return None,
                }
                let term = self.is_terminating_stmt(consequence);
                let ghost skip: Seq<VynIROpCode> = if term {
                    Seq::empty()
                } else {
                    seq![at(VynIROC::JumpUncond { label: if_end_label }, span)]
                };
                if !term {
                    self.emit(VynIROC::JumpUncond { label: if_end_label }.spanned(span));
                }
                self.emit_label(else_label);
                let ghost mid = e1.1 + jump + e3.1 + skip + seq![at(VynIROC::Label(else_label), Span::zero())];
                let ghost i4 = self.insts();
                proof {
                    let t = skip + seq![at(VynIROC::Label(else_label), Span::zero())];
                    assert(i4 =~= i3 + t);
                    lemma_same_refl(t);
                    lemma_same_append(i3, i0 + (e1.1 + jump + e3.1), t, t);
                    assert((i0 + (e1.1 + jump + e3.1)) + t =~= i0 + mid);
                }
                let ghost mut acc = mid;
                match &**alternate {
                    Some(else_block) => {
                        proof {
                            assert(decreases_to!(stmt.node => stmt.node->IfDeclaration_alternate));
                            assert(decreases_to!(*stmt.node->IfDeclaration_alternate => (*stmt.node->IfDeclaration_alternate)->Some_0));
                            lemma_supported_mono(else_block.node, old(self).loop_targets().0 is Some, self.loop_targets().0 is Some);
                        }
                        let ghost c4 = self.ctx();
                        let ra = self.build_stmt(else_block, span);
                        let ghost e4 = stmt_eval(c4, *else_block, span, old(self).statics());
                        proof {
                            lemma_same_refl(e4.1);
                            lemma_same_append(i4, i0 + mid, e4.1, e4.1);
                            lemma_same_trans(self.insts(), i4 + e4.1, (i0 + mid) + e4.1);
                            assert((i0 + mid) + e4.1 =~= i0 + (mid + e4.1));
                            acc = mid + e4.1;
                        }
                        match ra {
                            Some(()) => {},
                            None => return None,
                        }
                    },
                    None => {},
                }
                let ghost i5 = self.insts();
                self.emit_label(if_end_label);
                proof {
                    let t = seq![at(VynIROC::Label(if_end_label), Span::zero())];
                    assert(self.insts() =~= i5 + t);
                    lemma_same_refl(t);
                    lemma_same_append(i5, i0 + acc, t, t);
                    assert((i0 + acc) + t =~= i0 + (acc + t));
                }
                Some(())
            },
            _ => None,
        }
    }

    /// Translates a whole program, ending it with `Halt`. The IR is returned
    /// when no error was recorded; otherwise the errors are handed out.
    pub fn build_ir(&mut self, program: &Program) -> (r: Result<VynIR, ErrorCollector>)
        requires
            old(self).wf(),
            ir_program_supported(*program),
        ensures
            ({
                let e = stmts_eval(old(self).ctx(), program.statements@, 0, old(self).statics());
                &&& (r is Ok) == (old(self).errs().len() == 0 && e.2)
                &&& r matches Ok(ir) ==> same_insts(
                    ir.instructions@,
                    old(self).insts() + e.1 + seq![at(VynIROC::Halt, Span::zero())],
                )
            }),
            r matches Ok(ir) ==> ir.instructions@.len() > 0 && ir.instructions@.last() == (VynIROpCode {
                node: VynIROC::Halt, span: Span::zero() }),
            r matches Err(c) ==> c.errors@.len() > 0,
    {
        let ghost i0 = self.insts();
        let ghost n0 = self.errs().len();
        let ghost whole = stmts_eval(self.ctx(), program.statements@, 0, self.statics());
        proof {
            lemma_same_refl(i0);
            assert(i0 =~= i0 + Seq::<VynIROpCode>::empty());
            assert(whole.1 =~= Seq::<VynIROpCode>::empty() + whole.1);
            assert(same_insts(self.insts(), i0 + Seq::<VynIROpCode>::empty()));
        }
        let mut k: usize = 0;
        while k < program.statements.len()
            invariant
                0 <= k <= program.statements@.len(),
                self.extends(*old(self)),
                ir_program_supported(*program),
                self.statics() == old(self).statics(),
                n0 == old(self).errs().len(),
                i0 == old(self).insts(),
                whole == stmts_eval(old(self).ctx(), program.statements@, 0, old(self).statics()),
                ({
                    let rest = stmts_eval(self.ctx(), program.statements@, k as int, old(self).statics());
                    &&& exists|done: Seq<VynIROpCode>| same_insts(self.insts(), i0 + done) && whole.1 == done + rest.1
                    &&& whole.2 == (self.errs().len() == n0 && rest.2)
                }),
            decreases program.statements@.len() - k,
        {
            let st = &program.statements[k];
            proof {
                lemma_supported_mono(st.node, false, self.loop_targets().0 is Some);
            }
            let ghost cb = self.ctx();
            let ghost ib = self.insts();
            let ghost done_b = choose|done: Seq<VynIROpCode>| same_insts(ib, i0 + done) && whole.1 == done + stmts_eval(cb, program.statements@, k as int, old(self).statics()).1;
            self.build_stmt(st, st.span);
            proof {
                let e = stmt_eval(cb, program.statements@[k as int], program.statements@[k as int].span, old(self).statics());
                let rest_a = stmts_eval(self.ctx(), program.statements@, k + 1, old(self).statics());
                lemma_same_refl(e.1);
                lemma_same_append(ib, i0 + done_b, e.1, e.1);
                lemma_same_trans(self.insts(), ib + e.1, (i0 + done_b) + e.1);
                assert((i0 + done_b) + e.1 =~= i0 + (done_b + e.1));
                let rest_b = stmts_eval(cb, program.statements@, k as int, old(self).statics());
                assert(rest_b.1 == e.1 + rest_a.1);
                assert(whole.1 =~= (done_b + e.1) + rest_a.1);
                assert(same_insts(self.insts(), i0 + (done_b + e.1)) && whole.1 == (done_b + e.1) + rest_a.1);
                assert(rest_b.2 == (e.3 && rest_a.2));
            }
            k = k + 1;
        }
        let ghost i1 = self.insts();
        self.emit(VynIROC::Halt.spanned(Span::default_span()));
        proof {
            let rest = stmts_eval(self.ctx(), program.statements@, k as int, old(self).statics());
            assert(rest.1 =~= Seq::<VynIROpCode>::empty());
            let done = choose|done: Seq<VynIROpCode>| same_insts(i1, i0 + done) && whole.1 == done + rest.1;
            assert(done + rest.1 =~= done);
            let t = seq![at(VynIROC::Halt, Span::zero())];
            lemma_same_refl(t);
            lemma_same_append(i1, i0 + done, t, t);
            assert(self.insts() =~= i1 + t);
        }
        if self.error_collector.has_errors() {
            Err(self.error_collector.take())
        } else {
            Ok(self.finish())
        }
    }
}

} // verus!
