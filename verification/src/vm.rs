use vstd::prelude::*;
use vstd::arithmetic::power::pow;
use vstd::string::StringExecFns;
use crate::bytecode::{OpCode, be_value, decode_opcode, instruction_len, opcode_widths, read_uint16, read_uint8, spec_byte_opcode};
use crate::runtime_value::{RuntimeValue, ValueView, runtime_value_eq};

verus! {

/// The number of registers of the machine.
pub const REGISTER_COUNT: usize = 256;

/// Which operand of an instruction a fault is about.
#[derive(Debug, Clone, Copy, PartialEq, Eq, Structural)]
pub enum Operand {
    Left,
    Right,
    Only,
}

/// Why the machine stopped with an error.
#[derive(Debug, Clone, Copy, PartialEq, Eq, Structural)]
pub enum VmError {
    /// A constant index past the end of the constant pool.
    InvalidConstantIndex(usize),
    /// `LoadConstInt` found a constant that is not an integer.
    ExpectedIntegerConstant(usize),
    /// `LoadConstFloat` found a constant that is not a float.
    ExpectedFloatConstant(usize),
    /// A string index past the end of the string table.
    InvalidStringIndex(usize),
    /// An operand register holds a value of the wrong type for the opcode.
    OperandType { opcode: OpCode, operand: Operand },
    /// Integer division by zero.
    DivisionByZero,
    /// An integer raised to a negative power.
    NegativeExponent,
    /// An integer result that does not fit in 32 bits.
    IntegerOverflow,
    /// An opcode the machine does not execute.
    Unimplemented(OpCode),
    /// A byte at the instruction pointer that encodes no opcode.
    InvalidOpcode(u8),
    /// The instruction pointer, or an operand, runs past the end of the code.
    TruncatedInstruction,
}

/// A float instruction, handed out to be computed: its opcode, destination
/// register, and the text of its operands (`right` is empty for a negation).
#[derive(Debug)]
pub struct FloatRequest {
    pub opcode: OpCode,
    pub dest: u8,
    pub left: String,
    pub right: String,
}

/// What a float request asks, by the characters of its operands.
pub struct FloatRequestView {
    pub opcode: OpCode,
    pub dest: u8,
    pub left: Seq<char>,
    pub right: Seq<char>,
}

impl View for FloatRequest {
    type V = FloatRequestView;

    open spec fn view(&self) -> FloatRequestView {
        FloatRequestView { opcode: self.opcode, dest: self.dest, left: self.left@, right: self.right@ }
    }
}

/// The answer to a float request: a number's text, or a comparison's truth.
#[derive(Debug)]
pub enum FloatResult {
    Number(String),
    Truth(bool),
}

/// What one step did without an error.
#[derive(Debug)]
pub enum StepOutcome {
    /// The instruction ran; the next one follows.
    Next,
    /// `Halt` was reached.
    Halted,
    /// A float instruction waits for its result.
    Float(FloatRequest),
}

/// A step's outcome by views.
pub enum StepView {
    Next,
    Halted,
    Float(FloatRequestView),
    Fault(VmError),
}

/// The machine's changing state: registers, string table and instruction pointer.
pub struct VmView {
    pub registers: Seq<ValueView>,
    pub strings: Seq<Seq<char>>,
    pub ip: int,
}

/// The value a view holds as an integer.
pub open spec fn int_of(v: ValueView) -> Option<i32> {
    match v {
        ValueView::Int(n) => Some(n),
        _ => None,
    }
}

/// The text a view holds as a float.
pub open spec fn float_of(v: ValueView) -> Option<Seq<char>> {
    match v {
        ValueView::Float(f) => Some(f),
        _ => None,
    }
}

/// The truth a view holds as a boolean.
pub open spec fn bool_of(v: ValueView) -> Option<bool> {
    match v {
        ValueView::Bool(b) => Some(b),
        _ => None,
    }
}

/// The string index a view holds.
pub open spec fn str_of(v: ValueView) -> Option<usize> {
    match v {
        ValueView::Str(i) => Some(i),
        _ => None,
    }
}

/// `a` to the power `b` when that fits in 32 bits.
pub open spec fn checked_pow_spec(a: i32, b: u32) -> Option<i32> {
    let p = pow(a as int, b as nat);
    if i32::MIN <= p <= i32::MAX {
        Some(p as i32)
    } else {
        None
    }
}

/// The result of an integer arithmetic opcode on `a` and `b`.
pub open spec fn int_arith(op: OpCode, a: i32, b: i32) -> Result<i32, VmError> {
    match op {
        OpCode::AddInt => match a.checked_add(b) {
            Some(r) => Ok(r),
            None => Err(VmError::IntegerOverflow),
        },
        OpCode::SubtractInt => match a.checked_sub(b) {
            Some(r) => Ok(r),
            None => Err(VmError::IntegerOverflow),
        },
        OpCode::MultiplyInt => match a.checked_mul(b) {
            Some(r) => Ok(r),
            None => Err(VmError::IntegerOverflow),
        },
        OpCode::DivideInt => if b == 0 {
            Err(VmError::DivisionByZero)
        } else {
            match a.checked_div(b) {
                Some(r) => Ok(r),
                None => Err(VmError::IntegerOverflow),
            }
        },
        _ => if b < 0 {
            Err(VmError::NegativeExponent)
        } else {
            match checked_pow_spec(a, b as u32) {
                Some(r) => Ok(r),
                None => Err(VmError::IntegerOverflow),
            }
        },
    }
}

/// The truth of an integer comparison opcode on `a` and `b`.
pub open spec fn int_compare(op: OpCode, a: i32, b: i32) -> bool {
    match op {
        OpCode::LessInt => a < b,
        OpCode::LessEqualInt => a <= b,
        OpCode::GreaterInt => a > b,
        _ => a >= b,
    }
}

/// The opcodes that compute on two integers.
pub open spec fn is_int_arith(op: OpCode) -> bool {
    op == OpCode::AddInt || op == OpCode::SubtractInt || op == OpCode::MultiplyInt
        || op == OpCode::DivideInt || op == OpCode::ExponentInt
}

/// The opcodes that compare two integers.
pub open spec fn is_int_compare(op: OpCode) -> bool {
    op == OpCode::LessInt || op == OpCode::LessEqualInt || op == OpCode::GreaterInt
        || op == OpCode::GreaterEqualInt
}

/// The opcodes that compute or compare on two floats.
pub open spec fn is_float_binary(op: OpCode) -> bool {
    op == OpCode::AddFloat || op == OpCode::SubtractFloat || op == OpCode::MultiplyFloat
        || op == OpCode::DivideFloat || op == OpCode::ExponentFloat || op == OpCode::LessFloat
        || op == OpCode::LessEqualFloat || op == OpCode::GreaterFloat || op == OpCode::GreaterEqualFloat
}

/// The opcodes the machine executes.
pub open spec fn is_executed(op: OpCode) -> bool {
    ||| op == OpCode::Halt
    ||| op == OpCode::LoadConstInt
    ||| op == OpCode::LoadConstFloat
    ||| op == OpCode::LoadString
    ||| op == OpCode::LoadNil
    ||| op == OpCode::LoadTrue
    ||| op == OpCode::LoadFalse
    ||| is_int_arith(op)
    ||| is_int_compare(op)
    ||| is_float_binary(op)
    ||| op == OpCode::NegateInt
    ||| op == OpCode::NegateFloat
    ||| op == OpCode::Not
    ||| op == OpCode::Equal
    ||| op == OpCode::NotEqual
    ||| op == OpCode::ConcatString
    ||| op == OpCode::Move
}

/// `s` with register `d` set to `v` and the instruction pointer moved by `n`.
pub open spec fn set_reg(s: VmView, d: u8, v: ValueView, n: int) -> VmView {
    VmView { registers: s.registers.update(d as int, v), strings: s.strings, ip: s.ip + n }
}

/// The byte operand at `k` bytes past the instruction pointer.
pub open spec fn byte_at(code: Seq<u8>, s: VmView, k: int) -> u8 {
    code[s.ip + k]
}

/// What executing opcode `op` (which fits in the code) does to `s`.
pub open spec fn exec_op(code: Seq<u8>, consts: Seq<ValueView>, s: VmView, op: OpCode) -> (StepView, VmView) {
    let d = byte_at(code, s, 1);
    let l = byte_at(code, s, 2);
    let r = byte_at(code, s, 3);
    let idx = be_value(code, s.ip + 2, 2);
    let n = instruction_len(opcode_widths(op));
    if op == OpCode::Halt {
        (StepView::Halted, s)
    } else if op == OpCode::LoadConstInt {
        if idx >= consts.len() {
            (StepView::Fault(VmError::InvalidConstantIndex(idx as usize)), s)
        } else {
            match int_of(consts[idx as int]) {
                Some(v) => (StepView::Next, set_reg(s, d, ValueView::Int(v), n)),
                None => (StepView::Fault(VmError::ExpectedIntegerConstant(idx as usize)), s),
            }
        }
    } else if op == OpCode::LoadConstFloat {
        if idx >= consts.len() {
            (StepView::Fault(VmError::InvalidConstantIndex(idx as usize)), s)
        } else {
            match float_of(consts[idx as int]) {
                Some(v) => (StepView::Next, set_reg(s, d, ValueView::Float(v), n)),
                None => (StepView::Fault(VmError::ExpectedFloatConstant(idx as usize)), s),
            }
        }
    } else if op == OpCode::LoadString {
        if idx < s.strings.len() {
            (StepView::Next, set_reg(s, d, ValueView::Str(idx as usize), n))
        } else {
            (StepView::Fault(VmError::InvalidStringIndex(idx as usize)), s)
        }
    } else if op == OpCode::LoadNil {
        (StepView::Next, set_reg(s, d, ValueView::Nil, n))
    } else if op == OpCode::LoadTrue {
        (StepView::Next, set_reg(s, d, ValueView::Bool(true), n))
    } else if op == OpCode::LoadFalse {
        (StepView::Next, set_reg(s, d, ValueView::Bool(false), n))
    } else if is_int_arith(op) || is_int_compare(op) {
        match (int_of(s.registers[l as int]), int_of(s.registers[r as int])) {
            (None, _) => (StepView::Fault(VmError::OperandType { opcode: op, operand: Operand::Left }), s),
            (Some(_), None) => (StepView::Fault(VmError::OperandType { opcode: op, operand: Operand::Right }), s),
            (Some(a), Some(b)) => if is_int_compare(op) {
                (StepView::Next, set_reg(s, d, ValueView::Bool(int_compare(op, a, b)), n))
            } else {
                match int_arith(op, a, b) {
                    Ok(v) => (StepView::Next, set_reg(s, d, ValueView::Int(v), n)),
                    Err(e) => (StepView::Fault(e), s),
                }
            },
        }
    } else if is_float_binary(op) {
        let first = if op == OpCode::GreaterEqualFloat { r } else { l };
        match (float_of(s.registers[first as int]), float_of(s.registers[r as int])) {
            (None, _) => (StepView::Fault(VmError::OperandType { opcode: op, operand: Operand::Left }), s),
            (Some(_), None) => (StepView::Fault(VmError::OperandType { opcode: op, operand: Operand::Right }), s),
            (Some(a), Some(b)) => (StepView::Float(FloatRequestView { opcode: op, dest: d, left: a, right: b }), s),
        }
    } else if op == OpCode::NegateInt {
        match int_of(s.registers[l as int]) {
            None => (StepView::Fault(VmError::OperandType { opcode: op, operand: Operand::Only }), s),
            Some(a) => match 0i32.checked_sub(a) {
                Some(v) => (StepView::Next, set_reg(s, d, ValueView::Int(v), n)),
                None => (StepView::Fault(VmError::IntegerOverflow), s),
            },
        }
    } else if op == OpCode::NegateFloat {
        match float_of(s.registers[l as int]) {
            None => (StepView::Fault(VmError::OperandType { opcode: op, operand: Operand::Only }), s),
            Some(a) => (StepView::Float(FloatRequestView { opcode: op, dest: d, left: a, right: Seq::empty() }), s),
        }
    } else if op == OpCode::Not {
        match bool_of(s.registers[l as int]) {
            None => (StepView::Fault(VmError::OperandType { opcode: op, operand: Operand::Only }), s),
            Some(b) => (StepView::Next, set_reg(s, d, ValueView::Bool(!b), n)),
        }
    } else if (op == OpCode::Equal || op == OpCode::NotEqual) && float_of(s.registers[l as int]) is Some
        && float_of(s.registers[r as int]) is Some {
        (StepView::Float(FloatRequestView {
            opcode: op,
            dest: d,
            left: float_of(s.registers[l as int])->Some_0,
            right: float_of(s.registers[r as int])->Some_0,
        }), s)
    } else if op == OpCode::Equal {
        (StepView::Next, set_reg(s, d, ValueView::Bool(s.registers[l as int] == s.registers[r as int]), n))
    } else if op == OpCode::NotEqual {
        (StepView::Next, set_reg(s, d, ValueView::Bool(s.registers[l as int] != s.registers[r as int]), n))
    } else if op == OpCode::ConcatString {
        match (str_of(s.registers[l as int]), str_of(s.registers[r as int])) {
            (None, _) => (StepView::Fault(VmError::OperandType { opcode: op, operand: Operand::Left }), s),
            (Some(_), None) => (StepView::Fault(VmError::OperandType { opcode: op, operand: Operand::Right }), s),
            (Some(a), Some(b)) => if a >= s.strings.len() {
                (StepView::Fault(VmError::InvalidStringIndex(a)), s)
            } else if b >= s.strings.len() {
                (StepView::Fault(VmError::InvalidStringIndex(b)), s)
            } else {
                let strings = s.strings.push(s.strings[a as int] + s.strings[b as int]);
                (StepView::Next, VmView {
                    registers: s.registers.update(d as int, ValueView::Str(s.strings.len() as usize)),
                    strings,
                    ip: s.ip + n,
                })
            },
        }
    } else {
        (StepView::Next, set_reg(s, d, s.registers[l as int], n))
    }
}

/// What one step of the machine does to `s`: decode the opcode at the
/// instruction pointer and execute it.
pub open spec fn spec_step(code: Seq<u8>, consts: Seq<ValueView>, s: VmView) -> (StepView, VmView) {
    if s.ip < 0 || s.ip >= code.len() {
        (StepView::Fault(VmError::TruncatedInstruction), s)
    } else {
        match spec_byte_opcode(code[s.ip]) {
            None => (StepView::Fault(VmError::InvalidOpcode(code[s.ip])), s),
            Some(op) => if !is_executed(op) {
                (StepView::Fault(VmError::Unimplemented(op)), s)
            } else if s.ip + instruction_len(opcode_widths(op)) > code.len() {
                (StepView::Fault(VmError::TruncatedInstruction), s)
            } else {
                exec_op(code, consts, s, op)
            },
        }
    }
}

/// The outcome of a step by views.
pub open spec fn outcome_view(r: Result<StepOutcome, VmError>) -> StepView {
    match r {
        Ok(StepOutcome::Next) => StepView::Next,
        Ok(StepOutcome::Halted) => StepView::Halted,
        Ok(StepOutcome::Float(q)) => StepView::Float(q@),
        Err(e) => StepView::Fault(e),
    }
}

/// The magnitude of `x`.
pub open spec fn magnitude(x: int) -> int {
    if x < 0 { -x } else { x }
}

/// The magnitude of a power is the power of the magnitude.
proof fn lemma_pow_magnitude(a: int, e: nat)
    ensures
        magnitude(pow(a, e)) == pow(magnitude(a), e),
        pow(magnitude(a), e) >= 0,
    decreases e,
{
    reveal(pow);
    if e > 0 {
        lemma_pow_magnitude(a, (e - 1) as nat);
        let y = pow(a, (e - 1) as nat);
        let m = pow(magnitude(a), (e - 1) as nat);
        assert(magnitude(a * y) == magnitude(a) * magnitude(y)) by (nonlinear_arith);
        assert(magnitude(a) * m >= 0) by (nonlinear_arith)
            requires
                m >= 0,
        ;
    }
}

/// A power of a number of magnitude at most one has magnitude at most one.
proof fn lemma_pow_small(a: int, e: nat)
    requires
        magnitude(a) <= 1,
    ensures
        magnitude(pow(a, e)) <= 1,
    decreases e,
{
    reveal(pow);
    if e > 0 {
        lemma_pow_small(a, (e - 1) as nat);
        let y = pow(a, (e - 1) as nat);
        assert(magnitude(a * y) <= 1) by (nonlinear_arith)
            requires
                magnitude(a) <= 1,
                magnitude(y) <= 1,
        ;
    }
}

/// With a base of magnitude two or more, a higher power is at least twice
/// as large in magnitude.
proof fn lemma_pow_doubles(a: int, e1: nat, e2: nat)
    requires
        magnitude(a) >= 2,
        e1 < e2,
    ensures
        magnitude(pow(a, e2)) >= 2 * magnitude(pow(a, e1)),
    decreases e2,
{
    reveal(pow);
    lemma_pow_magnitude(a, e1);
    lemma_pow_magnitude(a, e2);
    lemma_pow_magnitude(a, (e2 - 1) as nat);
    let m1 = pow(magnitude(a), (e2 - 1) as nat);
    assert(pow(magnitude(a), e2) == magnitude(a) * m1);
    assert(magnitude(a) * m1 >= 2 * m1) by (nonlinear_arith)
        requires
            magnitude(a) >= 2,
            m1 >= 0,
    ;
    if e1 + 1 < e2 {
        lemma_pow_doubles(a, e1, (e2 - 1) as nat);
    }
}

/// `a` to the power `b`, or `None` when that does not fit in 32 bits.
pub(crate) fn checked_pow_i32(a: i32, b: u32) -> (r: Option<i32>)
    ensures
        r == checked_pow_spec(a, b),
{
    let mut acc: i32 = 1;
    let mut k: u32 = 0;
    proof {
        reveal(pow);
    }
    while k < b
        invariant
            0 <= k <= b,
            acc as int == pow(a as int, k as nat),
        decreases b - k,
    {
        match acc.checked_mul(a) {
            Some(v) => {
                proof {
                    reveal(pow);
                    assert(pow(a as int, (k + 1) as nat) == a * pow(a as int, k as nat));
                }
                acc = v;
                k = k + 1;
            },
            None => {
                proof {
                    reveal(pow);
                    let x = pow(a as int, (k + 1) as nat);
                    assert(x == a * pow(a as int, k as nat));
                    assert(x == acc * a) by (nonlinear_arith)
                        requires
                            x == a * pow(a as int, k as nat),
                            acc as int == pow(a as int, k as nat),
                    ;
                    assert(magnitude(x) >= 0x8000_0000);
                    if magnitude(a as int) <= 1 {
                        lemma_pow_small(a as int, (k + 1) as nat);
                    }
                    if (k + 1) < b {
                        lemma_pow_doubles(a as int, (k + 1) as nat, b as nat);
                    }
                }
                return None;
            },
        }
    }
    Some(acc)
}

/// Appends `t` to `s`.
pub(crate) fn push_str(s: &mut String, t: &str)
    ensures
        final(s)@ == old(s)@ + t@,
{
    s.append(t);
}

/// Running from `s`: steps until one does not simply move on.
pub open spec fn spec_run(code: Seq<u8>, consts: Seq<ValueView>, s: VmView) -> (StepView, VmView)
    decreases code.len() + 1 - s.ip,
{
    let (o, t) = spec_step(code, consts, s);
    if o is Next && s.ip < t.ip <= code.len() + 1 {
        spec_run(code, consts, t)
    } else {
        (o, t)
    }
}

/// A step that moves on moves the instruction pointer forward, within the code.
pub proof fn lemma_step_advances(code: Seq<u8>, consts: Seq<ValueView>, s: VmView)
    ensures
        spec_step(code, consts, s).0 is Next ==> s.ip < spec_step(code, consts, s).1.ip <= code.len(),
        spec_step(code, consts, s).0 is Next ==> 0 <= s.ip,
{
    if 0 <= s.ip < code.len() {
        match spec_byte_opcode(code[s.ip]) {
            Some(op) => {
                crate::bytecode::lemma_widths_shape(op);
            },
            None => {},
        }
    }
}

/// A step that does not move on (it halts, faults, or hands out a float
/// request) leaves the machine's state exactly as it was.
pub proof fn law_stopped_step_changes_nothing(code: Seq<u8>, consts: Seq<ValueView>, s: VmView)
    ensures
        !(spec_step(code, consts, s).0 is Next) ==> spec_step(code, consts, s).1 == s,
{
}

/// A step that moves on writes at most one register, the destination given
/// by the instruction's first operand; the string table only grows.
pub proof fn law_step_writes_one_register(code: Seq<u8>, consts: Seq<ValueView>, s: VmView, i: int)
    requires
        s.registers.len() == 256,
        0 <= i < 256,
        spec_step(code, consts, s).0 is Next,
        i != code[s.ip + 1],
    ensures
        spec_step(code, consts, s).1.registers.len() == 256,
        spec_step(code, consts, s).1.registers[i] == s.registers[i],
        s.strings.is_prefix_of(spec_step(code, consts, s).1.strings),
{
    let t = spec_step(code, consts, s).1;
    assert(s.strings.is_prefix_of(t.strings)) by {
        assert forall|k: int| 0 <= k < s.strings.len() implies t.strings[k] == s.strings[k] by {}
    }
}

/// Running stops only where a step does not move on: the outcome of a run
/// is never a plain step forward.
pub proof fn law_run_stops_at_stop(code: Seq<u8>, consts: Seq<ValueView>, s: VmView)
    ensures
        !(spec_run(code, consts, s).0 is Next),
    decreases code.len() + 1 - s.ip,
{
    lemma_step_advances(code, consts, s);
    let (o, t) = spec_step(code, consts, s);
    if o is Next {
        law_run_stops_at_stop(code, consts, t);
    }
}

/// `x` fits in a 32-bit signed integer.
pub open spec fn fits_i32(x: int) -> bool {
    i32::MIN <= x <= i32::MAX
}

/// The integer comparisons are the strict and non-strict orders of the
/// integers, each the mirror or the negation of another: `a > b` is `b < a`
/// and not `a <= b`, `a >= b` is not `a < b`, and no number is less than
/// itself.
pub proof fn law_int_compare_orders(a: i32, b: i32)
    ensures
        int_compare(OpCode::LessInt, a, b) == (a < b),
        int_compare(OpCode::LessEqualInt, a, b) == (a <= b),
        int_compare(OpCode::GreaterInt, a, b) == (a > b),
        int_compare(OpCode::GreaterEqualInt, a, b) == (a >= b),
        int_compare(OpCode::GreaterInt, a, b) == int_compare(OpCode::LessInt, b, a),
        int_compare(OpCode::GreaterInt, a, b) == !int_compare(OpCode::LessEqualInt, a, b),
        int_compare(OpCode::GreaterEqualInt, a, b) == !int_compare(OpCode::LessInt, a, b),
        !int_compare(OpCode::LessInt, a, a) && !int_compare(OpCode::GreaterInt, a, a),
        int_compare(OpCode::LessEqualInt, a, a) && int_compare(OpCode::GreaterEqualInt, a, a),
{
}

/// An integer comparison step on registers holding `a` (left operand) and
/// `b` (right operand) moves on by one instruction and writes to its
/// destination the truth of the comparison in the order of the integers,
/// and nothing else.
pub proof fn law_int_compare_step(code: Seq<u8>, consts: Seq<ValueView>, s: VmView, op: OpCode, a: i32, b: i32)
    requires
        0 <= s.ip,
        spec_byte_opcode(code[s.ip]) == Some(op),
        is_int_compare(op),
        s.ip + 4 <= code.len(),
        int_of(s.registers[code[s.ip + 2] as int]) == Some(a),
        int_of(s.registers[code[s.ip + 3] as int]) == Some(b),
    ensures
        spec_step(code, consts, s).0 is Next,
        op == OpCode::LessInt ==> spec_step(code, consts, s).1 == set_reg(s, code[s.ip + 1], ValueView::Bool(a < b), 4),
        op == OpCode::LessEqualInt ==> spec_step(code, consts, s).1 == set_reg(s, code[s.ip + 1], ValueView::Bool(a <= b), 4),
        op == OpCode::GreaterInt ==> spec_step(code, consts, s).1 == set_reg(s, code[s.ip + 1], ValueView::Bool(a > b), 4),
        op == OpCode::GreaterEqualInt ==> spec_step(code, consts, s).1 == set_reg(s, code[s.ip + 1], ValueView::Bool(a >= b), 4),
{
    reveal_with_fuel(crate::bytecode::operand_offset, 4);
}

/// An integer arithmetic step on registers holding `a` (left operand) and
/// `b` (right operand) writes the sum, difference (left minus right),
/// product, quotient (rounded toward zero) or power to its destination when
/// that fits in 32 bits, and faults otherwise: on a zero divisor, a negative
/// exponent, or a result out of range.
pub proof fn law_int_arith_step(code: Seq<u8>, consts: Seq<ValueView>, s: VmView, op: OpCode, a: i32, b: i32)
    requires
        0 <= s.ip,
        spec_byte_opcode(code[s.ip]) == Some(op),
        is_int_arith(op),
        s.ip + 4 <= code.len(),
        int_of(s.registers[code[s.ip + 2] as int]) == Some(a),
        int_of(s.registers[code[s.ip + 3] as int]) == Some(b),
    ensures
        op == OpCode::AddInt ==> spec_step(code, consts, s) == if fits_i32(a + b) {
            (StepView::Next, set_reg(s, code[s.ip + 1], ValueView::Int((a + b) as i32), 4))
        } else {
            (StepView::Fault(VmError::IntegerOverflow), s)
        },
        op == OpCode::SubtractInt ==> spec_step(code, consts, s) == if fits_i32(a - b) {
            (StepView::Next, set_reg(s, code[s.ip + 1], ValueView::Int((a - b) as i32), 4))
        } else {
            (StepView::Fault(VmError::IntegerOverflow), s)
        },
        op == OpCode::MultiplyInt ==> spec_step(code, consts, s) == if fits_i32(a * b) {
            (StepView::Next, set_reg(s, code[s.ip + 1], ValueView::Int((a * b) as i32), 4))
        } else {
            (StepView::Fault(VmError::IntegerOverflow), s)
        },
        op == OpCode::DivideInt && b == 0 ==> spec_step(code, consts, s) == (StepView::Fault(VmError::DivisionByZero), s),
        op == OpCode::DivideInt && a >= 0 && b > 0 ==> spec_step(code, consts, s)
            == (StepView::Next, set_reg(s, code[s.ip + 1], ValueView::Int((a / b) as i32), 4)),
        op == OpCode::ExponentInt && b < 0 ==> spec_step(code, consts, s) == (StepView::Fault(VmError::NegativeExponent), s),
        op == OpCode::ExponentInt && b >= 0 ==> spec_step(code, consts, s) == if fits_i32(pow(a as int, b as nat)) {
            (StepView::Next, set_reg(s, code[s.ip + 1], ValueView::Int(pow(a as int, b as nat) as i32), 4))
        } else {
            (StepView::Fault(VmError::IntegerOverflow), s)
        },
{
    reveal_with_fuel(crate::bytecode::operand_offset, 4);
    if op == OpCode::DivideInt && a >= 0 && b > 0 {
        assert(0 <= a / b <= a) by (nonlinear_arith)
            requires
                a >= 0,
                b > 0,
        ;
    }
}

/// The one-operand and copying steps: `NegateInt` writes the negation of
/// an integer (a fault where it does not fit), `Not` the negation of a
/// boolean, `Move` a copy of its source register, `LoadTrue`, `LoadFalse`
/// and `LoadNil` their constant; each moves on past the instruction.
pub proof fn law_unary_step(code: Seq<u8>, consts: Seq<ValueView>, s: VmView, op: OpCode)
    requires
        0 <= s.ip,
        spec_byte_opcode(code[s.ip]) == Some(op),
        s.ip + 3 <= code.len(),
    ensures
        ({
            let step = spec_step(code, consts, s);
            let d = code[s.ip + 1];
            let src = s.registers[code[s.ip + 2] as int];
            &&& (op == OpCode::NegateInt && src is Int) ==> step == if fits_i32(-src->Int_0) {
                (StepView::Next, set_reg(s, d, ValueView::Int((-src->Int_0) as i32), 3))
            } else {
                (StepView::Fault(VmError::IntegerOverflow), s)
            }
            &&& (op == OpCode::Not && src is Bool) ==> step == (StepView::Next, set_reg(s, d, ValueView::Bool(!src->Bool_0), 3))
            &&& op == OpCode::Move ==> step == (StepView::Next, set_reg(s, d, src, 3))
            &&& op == OpCode::LoadTrue ==> step == (StepView::Next, set_reg(s, d, ValueView::Bool(true), 2))
            &&& op == OpCode::LoadFalse ==> step == (StepView::Next, set_reg(s, d, ValueView::Bool(false), 2))
            &&& op == OpCode::LoadNil ==> step == (StepView::Next, set_reg(s, d, ValueView::Nil, 2))
        }),
{
    reveal_with_fuel(crate::bytecode::operand_offset, 4);
}

/// `Equal` and `NotEqual` on two values that are not both floats write
/// whether the values are the same (or not); the step moves on.
pub proof fn law_equality_step(code: Seq<u8>, consts: Seq<ValueView>, s: VmView, op: OpCode)
    requires
        0 <= s.ip,
        spec_byte_opcode(code[s.ip]) == Some(op),
        op == OpCode::Equal || op == OpCode::NotEqual,
        s.ip + 4 <= code.len(),
        !(float_of(s.registers[code[s.ip + 2] as int]) is Some && float_of(s.registers[code[s.ip + 3] as int]) is Some),
    ensures
        ({
            let x = s.registers[code[s.ip + 2] as int];
            let y = s.registers[code[s.ip + 3] as int];
            &&& op == OpCode::Equal ==> spec_step(code, consts, s) == (StepView::Next, set_reg(s, code[s.ip + 1], ValueView::Bool(x == y), 4))
            &&& op == OpCode::NotEqual ==> spec_step(code, consts, s) == (StepView::Next, set_reg(s, code[s.ip + 1], ValueView::Bool(x != y), 4))
        }),
{
    reveal_with_fuel(crate::bytecode::operand_offset, 4);
}

/// Whether the machine executes `op`.
fn executed(op: OpCode) -> (b: bool)
    ensures
        b == is_executed(op),
{
    match op {
        OpCode::Halt | OpCode::LoadConstInt | OpCode::LoadConstFloat | OpCode::LoadString
        | OpCode::LoadNil | OpCode::LoadTrue | OpCode::LoadFalse | OpCode::AddInt
        | OpCode::SubtractInt | OpCode::MultiplyInt | OpCode::DivideInt | OpCode::ExponentInt
        | OpCode::LessInt | OpCode::LessEqualInt | OpCode::GreaterInt | OpCode::GreaterEqualInt
        | OpCode::AddFloat | OpCode::SubtractFloat | OpCode::MultiplyFloat | OpCode::DivideFloat
        | OpCode::ExponentFloat | OpCode::LessFloat | OpCode::LessEqualFloat | OpCode::GreaterFloat
        | OpCode::GreaterEqualFloat | OpCode::NegateInt | OpCode::NegateFloat | OpCode::Not
        | OpCode::Equal | OpCode::NotEqual | OpCode::ConcatString | OpCode::Move => true,
        _ => false,
    }
}

/// The length in bytes of an instruction with opcode `op`.
fn length_of(op: OpCode) -> (n: usize)
    ensures
        n == instruction_len(opcode_widths(op)),
        1 <= n <= 7,
{
    let definition = OpCode::get_definition(op);
    let ws = &definition.operands_width;
    proof {
        crate::bytecode::lemma_widths_shape(op);
    }
    let mut n: usize = 1;
    let mut i: usize = 0;
    while i < ws.len()
        invariant
            ws@ == opcode_widths(op),
            ws.len() <= 3,
            forall|k: int| 0 <= k < ws.len() ==> #[trigger] ws@[k] == 1 || ws@[k] == 2 || ws@[k] == 4,
            0 <= i <= ws.len(),
            n == crate::bytecode::operand_offset(ws@, i as int),
            n <= 1 + 4 * i,
        decreases ws.len() - i,
    {
        n = n + ws[i];
        i = i + 1;
    }
    n
}

/// A register machine over 256 registers running bytecode with a constant
/// pool and a string table. Float instructions are handed out as requests
/// and their results handed back.
pub struct HydorVM {
    registers: Vec<RuntimeValue>,
    constants: Vec<RuntimeValue>,
    strings: Vec<String>,
    instructions: Vec<u8>,
    ip: usize,
}

/// The views of a sequence of values.
pub open spec fn views_of(s: Seq<RuntimeValue>) -> Seq<ValueView> {
    s.map_values(|v: RuntimeValue| v@)
}

/// The views of a sequence of strings.
pub open spec fn texts_of(s: Seq<String>) -> Seq<Seq<char>> {
    s.map_values(|v: String| v@)
}

impl View for HydorVM {
    type V = VmView;

    closed spec fn view(&self) -> VmView {
        VmView { registers: views_of(self.registers@), strings: texts_of(self.strings@), ip: self.ip as int }
    }
}

impl HydorVM {
    /// The machine's invariant.
    pub closed spec fn wf(&self) -> bool {
        &&& self.registers@.len() == REGISTER_COUNT
        &&& self.instructions@.len() + 8 < usize::MAX
    }

    /// The bytecode being run.
    pub closed spec fn code(&self) -> Seq<u8> {
        self.instructions@
    }

    /// The constant pool.
    pub closed spec fn pool(&self) -> Seq<ValueView> {
        views_of(self.constants@)
    }

    /// A machine at the start of `instructions`, every register nil.
    pub fn new(instructions: Vec<u8>, constants: Vec<RuntimeValue>, strings: Vec<String>) -> (vm: HydorVM)
        requires
            instructions@.len() + 8 < usize::MAX,
        ensures
            vm.wf(),
            vm.code() == instructions@,
            vm.pool() == views_of(constants@),
            vm@.registers == Seq::new(256, |i: int| ValueView::Nil),
            vm@.strings == texts_of(strings@),
            vm@.ip == 0,
    {
        let mut registers: Vec<RuntimeValue> = Vec::new();
        let mut k: usize = 0;
        while k < REGISTER_COUNT
            invariant
                0 <= k <= REGISTER_COUNT,
                registers@.len() == k,
                forall|j: int| 0 <= j < k ==> registers@[j] == RuntimeValue::NilLiteral,
            decreases REGISTER_COUNT - k,
        {
            registers.push(RuntimeValue::NilLiteral);
            k = k + 1;
        }
        let vm = HydorVM { registers, constants, strings, instructions, ip: 0 };
        proof {
            assert(views_of(vm.registers@) =~= Seq::new(256, |i: int| ValueView::Nil));
        }
        vm
    }

    /// The register `reg`.
    pub fn get_register(&self, reg: u8) -> (v: &RuntimeValue)
        requires
            self.wf(),
        ensures
            v@ == self@.registers[reg as int],
    {
        &self.registers[reg as usize]
    }

    /// The register `reg` as an integer.
    pub fn get_register_as_int(&self, reg: u8) -> (r: Option<i32>)
        requires
            self.wf(),
        ensures
            r == int_of(self@.registers[reg as int]),
    {
        self.registers[reg as usize].as_int()
    }

    /// The register `reg` as the text of a float.
    pub fn get_register_as_float(&self, reg: u8) -> (r: Option<String>)
        requires
            self.wf(),
        ensures
            r matches Some(t) ==> float_of(self@.registers[reg as int]) == Some(t@),
            r is None ==> float_of(self@.registers[reg as int]) is None,
    {
        self.registers[reg as usize].as_float()
    }

    /// The register `reg` as a boolean.
    pub fn get_register_as_bool(&self, reg: u8) -> (r: Option<bool>)
        requires
            self.wf(),
        ensures
            r == bool_of(self@.registers[reg as int]),
    {
        self.registers[reg as usize].as_bool()
    }

    /// The string at `index` of the string table.
    pub fn get_string(&self, index: usize) -> (r: Option<&String>)
        ensures
            r matches Some(t) ==> index < self@.strings.len() && t@ == self@.strings[index as int],
            r is None ==> index >= self@.strings.len(),
    {
        if index < self.strings.len() {
            Some(&self.strings[index])
        } else {
            None
        }
    }

    proof fn lemma_view_reg(&self, i: int)
        requires
            self.wf(),
            0 <= i < 256,
        ensures
            self@.registers[i] == self.registers@[i]@,
            self@.registers.len() == 256,
    {
    }

    /// Sets register `d` to `v` and moves the instruction pointer by `n`.
    fn put(&mut self, d: u8, v: RuntimeValue, n: usize)
        requires
            old(self).wf(),
            old(self).ip + n <= old(self).instructions@.len(),
        ensures
            final(self).wf(),
            final(self).code() == old(self).code(),
            final(self).pool() == old(self).pool(),
            final(self)@ == set_reg(old(self)@, d, v@, n as int),
    {
        self.registers.set(d as usize, v);
        self.ip = self.ip + n;
        proof {
            assert(views_of(self.registers@) =~= views_of(old(self).registers@).update(d as int, v@));
        }
    }

    /// The byte operand `k` bytes past the instruction pointer.
    fn operand(&self, k: usize) -> (b: u8)
        requires
            self.wf(),
            self.ip + k < self.instructions@.len(),
        ensures
            b == byte_at(self.code(), self@, k as int),
    {
        read_uint8(&self.instructions, self.ip + k)
    }

    /// Loads a constant of the pool into a register (`LoadConstInt`,
    /// `LoadConstFloat`), checking its index and its type.
    fn load_const(&mut self, op: OpCode) -> (r: Result<StepOutcome, VmError>)
        requires
            old(self).wf(),
            op == OpCode::LoadConstInt || op == OpCode::LoadConstFloat,
            old(self).ip + 4 <= old(self).instructions@.len(),
        ensures
            final(self).wf(),
            final(self).code() == old(self).code(),
            final(self).pool() == old(self).pool(),
            (outcome_view(r), final(self)@) == exec_op(old(self).code(), old(self).pool(), old(self)@, op),
    {
        proof { reveal_with_fuel(crate::bytecode::operand_offset, 4); }
        let d = self.operand(1);
        let idx = read_uint16(&self.instructions, self.ip + 2) as usize;
        if idx >= self.constants.len() {
            return Err(VmError::InvalidConstantIndex(idx));
        }
        proof { assert(self.pool()[idx as int] == self.constants@[idx as int]@); }
        if op == OpCode::LoadConstInt {
            match self.constants[idx].as_int() {
                Some(v) => {
                    self.put(d, RuntimeValue::IntegerLiteral(v), 4);
                    Ok(StepOutcome::Next)
                },
                None => Err(VmError::ExpectedIntegerConstant(idx)),
            }
        } else {
            match self.constants[idx].as_float() {
                Some(v) => {
                    self.put(d, RuntimeValue::FloatLiteral(v), 4);
                    Ok(StepOutcome::Next)
                },
                None => Err(VmError::ExpectedFloatConstant(idx)),
            }
        }
    }

    /// Loads a string table index into a register, checking the index.
    fn load_string(&mut self) -> (r: Result<StepOutcome, VmError>)
        requires
            old(self).wf(),
            old(self).ip + 4 <= old(self).instructions@.len(),
        ensures
            final(self).wf(),
            final(self).code() == old(self).code(),
            final(self).pool() == old(self).pool(),
            (outcome_view(r), final(self)@) == exec_op(old(self).code(), old(self).pool(), old(self)@, OpCode::LoadString),
    {
        proof { reveal_with_fuel(crate::bytecode::operand_offset, 4); }
        let d = self.operand(1);
        let idx = read_uint16(&self.instructions, self.ip + 2) as usize;
        if idx < self.strings.len() {
            self.put(d, RuntimeValue::StringLiteral(idx), 4);
            Ok(StepOutcome::Next)
        } else {
            Err(VmError::InvalidStringIndex(idx))
        }
    }

    /// Integer arithmetic (`AddInt` .. `ExponentInt`); overflow, division by
    /// zero and a negative exponent are errors.
    fn arith_int(&mut self, op: OpCode) -> (r: Result<StepOutcome, VmError>)
        requires
            old(self).wf(),
            is_int_arith(op),
            old(self).ip + 4 <= old(self).instructions@.len(),
        ensures
            final(self).wf(),
            final(self).code() == old(self).code(),
            final(self).pool() == old(self).pool(),
            (outcome_view(r), final(self)@) == exec_op(old(self).code(), old(self).pool(), old(self)@, op),
    {
        proof { reveal_with_fuel(crate::bytecode::operand_offset, 4); }
        let d = self.operand(1);
        let l = self.operand(2);
        let rr = self.operand(3);
        proof {
            self.lemma_view_reg(l as int);
            self.lemma_view_reg(rr as int);
        }
        let a = match self.registers[l as usize].as_int() {
            Some(a) => a,
            None => return Err(VmError::OperandType { opcode: op, operand: Operand::Left }),
        };
        let b = match self.registers[rr as usize].as_int() {
            Some(b) => b,
            None => return Err(VmError::OperandType { opcode: op, operand: Operand::Right }),
        };
        let result: Option<i32> = if op == OpCode::AddInt {
            a.checked_add(b)
        } else if op == OpCode::SubtractInt {
            a.checked_sub(b)
        } else if op == OpCode::MultiplyInt {
            a.checked_mul(b)
        } else if op == OpCode::DivideInt {
            if b == 0 {
                return Err(VmError::DivisionByZero);
            }
            a.checked_div(b)
        } else {
            if b < 0 {
                return Err(VmError::NegativeExponent);
            }
            checked_pow_i32(a, b as u32)
        };
        match result {
            Some(v) => {
                self.put(d, RuntimeValue::IntegerLiteral(v), 4);
                Ok(StepOutcome::Next)
            },
            None => Err(VmError::IntegerOverflow),
        }
    }

    /// Integer comparison (`LessInt` .. `GreaterEqualInt`).
    fn compare_int(&mut self, op: OpCode) -> (r: Result<StepOutcome, VmError>)
        requires
            old(self).wf(),
            is_int_compare(op),
            old(self).ip + 4 <= old(self).instructions@.len(),
        ensures
            final(self).wf(),
            final(self).code() == old(self).code(),
            final(self).pool() == old(self).pool(),
            (outcome_view(r), final(self)@) == exec_op(old(self).code(), old(self).pool(), old(self)@, op),
    {
        proof { reveal_with_fuel(crate::bytecode::operand_offset, 4); }
        let d = self.operand(1);
        let l = self.operand(2);
        let rr = self.operand(3);
        proof {
            self.lemma_view_reg(l as int);
            self.lemma_view_reg(rr as int);
        }
        let a = match self.registers[l as usize].as_int() {
            Some(a) => a,
            None => return Err(VmError::OperandType { opcode: op, operand: Operand::Left }),
        };
        let b = match self.registers[rr as usize].as_int() {
            Some(b) => b,
            None => return Err(VmError::OperandType { opcode: op, operand: Operand::Right }),
        };
        let t = if op == OpCode::LessInt {
            a < b
        } else if op == OpCode::LessEqualInt {
            a <= b
        } else if op == OpCode::GreaterInt {
            a > b
        } else {
            a >= b
        };
        self.put(d, RuntimeValue::BooleanLiteral(t), 4);
        Ok(StepOutcome::Next)
    }

    /// Float arithmetic and comparison: checks the operands and hands the
    /// instruction out as a request. (`GreaterEqualFloat` takes its first
    /// operand from the right register.)
    fn arith_float(&mut self, op: OpCode) -> (r: Result<StepOutcome, VmError>)
        requires
            old(self).wf(),
            is_float_binary(op),
            old(self).ip + 4 <= old(self).instructions@.len(),
        ensures
            final(self).wf(),
            final(self).code() == old(self).code(),
            final(self).pool() == old(self).pool(),
            (outcome_view(r), final(self)@) == exec_op(old(self).code(), old(self).pool(), old(self)@, op),
    {
        proof { reveal_with_fuel(crate::bytecode::operand_offset, 4); }
        let d = self.operand(1);
        let l = self.operand(2);
        let rr = self.operand(3);
        let first = if op == OpCode::GreaterEqualFloat { rr } else { l };
        proof {
            self.lemma_view_reg(first as int);
            self.lemma_view_reg(rr as int);
        }
        let a = match self.registers[first as usize].as_float() {
            Some(a) => a,
            None => return Err(VmError::OperandType { opcode: op, operand: Operand::Left }),
        };
        let b = match self.registers[rr as usize].as_float() {
            Some(b) => b,
            None => return Err(VmError::OperandType { opcode: op, operand: Operand::Right }),
        };
        Ok(StepOutcome::Float(FloatRequest { opcode: op, dest: d, left: a, right: b }))
    }

    /// Float negation: checks the operand and hands it out as a request.
    fn negate_float(&mut self) -> (r: Result<StepOutcome, VmError>)
        requires
            old(self).wf(),
            old(self).ip + 3 <= old(self).instructions@.len(),
        ensures
            final(self).wf(),
            final(self).code() == old(self).code(),
            final(self).pool() == old(self).pool(),
            (outcome_view(r), final(self)@) == exec_op(old(self).code(), old(self).pool(), old(self)@, OpCode::NegateFloat),
    {
        let d = self.operand(1);
        let l = self.operand(2);
        proof { self.lemma_view_reg(l as int); }
        match self.registers[l as usize].as_float() {
            Some(a) => Ok(StepOutcome::Float(FloatRequest { opcode: OpCode::NegateFloat, dest: d, left: a, right: String::new() })),
            None => Err(VmError::OperandType { opcode: OpCode::NegateFloat, operand: Operand::Only }),
        }
    }

    /// Integer negation; negating the least integer is an overflow.
    fn negate_int(&mut self) -> (r: Result<StepOutcome, VmError>)
        requires
            old(self).wf(),
            old(self).ip + 3 <= old(self).instructions@.len(),
        ensures
            final(self).wf(),
            final(self).code() == old(self).code(),
            final(self).pool() == old(self).pool(),
            (outcome_view(r), final(self)@) == exec_op(old(self).code(), old(self).pool(), old(self)@, OpCode::NegateInt),
    {
        proof { reveal_with_fuel(crate::bytecode::operand_offset, 4); }
        let d = self.operand(1);
        let l = self.operand(2);
        proof { self.lemma_view_reg(l as int); }
        match self.registers[l as usize].as_int() {
            Some(a) => match 0i32.checked_sub(a) {
                Some(v) => {
                    self.put(d, RuntimeValue::IntegerLiteral(v), 3);
                    Ok(StepOutcome::Next)
                },
                None => Err(VmError::IntegerOverflow),
            },
            None => Err(VmError::OperandType { opcode: OpCode::NegateInt, operand: Operand::Only }),
        }
    }

    /// Boolean negation.
    fn bool_not(&mut self) -> (r: Result<StepOutcome, VmError>)
        requires
            old(self).wf(),
            old(self).ip + 3 <= old(self).instructions@.len(),
        ensures
            final(self).wf(),
            final(self).code() == old(self).code(),
            final(self).pool() == old(self).pool(),
            (outcome_view(r), final(self)@) == exec_op(old(self).code(), old(self).pool(), old(self)@, OpCode::Not),
    {
        proof { reveal_with_fuel(crate::bytecode::operand_offset, 4); }
        let d = self.operand(1);
        let l = self.operand(2);
        proof { self.lemma_view_reg(l as int); }
        match self.registers[l as usize].as_bool() {
            Some(b) => {
                self.put(d, RuntimeValue::BooleanLiteral(!b), 3);
                Ok(StepOutcome::Next)
            },
            None => Err(VmError::OperandType { opcode: OpCode::Not, operand: Operand::Only }),
        }
    }

    /// `Equal` and `NotEqual`: two floats are handed out as a request (they
    /// compare as numbers); other values compare here.
    fn compare_equality(&mut self, op: OpCode) -> (r: Result<StepOutcome, VmError>)
        requires
            old(self).wf(),
            op == OpCode::Equal || op == OpCode::NotEqual,
            old(self).ip + 4 <= old(self).instructions@.len(),
        ensures
            final(self).wf(),
            final(self).code() == old(self).code(),
            final(self).pool() == old(self).pool(),
            (outcome_view(r), final(self)@) == exec_op(old(self).code(), old(self).pool(), old(self)@, op),
    {
        proof { reveal_with_fuel(crate::bytecode::operand_offset, 4); }
        let d = self.operand(1);
        let l = self.operand(2);
        let rr = self.operand(3);
        proof {
            self.lemma_view_reg(l as int);
            self.lemma_view_reg(rr as int);
        }
        match (self.registers[l as usize].as_float(), self.registers[rr as usize].as_float()) {
            (Some(a), Some(b)) => {
                return Ok(StepOutcome::Float(FloatRequest { opcode: op, dest: d, left: a, right: b }));
            },
            _ => {},
        }
        let same = runtime_value_eq(&self.registers[l as usize], &self.registers[rr as usize]);
        let t = if op == OpCode::Equal { same } else { !same };
        self.put(d, RuntimeValue::BooleanLiteral(t), 4);
        Ok(StepOutcome::Next)
    }

    /// Concatenates two strings of the table into a new entry.
    fn concat_string(&mut self) -> (r: Result<StepOutcome, VmError>)
        requires
            old(self).wf(),
            old(self).ip + 4 <= old(self).instructions@.len(),
        ensures
            final(self).wf(),
            final(self).code() == old(self).code(),
            final(self).pool() == old(self).pool(),
            (outcome_view(r), final(self)@) == exec_op(old(self).code(), old(self).pool(), old(self)@, OpCode::ConcatString),
    {
        proof { reveal_with_fuel(crate::bytecode::operand_offset, 4); }
        let d = self.operand(1);
        let l = self.operand(2);
        let rr = self.operand(3);
        proof {
            self.lemma_view_reg(l as int);
            self.lemma_view_reg(rr as int);
        }
        let a = match self.registers[l as usize].as_string_index() {
            Some(a) => a,
            None => return Err(VmError::OperandType { opcode: OpCode::ConcatString, operand: Operand::Left }),
        };
        let b = match self.registers[rr as usize].as_string_index() {
            Some(b) => b,
            None => return Err(VmError::OperandType { opcode: OpCode::ConcatString, operand: Operand::Right }),
        };
        if a >= self.strings.len() {
            return Err(VmError::InvalidStringIndex(a));
        }
        if b >= self.strings.len() {
            return Err(VmError::InvalidStringIndex(b));
        }
        let mut joined = self.strings[a].clone();
        push_str(&mut joined, self.strings[b].as_str());
        let ghost before = self.strings@;
        self.strings.push(joined);
        let idx = self.strings.len() - 1;
        proof {
            assert(texts_of(self.strings@) =~= texts_of(before).push(before[a as int]@ + before[b as int]@));
        }
        self.put(d, RuntimeValue::StringLiteral(idx), 4);
        Ok(StepOutcome::Next)
    }

    /// Runs the instruction at the instruction pointer.
    pub fn step(&mut self) -> (r: Result<StepOutcome, VmError>)
        requires
            old(self).wf(),
        ensures
            final(self).wf(),
            final(self).code() == old(self).code(),
            final(self).pool() == old(self).pool(),
            (outcome_view(r), final(self)@) == spec_step(old(self).code(), old(self).pool(), old(self)@),
    {
        if self.ip >= self.instructions.len() {
            return Err(VmError::TruncatedInstruction);
        }
        let byte = self.instructions[self.ip];
        let op = match decode_opcode(byte) {
            Some(op) => op,
            None => return Err(VmError::InvalidOpcode(byte)),
        };
        if !executed(op) {
            return Err(VmError::Unimplemented(op));
        }
        let n = length_of(op);
        if self.ip + n > self.instructions.len() {
            return Err(VmError::TruncatedInstruction);
        }
        proof {
            reveal_with_fuel(crate::bytecode::operand_offset, 4);
        }
        match op {
            OpCode::Halt => Ok(StepOutcome::Halted),
            OpCode::LoadConstInt | OpCode::LoadConstFloat => self.load_const(op),
            OpCode::LoadString => self.load_string(),
            OpCode::LoadNil | OpCode::LoadTrue | OpCode::LoadFalse => {
                let d = self.operand(1);
                let v = match op {
                    OpCode::LoadNil => RuntimeValue::NilLiteral,
                    OpCode::LoadTrue => RuntimeValue::BooleanLiteral(true),
                    _ => RuntimeValue::BooleanLiteral(false),
                };
                self.put(d, v, 2);
                Ok(StepOutcome::Next)
            },
            OpCode::AddInt | OpCode::SubtractInt | OpCode::MultiplyInt | OpCode::DivideInt
            | OpCode::ExponentInt => self.arith_int(op),
            OpCode::LessInt | OpCode::LessEqualInt | OpCode::GreaterInt
            | OpCode::GreaterEqualInt => self.compare_int(op),
            OpCode::AddFloat | OpCode::SubtractFloat | OpCode::MultiplyFloat | OpCode::DivideFloat
            | OpCode::ExponentFloat | OpCode::LessFloat | OpCode::LessEqualFloat
            | OpCode::GreaterFloat | OpCode::GreaterEqualFloat => self.arith_float(op),
            OpCode::NegateInt => self.negate_int(),
            OpCode::NegateFloat => self.negate_float(),
            OpCode::Not => self.bool_not(),
            OpCode::Equal | OpCode::NotEqual => self.compare_equality(op),
            OpCode::ConcatString => self.concat_string(),
            _ => {
                let d = self.operand(1);
                let src = self.operand(2);
                proof { self.lemma_view_reg(src as int); }
                let v = self.registers[src as usize].copy();
                self.put(d, v, 3);
                Ok(StepOutcome::Next)
            },
        }
    }

    /// Runs from the instruction pointer until `Halt` (`Ok(None)`), an error,
    /// or a float instruction (`Ok(Some(request))`, with the instruction
    /// pointer left on it until `complete_float` hands its result back).
    pub fn run(&mut self) -> (r: Result<Option<FloatRequest>, VmError>)
        requires
            old(self).wf(),
        ensures
            final(self).wf(),
            final(self).code() == old(self).code(),
            final(self).pool() == old(self).pool(),
            final(self)@ == spec_run(old(self).code(), old(self).pool(), old(self)@).1,
            match r {
                Ok(None) => spec_run(old(self).code(), old(self).pool(), old(self)@).0 is Halted,
                Ok(Some(q)) => spec_run(old(self).code(), old(self).pool(), old(self)@).0 == StepView::Float(q@),
                Err(e) => spec_run(old(self).code(), old(self).pool(), old(self)@).0 == StepView::Fault(e),
            },
    {
        loop
            invariant
                self.wf(),
                self.code() == old(self).code(),
                self.pool() == old(self).pool(),
                0 <= self@.ip,
                spec_run(self.code(), self.pool(), self@) == spec_run(old(self).code(), old(self).pool(), old(self)@),
            decreases self.code().len() + 1 - self@.ip,
        {
            let ghost before = self@;
            let outcome = self.step();
            proof {
                lemma_step_advances(self.code(), self.pool(), before);
            }
            match outcome {
                Ok(StepOutcome::Next) => {},
                Ok(StepOutcome::Halted) => return Ok(None),
                Ok(StepOutcome::Float(q)) => return Ok(Some(q)),
                Err(e) => return Err(e),
            }
        }
    }

    /// Hands back the result of the float instruction at the instruction
    /// pointer: its destination register gets `result` and the machine moves
    /// past the instruction.
    pub fn complete_float(&mut self, result: FloatResult)
        requires
            old(self).wf(),
            spec_step(old(self).code(), old(self).pool(), old(self)@).0 is Float,
        ensures
            final(self).wf(),
            final(self).code() == old(self).code(),
            final(self).pool() == old(self).pool(),
            final(self)@ == set_reg(
                old(self)@,
                spec_step(old(self).code(), old(self).pool(), old(self)@).0->Float_0.dest,
                match result {
                    FloatResult::Number(t) => ValueView::Float(t@),
                    FloatResult::Truth(b) => ValueView::Bool(b),
                },
                instruction_len(opcode_widths(spec_step(old(self).code(), old(self).pool(), old(self)@).0->Float_0.opcode)),
            ),
    {
        let op = match decode_opcode(self.instructions[self.ip]) {
            Some(op) => op,
            None => OpCode::Halt,
        };
        let n = length_of(op);
        proof {
            reveal_with_fuel(crate::bytecode::operand_offset, 4);
        }
        let d = self.operand(1);
        let v = match result {
            FloatResult::Number(t) => RuntimeValue::FloatLiteral(t),
            FloatResult::Truth(b) => RuntimeValue::BooleanLiteral(b),
        };
        self.put(d, v, n);
    }
}

} // verus!
