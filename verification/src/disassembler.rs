use vstd::prelude::*;
use crate::bytecode::{
    OpCode, Instructions, spec_byte_opcode, opcode_widths, instruction_len, operand_offset, be_value,
    read_uint8, read_uint16, decode_opcode, lemma_widths_shape, lemma_opcode_byte_roundtrip, ToOpcode,
    encodes, pow256, slot_value,
};
use crate::debug_info::{DebugInfo, runs_sorted, span_at};
use crate::span::Span;

verus! {

/// What an operand of a decoded instruction refers to.
#[derive(Clone, Copy, Debug, PartialEq, Eq, Structural)]
pub enum OperandKind {
    /// A register, shown as `rN`.
    Register,
    /// An index into the constant pool.
    Constant,
    /// An index into the string table.
    StringIndex,
    /// An index of a global variable.
    Global,
    /// A plain number.
    Raw,
}

/// One operand as read from the bytecode.
#[derive(Clone, Copy, Debug, PartialEq, Eq, Structural)]
pub struct DecodedOperand {
    pub value: u16,
    pub width: usize,
    pub kind: OperandKind,
}

/// One instruction as read from the bytecode, with the source span the
/// debug map records for its first byte.
#[derive(Clone, Debug)]
pub struct DecodedInstruction {
    pub offset: usize,
    pub span: Span,
    pub opcode: OpCode,
    pub opcode_byte: u8,
    pub operands: Vec<DecodedOperand>,
}

/// Operand `i` of `op` names a register.
pub open spec fn spec_is_register_operand(op: OpCode, i: int) -> bool {
    match op {
        OpCode::LoadConstInt | OpCode::LoadConstFloat | OpCode::LoadString => i == 0,
        OpCode::LoadNil | OpCode::LoadTrue | OpCode::LoadFalse => i == 0,
        OpCode::LoadGlobal | OpCode::LogAddr => i == 0,
        OpCode::StoreGlobal => i == 1,
        OpCode::ArrayNewFixed | OpCode::ArrayNewDynamic => i == 0,
        OpCode::ArraySet => i == 0 || i == 2,
        OpCode::Halt => false,
        _ => true,
    }
}

/// Operand `i` of `op` is an index into the constant pool.
pub open spec fn spec_is_constant_index(op: OpCode, i: int) -> bool {
    (op == OpCode::LoadConstInt || op == OpCode::LoadConstFloat) && i == 1
}

/// Operand `i` of `op` is an index into the string table.
pub open spec fn spec_is_string_index(op: OpCode, i: int) -> bool {
    op == OpCode::LoadString && i == 1
}

/// Operand `i` of `op` is the index of a global variable.
pub open spec fn spec_is_global_index(op: OpCode, i: int) -> bool {
    (op == OpCode::LoadGlobal && i == 1) || (op == OpCode::StoreGlobal && i == 0)
}

/// How operand `i` of `op`, `width` bytes wide, is shown: a one-byte operand
/// is a register or a plain number; a two-byte one is a pool, string-table or
/// global index, or a plain number.
pub open spec fn operand_kind(op: OpCode, i: int, width: usize) -> OperandKind {
    if width == 1 {
        if spec_is_register_operand(op, i) {
            OperandKind::Register
        } else {
            OperandKind::Raw
        }
    } else if spec_is_constant_index(op, i) {
        OperandKind::Constant
    } else if spec_is_string_index(op, i) {
        OperandKind::StringIndex
    } else if spec_is_global_index(op, i) {
        OperandKind::Global
    } else {
        OperandKind::Raw
    }
}

/// Every operand of `op` is one or two bytes wide.
pub open spec fn narrow_operands(op: OpCode) -> bool {
    forall|i: int| 0 <= i < opcode_widths(op).len() ==> #[trigger] opcode_widths(op)[i] <= 2
}

/// From `off` on, `code` is a whole number of instructions, each with a known
/// opcode and operands of one or two bytes.
pub open spec fn decodes_from(code: Seq<u8>, off: int) -> bool
    decreases code.len() - off,
{
    if off < 0 || off >= code.len() {
        off == code.len()
    } else {
        match spec_byte_opcode(code[off]) {
            None => false,
            Some(op) => {
                proof {
                    lemma_widths_shape(op);
                }
                let n = instruction_len(opcode_widths(op));
                narrow_operands(op) && off + n <= code.len() && decodes_from(code, off + n)
            },
        }
    }
}

/// The offsets at which the instructions from `off` on start.
pub open spec fn instruction_offsets(code: Seq<u8>, off: int) -> Seq<int>
    decreases code.len() - off,
{
    if off < 0 || off >= code.len() {
        Seq::empty()
    } else {
        match spec_byte_opcode(code[off]) {
            None => Seq::empty(),
            Some(op) => {
                proof {
                    lemma_widths_shape(op);
                }
                let n = instruction_len(opcode_widths(op));
                if off + n <= code.len() {
                    seq![off] + instruction_offsets(code, off + n)
                } else {
                    seq![off]
                }
            },
        }
    }
}

/// In the instructions read from `off` on, bytes `p` and `p + 1` lie inside
/// one instruction, past its opcode byte: an operand that can be rewritten
/// without moving any instruction.
pub open spec fn window_inside(code: Seq<u8>, off: int, p: int) -> bool
    decreases code.len() - off,
{
    if off < 0 || off >= code.len() {
        false
    } else {
        match spec_byte_opcode(code[off]) {
            None => false,
            Some(op) => {
                proof {
                    lemma_widths_shape(op);
                }
                let n = instruction_len(opcode_widths(op));
                if off + 1 <= p && p + 2 <= off + n {
                    true
                } else if off + n <= p && off + n <= code.len() {
                    window_inside(code, off + n, p)
                } else {
                    false
                }
            },
        }
    }
}

/// An operand window lies past the start it is read from.
pub proof fn lemma_window_bounds(code: Seq<u8>, off: int, p: int)
    requires
        window_inside(code, off, p),
    ensures
        off + 1 <= p,
    decreases code.len() - off,
{
    let op = spec_byte_opcode(code[off])->Some_0;
    lemma_widths_shape(op);
    let n = instruction_len(opcode_widths(op));
    if !(off + 1 <= p && p + 2 <= off + n) {
        lemma_window_bounds(code, off + n, p);
    }
}

/// Reading `c + d` from `c.len() + x` is reading `d` from `x`.
pub proof fn lemma_decode_shift(c: Seq<u8>, d: Seq<u8>, x: int, p: int)
    requires
        0 <= x,
    ensures
        decodes_from(c + d, c.len() + x) == decodes_from(d, x),
        window_inside(c + d, c.len() + x, c.len() + p) == window_inside(d, x, p),
    decreases d.len() - x,
{
    if x < d.len() {
        assert((c + d)[c.len() + x] == d[x]);
        match spec_byte_opcode(d[x]) {
            Some(op) => {
                lemma_widths_shape(op);
                let n = instruction_len(opcode_widths(op));
                if x + n <= d.len() {
                    lemma_decode_shift(c, d, x + n, p);
                }
            },
            None => {},
        }
    }
}

/// Code that reads whole from `off` still does, with the same operand
/// windows, when whole code is appended to it.
pub proof fn lemma_decode_append(c: Seq<u8>, d: Seq<u8>, off: int, p: int)
    requires
        0 <= off <= c.len(),
        decodes_from(c, off),
        decodes_from(d, 0),
    ensures
        decodes_from(c + d, off),
        window_inside(c, off, p) ==> window_inside(c + d, off, p),
    decreases c.len() - off,
{
    if off == c.len() {
        lemma_decode_shift(c, d, 0, p);
    } else {
        assert((c + d)[off] == c[off]);
        let op = spec_byte_opcode(c[off])->Some_0;
        lemma_widths_shape(op);
        let n = instruction_len(opcode_widths(op));
        lemma_decode_append(c, d, off + n, p);
    }
}

/// An operand window of code appended to whole code is a window of the
/// whole, read from any instruction start of the first part.
pub proof fn lemma_window_reach(c: Seq<u8>, d: Seq<u8>, off: int, q: int)
    requires
        0 <= off <= c.len(),
        decodes_from(c, off),
        window_inside(d, 0, q),
    ensures
        window_inside(c + d, off, c.len() + q),
    decreases c.len() - off,
{
    if off == c.len() {
        lemma_decode_shift(c, d, 0, q);
    } else {
        assert((c + d)[off] == c[off]);
        let op = spec_byte_opcode(c[off])->Some_0;
        lemma_widths_shape(op);
        let n = instruction_len(opcode_widths(op));
        lemma_window_bounds(d, 0, q);
        lemma_window_reach(c, d, off + n, q);
    }
}

/// Reading from `off` depends only on the bytes from `off` on.
pub proof fn lemma_decode_frame(c1: Seq<u8>, c2: Seq<u8>, off: int, q: int)
    requires
        0 <= off,
        c1.len() == c2.len(),
        forall|k: int| off <= k < c1.len() ==> c1[k] == c2[k],
    ensures
        decodes_from(c1, off) == decodes_from(c2, off),
        window_inside(c1, off, q) == window_inside(c2, off, q),
    decreases c1.len() - off,
{
    if off < c1.len() {
        match spec_byte_opcode(c1[off]) {
            Some(op) => {
                lemma_widths_shape(op);
                let n = instruction_len(opcode_widths(op));
                if off + n <= c1.len() {
                    lemma_decode_frame(c1, c2, off + n, q);
                }
            },
            None => {},
        }
    }
}

/// Rewriting the two bytes of an operand window changes neither whether the
/// code reads whole nor any operand window.
pub proof fn lemma_decode_patch(c1: Seq<u8>, c2: Seq<u8>, off: int, p: int, q: int)
    requires
        0 <= off,
        c1.len() == c2.len(),
        forall|k: int| 0 <= k < c1.len() && !(p <= k < p + 2) ==> c1[k] == c2[k],
        window_inside(c1, off, p),
    ensures
        decodes_from(c2, off) == decodes_from(c1, off),
        window_inside(c2, off, q) == window_inside(c1, off, q),
    decreases c1.len() - off,
{
    let op = spec_byte_opcode(c1[off])->Some_0;
    lemma_window_bounds(c1, off, p);
    assert(c2[off] == c1[off]);
    lemma_widths_shape(op);
    let n = instruction_len(opcode_widths(op));
    if off + 1 <= p && p + 2 <= off + n {
        if off + n <= c1.len() {
            lemma_decode_frame(c1, c2, off + n, q);
        }
    } else {
        lemma_decode_patch(c1, c2, off + n, p, q);
    }
}

/// An encoded instruction whose operands are one or two bytes wide reads
/// whole; the label operand of a jump is an operand window.
pub proof fn lemma_encoded_decodes(bytes: Seq<u8>, op: OpCode, operands: Seq<usize>)
    requires
        encodes(bytes, op, operands),
        narrow_operands(op),
    ensures
        decodes_from(bytes, 0),
        op == OpCode::JumpIfFalse ==> window_inside(bytes, 0, 2),
        op == OpCode::JumpUncond ==> window_inside(bytes, 0, 1),
{
    let ws = opcode_widths(op);
    lemma_widths_shape(op);
    lemma_opcode_byte_roundtrip(op, bytes[0]);
    reveal_with_fuel(operand_offset, 4);
    assert(decodes_from(bytes, instruction_len(ws)));
}

/// `d` is the instruction of `code` at `d.offset`, read with the debug map `runs`.
pub open spec fn decoded_matches(code: Seq<u8>, runs: Seq<(usize, usize, Span)>, d: DecodedInstruction) -> bool {
    let off = d.offset as int;
    let ws = opcode_widths(d.opcode);
    &&& 0 <= off < code.len()
    &&& spec_byte_opcode(code[off]) == Some(d.opcode)
    &&& d.opcode_byte == code[off]
    &&& d.operands@.len() == ws.len()
    &&& forall|i: int|
        0 <= i < ws.len() ==> {
            &&& (#[trigger] d.operands@[i]).width == ws[i]
            &&& d.operands@[i].value as nat == be_value(code, off + operand_offset(ws, i), ws[i] as nat)
            &&& d.operands@[i].kind == operand_kind(d.opcode, i, ws[i])
        }
    &&& runs_sorted(runs) ==> d.span == (match span_at(runs, off) {
        Some(sp) => sp,
        None => Span::zero(),
    })
}

/// Whether operand `operand_index` of `opcode` names a register.
pub fn is_register_operand(opcode: &OpCode, operand_index: usize) -> (b: bool)
    ensures
        b == spec_is_register_operand(*opcode, operand_index as int),
{
    match opcode {
        OpCode::LoadConstInt | OpCode::LoadConstFloat | OpCode::LoadString => operand_index == 0,
        OpCode::LoadNil | OpCode::LoadTrue | OpCode::LoadFalse => operand_index == 0,
        OpCode::LoadGlobal | OpCode::LogAddr => operand_index == 0,
        OpCode::StoreGlobal => operand_index == 1,
        // array operands: the array, destination and value slots are registers;
        // the four-byte slots are an element count or an index
        OpCode::ArrayNewFixed | OpCode::ArrayNewDynamic => operand_index == 0,
        OpCode::ArraySet => operand_index == 0 || operand_index == 2,
        OpCode::Halt => false,
        _ => true,
    }
}

/// Whether operand `operand_index` of `opcode` indexes the constant pool.
pub fn is_constant_index(opcode: &OpCode, operand_index: usize) -> (b: bool)
    ensures
        b == spec_is_constant_index(*opcode, operand_index as int),
{
    matches!((opcode, operand_index), (OpCode::LoadConstInt, 1) | (OpCode::LoadConstFloat, 1))
}

/// Whether operand `operand_index` of `opcode` indexes the string table.
pub fn is_string_index(opcode: &OpCode, operand_index: usize) -> (b: bool)
    ensures
        b == spec_is_string_index(*opcode, operand_index as int),
{
    matches!((opcode, operand_index), (OpCode::LoadString, 1))
}

/// Whether operand `operand_index` of `opcode` is a global variable's index.
pub fn is_global_index(opcode: &OpCode, operand_index: usize) -> (b: bool)
    ensures
        b == spec_is_global_index(*opcode, operand_index as int),
{
    matches!((opcode, operand_index), (OpCode::LoadGlobal, 1) | (OpCode::StoreGlobal, 0))
}

/// What `make` encodes reads back: an instruction whose operands are one or
/// two bytes wide, encoded with operands that fit their slots, is a single
/// decodable instruction at offset 0, and each operand slot holds the operand
/// given for it.
pub proof fn law_encode_then_decode(bytes: Seq<u8>, op: OpCode, operands: Seq<usize>)
    requires
        encodes(bytes, op, operands),
        narrow_operands(op),
        operands.len() == opcode_widths(op).len(),
        forall|i: int| 0 <= i < operands.len() ==> (#[trigger] operands[i]) < pow256(opcode_widths(op)[i] as nat),
    ensures
        decodes_from(bytes, 0),
        instruction_offsets(bytes, 0) == seq![0int],
        forall|i: int|
            0 <= i < operands.len() ==> #[trigger] be_value(
                bytes,
                operand_offset(opcode_widths(op), i),
                opcode_widths(op)[i] as nat,
            ) == operands[i],
{
    let ws = opcode_widths(op);
    lemma_widths_shape(op);
    lemma_opcode_byte_roundtrip(op, bytes[0]);
    assert(spec_byte_opcode(bytes[0]) == Some(op));
    assert(decodes_from(bytes, instruction_len(ws)));
    assert(instruction_offsets(bytes, instruction_len(ws)) == Seq::<int>::empty());
    assert(instruction_offsets(bytes, 0) =~= seq![0int]);
    assert forall|i: int| 0 <= i < operands.len() implies #[trigger] be_value(
        bytes,
        operand_offset(ws, i),
        ws[i] as nat,
    ) == operands[i] by {
        assert(be_value(bytes, operand_offset(ws, i), ws[i] as nat) == slot_value(ws, operands, i));
        vstd::arithmetic::div_mod::lemma_small_mod(operands[i] as nat, pow256(ws[i] as nat));
    }
}

/// Operands start no earlier the later they come.
proof fn lemma_operand_offset_mono(ws: Seq<usize>, i: int, j: int)
    requires
        0 <= i <= j,
    ensures
        operand_offset(ws, i) <= operand_offset(ws, j),
    decreases j - i,
{
    if i < j {
        lemma_operand_offset_mono(ws, i, j - 1);
    }
}

/// Whether `instructions` is a whole number of instructions that
/// `decode_instructions` can read: known opcodes, operands of one or two
/// bytes, nothing cut short.
pub fn is_decodable(instructions: &Instructions) -> (b: bool)
    ensures
        b == decodes_from(instructions@, 0),
{
    let ghost code = instructions@;
    let mut offset: usize = 0;
    while offset < instructions.len()
        invariant
            code == instructions@,
            offset <= code.len(),
            decodes_from(code, 0) == decodes_from(code, offset as int),
        decreases instructions.len() - offset,
    {
        let opcode = match decode_opcode(instructions[offset]) {
            Some(op) => op,
            None => {
                return false;
            },
        };
        let definition = OpCode::get_definition(opcode);
        let ghost ws = opcode_widths(opcode);
        proof {
            lemma_widths_shape(opcode);
        }
        let mut n: usize = 1;
        let mut narrow = true;
        let mut i: usize = 0;
        while i < definition.operands_width.len()
            invariant
                ws == definition.operands_width@,
                ws.len() <= 3,
                forall|j: int| 0 <= j < ws.len() ==> #[trigger] ws[j] == 1 || ws[j] == 2 || ws[j] == 4,
                0 <= i <= ws.len(),
                n == operand_offset(ws, i as int),
                n <= 1 + 4 * i,
                narrow == (forall|j: int| 0 <= j < i ==> #[trigger] ws[j] <= 2),
            decreases ws.len() - i,
        {
            let w = definition.operands_width[i];
            if w > 2 {
                narrow = false;
            }
            n = n + w;
            i = i + 1;
        }
        if !narrow || n > instructions.len() - offset {
            return false;
        }
        offset = offset + n;
    }
    true
}

/// Reads every instruction of `instructions` in order: its offset, the span
/// the debug map records for it, its opcode and its operands, each with what
/// it refers to.
pub fn decode_instructions(instructions: &Instructions, debug_info: &DebugInfo) -> (r: Vec<DecodedInstruction>)
    requires
        decodes_from(instructions@, 0),
    ensures
        r@.len() == instruction_offsets(instructions@, 0).len(),
        forall|k: int|
            0 <= k < r@.len() ==> (#[trigger] r@[k]).offset == instruction_offsets(instructions@, 0)[k]
                && decoded_matches(instructions@, debug_info.runs@, r@[k]),
{
    let ghost code = instructions@;
    let ghost mut done: Seq<int> = Seq::empty();
    let mut out: Vec<DecodedInstruction> = Vec::new();
    let mut offset: usize = 0;
    while offset < instructions.len()
        invariant
            code == instructions@,
            offset <= code.len(),
            decodes_from(code, offset as int),
            instruction_offsets(code, 0) == done + instruction_offsets(code, offset as int),
            out@.len() == done.len(),
            forall|k: int|
                0 <= k < out@.len() ==> (#[trigger] out@[k]).offset == done[k] && decoded_matches(
                    code,
                    debug_info.runs@,
                    out@[k],
                ),
        decreases instructions.len() - offset,
    {
        let opcode_byte = instructions[offset];
        let opcode = opcode_byte.to_opcode();
        let definition = OpCode::get_definition(opcode);
        let span = debug_info.get_span(offset);
        let ghost ws = opcode_widths(opcode);
        proof {
            lemma_widths_shape(opcode);
            reveal_with_fuel(operand_offset, 4);
        }
        let mut operands: Vec<DecodedOperand> = Vec::new();
        let mut cur: usize = offset + 1;
        let mut i: usize = 0;
        while i < definition.operands_width.len()
            invariant
                code == instructions@,
                ws == definition.operands_width@,
                ws == opcode_widths(opcode),
                ws.len() <= 3,
                narrow_operands(opcode),
                forall|j: int| 0 <= j < ws.len() ==> #[trigger] ws[j] == 1 || ws[j] == 2 || ws[j] == 4,
                offset + instruction_len(ws) <= code.len(),
                0 <= i <= ws.len(),
                cur == offset + operand_offset(ws, i as int),
                operands@.len() == i,
                forall|j: int|
                    0 <= j < i ==> {
                        &&& (#[trigger] operands@[j]).width == ws[j]
                        &&& operands@[j].value as nat == be_value(code, offset + operand_offset(ws, j), ws[j] as nat)
                        &&& operands@[j].kind == operand_kind(opcode, j, ws[j])
                    },
            decreases ws.len() - i,
        {
            proof {
                reveal_with_fuel(operand_offset, 4);
            }
            let width = definition.operands_width[i];
            proof {
                lemma_operand_offset_mono(ws, i as int + 1, ws.len() as int);
                assert(cur + width <= instructions.len());
            }
            if width == 1 {
                let v = read_uint8(instructions, cur);
                let kind = if is_register_operand(&opcode, i) {
                    OperandKind::Register
                } else {
                    OperandKind::Raw
                };
                operands.push(DecodedOperand { value: v as u16, width: 1, kind });
                cur = cur + 1;
            } else {
                assert(width == 2);
                let v = read_uint16(instructions, cur);
                let kind = if is_constant_index(&opcode, i) {
                    OperandKind::Constant
                } else if is_string_index(&opcode, i) {
                    OperandKind::StringIndex
                } else if is_global_index(&opcode, i) {
                    OperandKind::Global
                } else {
                    OperandKind::Raw
                };
                operands.push(DecodedOperand { value: v, width: 2, kind });
                cur = cur + 2;
            }
            i = i + 1;
        }
        let ghost n = instruction_len(ws);
        proof {
            assert(instruction_offsets(code, offset as int) == seq![offset as int] + instruction_offsets(
                code,
                offset + n,
            ));
            assert(done.push(offset as int) + instruction_offsets(code, offset + n) =~= done + instruction_offsets(
                code,
                offset as int,
            ));
        }
        out.push(DecodedInstruction { offset, span, opcode, opcode_byte, operands });
        proof {
            done = done.push(offset as int);
        }
        offset = cur;
    }
    proof {
        assert(done + instruction_offsets(code, offset as int) =~= done);
    }
    out
}

} // verus!
