use vstd::prelude::*;
use crate::bytecode::{OpCode, encodes, opcode_widths, instruction_len, law_make_then_read_uint8, lemma_opcode_byte_roundtrip, be_value, operand_offset, slot_value};
use crate::runtime_value::ValueView;
use crate::vm::{StepView, VmError, VmView, fits_i32, int_of, is_int_compare, law_int_arith_step, law_int_compare_step, set_reg, spec_step};
use crate::compiler_symbols::SymbolTable;
use crate::debug_info::{DebugInfo, add_all, consecutive, runs_end};
use crate::disassembler::{
    decodes_from, window_inside, narrow_operands, lemma_decode_append, lemma_window_reach, lemma_decode_patch,
    lemma_encoded_decodes,
};
use crate::errors::{ErrorCollector, VynError};
use crate::ir::{Label, VReg, VynIROC, VynIROpCode, spec_def, spec_uses};
use crate::register_allocator::{AllocModel, RegisterAllocator, model_allocate, model_free, pairs_map, read_later};
use crate::runtime_value::RuntimeValue;
use crate::ir_builder::{same_insts, same_op};
use crate::span::Span;

verus! {

/// The number of physical registers of the virtual machine.
pub const MAX_REGISTERS: u8 = 255;

/// The IR program handed to the bytecode compiler.
#[derive(Debug)]
pub struct VynIR {
    pub instructions: Vec<VynIROpCode>,
}

/// The compiler's output: bytecode, constant pool, string table, symbols and
/// the map from bytecode offsets to source spans.
#[derive(Debug)]
pub struct Bytecode {
    pub instructions: Vec<u8>,
    pub constants: Vec<RuntimeValue>,
    pub string_table: Vec<String>,
    pub symbol_table: SymbolTable,
    pub debug_info: DebugInfo,
}

/// The bytecode opcode an IR instruction compiles to; labels emit nothing.
pub open spec fn ir_opcode(inst: VynIROC) -> Option<OpCode> {
    match inst {
        VynIROC::LoadConstInt { .. } => Some(OpCode::LoadConstInt),
        VynIROC::LoadConstFloat { .. } => Some(OpCode::LoadConstFloat),
        VynIROC::LoadString { .. } => Some(OpCode::LoadString),
        VynIROC::LoadBool { value, .. } => Some(if value { OpCode::LoadTrue } else { OpCode::LoadFalse }),
        VynIROC::AddInt { .. } => Some(OpCode::AddInt),
        VynIROC::AddFloat { .. } => Some(OpCode::AddFloat),
        VynIROC::SubInt { .. } => Some(OpCode::SubtractInt),
        VynIROC::SubFloat { .. } => Some(OpCode::SubtractFloat),
        VynIROC::MulInt { .. } => Some(OpCode::MultiplyInt),
        VynIROC::MulFloat { .. } => Some(OpCode::MultiplyFloat),
        VynIROC::DivInt { .. } => Some(OpCode::DivideInt),
        VynIROC::DivFloat { .. } => Some(OpCode::DivideFloat),
        VynIROC::ExpInt { .. } => Some(OpCode::ExponentInt),
        VynIROC::ExpFloat { .. } => Some(OpCode::ExponentFloat),
        VynIROC::CompareEqual { .. } => Some(OpCode::Equal),
        VynIROC::CompareNotEqual { .. } => Some(OpCode::NotEqual),
        VynIROC::CompareLessInt { .. } => Some(OpCode::LessInt),
        VynIROC::CompareLessFloat { .. } => Some(OpCode::LessFloat),
        VynIROC::CompareLessEqualInt { .. } => Some(OpCode::LessEqualInt),
        VynIROC::CompareLessEqualFloat { .. } => Some(OpCode::LessEqualFloat),
        VynIROC::CompareGreaterInt { .. } => Some(OpCode::GreaterInt),
        VynIROC::CompareGreaterFloat { .. } => Some(OpCode::GreaterFloat),
        VynIROC::CompareGreaterEqualInt { .. } => Some(OpCode::GreaterEqualInt),
        VynIROC::CompareGreaterEqualFloat { .. } => Some(OpCode::GreaterEqualFloat),
        VynIROC::JumpIfFalse { .. } => Some(OpCode::JumpIfFalse),
        VynIROC::JumpUncond { .. } => Some(OpCode::JumpUncond),
        VynIROC::Label(..) => None,
        VynIROC::Move { .. } => Some(OpCode::Move),
        VynIROC::LogAddr { .. } => Some(OpCode::LogAddr),
        VynIROC::Halt => Some(OpCode::Halt),
    }
}

/// The virtual registers an instruction reads through the allocator before
/// it allocates its destination (a move reads its destination as well).
pub open spec fn ir_reads(inst: VynIROC) -> Seq<VReg> {
    match inst {
        VynIROC::Move { dest, src } => seq![dest, src],
        _ => spec_uses(inst),
    }
}

/// The destination an instruction allocates, if any (a move does not).
pub open spec fn ir_allocates(inst: VynIROC) -> Option<VReg> {
    match inst {
        VynIROC::Move { .. } => None,
        _ => spec_def(inst),
    }
}

/// The registers an instruction frees after it is compiled, in order: what
/// it reads (a move frees nothing).
pub open spec fn ir_frees(inst: VynIROC) -> Seq<VReg> {
    match inst {
        VynIROC::Move { .. } => Seq::empty(),
        _ => spec_uses(inst),
    }
}

/// Freeing each register of `vs` in turn.
pub open spec fn free_all(m: AllocModel, vs: Seq<VReg>, live: Set<VReg>) -> AllocModel
    decreases vs.len(),
{
    if vs.len() == 0 {
        m
    } else {
        model_free(free_all(m, vs.drop_last(), live), vs.last(), live)
    }
}

proof fn lemma_free_one(m: AllocModel, v: VReg, live: Set<VReg>)
    ensures
        free_all(m, seq![v], live) == model_free(m, v, live),
{
    assert(seq![v].drop_last() =~= Seq::<VReg>::empty());
    assert(free_all(m, Seq::<VReg>::empty(), live) == m);
    assert(seq![v].last() == v);
}

proof fn lemma_free_two(m: AllocModel, a: VReg, b: VReg, live: Set<VReg>)
    ensures
        free_all(m, seq![a, b], live) == model_free(model_free(m, a, live), b, live),
{
    assert(seq![a, b].drop_last() =~= seq![a]);
    assert(seq![a, b].last() == b);
    lemma_free_one(m, a, live);
}

/// What compiling `inst` does to the allocator, with `live_now` the
/// registers live after it and `live_next` those live after the next
/// instruction: allocate its destination, then free what it read. `None`
/// when the destination cannot be allocated.
pub open spec fn model_inst(m: AllocModel, inst: VynIROC, live_now: Set<VReg>, live_next: Set<VReg>, max: u8) -> Option<AllocModel> {
    let m1 = match ir_allocates(inst) {
        Some(d) => model_allocate(m, d, live_now, max),
        None => Some(m),
    };
    match m1 {
        Some(m2) => Some(free_all(m2, ir_frees(inst), live_next)),
        None => None,
    }
}

/// The virtual registers live after instruction `k` of `insts`.
pub open spec fn live_after(insts: Seq<VynIROpCode>, k: int) -> Set<VReg> {
    Set::new(|v: VReg| read_later(insts, k, v))
}

/// Every register `inst` reads has a physical register under `m`.
pub open spec fn reads_ok(m: AllocModel, inst: VynIROC) -> bool {
    forall|v: VReg| #[trigger] ir_reads(inst).contains(v) ==> pairs_map(m.pairs).contains_key(v)
}

/// Compiling instructions `k` on from allocator state `m`: the index of the
/// first one that cannot be compiled (a read without a register, or a
/// destination that cannot be allocated), or `None` when all can.
pub open spec fn compile_failure(insts: Seq<VynIROpCode>, m: AllocModel, k: int, max: u8) -> Option<int>
    decreases insts.len() - k,
{
    if 0 <= k < insts.len() {
        if !reads_ok(m, insts[k].node) {
            Some(k)
        } else {
            match model_inst(m, insts[k].node, live_after(insts, k), live_after(insts, k + 1), max) {
                Some(m2) => compile_failure(insts, m2, k + 1, max),
                None => Some(k),
            }
        }
    } else {
        None
    }
}

/// Compiling `insts` with a fresh compiler fails at some instruction.
pub open spec fn compile_fails(insts: Seq<VynIROpCode>) -> bool {
    compile_failure(insts, AllocModel { pairs: Seq::empty(), used: Set::empty() }, 0, MAX_REGISTERS) is Some
}

/// Instructions alike up to the text of their literals use the same
/// registers.
pub proof fn lemma_same_op_regs(x: VynIROpCode, y: VynIROpCode)
    requires
        same_op(x, y),
    ensures
        spec_def(x.node) == spec_def(y.node),
        spec_uses(x.node) == spec_uses(y.node),
        ir_reads(x.node) == ir_reads(y.node),
        ir_allocates(x.node) == ir_allocates(y.node),
        ir_frees(x.node) == ir_frees(y.node),
{
}

/// Liveness depends only on the registers instructions use.
pub proof fn lemma_read_later_same(a: Seq<VynIROpCode>, b: Seq<VynIROpCode>, k: int, v: VReg)
    requires
        same_insts(a, b),
        0 <= k,
    ensures
        read_later(a, k, v) == read_later(b, k, v),
{
    if read_later(a, k, v) {
        let j = choose|j: int| k < j < a.len() && #[trigger] spec_uses(a[j].node).contains(v) && forall|m: int|
            k < m < j ==> #[trigger] spec_def(a[m].node) != Some(v);
        lemma_same_op_regs(a[j], b[j]);
        assert(spec_uses(b[j].node).contains(v));
        assert forall|m: int| k < m < j implies #[trigger] spec_def(b[m].node) != Some(v) by {
            lemma_same_op_regs(a[m], b[m]);
            assert(spec_def(a[m].node) != Some(v));
        }
    }
    if read_later(b, k, v) {
        let j = choose|j: int| k < j < b.len() && #[trigger] spec_uses(b[j].node).contains(v) && forall|m: int|
            k < m < j ==> #[trigger] spec_def(b[m].node) != Some(v);
        lemma_same_op_regs(a[j], b[j]);
        assert(spec_uses(a[j].node).contains(v));
        assert forall|m: int| k < m < j implies #[trigger] spec_def(a[m].node) != Some(v) by {
            lemma_same_op_regs(a[m], b[m]);
            assert(spec_def(b[m].node) != Some(v));
        }
    }
}

/// Whether compilation fails, and where, depends only on the registers the
/// instructions use, not on the text of their literals.
pub proof fn lemma_compile_failure_same(a: Seq<VynIROpCode>, b: Seq<VynIROpCode>, m: AllocModel, k: int, max: u8)
    requires
        same_insts(a, b),
    ensures
        compile_failure(a, m, k, max) == compile_failure(b, m, k, max),
    decreases a.len() - k,
{
    if 0 <= k < a.len() {
        lemma_same_op_regs(a[k], b[k]);
        assert(live_after(a, k) =~= live_after(b, k)) by {
            assert forall|v: VReg| #[trigger] live_after(a, k).contains(v) == live_after(b, k).contains(v) by {
                lemma_read_later_same(a, b, k, v);
            }
        }
        assert(live_after(a, k + 1) =~= live_after(b, k + 1)) by {
            assert forall|v: VReg| #[trigger] live_after(a, k + 1).contains(v) == live_after(b, k + 1).contains(v) by {
                lemma_read_later_same(a, b, k + 1, v);
            }
        }
        assert(reads_ok(m, a[k].node) == reads_ok(m, b[k].node));
        assert(model_inst(m, a[k].node, live_after(a, k), live_after(a, k + 1), max) == model_inst(
            m, b[k].node, live_after(b, k), live_after(b, k + 1), max));
        match model_inst(m, a[k].node, live_after(a, k), live_after(a, k + 1), max) {
            Some(m2) => {
                lemma_compile_failure_same(a, b, m2, k + 1, max);
            },
            None => {},
        }
    }
}

/// The operands the compiled instruction carries, given the physical
/// registers before (`before`) and after (`after`) allocation and the pool
/// index of its constant or string.
pub open spec fn ir_operands(inst: VynIROC, before: Map<VReg, u8>, after: Map<VReg, u8>, pool: nat) -> Seq<usize> {
    match inst {
        VynIROC::LoadConstInt { dest, .. } => seq![after[dest] as usize, pool as usize],
        VynIROC::LoadConstFloat { dest, .. } => seq![after[dest] as usize, pool as usize],
        VynIROC::LoadString { dest, .. } => seq![after[dest] as usize, pool as usize],
        VynIROC::LoadBool { dest, .. } => seq![after[dest] as usize],
        VynIROC::JumpIfFalse { condition_reg, .. } => seq![before[condition_reg] as usize, 0usize],
        VynIROC::JumpUncond { .. } => seq![0usize],
        VynIROC::Label(..) => Seq::empty(),
        VynIROC::Move { dest, src } => seq![before[dest] as usize, before[src] as usize],
        VynIROC::LogAddr { addr } => seq![before[addr] as usize],
        VynIROC::Halt => Seq::empty(),
        VynIROC::AddInt { dest, left, right }
        | VynIROC::AddFloat { dest, left, right }
        | VynIROC::SubInt { dest, left, right }
        | VynIROC::SubFloat { dest, left, right }
        | VynIROC::MulInt { dest, left, right }
        | VynIROC::MulFloat { dest, left, right }
        | VynIROC::DivInt { dest, left, right }
        | VynIROC::DivFloat { dest, left, right }
        | VynIROC::ExpInt { dest, left, right }
        | VynIROC::ExpFloat { dest, left, right }
        | VynIROC::CompareEqual { dest, left, right }
        | VynIROC::CompareNotEqual { dest, left, right }
        | VynIROC::CompareLessInt { dest, left, right }
        | VynIROC::CompareLessFloat { dest, left, right }
        | VynIROC::CompareLessEqualInt { dest, left, right }
        | VynIROC::CompareLessEqualFloat { dest, left, right }
        | VynIROC::CompareGreaterInt { dest, left, right }
        | VynIROC::CompareGreaterFloat { dest, left, right }
        | VynIROC::CompareGreaterEqualInt { dest, left, right }
        | VynIROC::CompareGreaterEqualFloat { dest, left, right } => seq![
            after[dest] as usize,
            before[left] as usize,
            before[right] as usize,
        ],
    }
}

/// `pool[i]` is the first entry equal to `v`, or `v` was appended at the end.
pub open spec fn interned<T>(old_pool: Seq<T>, new_pool: Seq<T>, v: T, i: nat) -> bool {
    ||| (new_pool == old_pool && i < old_pool.len() && old_pool[i as int] == v && forall|j: int|
        0 <= j < i ==> old_pool[j] != v)
    ||| (new_pool == old_pool.push(v) && i == old_pool.len() && forall|j: int|
        0 <= j < old_pool.len() ==> old_pool[j] != v)
}


/// `bytes` is what compiling `inst` appended, given the allocation before
/// and after it and the constant pool and string table before and after.
pub open spec fn compiled_as(
    inst: VynIROC,
    bytes: Seq<u8>,
    before: Map<VReg, u8>,
    after: Map<VReg, u8>,
    old_consts: Seq<crate::runtime_value::ValueView>,
    new_consts: Seq<crate::runtime_value::ValueView>,
    old_strings: Seq<Seq<char>>,
    new_strings: Seq<Seq<char>>,
) -> bool {
    match inst {
        VynIROC::LoadConstInt { value, .. } => {
            &&& new_strings == old_strings
            &&& exists|i: nat| #[trigger] interned(old_consts, new_consts, crate::runtime_value::ValueView::Int(value), i)
                && encodes(bytes, OpCode::LoadConstInt, ir_operands(inst, before, after, i % 65536))
        },
        VynIROC::LoadConstFloat { value, .. } => {
            &&& new_strings == old_strings
            &&& exists|i: nat| #[trigger] interned(old_consts, new_consts, crate::runtime_value::ValueView::Float(value@), i)
                && encodes(bytes, OpCode::LoadConstFloat, ir_operands(inst, before, after, i % 65536))
        },
        VynIROC::LoadString { value, .. } => {
            &&& new_consts == old_consts
            &&& exists|i: nat| #[trigger] interned(old_strings, new_strings, value@, i)
                && encodes(bytes, OpCode::LoadString, ir_operands(inst, before, after, i))
        },
        VynIROC::Label(..) => {
            &&& bytes == Seq::<u8>::empty()
            &&& new_consts == old_consts
            &&& new_strings == old_strings
        },
        _ => {
            &&& encodes(bytes, ir_opcode(inst)->Some_0, ir_operands(inst, before, after, 0))
            &&& new_consts == old_consts
            &&& new_strings == old_strings
        },
    }
}

/// Every opcode an IR instruction compiles to has operands of one or two bytes.
proof fn lemma_ir_opcode_narrow(inst: VynIROC)
    requires
        ir_opcode(inst) is Some,
    ensures
        narrow_operands(ir_opcode(inst)->Some_0),
{
    let op = ir_opcode(inst)->Some_0;
    assert forall|i: int| 0 <= i < opcode_widths(op).len() implies #[trigger] opcode_widths(op)[i] <= 2 by {
        assert(opcode_widths(op)[i] <= 2);
    }
}

/// What compiling one IR instruction appends reads whole, and the label
/// operand of a jump is an operand window.
proof fn lemma_compiled_decodes(
    inst: VynIROC,
    bytes: Seq<u8>,
    before: Map<VReg, u8>,
    after: Map<VReg, u8>,
    old_consts: Seq<crate::runtime_value::ValueView>,
    new_consts: Seq<crate::runtime_value::ValueView>,
    old_strings: Seq<Seq<char>>,
    new_strings: Seq<Seq<char>>,
)
    requires
        compiled_as(inst, bytes, before, after, old_consts, new_consts, old_strings, new_strings),
    ensures
        decodes_from(bytes, 0),
        inst is JumpIfFalse ==> window_inside(bytes, 0, 2),
        inst is JumpUncond ==> window_inside(bytes, 0, 1),
{
    match inst {
        VynIROC::LoadConstInt { value, .. } => {
            let i = choose|i: nat| #[trigger] interned(old_consts, new_consts, crate::runtime_value::ValueView::Int(value), i)
                && encodes(bytes, OpCode::LoadConstInt, ir_operands(inst, before, after, i % 65536));
            lemma_ir_opcode_narrow(inst);
            lemma_encoded_decodes(bytes, OpCode::LoadConstInt, ir_operands(inst, before, after, i % 65536));
        },
        VynIROC::LoadConstFloat { value, .. } => {
            let i = choose|i: nat| #[trigger] interned(old_consts, new_consts, crate::runtime_value::ValueView::Float(value@), i)
                && encodes(bytes, OpCode::LoadConstFloat, ir_operands(inst, before, after, i % 65536));
            lemma_ir_opcode_narrow(inst);
            lemma_encoded_decodes(bytes, OpCode::LoadConstFloat, ir_operands(inst, before, after, i % 65536));
        },
        VynIROC::LoadString { value, .. } => {
            let i = choose|i: nat| #[trigger] interned(old_strings, new_strings, value@, i)
                && encodes(bytes, OpCode::LoadString, ir_operands(inst, before, after, i));
            lemma_ir_opcode_narrow(inst);
            lemma_encoded_decodes(bytes, OpCode::LoadString, ir_operands(inst, before, after, i));
        },
        VynIROC::Label(..) => {},
        _ => {
            lemma_ir_opcode_narrow(inst);
            lemma_encoded_decodes(bytes, ir_opcode(inst)->Some_0, ir_operands(inst, before, after, 0));
        },
    }
}

/// The offset recorded last for `label`, if any.
fn find_label(positions: &Vec<(Label, usize)>, label: Label) -> (r: Option<usize>)
    ensures
        r == label_lookup(positions@, label),
{
    let mut k: usize = positions.len();
    proof {
        assert(positions@.subrange(0, k as int) =~= positions@);
    }
    while k > 0
        invariant
            0 <= k <= positions@.len(),
            label_lookup(positions@, label) == label_lookup(positions@.subrange(0, k as int), label),
        decreases k,
    {
        let (l, pos) = positions[k - 1];
        proof {
            let s = positions@.subrange(0, k as int);
            assert(s.drop_last() =~= positions@.subrange(0, k - 1));
        }
        if l == label {
            return Some(pos);
        }
        k = k - 1;
    }
    proof {
        assert(positions@.subrange(0, 0) =~= Seq::<(Label, usize)>::empty());
    }
    None
}

/// Compiles IR into bytecode: assigns physical registers, fills the constant
/// pool and string table, records spans, and backpatches jumps.
pub struct VynCompiler {
    instructions: Vec<u8>,
    constants: Vec<RuntimeValue>,
    debug_info: DebugInfo,
    string_table: Vec<String>,
    symbol_table: SymbolTable,
    register_allocator: RegisterAllocator,
    error_collector: ErrorCollector,
}

/// The views of a sequence of values.
pub open spec fn value_views(s: Seq<RuntimeValue>) -> Seq<crate::runtime_value::ValueView> {
    s.map_values(|v: RuntimeValue| v@)
}

/// The views of a sequence of strings.
pub open spec fn string_views(s: Seq<String>) -> Seq<Seq<char>> {
    s.map_values(|v: String| v@)
}

/// The position of the last entry for `label`, if any.
pub open spec fn label_lookup(s: Seq<(Label, usize)>, label: Label) -> Option<usize>
    decreases s.len(),
{
    if s.len() == 0 {
        None
    } else if s.last().0 == label {
        Some(s.last().1)
    } else {
        label_lookup(s.drop_last(), label)
    }
}

/// The byte strings of `chunks` one after another.
pub open spec fn concat(chunks: Seq<Seq<u8>>) -> Seq<u8>
    decreases chunks.len(),
{
    if chunks.len() == 0 {
        Seq::empty()
    } else {
        concat(chunks.drop_last()) + chunks.last()
    }
}

/// `chunks[k]` is what compiling instruction `k` of `insts` appended, with the
/// allocation, constant pool and string table going from entry `k` to entry
/// `k + 1` of `allocs`, `consts` and `strs`.
pub open spec fn compiled_chunks(
    insts: Seq<VynIROpCode>,
    chunks: Seq<Seq<u8>>,
    allocs: Seq<Map<VReg, u8>>,
    consts: Seq<Seq<crate::runtime_value::ValueView>>,
    strs: Seq<Seq<Seq<char>>>,
) -> bool {
    &&& chunks.len() <= insts.len()
    &&& allocs.len() == chunks.len() + 1
    &&& consts.len() == chunks.len() + 1
    &&& strs.len() == chunks.len() + 1
    &&& forall|k: int| 0 <= k < chunks.len() ==> #[trigger] compiled_as(
        insts[k].node, chunks[k], allocs[k], allocs[k + 1], consts[k], consts[k + 1], strs[k], strs[k + 1])
}

/// The jumps to patch in code built from `chunks` after `base` bytes: for
/// each jump instruction, where its target offset goes and its label.
pub open spec fn patches_of(insts: Seq<VynIROpCode>, chunks: Seq<Seq<u8>>, base: int) -> Seq<(usize, Label)>
    decreases chunks.len(),
{
    if chunks.len() == 0 {
        Seq::empty()
    } else {
        let prev = patches_of(insts, chunks.drop_last(), base);
        let start = base + concat(chunks.drop_last()).len();
        match insts[chunks.len() - 1].node {
            VynIROC::JumpIfFalse { label, .. } => prev.push(((start + 2) as usize, label)),
            VynIROC::JumpUncond { label } => prev.push(((start + 1) as usize, label)),
            _ => prev,
        }
    }
}

/// Where each label instruction among `chunks` (after `base` bytes) stands.
pub open spec fn labels_of(insts: Seq<VynIROpCode>, chunks: Seq<Seq<u8>>, base: int) -> Seq<(Label, usize)>
    decreases chunks.len(),
{
    if chunks.len() == 0 {
        Seq::empty()
    } else {
        let prev = labels_of(insts, chunks.drop_last(), base);
        let start = base + concat(chunks.drop_last()).len();
        match insts[chunks.len() - 1].node {
            VynIROC::Label(label) => prev.push((label, start as usize)),
            _ => prev,
        }
    }
}

/// Byte `k` lies in the operand window of a jump whose label has a position.
pub open spec fn in_patched_window(patches: Seq<(usize, Label)>, labels: Seq<(Label, usize)>, k: int) -> bool {
    exists|p: int|
        0 <= p < patches.len() && label_lookup(labels, (#[trigger] patches[p]).1) is Some && patches[p].0 <= k
            < patches[p].0 + 2
}

/// `code` is `unpatched` with the target offset of each jump whose label has
/// a position written into the jump's operand window.
pub open spec fn jumps_patched(
    unpatched: Seq<u8>,
    code: Seq<u8>,
    patches: Seq<(usize, Label)>,
    labels: Seq<(Label, usize)>,
) -> bool {
    &&& code.len() == unpatched.len()
    &&& forall|k: int| 0 <= k < code.len() && !in_patched_window(patches, labels, k) ==> #[trigger] code[k] == unpatched[k]
    &&& forall|p: int|
        0 <= p < patches.len() && label_lookup(labels, (#[trigger] patches[p]).1) is Some ==> written_le(
            code, patches[p].0 as int, label_lookup(labels, patches[p].1)->Some_0)
}

/// The two bytes of `code` at `at` hold `target`, cut to 16 bits, low byte
/// first.
pub open spec fn written_le(code: Seq<u8>, at: int, target: usize) -> bool {
    &&& code[at] == target as nat % 256
    &&& code[at + 1] == (target as nat / 256) % 256
}

impl VynCompiler {
    /// Which physical register each virtual register holds.
    pub closed spec fn allocation(&self) -> Map<VReg, u8> {
        self.register_allocator.alloc_view()
    }

    /// The register allocator's pairs and registers in use.
    pub closed spec fn alloc_model(&self) -> AllocModel {
        self.register_allocator.model()
    }

    /// The number of physical registers.
    pub closed spec fn max_registers(&self) -> u8 {
        self.register_allocator.max_regs()
    }

    /// The constant pool, by values.
    pub closed spec fn pool(&self) -> Seq<crate::runtime_value::ValueView> {
        value_views(self.constants@)
    }

    /// The string table, by characters.
    pub closed spec fn strings(&self) -> Seq<Seq<char>> {
        string_views(self.string_table@)
    }

    /// The compiler's own invariant.
    pub closed spec fn wf(&self) -> bool {
        &&& self.register_allocator.wf()
        &&& self.symbol_table.wf()
        &&& runs_end(self.debug_info.runs@) <= self.instructions@.len()
    }

    /// The bytecode emitted so far.
    pub closed spec fn code(&self) -> Seq<u8> {
        self.instructions@
    }

    /// The errors recorded so far.
    pub closed spec fn errors(&self) -> Seq<VynError> {
        self.error_collector.errors@
    }

    /// A compiler with nothing emitted.
    pub fn new() -> (c: VynCompiler)
        ensures
            c.wf(),
            c.code() == Seq::<u8>::empty(),
            c.errors() == Seq::<VynError>::empty(),
            c.pool_len() == 0,
            c.strings_len() == 0,
            c.alloc_model() == (AllocModel { pairs: Seq::empty(), used: Set::empty() }),
            c.max_registers() == MAX_REGISTERS,
    {
        VynCompiler {
            instructions: Vec::new(),
            constants: Vec::new(),
            string_table: Vec::new(),
            symbol_table: SymbolTable::new(),
            debug_info: DebugInfo::new(),
            register_allocator: RegisterAllocator::new(MAX_REGISTERS),
            error_collector: ErrorCollector::new(),
        }
    }

    /// The pool index of `value`: the first equal entry, or a new one.
    /// The index is returned cut to 16 bits.
    fn add_constant(&mut self, value: RuntimeValue) -> (r: u16)
        requires
            old(self).constants@.len() < usize::MAX,
        ensures
            exists|i: nat| interned(value_views(old(self).constants@), value_views(final(self).constants@), value@, i)
                && r == i % 65536,
            final(self).constants@.len() <= old(self).constants@.len() + 1,
            final(self).instructions == old(self).instructions,
            final(self).debug_info == old(self).debug_info,
            final(self).string_table == old(self).string_table,
            final(self).symbol_table == old(self).symbol_table,
            final(self).register_allocator == old(self).register_allocator,
            final(self).error_collector == old(self).error_collector,
    {
        let mut i: usize = 0;
        while i < self.constants.len()
            invariant
                0 <= i <= self.constants@.len(),
                forall|j: int| 0 <= j < i ==> (#[trigger] self.constants@[j])@ != value@,
            decreases self.constants@.len() - i,
        {
            if crate::runtime_value::runtime_value_eq(&self.constants[i], &value) {
                proof {
                    let vs = value_views(self.constants@);
                    assert(vs[i as int] == value@);
                    assert forall|j: int| 0 <= j < i implies vs[j] != value@ by {
                        assert(vs[j] == self.constants@[j]@);
                    }
                    assert(interned(vs, vs, value@, i as nat));
                }
                return (i % 65536) as u16;
            }
            i = i + 1;
        }
        let ghost before = self.constants@;
        self.constants.push(value);
        proof {
            let vs = value_views(before);
            assert(value_views(self.constants@) =~= vs.push(value@));
            assert forall|j: int| 0 <= j < vs.len() implies vs[j] != value@ by {
                assert(vs[j] == before[j]@);
            }
            assert(interned(vs, value_views(self.constants@), value@, before.len() as nat));
        }
        ((self.constants.len() - 1) % 65536) as u16
    }

    /// The string table index of `string`: the first equal entry, or a new one.
    fn intern_string(&mut self, string: String) -> (r: usize)
        requires
            old(self).string_table@.len() < usize::MAX,
        ensures
            interned(string_views(old(self).string_table@), string_views(final(self).string_table@), string@, r as nat),
            final(self).string_table@.len() <= old(self).string_table@.len() + 1,
            final(self).instructions == old(self).instructions,
            final(self).debug_info == old(self).debug_info,
            final(self).constants == old(self).constants,
            final(self).symbol_table == old(self).symbol_table,
            final(self).register_allocator == old(self).register_allocator,
            final(self).error_collector == old(self).error_collector,
    {
        let mut i: usize = 0;
        while i < self.string_table.len()
            invariant
                0 <= i <= self.string_table@.len(),
                forall|j: int| 0 <= j < i ==> (#[trigger] self.string_table@[j])@ != string@,
            decreases self.string_table@.len() - i,
        {
            if self.string_table[i].eq(&string) {
                proof {
                    let vs = string_views(self.string_table@);
                    assert(vs[i as int] == string@);
                    assert forall|j: int| 0 <= j < i implies vs[j] != string@ by {
                        assert(vs[j] == self.string_table@[j]@);
                    }
                }
                return i;
            }
            i = i + 1;
        }
        let ghost before = self.string_table@;
        let ghost sv = string@;
        self.string_table.push(string);
        proof {
            let vs = string_views(before);
            assert(string_views(self.string_table@) =~= vs.push(sv));
            assert forall|j: int| 0 <= j < vs.len() implies vs[j] != sv by {
                assert(vs[j] == before[j]@);
            }
        }
        self.string_table.len() - 1
    }

    /// Appends the encoding of `opcode` with `operands`, recording `span` for
    /// each of its bytes in turn; returns where it starts.
    fn emit(&mut self, opcode: OpCode, operands: Vec<usize>, span: Span) -> (pos: usize)
        requires
            old(self).wf(),
            operands.len() <= opcode_widths(opcode).len(),
            old(self).instructions@.len() + 8 < usize::MAX,
        ensures
            final(self).wf(),
            pos == old(self).instructions@.len(),
            final(self).instructions@.subrange(0, pos as int) == old(self).instructions@,
            encodes(final(self).instructions@.skip(pos as int), opcode, operands@),
            final(self).instructions@.len() == old(self).instructions@.len() + instruction_len(opcode_widths(opcode)),
            final(self).instructions@.len() <= old(self).instructions@.len() + 7,
            final(self).constants == old(self).constants,
            final(self).string_table == old(self).string_table,
            final(self).symbol_table == old(self).symbol_table,
            final(self).register_allocator == old(self).register_allocator,
            final(self).error_collector == old(self).error_collector,
            final(self).debug_info.runs@ == add_all(old(self).debug_info.runs@, consecutive(
                pos, instruction_len(opcode_widths(opcode)) as nat, span)),
    {
        let pos = self.instructions.len();
        proof {
            assert(consecutive(pos, 0, span) =~= Seq::<(usize, Span)>::empty());
        }
        let inst = OpCode::make(opcode, operands);
        proof {
            crate::bytecode::lemma_widths_shape(opcode);
        }
        let ghost start = self.instructions@;
        let mut k: usize = 0;
        while k < inst.len()
            invariant
                inst@.len() <= 7,
                start.len() + 8 < usize::MAX,
                pos == start.len(),
                0 <= k <= inst@.len(),
                self.instructions@ == start + inst@.subrange(0, k as int),
                runs_end(self.debug_info.runs@) <= self.instructions@.len(),
                self.register_allocator.wf(),
                self.symbol_table.wf(),
                self.constants == old(self).constants,
                self.string_table == old(self).string_table,
                self.symbol_table == old(self).symbol_table,
                self.register_allocator == old(self).register_allocator,
                self.error_collector == old(self).error_collector,
                self.debug_info.runs@ == add_all(old(self).debug_info.runs@, consecutive(pos, k as nat, span)),
            decreases inst@.len() - k,
        {
            self.instructions.push(inst[k]);
            let last = self.instructions.len() - 1;
            self.debug_info.add_span(last, span);
            proof {
                assert(inst@.subrange(0, k + 1) =~= inst@.subrange(0, k as int).push(inst@[k as int]));
                let e = consecutive(pos, (k + 1) as nat, span);
                assert(e.drop_last() =~= consecutive(pos, k as nat, span));
                assert(e.last() == (last, span));
            }
            k = k + 1;
        }
        proof {
            assert(inst@.subrange(0, inst@.len() as int) =~= inst@);
            assert(self.instructions@.subrange(0, pos as int) =~= start);
            assert(self.instructions@.skip(pos as int) =~= inst@);
        }
        pos
    }

    /// Writes `target`, cut to 16 bits, little-endian (low byte first) at
    /// `position`. Jump targets are the one operand written this way: every
    /// other operand is big-endian, so a reader that takes the jump operand as
    /// big-endian (the disassembler does) sees its two bytes swapped.
    fn patch_jump(&mut self, position: usize, target: usize)
        requires
            position + 2 <= old(self).instructions@.len(),
        ensures
            final(self).instructions@.len() == old(self).instructions@.len(),
            final(self).instructions@[position as int] == target as nat % 256,
            final(self).instructions@[position + 1] == (target as nat / 256) % 256,
            forall|k: int| 0 <= k < old(self).instructions@.len() && !(position <= k < position + 2)
                ==> final(self).instructions@[k] == old(self).instructions@[k],
            final(self).debug_info == old(self).debug_info,
            final(self).constants == old(self).constants,
            final(self).string_table == old(self).string_table,
            final(self).symbol_table == old(self).symbol_table,
            final(self).register_allocator == old(self).register_allocator,
            final(self).error_collector == old(self).error_collector,
    {
        let t: u16 = (target % 65536) as u16;
        crate::bytecode::le_write_u16(&mut self.instructions, position, t);
        proof {
            assert(t as nat / 256 == (target as nat / 256) % 256) by (nonlinear_arith)
                requires
                    t as nat == target as nat % 65536,
            ;
        }
    }

    /// The physical register for `virtual_reg` at instruction `inst_idx`;
    /// a failed allocation is recorded as an error.
    fn allocate(&mut self, virtual_reg: VReg, inst_idx: usize, span: Span) -> (r: Option<u8>)
        requires
            old(self).wf(),
            inst_idx < old(self).register_allocator.live_len(),
        ensures
            final(self).wf(),
            final(self).instructions == old(self).instructions,
            final(self).debug_info == old(self).debug_info,
            final(self).constants == old(self).constants,
            final(self).string_table == old(self).string_table,
            final(self).symbol_table == old(self).symbol_table,
            final(self).register_allocator.live_len() == old(self).register_allocator.live_len(),
            forall|i: int, v: VReg| final(self).register_allocator.is_live(i, v) == old(self).register_allocator.is_live(i, v),
            r is None <==> (!old(self).register_allocator.alloc_view().contains_key(virtual_reg)
                && !old(self).register_allocator.has_free() && !old(self).register_allocator.has_spillable(inst_idx as int)),
            r is None ==> final(self).error_collector.errors@ == old(self).error_collector.errors@.push(
                VynError::RegisterOverflow { span }),
            r is None ==> final(self).register_allocator.alloc_view() == old(self).register_allocator.alloc_view(),
            r is Some ==> final(self).error_collector == old(self).error_collector,
            r matches Some(p) ==> final(self).register_allocator.alloc_view().contains_key(virtual_reg)
                && final(self).register_allocator.alloc_view()[virtual_reg] == p,
            final(self).register_allocator.max_regs() == old(self).register_allocator.max_regs(),
            forall|i: int| #[trigger] final(self).register_allocator.live_set(i) == old(self).register_allocator.live_set(i),
            match model_allocate(old(self).register_allocator.model(), virtual_reg,
                old(self).register_allocator.live_set(inst_idx as int), old(self).register_allocator.max_regs()) {
                Some(m) => r is Some && final(self).register_allocator.model() == m,
                None => r is None,
            },
    {
        let r = match self.register_allocator.allocate(virtual_reg, inst_idx, span) {
            Ok(p) => Some(p),
            Err(e) => {
                self.error_collector.add(e);
                None
            },
        };
        proof {
            assert forall|i: int| #[trigger] self.register_allocator.live_set(i) == old(self).register_allocator.live_set(i) by {
                assert(self.register_allocator.live_set(i) =~= old(self).register_allocator.live_set(i));
            }
        }
        r
    }

    /// The physical register already assigned to `virtual_reg`.
    fn get(&self, virtual_reg: VReg) -> (r: u8)
        requires
            self.wf(),
            self.register_allocator.alloc_view().contains_key(virtual_reg),
        ensures
            r == self.register_allocator.alloc_view()[virtual_reg],
    {
        match self.register_allocator.get(virtual_reg) {
            Ok(p) => p,
            Err(_) => 0,
        }
    }

    /// Releases the physical register of `virtual_reg` when it is dead after
    /// instruction `inst_idx`.
    fn free(&mut self, virtual_reg: VReg, inst_idx: usize)
        requires
            old(self).wf(),
            inst_idx < old(self).register_allocator.live_len(),
        ensures
            final(self).wf(),
            final(self).instructions == old(self).instructions,
            final(self).debug_info == old(self).debug_info,
            final(self).constants == old(self).constants,
            final(self).string_table == old(self).string_table,
            final(self).symbol_table == old(self).symbol_table,
            final(self).error_collector == old(self).error_collector,
            final(self).register_allocator.alloc_view() == old(self).register_allocator.alloc_view(),
            final(self).register_allocator.live_len() == old(self).register_allocator.live_len(),
            forall|i: int, v: VReg| final(self).register_allocator.is_live(i, v) == old(self).register_allocator.is_live(i, v),
            final(self).register_allocator.max_regs() == old(self).register_allocator.max_regs(),
            forall|i: int| #[trigger] final(self).register_allocator.live_set(i) == old(self).register_allocator.live_set(i),
            final(self).register_allocator.model() == model_free(old(self).register_allocator.model(), virtual_reg,
                old(self).register_allocator.live_set(inst_idx as int)),
            if !old(self).register_allocator.is_live(inst_idx as int, virtual_reg)
                && old(self).register_allocator.alloc_view().contains_key(virtual_reg) {
                final(self).register_allocator.used_view() == old(self).register_allocator.used_view().remove(
                    old(self).register_allocator.alloc_view()[virtual_reg],
                )
            } else {
                final(self).register_allocator.used_view() == old(self).register_allocator.used_view()
                    && final(self).register_allocator.used_count() == old(self).register_allocator.used_count()
            },
    {
        self.register_allocator.free(virtual_reg, inst_idx);
        proof {
            assert forall|i: int| #[trigger] self.register_allocator.live_set(i) == old(self).register_allocator.live_set(i) by {
                assert(self.register_allocator.live_set(i) =~= old(self).register_allocator.live_set(i));
            }
        }
    }

    /// Compiles one IR instruction at index `inst_idx`: reads its operands'
    /// registers, allocates its destination, emits its bytecode, frees the
    /// operands that are dead afterwards, and records jumps to patch and
    /// label positions. `None` when the destination cannot be allocated (the
    /// error is recorded and nothing is emitted).
    #[verifier::rlimit(80)]
    #[verifier::spinoff_prover]
    fn compile_inst(
        &mut self,
        inst: &VynIROpCode,
        inst_idx: usize,
        jump_patches: &mut Vec<(usize, Label)>,
        label_positions: &mut Vec<(Label, usize)>,
    ) -> (r: Option<()>)
        requires
            old(self).wf(),
            inst_idx + 1 < old(self).register_allocator.live_len(),
            inst_idx + 1 < usize::MAX,
            forall|v: VReg| #[trigger] ir_reads(inst.node).contains(v)
                ==> old(self).register_allocator.alloc_view().contains_key(v),
            old(self).instructions@.len() + 8 < usize::MAX,
            old(self).constants@.len() < usize::MAX,
            old(self).string_table@.len() < usize::MAX,
        ensures
            final(self).wf(),
            final(self).symbol_table == old(self).symbol_table,
            final(self).register_allocator.live_len() == old(self).register_allocator.live_len(),
            forall|i: int, v: VReg| final(self).register_allocator.is_live(i, v) == old(self).register_allocator.is_live(i, v),
            final(self).instructions@.len() <= old(self).instructions@.len() + 7,
            final(self).instructions@.len() >= old(self).instructions@.len(),
            final(self).constants@.len() <= old(self).constants@.len() + 1,
            final(self).string_table@.len() <= old(self).string_table@.len() + 1,
            r is None <==> (ir_allocates(inst.node) matches Some(d)
                && !old(self).register_allocator.alloc_view().contains_key(d)
                && !old(self).register_allocator.has_free()
                && !old(self).register_allocator.has_spillable(inst_idx as int)),
            final(self).register_allocator.max_regs() == old(self).register_allocator.max_regs(),
            forall|i: int| #[trigger] final(self).register_allocator.live_set(i) == old(self).register_allocator.live_set(i),
            match model_inst(old(self).register_allocator.model(), inst.node,
                old(self).register_allocator.live_set(inst_idx as int),
                old(self).register_allocator.live_set(inst_idx + 1), old(self).register_allocator.max_regs()) {
                Some(m) => r is Some && final(self).register_allocator.model() == m,
                None => r is None,
            },
            r is None ==> {
                &&& final(self).error_collector.errors@ == old(self).error_collector.errors@.push(
                    VynError::RegisterOverflow { span: inst.span })
                &&& final(self).instructions == old(self).instructions
                &&& final(self).constants == old(self).constants
                &&& final(self).string_table == old(self).string_table
                &&& *final(jump_patches) == *old(jump_patches)
                &&& *final(label_positions) == *old(label_positions)
            },
            r is Some ==> {
                &&& final(self).error_collector == old(self).error_collector
                &&& final(self).instructions@.subrange(0, old(self).instructions@.len() as int) == old(self).instructions@
                &&& compiled_as(
                    inst.node,
                    final(self).instructions@.skip(old(self).instructions@.len() as int),
                    old(self).register_allocator.alloc_view(),
                    final(self).register_allocator.alloc_view(),
                    value_views(old(self).constants@),
                    value_views(final(self).constants@),
                    string_views(old(self).string_table@),
                    string_views(final(self).string_table@),
                )
                &&& final(jump_patches)@ == match inst.node {
                    VynIROC::JumpIfFalse { label, .. } => old(jump_patches)@.push(
                        ((old(self).instructions@.len() + 2) as usize, label)),
                    VynIROC::JumpUncond { label } => old(jump_patches)@.push(
                        ((old(self).instructions@.len() + 1) as usize, label)),
                    _ => old(jump_patches)@,
                }
                &&& (inst.node is JumpIfFalse ==> final(self).instructions@.len() == old(self).instructions@.len() + 4)
                &&& (inst.node is JumpUncond ==> final(self).instructions@.len() == old(self).instructions@.len() + 3)
                &&& final(label_positions)@ == match inst.node {
                    VynIROC::Label(label) => old(label_positions)@.push((label, old(self).instructions@.len() as usize)),
                    _ => old(label_positions)@,
                }
            },
    {
        let ghost before = self.register_allocator.alloc_view();
        let ghost old_code = self.instructions@;
        let span = inst.span;
        match &inst.node {
            VynIROC::LoadConstInt { dest, value } => {
                let d = self.allocate(*dest, inst_idx, span)?;
                let const_idx = self.add_constant(RuntimeValue::IntegerLiteral(*value));
                self.emit(OpCode::LoadConstInt, vec![d as usize, const_idx as usize], span);
                proof {
                    let i = choose|i: nat| interned(value_views(old(self).constants@), value_views(self.constants@),
                        crate::runtime_value::ValueView::Int(*value), i) && const_idx == i % 65536;
                    assert(interned(value_views(old(self).constants@), value_views(self.constants@),
                        crate::runtime_value::ValueView::Int(*value), i));
                }
                proof {
                    assert(compiled_as(inst.node, self.instructions@.skip(old_code.len() as int), before,
                        self.register_allocator.alloc_view(), value_views(old(self).constants@), value_views(self.constants@),
                        string_views(old(self).string_table@), string_views(self.string_table@)));
                }
            },
            VynIROC::LoadConstFloat { dest, value } => {
                let d = self.allocate(*dest, inst_idx, span)?;
                let const_idx = self.add_constant(RuntimeValue::FloatLiteral(value.clone()));
                self.emit(OpCode::LoadConstFloat, vec![d as usize, const_idx as usize], span);
                proof {
                    let i = choose|i: nat| interned(value_views(old(self).constants@), value_views(self.constants@),
                        crate::runtime_value::ValueView::Float(value@), i) && const_idx == i % 65536;
                    assert(interned(value_views(old(self).constants@), value_views(self.constants@),
                        crate::runtime_value::ValueView::Float(value@), i));
                }
            },
            VynIROC::LoadString { dest, value } => {
                let d = self.allocate(*dest, inst_idx, span)?;
                let string_idx = self.intern_string(value.clone());
                self.emit(OpCode::LoadString, vec![d as usize, string_idx], span);
                proof {
                    assert(interned(string_views(old(self).string_table@), string_views(self.string_table@),
                        value@, string_idx as nat));
                }
            },
            VynIROC::LoadBool { dest, value } => {
                let d = self.allocate(*dest, inst_idx, span)?;
                if *value {
                    self.emit(OpCode::LoadTrue, vec![d as usize], span);
                } else {
                    self.emit(OpCode::LoadFalse, vec![d as usize], span);
                }
            },
            VynIROC::AddInt { dest, left, right }
            | VynIROC::AddFloat { dest, left, right }
            | VynIROC::SubInt { dest, left, right }
            | VynIROC::SubFloat { dest, left, right }
            | VynIROC::MulInt { dest, left, right }
            | VynIROC::MulFloat { dest, left, right }
            | VynIROC::DivInt { dest, left, right }
            | VynIROC::DivFloat { dest, left, right }
            | VynIROC::ExpInt { dest, left, right }
            | VynIROC::ExpFloat { dest, left, right }
            | VynIROC::CompareLessInt { dest, left, right }
            | VynIROC::CompareLessFloat { dest, left, right }
            | VynIROC::CompareGreaterInt { dest, left, right }
            | VynIROC::CompareGreaterFloat { dest, left, right }
            | VynIROC::CompareLessEqualInt { dest, left, right }
            | VynIROC::CompareLessEqualFloat { dest, left, right }
            | VynIROC::CompareGreaterEqualInt { dest, left, right }
            | VynIROC::CompareGreaterEqualFloat { dest, left, right }
            | VynIROC::CompareEqual { dest, left, right }
            | VynIROC::CompareNotEqual { dest, left, right } => {
                assert(ir_reads(inst.node)[0] == *left && ir_reads(inst.node)[1] == *right);
                assert(ir_reads(inst.node).contains(*left));
                assert(ir_reads(inst.node).contains(*right));
                let left_reg = self.get(*left);
                let right_reg = self.get(*right);
                let dest_reg = self.allocate(*dest, inst_idx, span)?;
                let opcode = match &inst.node {
                    VynIROC::AddInt { .. } => OpCode::AddInt,
                    VynIROC::AddFloat { .. } => OpCode::AddFloat,
                    VynIROC::SubInt { .. } => OpCode::SubtractInt,
                    VynIROC::SubFloat { .. } => OpCode::SubtractFloat,
                    VynIROC::MulInt { .. } => OpCode::MultiplyInt,
                    VynIROC::MulFloat { .. } => OpCode::MultiplyFloat,
                    VynIROC::DivInt { .. } => OpCode::DivideInt,
                    VynIROC::DivFloat { .. } => OpCode::DivideFloat,
                    VynIROC::ExpInt { .. } => OpCode::ExponentInt,
                    VynIROC::ExpFloat { .. } => OpCode::ExponentFloat,
                    VynIROC::CompareGreaterInt { .. } => OpCode::GreaterInt,
                    VynIROC::CompareGreaterFloat { .. } => OpCode::GreaterFloat,
                    VynIROC::CompareLessInt { .. } => OpCode::LessInt,
                    VynIROC::CompareLessFloat { .. } => OpCode::LessFloat,
                    VynIROC::CompareGreaterEqualInt { .. } => OpCode::GreaterEqualInt,
                    VynIROC::CompareGreaterEqualFloat { .. } => OpCode::GreaterEqualFloat,
                    VynIROC::CompareLessEqualInt { .. } => OpCode::LessEqualInt,
                    VynIROC::CompareLessEqualFloat { .. } => OpCode::LessEqualFloat,
                    VynIROC::CompareEqual { .. } => OpCode::Equal,
                    _ => OpCode::NotEqual,
                };
                assert(ir_opcode(inst.node) == Some(opcode));
                self.emit(opcode, vec![dest_reg as usize, left_reg as usize, right_reg as usize], span);
                let ghost m_mid = self.register_allocator.model();
                let ghost live1 = self.register_allocator.live_set(inst_idx + 1);
                self.free(*left, inst_idx + 1);
                self.free(*right, inst_idx + 1);
                proof {
                    lemma_free_two(m_mid, *left, *right, live1);
                }
                proof {
                    assert(compiled_as(inst.node, self.instructions@.skip(old_code.len() as int), before,
                        self.register_allocator.alloc_view(), value_views(old(self).constants@), value_views(self.constants@),
                        string_views(old(self).string_table@), string_views(self.string_table@)));
                }
            },
            VynIROC::LogAddr { addr } => {
                assert(ir_reads(inst.node)[0] == *addr);
                assert(ir_reads(inst.node).contains(*addr));
                let val = self.get(*addr);
                self.emit(OpCode::LogAddr, vec![val as usize], span);
                let ghost m_mid = self.register_allocator.model();
                let ghost live1 = self.register_allocator.live_set(inst_idx + 1);
                self.free(*addr, inst_idx + 1);
                proof {
                    lemma_free_one(m_mid, *addr, live1);
                }
                proof {
                    assert(compiled_as(inst.node, self.instructions@.skip(old_code.len() as int), before,
                        self.register_allocator.alloc_view(), value_views(old(self).constants@), value_views(self.constants@),
                        string_views(old(self).string_table@), string_views(self.string_table@)));
                }
            },
            VynIROC::JumpIfFalse { condition_reg, label } => {
                assert(ir_reads(inst.node)[0] == *condition_reg);
                assert(ir_reads(inst.node).contains(*condition_reg));
                let cond_reg = self.get(*condition_reg);
                let jump_pos = self.instructions.len();
                self.emit(OpCode::JumpIfFalse, vec![cond_reg as usize, 0], span);
                jump_patches.push((jump_pos + 2, *label));
                let ghost m_mid = self.register_allocator.model();
                let ghost live1 = self.register_allocator.live_set(inst_idx + 1);
                self.free(*condition_reg, inst_idx + 1);
                proof {
                    lemma_free_one(m_mid, *condition_reg, live1);
                }
                proof {
                    reveal_with_fuel(crate::bytecode::operand_offset, 3);
                    assert(instruction_len(opcode_widths(OpCode::JumpIfFalse)) == 4);
                    assert(self.instructions@.skip(old_code.len() as int).len() == 4);
                    assert(self.instructions@.len() == old_code.len() + 4);
                }
            },
            VynIROC::JumpUncond { label } => {
                let jump_pos = self.instructions.len();
                self.emit(OpCode::JumpUncond, vec![0], span);
                jump_patches.push((jump_pos + 1, *label));
                proof {
                    reveal_with_fuel(crate::bytecode::operand_offset, 3);
                    assert(instruction_len(opcode_widths(OpCode::JumpUncond)) == 3);
                    assert(self.instructions@.skip(old_code.len() as int).len() == 3);
                    assert(self.instructions@.len() == old_code.len() + 3);
                }
            },
            VynIROC::Label(label) => {
                label_positions.push((*label, self.instructions.len()));
                proof {
                    assert(self.instructions@.skip(old_code.len() as int) =~= Seq::<u8>::empty());
                    assert(self.instructions@.subrange(0, old_code.len() as int) =~= old_code);
                }
            },
            VynIROC::Move { dest, src } => {
                assert(ir_reads(inst.node)[0] == *dest && ir_reads(inst.node)[1] == *src);
                assert(ir_reads(inst.node).contains(*dest));
                assert(ir_reads(inst.node).contains(*src));
                let dest_reg = self.get(*dest);
                let src_reg = self.get(*src);
                self.emit(OpCode::Move, vec![dest_reg as usize, src_reg as usize], span);
                proof {
                    assert(compiled_as(inst.node, self.instructions@.skip(old_code.len() as int), before,
                        self.register_allocator.alloc_view(), value_views(old(self).constants@), value_views(self.constants@),
                        string_views(old(self).string_table@), string_views(self.string_table@)));
                }
            },
            VynIROC::Halt => {
                self.emit(OpCode::Halt, vec![], span);
                proof {
                    assert(compiled_as(inst.node, self.instructions@.skip(old_code.len() as int), before,
                        self.register_allocator.alloc_view(), value_views(old(self).constants@), value_views(self.constants@),
                        string_views(old(self).string_table@), string_views(self.string_table@)));
                }
            },
        }
        proof {
            crate::bytecode::lemma_widths_shape(OpCode::Halt);
        }
        Some(())
    }

    /// The number of entries in the constant pool.
    pub closed spec fn pool_len(&self) -> nat {
        self.constants@.len()
    }

    /// The number of entries in the string table.
    pub closed spec fn strings_len(&self) -> nat {
        self.string_table@.len()
    }

    /// Every register that `inst` reads already has a physical register.
    fn reads_allocated(&self, inst: &VynIROpCode) -> (b: bool)
        requires
            self.wf(),
        ensures
            b == forall|v: VReg| #[trigger] ir_reads(inst.node).contains(v)
                ==> self.register_allocator.alloc_view().contains_key(v),
    {
        let reads: Vec<VReg> = match &inst.node {
            VynIROC::Move { dest, src } => vec![*dest, *src],
            other => other.get_uses(),
        };
        assert(reads@ == ir_reads(inst.node));
        let mut k: usize = 0;
        while k < reads.len()
            invariant
                self.wf(),
                reads@ == ir_reads(inst.node),
                0 <= k <= reads@.len(),
                forall|j: int| 0 <= j < k ==> self.register_allocator.alloc_view().contains_key(#[trigger] reads@[j]),
            decreases reads@.len() - k,
        {
            if !self.register_allocator.is_allocated(reads[k]) {
                assert(reads@.contains(reads@[k as int]));
                return false;
            }
            k = k + 1;
        }
        proof {
            assert forall|v: VReg| #[trigger] ir_reads(inst.node).contains(v)
                implies self.register_allocator.alloc_view().contains_key(v) by {
                let j = choose|j: int| 0 <= j < reads@.len() && reads@[j] == v;
                assert(self.register_allocator.alloc_view().contains_key(reads@[j]));
            }
        }
        true
    }

    /// Compiles a whole IR program: computes liveness, compiles each
    /// instruction in order (stopping at the first one that cannot be
    /// compiled), then writes each recorded jump's target offset. A read of
    /// a register that was never given a physical register is reported as a
    /// register overflow at that instruction. The bytecode is returned when
    /// no error was recorded: what was there before, then each instruction's
    /// encoding in order, with the jumps' target offsets written in; otherwise
    /// the recorded errors are handed out.
    #[verifier::rlimit(100)]
    #[verifier::spinoff_prover]
    pub fn compile_ir(&mut self, ir: &VynIR) -> (r: Result<Bytecode, ErrorCollector>)
        requires
            old(self).wf(),
            old(self).code().len() + 8 * ir.instructions@.len() + 8 < usize::MAX,
            old(self).pool_len() + ir.instructions@.len() < usize::MAX,
            old(self).strings_len() + ir.instructions@.len() < usize::MAX,
        ensures
            final(self).wf(),
            (r is Ok) <==> old(self).errors().len() == 0 && compile_failure(ir.instructions@, old(self).alloc_model(),
                0, old(self).max_registers()) is None,
            old(self).errors().len() == 0 ==> (r matches Err(c) ==> (compile_failure(ir.instructions@,
                old(self).alloc_model(), 0, old(self).max_registers()) matches Some(k) && 0 <= k < ir.instructions@.len()
                && c.errors@ == seq![VynError::RegisterOverflow { span: ir.instructions@[k].span }])),
            match r {
                Ok(b) => {
                    &&& old(self).errors().len() == 0
                    &&& final(self).errors().len() == 0
                    &&& runs_end(b.debug_info.runs@) <= b.instructions@.len()
                    &&& (decodes_from(old(self).code(), 0) ==> decodes_from(b.instructions@, 0))
                    &&& b.instructions@.subrange(0, old(self).code().len() as int).len() == old(self).code().len()
                    &&& final(self).code().len() == 0
                    &&& exists|chunks: Seq<Seq<u8>>, allocs: Seq<Map<VReg, u8>>, consts: Seq<Seq<crate::runtime_value::ValueView>>, strs: Seq<Seq<Seq<char>>>|
                        #[trigger] compiled_chunks(ir.instructions@, chunks, allocs, consts, strs)
                        && chunks.len() == ir.instructions@.len()
                        && allocs[0] == old(self).allocation()
                        && consts[0] == old(self).pool()
                        && strs[0] == old(self).strings()
                        && jumps_patched(
                            old(self).code() + concat(chunks),
                            b.instructions@,
                            patches_of(ir.instructions@, chunks, old(self).code().len() as int),
                            labels_of(ir.instructions@, chunks, old(self).code().len() as int),
                        )
                },
                Err(c) => {
                    &&& c.errors@.len() > 0
                    &&& c.errors@.len() >= old(self).errors().len()
                    &&& c.errors@.subrange(0, old(self).errors().len() as int) == old(self).errors()
                    &&& forall|k: int| old(self).errors().len() <= k < c.errors@.len()
                        ==> #[trigger] c.errors@[k] is RegisterOverflow
                    &&& final(self).errors().len() == 0
                },
            },
    {
        let n = ir.instructions.len();
        self.register_allocator.analyze_liveness(ir.instructions.as_slice());
        let mut jump_patches: Vec<(usize, Label)> = Vec::new();
        let mut label_positions: Vec<(Label, usize)> = Vec::new();
        let ghost start_code = self.instructions@.len();
        let ghost start_seq = self.instructions@;
        let ghost start_errors = self.error_collector.errors@;
        let ghost whole = decodes_from(self.instructions@, 0);
        let ghost insts = ir.instructions@;
        let ghost mut chunks: Seq<Seq<u8>> = Seq::empty();
        let ghost mut allocs: Seq<Map<VReg, u8>> = seq![self.register_allocator.alloc_view()];
        let ghost mut consts: Seq<Seq<crate::runtime_value::ValueView>> = seq![value_views(self.constants@)];
        let ghost mut strs: Seq<Seq<Seq<char>>> = seq![string_views(self.string_table@)];
        let ghost mut broke = false;
        let ghost m0 = self.register_allocator.model();
        let ghost mx = self.register_allocator.max_regs();
        let ghost mut fail_k: int = 0;
        proof {
            assert forall|k: int| 0 <= k <= n implies #[trigger] self.register_allocator.live_set(k) == live_after(insts, k) by {
                assert(self.register_allocator.live_set(k) =~= live_after(insts, k));
            }
            assert(self.instructions@ =~= start_seq + concat(chunks));
            assert(jump_patches@ =~= patches_of(insts, chunks, start_code as int));
            assert(label_positions@ =~= labels_of(insts, chunks, start_code as int));
        }
        let mut i: usize = 0;
        while i < n
            invariant_except_break
                !broke,
            invariant
                self.wf(),
                whole == decodes_from(old(self).code(), 0),
                whole ==> decodes_from(self.instructions@, 0),
                whole ==> forall|k: int| 0 <= k < jump_patches@.len() ==> #[trigger] window_inside(
                    self.instructions@, 0, jump_patches@[k].0 as int),
                n == ir.instructions@.len(),
                insts == ir.instructions@,
                0 <= i <= n,
                self.register_allocator.live_len() == n + 1,
                start_code == old(self).code().len(),
                start_seq == old(self).code(),
                start_errors == old(self).errors(),
                self.instructions@.len() <= start_code + 7 * i,
                self.instructions@.len() >= start_code,
                start_code + 8 * n + 8 < usize::MAX,
                self.constants@.len() <= old(self).pool_len() + i,
                self.string_table@.len() <= old(self).strings_len() + i,
                old(self).pool_len() + n < usize::MAX,
                old(self).strings_len() + n < usize::MAX,
                forall|k: int| 0 <= k < jump_patches@.len() ==> #[trigger] jump_patches@[k].0 + 2 <= self.instructions@.len(),
                forall|a: int, b: int| 0 <= a < b < jump_patches@.len() ==> #[trigger] jump_patches@[a].0 + 2
                    <= #[trigger] jump_patches@[b].0,
                self.error_collector.errors@.len() >= start_errors.len(),
                self.error_collector.errors@.subrange(0, start_errors.len() as int) == start_errors,
                forall|k: int| start_errors.len() <= k < self.error_collector.errors@.len()
                    ==> #[trigger] self.error_collector.errors@[k] is RegisterOverflow,
                broke ==> self.error_collector.errors@.len() > start_errors.len(),
                forall|k: int| 0 <= k <= n ==> #[trigger] self.register_allocator.live_set(k) == live_after(insts, k),
                self.register_allocator.max_regs() == mx,
                m0 == old(self).alloc_model(),
                mx == old(self).max_registers(),
                !broke ==> compile_failure(insts, m0, 0, mx) == compile_failure(insts, self.register_allocator.model(), i as int, mx),
                !broke ==> self.error_collector.errors@ == start_errors,
                broke ==> compile_failure(insts, m0, 0, mx) == Some(fail_k) && 0 <= fail_k < n
                    && self.error_collector.errors@ == start_errors.push(VynError::RegisterOverflow { span: insts[fail_k].span }),
                !broke ==> {
                    &&& compiled_chunks(insts, chunks, allocs, consts, strs)
                    &&& chunks.len() == i
                    &&& allocs[0] == old(self).allocation()
                    &&& consts[0] == old(self).pool()
                    &&& strs[0] == old(self).strings()
                    &&& allocs.last() == self.register_allocator.alloc_view()
                    &&& consts.last() == value_views(self.constants@)
                    &&& strs.last() == string_views(self.string_table@)
                    &&& self.instructions@ == start_seq + concat(chunks)
                    &&& jump_patches@ == patches_of(insts, chunks, start_code as int)
                    &&& label_positions@ == labels_of(insts, chunks, start_code as int)
                },
            ensures
                broke || i == n,
            decreases n - i,
        {
            let inst = &ir.instructions[i];
            proof {
                self.register_allocator.lemma_model_view();
            }
            if !self.reads_allocated(inst) {
                let ghost e0 = self.error_collector.errors@;
                self.error_collector.add(VynError::RegisterOverflow { span: inst.span });
                proof {
                    assert(self.error_collector.errors@.subrange(0, start_errors.len() as int)
                        =~= e0.subrange(0, start_errors.len() as int));
                    assert(insts[i as int] == *inst);
                    assert(!reads_ok(self.register_allocator.model(), insts[i as int].node));
                    assert(compile_failure(insts, self.register_allocator.model(), i as int, mx) == Some(i as int));
                    assert(e0 == start_errors);
                    broke = true;
                    fail_k = i as int;
                }
                break;
            }
            let ghost ra0 = self.register_allocator.model();
            let ghost before_fail = compile_failure(insts, ra0, i as int, mx);
            proof {
                assert(insts[i as int] == *inst);
                assert(reads_ok(ra0, insts[i as int].node));
                assert(self.register_allocator.live_set(i as int) == live_after(insts, i as int));
                assert(self.register_allocator.live_set(i + 1) == live_after(insts, i + 1));
            }
            let ghost code0 = self.instructions@;
            let ghost patches0 = jump_patches@;
            let ghost labels0 = label_positions@;
            let ghost e0 = self.error_collector.errors@;
            let ghost alloc0 = self.register_allocator.alloc_view();
            let ghost consts0 = value_views(self.constants@);
            let ghost strings0 = string_views(self.string_table@);
            let step = self.compile_inst(inst, i, &mut jump_patches, &mut label_positions);
            proof {
                if step is Some && whole {
                    let code1 = self.instructions@;
                    let bytes = code1.skip(code0.len() as int);
                    assert(code1 =~= code0 + bytes);
                    lemma_compiled_decodes(inst.node, bytes, alloc0, self.register_allocator.alloc_view(),
                        consts0, value_views(self.constants@), strings0, string_views(self.string_table@));
                    lemma_decode_append(code0, bytes, 0, 0);
                    assert forall|k: int| 0 <= k < jump_patches@.len() implies #[trigger] window_inside(
                        self.instructions@, 0, jump_patches@[k].0 as int) by {
                        if k < patches0.len() {
                            assert(jump_patches@[k] == patches0[k]);
                            lemma_decode_append(code0, bytes, 0, patches0[k].0 as int);
                        } else if inst.node is JumpIfFalse {
                            lemma_window_reach(code0, bytes, 0, 2);
                        } else {
                            lemma_window_reach(code0, bytes, 0, 1);
                        }
                    }
                }
                if step is None {
                    assert(self.error_collector.errors@.subrange(0, start_errors.len() as int)
                        =~= e0.subrange(0, start_errors.len() as int));
                    assert(before_fail == Some(i as int));
                    assert(e0 == start_errors);
                    broke = true;
                    fail_k = i as int;
                } else {
                    assert(before_fail == compile_failure(insts, self.register_allocator.model(), i + 1, mx));
                }
                assert forall|k: int| 0 <= k <= n implies #[trigger] self.register_allocator.live_set(k) == live_after(insts, k) by {
                }
                assert forall|k: int| 0 <= k < jump_patches@.len() implies #[trigger] jump_patches@[k].0 + 2
                    <= self.instructions@.len() by {
                    if k < patches0.len() {
                        assert(jump_patches@[k] == patches0[k]);
                    }
                }
                assert forall|a: int, b: int| 0 <= a < b < jump_patches@.len() implies #[trigger] jump_patches@[a].0 + 2
                    <= #[trigger] jump_patches@[b].0 by {
                    if b < patches0.len() {
                        assert(jump_patches@[a] == patches0[a] && jump_patches@[b] == patches0[b]);
                    } else {
                        assert(jump_patches@[a] == patches0[a]);
                        assert(patches0[a].0 + 2 <= code0.len());
                    }
                }
                if step is Some && !broke {
                    let bytes = self.instructions@.skip(code0.len() as int);
                    let c2 = chunks.push(bytes);
                    let a2 = allocs.push(self.register_allocator.alloc_view());
                    let k2 = consts.push(value_views(self.constants@));
                    let s2 = strs.push(string_views(self.string_table@));
                    assert(c2.drop_last() =~= chunks);
                    assert(c2.last() == bytes);
                    assert(concat(c2) == concat(chunks) + bytes);
                    assert(code0 == start_seq + concat(chunks));
                    assert(self.instructions@ =~= code0 + bytes);
                    assert(self.instructions@ =~= start_seq + concat(c2));
                    assert(concat(chunks).len() + start_code == code0.len());
                    assert forall|k: int| 0 <= k < c2.len() implies #[trigger] compiled_as(
                        insts[k].node, c2[k], a2[k], a2[k + 1], k2[k], k2[k + 1], s2[k], s2[k + 1]) by {
                        if k < chunks.len() {
                            assert(c2[k] == chunks[k] && a2[k] == allocs[k] && a2[k + 1] == allocs[k + 1]);
                            assert(k2[k] == consts[k] && k2[k + 1] == consts[k + 1]);
                            assert(s2[k] == strs[k] && s2[k + 1] == strs[k + 1]);
                        } else {
                            assert(a2[k] == alloc0 && k2[k] == consts0 && s2[k] == strings0);
                        }
                    }
                    assert(jump_patches@ =~= patches_of(insts, c2, start_code as int));
                    assert(label_positions@ =~= labels_of(insts, c2, start_code as int));
                    chunks = c2;
                    allocs = a2;
                    consts = k2;
                    strs = s2;
                }
            }
            if step.is_none() {
                break;
            }
            i = i + 1;
        }
        proof {
            if !broke {
                assert(compile_failure(insts, self.register_allocator.model(), n as int, mx) is None);
            }
        }
        let ghost unpatched = self.instructions@;
        let mut p: usize = 0;
        proof {
            assert forall|k: int| 0 <= k < self.instructions@.len() && !in_patched_window(
                jump_patches@.take(0), label_positions@, k) implies #[trigger] self.instructions@[k] == unpatched[k] by {}
        }
        while p < jump_patches.len()
            invariant
                self.wf(),
                whole == decodes_from(old(self).code(), 0),
                whole ==> decodes_from(self.instructions@, 0),
                whole ==> forall|k: int| 0 <= k < jump_patches@.len() ==> #[trigger] window_inside(
                    self.instructions@, 0, jump_patches@[k].0 as int),
                forall|k: int| 0 <= k < jump_patches@.len() ==> #[trigger] jump_patches@[k].0 + 2 <= self.instructions@.len(),
                forall|a: int, b: int| 0 <= a < b < jump_patches@.len() ==> #[trigger] jump_patches@[a].0 + 2
                    <= #[trigger] jump_patches@[b].0,
                0 <= p <= jump_patches@.len(),
                self.instructions@.len() == unpatched.len(),
                forall|k: int| 0 <= k < self.instructions@.len() && !in_patched_window(jump_patches@.take(p as int), label_positions@, k)
                    ==> #[trigger] self.instructions@[k] == unpatched[k],
                forall|q: int| 0 <= q < p && label_lookup(label_positions@, (#[trigger] jump_patches@[q]).1) is Some ==> written_le(
                    self.instructions@, jump_patches@[q].0 as int, label_lookup(label_positions@, jump_patches@[q].1)->Some_0),
                self.error_collector.errors@.len() >= start_errors.len(),
                self.error_collector.errors@.subrange(0, start_errors.len() as int) == start_errors,
                forall|k: int| start_errors.len() <= k < self.error_collector.errors@.len()
                    ==> #[trigger] self.error_collector.errors@[k] is RegisterOverflow,
                broke ==> self.error_collector.errors@.len() > start_errors.len(),
                start_errors == old(self).errors(),
                start_code == old(self).code().len(),
                self.instructions@.len() >= start_code,
                insts == ir.instructions@,
                n == ir.instructions@.len(),
                m0 == old(self).alloc_model(),
                mx == old(self).max_registers(),
                !broke ==> self.error_collector.errors@ == start_errors,
                !broke ==> compile_failure(insts, m0, 0, mx) is None,
                broke ==> compile_failure(insts, m0, 0, mx) == Some(fail_k) && 0 <= fail_k < n
                    && self.error_collector.errors@ == start_errors.push(VynError::RegisterOverflow { span: insts[fail_k].span }),
            decreases jump_patches@.len() - p,
        {
            let (position, label) = jump_patches[p];
            let ghost c1 = self.instructions@;
            let found = find_label(&label_positions, label);
            match found {
                Some(target) => {
                    assert(jump_patches@[p as int].0 + 2 <= self.instructions@.len());
                    self.patch_jump(position, target);
                    proof {
                        if whole {
                            assert(window_inside(c1, 0, position as int));
                            lemma_decode_patch(c1, self.instructions@, 0, position as int, 0);
                            assert forall|k: int| 0 <= k < jump_patches@.len() implies #[trigger] window_inside(
                                self.instructions@, 0, jump_patches@[k].0 as int) by {
                                lemma_decode_patch(c1, self.instructions@, 0, position as int, jump_patches@[k].0 as int);
                            }
                        }
                        assert forall|q: int| 0 <= q < p && label_lookup(label_positions@, (#[trigger] jump_patches@[q]).1) is Some
                            implies written_le(self.instructions@, jump_patches@[q].0 as int,
                            label_lookup(label_positions@, jump_patches@[q].1)->Some_0) by {
                            assert(jump_patches@[q].0 + 2 <= jump_patches@[p as int].0);
                            assert(self.instructions@[jump_patches@[q].0 as int] == c1[jump_patches@[q].0 as int]);
                            assert(self.instructions@[jump_patches@[q].0 + 1] == c1[jump_patches@[q].0 + 1]);
                        }
                    }
                },
                None => {},
            }
            proof {
                let tp = jump_patches@.take(p as int);
                let tp1 = jump_patches@.take(p + 1);
                assert forall|k: int| 0 <= k < self.instructions@.len() && !in_patched_window(tp1, label_positions@, k)
                    implies #[trigger] self.instructions@[k] == unpatched[k] by {
                    if in_patched_window(tp, label_positions@, k) {
                        let w = choose|w: int| 0 <= w < tp.len() && label_lookup(label_positions@, (#[trigger] tp[w]).1) is Some
                            && tp[w].0 <= k < tp[w].0 + 2;
                        assert(tp1[w] == tp[w]);
                        assert(in_patched_window(tp1, label_positions@, k));
                    }
                    if found is Some {
                        assert(tp1[p as int] == jump_patches@[p as int]);
                        if position <= k < position + 2 {
                            assert(in_patched_window(tp1, label_positions@, k));
                        }
                        assert(self.instructions@[k] == c1[k]);
                    }
                }
            }
            p = p + 1;
        }
        proof {
            assert(jump_patches@.take(jump_patches@.len() as int) =~= jump_patches@);
        }
        proof {
            if broke {
                assert(self.error_collector.errors@.len() > 0);
            }
        }
        if self.error_collector.has_errors() {
            Err(self.error_collector.take())
        } else {
            proof {
                assert(!broke);
                assert(compiled_chunks(insts, chunks, allocs, consts, strs));
                assert(jumps_patched(start_seq + concat(chunks), self.instructions@,
                    patches_of(insts, chunks, start_code as int), labels_of(insts, chunks, start_code as int)));
            }
            Ok(self.finish())
        }
    }

    /// Hands out everything compiled so far, leaving the compiler empty.
    pub fn finish(&mut self) -> (b: Bytecode)
        requires
            old(self).wf(),
        ensures
            final(self).wf(),
            b.instructions@ == old(self).code(),
            runs_end(b.debug_info.runs@) <= b.instructions@.len(),
            final(self).code() == Seq::<u8>::empty(),
            final(self).errors() == old(self).errors(),
            final(self).pool_len() == 0,
            final(self).strings_len() == 0,
    {
        let mut instructions: Vec<u8> = Vec::new();
        let mut constants: Vec<RuntimeValue> = Vec::new();
        let mut string_table: Vec<String> = Vec::new();
        let mut symbol_table = SymbolTable::new();
        let mut debug_info = DebugInfo::new();
        std::mem::swap(&mut instructions, &mut self.instructions);
        std::mem::swap(&mut constants, &mut self.constants);
        std::mem::swap(&mut string_table, &mut self.string_table);
        std::mem::swap(&mut symbol_table, &mut self.symbol_table);
        std::mem::swap(&mut debug_info, &mut self.debug_info);
        Bytecode { instructions, constants, string_table, symbol_table, debug_info }
    }
}


/// The IR instructions that compute on or compare two integers.
pub open spec fn ir_int_binary(inst: VynIROC) -> bool {
    ||| inst is AddInt
    ||| inst is SubInt
    ||| inst is MulInt
    ||| inst is DivInt
    ||| inst is ExpInt
    ||| inst is CompareLessInt
    ||| inst is CompareLessEqualInt
    ||| inst is CompareGreaterInt
    ||| inst is CompareGreaterEqualInt
}

/// Running the bytes an integer IR instruction compiles to, on a machine
/// whose registers allocated to the instruction's left and right operands
/// hold `a` and `b`, does what the IR instruction says: the register
/// allocated to its destination receives the sum, the difference left minus
/// right, the product, the quotient (rounded toward zero) or the truth of
/// the comparison of left against right (strict for `<` and `>`), and the
/// machine moves on past the instruction; a result out of range, a zero
/// divisor or a negative exponent is a fault.
pub proof fn law_compiled_int_binary_runs(
    inst: VynIROC,
    bytes: Seq<u8>,
    before: Map<VReg, u8>,
    after: Map<VReg, u8>,
    old_consts: Seq<ValueView>,
    new_consts: Seq<ValueView>,
    old_strings: Seq<Seq<char>>,
    new_strings: Seq<Seq<char>>,
    code: Seq<u8>,
    consts: Seq<ValueView>,
    s: VmView,
    a: i32,
    b: i32,
)
    requires
        ir_int_binary(inst),
        compiled_as(inst, bytes, before, after, old_consts, new_consts, old_strings, new_strings),
        0 <= s.ip,
        s.ip + bytes.len() <= code.len(),
        code.subrange(s.ip, s.ip + bytes.len()) == bytes,
        int_of(s.registers[before[spec_uses(inst)[0]] as int]) == Some(a),
        int_of(s.registers[before[spec_uses(inst)[1]] as int]) == Some(b),
    ensures
        ({
            let dreg = after[spec_def(inst)->Some_0];
            let step = spec_step(code, consts, s);
            &&& inst is CompareLessInt ==> step == (StepView::Next, set_reg(s, dreg, ValueView::Bool(a < b), 4))
            &&& inst is CompareLessEqualInt ==> step == (StepView::Next, set_reg(s, dreg, ValueView::Bool(a <= b), 4))
            &&& inst is CompareGreaterInt ==> step == (StepView::Next, set_reg(s, dreg, ValueView::Bool(a > b), 4))
            &&& inst is CompareGreaterEqualInt ==> step == (StepView::Next, set_reg(s, dreg, ValueView::Bool(a >= b), 4))
            &&& inst is AddInt ==> step == if fits_i32(a + b) {
                (StepView::Next, set_reg(s, dreg, ValueView::Int((a + b) as i32), 4))
            } else {
                (StepView::Fault(VmError::IntegerOverflow), s)
            }
            &&& inst is SubInt ==> step == if fits_i32(a - b) {
                (StepView::Next, set_reg(s, dreg, ValueView::Int((a - b) as i32), 4))
            } else {
                (StepView::Fault(VmError::IntegerOverflow), s)
            }
            &&& inst is MulInt ==> step == if fits_i32(a * b) {
                (StepView::Next, set_reg(s, dreg, ValueView::Int((a * b) as i32), 4))
            } else {
                (StepView::Fault(VmError::IntegerOverflow), s)
            }
            &&& inst is DivInt && b == 0 ==> step == (StepView::Fault(VmError::DivisionByZero), s)
            &&& inst is DivInt && a >= 0 && b > 0 ==> step == (StepView::Next, set_reg(s, dreg, ValueView::Int((a / b) as i32), 4))
            &&& inst is ExpInt && b < 0 ==> step == (StepView::Fault(VmError::NegativeExponent), s)
        }),
{
    let op = ir_opcode(inst)->Some_0;
    let ops = ir_operands(inst, before, after, 0);
    reveal_with_fuel(crate::bytecode::operand_offset, 4);
    assert(opcode_widths(op) =~= seq![1usize, 1usize, 1usize]);
    assert(bytes.len() == 4);
    assert(code[s.ip] == bytes[0]);
    assert(code[s.ip + 1] == bytes[1]);
    assert(code[s.ip + 2] == bytes[2]);
    assert(code[s.ip + 3] == bytes[3]);
    lemma_opcode_byte_roundtrip(op, code[s.ip]);
    law_make_then_read_uint8(bytes, op, ops, 0);
    law_make_then_read_uint8(bytes, op, ops, 1);
    law_make_then_read_uint8(bytes, op, ops, 2);
    assert(bytes[1] == after[spec_def(inst)->Some_0]);
    assert(bytes[2] == before[spec_uses(inst)[0]]);
    assert(bytes[3] == before[spec_uses(inst)[1]]);
    if is_int_compare(op) {
        law_int_compare_step(code, consts, s, op, a, b);
    } else {
        law_int_arith_step(code, consts, s, op, a, b);
    }
}


/// Running the bytes that `LoadConstInt` compiles to, with the constant
/// pool the compiler built (or one it is the start of), writes the
/// instruction's integer to the register allocated to its destination and
/// moves on past the instruction.
pub proof fn law_compiled_load_const_runs(
    dest: VReg,
    value: i32,
    bytes: Seq<u8>,
    before: Map<VReg, u8>,
    after: Map<VReg, u8>,
    old_consts: Seq<ValueView>,
    new_consts: Seq<ValueView>,
    old_strings: Seq<Seq<char>>,
    new_strings: Seq<Seq<char>>,
    code: Seq<u8>,
    consts: Seq<ValueView>,
    s: VmView,
)
    requires
        compiled_as(VynIROC::LoadConstInt { dest, value }, bytes, before, after, old_consts, new_consts, old_strings, new_strings),
        new_consts.len() <= 65536,
        new_consts.len() <= consts.len(),
        forall|k: int| 0 <= k < new_consts.len() ==> #[trigger] consts[k] == new_consts[k],
        0 <= s.ip,
        s.ip + bytes.len() <= code.len(),
        code.subrange(s.ip, s.ip + bytes.len()) == bytes,
    ensures
        spec_step(code, consts, s) == (StepView::Next, set_reg(s, after[dest], ValueView::Int(value), 4)),
{
    let inst = VynIROC::LoadConstInt { dest, value };
    let op = OpCode::LoadConstInt;
    let i = choose|i: nat| #[trigger] interned(old_consts, new_consts, ValueView::Int(value), i)
        && encodes(bytes, OpCode::LoadConstInt, ir_operands(inst, before, after, i % 65536));
    let ops = ir_operands(inst, before, after, i % 65536);
    let ws = opcode_widths(op);
    reveal_with_fuel(crate::bytecode::operand_offset, 4);
    reveal_with_fuel(crate::bytecode::be_value, 3);
    reveal_with_fuel(crate::bytecode::pow256, 3);
    assert(ws =~= seq![1usize, 2usize]);
    assert(bytes.len() == 4);
    assert(i < new_consts.len());
    assert(new_consts[i as int] == ValueView::Int(value));
    assert(code[s.ip] == bytes[0]);
    assert(code[s.ip + 1] == bytes[1]);
    assert(code[s.ip + 2] == bytes[2]);
    assert(code[s.ip + 3] == bytes[3]);
    lemma_opcode_byte_roundtrip(op, code[s.ip]);
    law_make_then_read_uint8(bytes, op, ops, 0);
    assert(bytes[1] == after[dest]);
    assert(be_value(bytes, operand_offset(ws, 1), ws[1] as nat) == slot_value(ws, ops, 1));
    assert(i % 65536 == i);
    assert(be_value(code, s.ip + 2, 2) == be_value(bytes, 2, 2));
    assert(be_value(code, s.ip + 2, 2) == i);
    assert(consts[i as int] == ValueView::Int(value));
}

} // verus!
