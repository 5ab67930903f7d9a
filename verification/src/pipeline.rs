use vstd::prelude::*;
use vstd::string::StrSliceExecFns;
use crate::ast::{Expr, Program, StmtV, AnnV, statements_view};
use crate::compiler::{Bytecode, MAX_REGISTERS, VynCompiler, VynIR, compile_fails, lemma_compile_failure_same};
use crate::register_allocator::AllocModel;
use crate::debug_info::runs_end;
use crate::disassembler::decodes_from;
use crate::errors::ErrorCollector;
use crate::ir::{VynIROC, VynIROpCode};
use crate::ir_builder::{BuildCtx, VynIRBuilder, at, ir_program_supported, program_supported, same_insts, start_ctx};
use crate::lexer::{Lexer, LexState, TokSpec, spec_tokens, tokens_match};
use crate::parser::{AliasesV, Parser, pprogram};
use crate::span::{Span, Spanned};
use crate::static_evaluator::{StaticEvaluator, StaticValue, records_decls, steps_through, stmts_static_decls};
use crate::tokens::{TokenInfo, TokenType};
use crate::type_checker::{SymbolType, TypeChecker, stmts_eval};
use crate::types::Type;

verus! {

/// The phases a source file goes through, in order.
#[derive(Debug, Clone, Copy, PartialEq, Eq, Structural)]
pub enum Phase {
    Tokenizing,
    Parsing,
    StaticEvaluation,
    TypeChecking,
    IRBuilding,
    Compiling,
}

/// The position of a phase in the pipeline, from 0.
pub open spec fn phase_index(p: Phase) -> int {
    match p {
        Phase::Tokenizing => 0,
        Phase::Parsing => 1,
        Phase::StaticEvaluation => 2,
        Phase::TypeChecking => 3,
        Phase::IRBuilding => 4,
        Phase::Compiling => 5,
    }
}

/// The name a phase is shown under.
pub open spec fn phase_name(p: Phase) -> Seq<char> {
    match p {
        Phase::Tokenizing => "Tokenizing"@,
        Phase::Parsing => "Parsing"@,
        Phase::StaticEvaluation => "Evaluating Statics"@,
        Phase::TypeChecking => "Type Checking"@,
        Phase::IRBuilding => "IR Building"@,
        Phase::Compiling => "Compiling"@,
    }
}

/// The share of the progress bar (in percent) reached when a phase begins:
/// each phase but the last takes 16 points, the last takes 20.
pub open spec fn spec_progress_start(p: Phase) -> u64 {
    (16 * phase_index(p)) as u64
}

/// The share of the progress bar (in percent) reached when a phase ends.
pub open spec fn spec_progress_end(p: Phase) -> u64 {
    if p == Phase::Compiling {
        100
    } else {
        (16 * (phase_index(p) + 1)) as u64
    }
}

impl Phase {
    /// The name the phase is shown under.
    pub fn name(&self) -> (s: &'static str)
        ensures
            s@ == phase_name(*self),
    {
        match self {
            Phase::Tokenizing => "Tokenizing",
            Phase::Parsing => "Parsing",
            Phase::StaticEvaluation => "Evaluating Statics",
            Phase::TypeChecking => "Type Checking",
            Phase::IRBuilding => "IR Building",
            Phase::Compiling => "Compiling",
        }
    }

    /// Where the progress bar stands when the phase begins.
    pub fn progress_start(&self) -> (n: u64)
        ensures
            n == spec_progress_start(*self),
    {
        match self {
            Phase::Tokenizing => 0,
            Phase::Parsing => 16,
            Phase::StaticEvaluation => 32,
            Phase::TypeChecking => 48,
            Phase::IRBuilding => 64,
            Phase::Compiling => 80,
        }
    }

    /// Where the progress bar stands when the phase ends.
    pub fn progress_end(&self) -> (n: u64)
        ensures
            n == spec_progress_end(*self),
    {
        match self {
            Phase::Tokenizing => 16,
            Phase::Parsing => 32,
            Phase::StaticEvaluation => 48,
            Phase::TypeChecking => 64,
            Phase::IRBuilding => 80,
            Phase::Compiling => 100,
        }
    }
}

/// The progress bar runs from 0 to 100 without gaps or overlaps: the first
/// phase starts at 0, the last ends at 100, every phase ends after it starts,
/// and each phase starts where the one before it ended.
pub proof fn law_progress_covers(p: Phase, q: Phase)
    ensures
        spec_progress_start(Phase::Tokenizing) == 0,
        spec_progress_end(Phase::Compiling) == 100,
        spec_progress_start(p) < spec_progress_end(p) <= 100,
        phase_index(q) == phase_index(p) + 1 ==> spec_progress_start(q) == spec_progress_end(p),
        phase_index(p) < phase_index(q) ==> spec_progress_end(p) <= spec_progress_start(q),
{
}

/// Why compiling a source file stopped.
#[derive(Debug)]
pub enum CompileFailure {
    /// A phase reported these errors.
    Errors(Phase, ErrorCollector),
    /// The program uses a construct that has no lowering to the IR.
    Unsupported,
    /// The source, its tokens or its IR are too long for the counters used.
    TooLarge,
}

/// What compiling a source file produced: the IR and the bytecode.
#[derive(Debug)]
pub struct Compiled {
    pub ir: VynIR,
    pub bytecode: Bytecode,
}

/// Where the lexer starts: the first character, line 1, column 1.
pub open spec fn start_state() -> LexState {
    LexState { pos: 0, line: 1, column: 1, after_newline: false }
}

/// The tokens of a source text, as the lexer's specification gives them.
pub open spec fn source_tokens(source: Seq<char>) -> Seq<(TokSpec, Span)> {
    spec_tokens(source, start_state(), true)
}

/// What parsing a token list from its start gives: the statements, whether
/// no error was reported, and the type aliases.
pub open spec fn parse_of(toks: Seq<TokenInfo>) -> (Seq<Spanned<StmtV>>, bool, AliasesV) {
    pprogram(toks, 0, 0, Seq::empty(), Seq::empty(), true)
}

/// The source text parses without error into `prog`.
pub open spec fn parses_to(source: Seq<char>, prog: Program) -> bool {
    exists|toks: Seq<TokenInfo>|
        #[trigger] tokens_match(toks, source_tokens(source)) && parse_of(toks).1
            && statements_view(prog.statements@, prog.statements@.len() as int) == parse_of(toks).0
}

/// Parsing the source text reports an error.
pub open spec fn parse_rejected(source: Seq<char>) -> bool {
    exists|toks: Seq<TokenInfo>| #[trigger] tokens_match(toks, source_tokens(source)) && !parse_of(toks).1
}

/// `statics` is what evaluating every static declaration of `prog` records.
pub open spec fn statics_of(prog: Program, statics: Seq<(String, StaticValue, Span)>) -> bool {
    let decls = stmts_static_decls(prog.statements@, prog.statements@.len());
    records_decls(Seq::empty(), decls, statics) && statics.len() == decls.len()
}

/// `prog` type checks from an empty global scope with `statics` known.
pub open spec fn type_checks(prog: Program, statics: Seq<(String, StaticValue, Span)>) -> bool {
    stmts_eval(Seq::empty(), Seq::empty(), 0, 0, statics, prog.statements@, 0)
}

/// What building the IR of `prog` from a fresh builder gives: the context
/// after it, the instructions, and whether no error was reported.
pub open spec fn ir_of(prog: Program, statics: Seq<(String, StaticValue, Span)>) -> (BuildCtx, Seq<VynIROpCode>, bool) {
    crate::ir_builder::stmts_eval(start_ctx(), prog.statements@, 0, statics)
}

/// The phases before IR building succeed on `source`, giving `prog` and
/// `statics`.
pub open spec fn front_ok(source: Seq<char>, prog: Program, statics: Seq<(String, StaticValue, Span)>) -> bool {
    parses_to(source, prog) && statics_of(prog, statics) && type_checks(prog, statics)
}

/// The static declarations of `prog`, in order.
pub open spec fn static_decls(prog: Program) -> Seq<(Seq<char>, Expr, Span)> {
    stmts_static_decls(prog.statements@, prog.statements@.len())
}

/// Every way of evaluating `prog`'s static declarations in order, from none
/// recorded, records them all (with no float arithmetic involved there is
/// only one way).
pub open spec fn statics_recorded(prog: Program) -> bool {
    forall|trace: Seq<Seq<(String, StaticValue, Span)>>|
        #[trigger] steps_through(trace, static_decls(prog)) && trace[0] == Seq::<(String, StaticValue, Span)>::empty()
            ==> trace.last().len() == static_decls(prog).len()
}

/// Parsing the source's tokens reports no error.
pub open spec fn parse_accepted(source: Seq<char>) -> bool {
    forall|toks: Seq<TokenInfo>| #[trigger] tokens_match(toks, source_tokens(source)) ==> parse_of(toks).1
}

/// Parsing the source's tokens reports an error.
pub open spec fn parse_refused(source: Seq<char>) -> bool {
    forall|toks: Seq<TokenInfo>| #[trigger] tokens_match(toks, source_tokens(source)) ==> !parse_of(toks).1
}

/// The source and its tokens fit the counters used.
pub open spec fn source_fits(source: Seq<char>) -> bool {
    source.len() + 8 < u32::MAX && source_tokens(source).len() < usize::MAX
}

/// Tokenizing, parsing and evaluating statics succeed on `source`.
pub open spec fn statics_phase_ok(source: Seq<char>) -> bool {
    &&& source_fits(source)
    &&& parse_accepted(source)
    &&& forall|prog: Program| #[trigger] parses_to(source, prog) ==> statics_recorded(prog)
}

/// The IR built for `prog`, ended by `Halt`.
pub open spec fn built_ir(prog: Program, statics: Seq<(String, StaticValue, Span)>) -> Seq<VynIROpCode> {
    ir_of(prog, statics).1 + seq![at(VynIROC::Halt, Span::zero())]
}

/// Runs the phases on `source` in order: tokenizing, parsing, evaluating
/// statics, type checking, building the IR and compiling it to bytecode; the
/// first phase that reports errors stops the run. `float_op` does the float
/// arithmetic of static evaluation; `on_phase` is told when each phase begins
/// (`true`) and when it completes (`false`).
pub fn run_file<F: Fn(String, TokenType, String) -> Option<String>, P: Fn(Phase, bool)>(
    source: &str,
    float_op: &F,
    on_phase: &P,
) -> (r: Result<Compiled, CompileFailure>)
    requires
        forall|a: String, o: TokenType, b: String| #[trigger] float_op.requires((a, o, b)),
        forall|p: Phase, b: bool| #[trigger] on_phase.requires((p, b)),
    ensures
        r matches Err(CompileFailure::Errors(ph, c)) ==> c.errors@.len() > 0 && ph != Phase::Tokenizing,
        source@.len() + 8 >= u32::MAX ==> r matches Err(CompileFailure::TooLarge),
        r matches Err(CompileFailure::TooLarge) ==> source@.len() + 8 >= u32::MAX
            || source_tokens(source@).len() >= usize::MAX
            || exists|prog: Program, statics: Seq<(String, StaticValue, Span)>|
                #[trigger] front_ok(source@, prog, statics) && ir_program_supported(prog) && ir_of(prog, statics).2
                && ir_of(prog, statics).1.len() + 1 >= usize::MAX / 16,
        r matches Err(CompileFailure::Errors(Phase::Parsing, _)) ==> parse_rejected(source@),
        r matches Err(CompileFailure::Errors(Phase::StaticEvaluation, _)) ==> exists|prog: Program|
            #[trigger] parses_to(source@, prog) && !statics_recorded(prog),
        source_fits(source@) && parse_refused(source@) ==> r matches Err(CompileFailure::Errors(Phase::Parsing, _)),
        statics_phase_ok(source@) && (forall|prog: Program, statics: Seq<(String, StaticValue, Span)>|
            parses_to(source@, prog) && #[trigger] statics_of(prog, statics) ==> !type_checks(prog, statics))
            ==> r matches Err(CompileFailure::Errors(Phase::TypeChecking, _)),
        statics_phase_ok(source@) && (forall|prog: Program, statics: Seq<(String, StaticValue, Span)>|
            parses_to(source@, prog) && #[trigger] statics_of(prog, statics) ==> type_checks(prog, statics)
                && !ir_program_supported(prog)) ==> r matches Err(CompileFailure::Unsupported),
        statics_phase_ok(source@) && (forall|prog: Program, statics: Seq<(String, StaticValue, Span)>|
            parses_to(source@, prog) && #[trigger] statics_of(prog, statics) ==> type_checks(prog, statics)
                && ir_program_supported(prog) && !ir_of(prog, statics).2)
            ==> r matches Err(CompileFailure::Errors(Phase::IRBuilding, _)),
        statics_phase_ok(source@) && (forall|prog: Program, statics: Seq<(String, StaticValue, Span)>|
            parses_to(source@, prog) && #[trigger] statics_of(prog, statics) ==> type_checks(prog, statics)
                && ir_program_supported(prog) && ir_of(prog, statics).2 && built_ir(prog, statics).len() < usize::MAX / 16
                && compile_fails(built_ir(prog, statics))) ==> r matches Err(CompileFailure::Errors(Phase::Compiling, _)),
        statics_phase_ok(source@) && (forall|prog: Program, statics: Seq<(String, StaticValue, Span)>|
            parses_to(source@, prog) && #[trigger] statics_of(prog, statics) ==> type_checks(prog, statics)
                && ir_program_supported(prog) && ir_of(prog, statics).2 && built_ir(prog, statics).len() < usize::MAX / 16
                && !compile_fails(built_ir(prog, statics))) ==> r is Ok,
        r matches Err(CompileFailure::Errors(Phase::TypeChecking, _)) ==> exists|prog: Program, statics: Seq<(String, StaticValue, Span)>|
            parses_to(source@, prog) && #[trigger] statics_of(prog, statics) && !type_checks(prog, statics),
        r matches Err(CompileFailure::Unsupported) ==> exists|prog: Program, statics: Seq<(String, StaticValue, Span)>|
            #[trigger] front_ok(source@, prog, statics) && !ir_program_supported(prog),
        r matches Err(CompileFailure::Errors(Phase::IRBuilding, _)) ==> exists|prog: Program, statics: Seq<(String, StaticValue, Span)>|
            #[trigger] front_ok(source@, prog, statics) && ir_program_supported(prog) && !ir_of(prog, statics).2,
        r matches Err(CompileFailure::Errors(Phase::Compiling, _)) ==> exists|prog: Program, statics: Seq<(String, StaticValue, Span)>|
            #[trigger] front_ok(source@, prog, statics) && ir_program_supported(prog) && ir_of(prog, statics).2
                && compile_fails(ir_of(prog, statics).1 + seq![at(VynIROC::Halt, Span::zero())]),
        r matches Ok(c) ==> {
            &&& exists|prog: Program, statics: Seq<(String, StaticValue, Span)>|
                #[trigger] front_ok(source@, prog, statics) && ir_program_supported(prog) && ir_of(prog, statics).2
                && same_insts(c.ir.instructions@, ir_of(prog, statics).1 + seq![at(VynIROC::Halt, Span::zero())])
                && !compile_fails(ir_of(prog, statics).1 + seq![at(VynIROC::Halt, Span::zero())])
            &&& c.ir.instructions@.len() > 0
            &&& c.ir.instructions@.last() == (VynIROpCode { node: VynIROC::Halt, span: Span::zero() })
            &&& runs_end(c.bytecode.debug_info.runs@) <= c.bytecode.instructions@.len()
            &&& decodes_from(c.bytecode.instructions@, 0)
        },
{
    if source.unicode_len() >= 4294967287 {
        return Err(CompileFailure::TooLarge);
    }
    on_phase(Phase::Tokenizing, true);
    let mut lexer = Lexer::new(source);
    let tokens = lexer.tokenize();
    if tokens.len() == usize::MAX {
        return Err(CompileFailure::TooLarge);
    }
    on_phase(Phase::Tokenizing, false);
    on_phase(Phase::Parsing, true);
    let ghost toks = tokens@;
    let mut parser = Parser::new(tokens);
    proof {
        assert(parser.alias_views() =~= Seq::<(Seq<char>, AnnV)>::empty());
    }
    let program = match parser.parse_program() {
        Ok(p) => p,
        Err(errors) => {
            proof {
                assert(tokens_match(toks, source_tokens(source@)));
            }
            return Err(CompileFailure::Errors(Phase::Parsing, errors));
        },
    };
    proof {
        assert(tokens_match(toks, source_tokens(source@)));
        assert(parses_to(source@, program));
    }
    on_phase(Phase::Parsing, false);
    on_phase(Phase::StaticEvaluation, true);
    let mut static_eval = StaticEvaluator::new();
    let mut static_errors = ErrorCollector::new();
    proof {
        assert(static_eval.recorded() =~= Seq::<(String, StaticValue, Span)>::empty());
    }
    let ghost decls = static_decls(program);
    if static_eval.evaluate_program(&program, &mut static_errors, float_op).is_err() {
        proof {
            let trace = choose|trace: Seq<Seq<(String, StaticValue, Span)>>|
                #[trigger] steps_through(trace, decls) && trace[0] == Seq::<(String, StaticValue, Span)>::empty()
                    && trace.last() == static_eval.recorded();
            assert(trace.last().len() != decls.len());
            assert(!statics_recorded(program));
        }
        return Err(CompileFailure::Errors(Phase::StaticEvaluation, static_errors));
    }
    let ghost statics = static_eval.recorded();
    proof {
        assert(statics_of(program, statics));
    }
    on_phase(Phase::StaticEvaluation, false);
    on_phase(Phase::TypeChecking, true);
    let mut type_checker = TypeChecker::new(&static_eval);
    proof {
        assert(type_checker.table().symbols() =~= Seq::<(String, SymbolType, usize)>::empty());
        assert(type_checker.table().alias_entries() =~= Seq::<(String, Type, usize)>::empty());
    }
    match type_checker.check_program(&program) {
        Ok(()) => {},
        Err(errors) => {
            return Err(CompileFailure::Errors(Phase::TypeChecking, errors));
        },
    }
    on_phase(Phase::TypeChecking, false);
    on_phase(Phase::IRBuilding, true);
    proof {
        assert(front_ok(source@, program, statics));
    }
    if !program_supported(&program) {
        return Err(CompileFailure::Unsupported);
    }
    let mut ir_builder = VynIRBuilder::new(&static_eval, type_checker.symbol_type_table());
    let ir = match ir_builder.build_ir(&program) {
        Ok(ir) => ir,
        Err(errors) => {
            return Err(CompileFailure::Errors(Phase::IRBuilding, errors));
        },
    };
    if ir.instructions.len() >= usize::MAX / 16 {
        return Err(CompileFailure::TooLarge);
    }
    on_phase(Phase::IRBuilding, false);
    on_phase(Phase::Compiling, true);
    let mut compiler = VynCompiler::new();
    assert(decodes_from(Seq::<u8>::empty(), 0));
    let ghost built = ir_of(program, statics).1 + seq![at(VynIROC::Halt, Span::zero())];
    proof {
        lemma_compile_failure_same(ir.instructions@, built,
            AllocModel { pairs: Seq::empty(), used: Set::empty() }, 0, MAX_REGISTERS);
    }
    let bytecode = match compiler.compile_ir(&ir) {
        Ok(bc) => bc,
        Err(errors) => {
            return Err(CompileFailure::Errors(Phase::Compiling, errors));
        },
    };
    on_phase(Phase::Compiling, false);
    Ok(Compiled { ir, bytecode })
}

} // verus!
