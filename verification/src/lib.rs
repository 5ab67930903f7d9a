//! Vyn: a statically typed language that compiles to a register bytecode.
//!
//! The library holds the pipeline's logic: tokens and lexer, parser, type
//! checking, the intermediate representation, register allocation, bytecode
//! encoding with its debug map, and the virtual machine's instruction steps.

pub mod span;
pub mod bytecode;
pub mod debug_info;
pub mod tokens;
pub mod precedence;
pub mod ast;
pub mod types;
pub mod runtime_value;
pub mod errors;
pub mod ir;
pub mod register_allocator;
pub mod compiler_symbols;
pub mod compiler;
pub mod vm;
pub mod lexer;
pub mod parser;
pub mod static_evaluator;
pub mod type_checker;
pub mod ir_symbols;
pub mod ir_builder;
pub mod disassembler;
pub mod pipeline;
pub mod progress;
pub mod cli;
pub mod text;
pub mod messages;
pub mod hydor_error;
pub mod vm_messages;
