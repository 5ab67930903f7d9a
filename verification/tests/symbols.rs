use vyn::errors::{ErrorCollector, VynError};
use vyn::ir_symbols::{SymbolScope, SymbolTable};
use vyn::span::Span;
use vyn::type_checker::SymbolTypeTable;
use vyn::types::Type;

fn sp() -> Span {
    Span { line: 1, start_column: 1, end_column: 2 }
}

#[test]
fn closing_a_register_scope_restores_the_table() {
    let mut table = SymbolTable::new();
    let mut errors = ErrorCollector::new();
    let outer = table.declare_ident(Type::Integer, "a".to_string(), false, sp(), &mut errors);
    assert_eq!(outer, Some(0));
    table.enter_scope();
    let inner = table.declare_ident(Type::Bool, "b".to_string(), true, sp(), &mut errors);
    assert_eq!(inner, Some(1));
    assert!(table.resolve_symbol("b", sp(), &mut errors).is_some());
    table.exit_scope();
    assert!(table.resolve_symbol("b", sp(), &mut errors).is_none());
    assert_eq!(errors.len(), 1);
    match table.resolve_symbol("a", sp(), &mut errors) {
        Some(sym) => assert!(matches!(sym.scope, SymbolScope::Register(0))),
        None => panic!("outer name lost"),
    }
    // the register the inner scope used is handed out again
    assert_eq!(table.allocate_register(), 1);
}

#[test]
fn redeclaring_in_one_scope_is_reported() {
    let mut table = SymbolTable::new();
    let mut errors = ErrorCollector::new();
    assert!(table.declare_ident(Type::Integer, "a".to_string(), false, sp(), &mut errors).is_some());
    assert!(table.declare_ident(Type::Integer, "a".to_string(), false, sp(), &mut errors).is_none());
    assert!(matches!(errors.errors[0], VynError::VariableRedeclaration { .. }));
    table.enter_scope();
    assert!(table.declare_ident(Type::Integer, "a".to_string(), false, sp(), &mut errors).is_some());
    assert_eq!(errors.len(), 1);
}

#[test]
fn type_table_scopes_drop_their_declarations() {
    let mut table = SymbolTypeTable::new();
    let mut errors = ErrorCollector::new();
    assert!(table.declare_identifier("x".to_string(), Type::Integer, sp(), true, &mut errors).is_ok());
    table.enter_scope();
    assert!(table.declare_identifier("x".to_string(), Type::Float, sp(), true, &mut errors).is_ok());
    assert_eq!(table.resolve_identifier("x", sp(), &mut errors).map(|s| s.symbol_type.copy()), Ok(Type::Float));
    table.exit_scope();
    assert_eq!(table.resolve_identifier("x", sp(), &mut errors).map(|s| s.symbol_type.copy()), Ok(Type::Integer));
    assert_eq!(table.depth(), 0);
    assert!(table.declare_identifier("x".to_string(), Type::Bool, sp(), false, &mut errors).is_err());
    assert!(!errors.errors.is_empty());
}
