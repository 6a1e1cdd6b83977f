use luagen::compiler::symbol_table::{ScopedSymbolTableBuilder, SymbolScope};

fn name(text: &str) -> String {
    String::from(text)
}

#[test]
fn unknown_name_is_a_global() {
    let table = ScopedSymbolTableBuilder::new();
    assert_eq!(table.lookup(&name("x")), Some((SymbolScope::Global, 0)));
}

#[test]
fn local_is_found_in_its_function() {
    let mut table = ScopedSymbolTableBuilder::new();
    table.define_local(&name("a"), 3);
    table.define_local(&name("b"), 4);
    assert_eq!(table.lookup(&name("a")), Some((SymbolScope::Local, 3)));
    assert_eq!(table.lookup(&name("b")), Some((SymbolScope::Local, 4)));
}

#[test]
fn later_binding_shadows_the_earlier() {
    let mut table = ScopedSymbolTableBuilder::new();
    table.define_local(&name("a"), 0);
    table.define_local(&name("a"), 5);
    assert_eq!(table.lookup(&name("a")), Some((SymbolScope::Local, 5)));
}

#[test]
fn block_binding_shadows_and_ends_with_the_block() {
    let mut table = ScopedSymbolTableBuilder::new();
    table.define_local(&name("a"), 0);
    table.enter_block();
    assert_eq!(table.lookup(&name("a")), Some((SymbolScope::Local, 0)));
    table.define_local(&name("a"), 1);
    assert_eq!(table.lookup(&name("a")), Some((SymbolScope::Local, 1)));
    table.leave_block();
    assert_eq!(table.lookup(&name("a")), Some((SymbolScope::Local, 0)));
    // the first block of a function is not left as a block
    table.leave_block();
    assert_eq!(table.lookup(&name("a")), Some((SymbolScope::Local, 0)));
}

#[test]
fn outer_function_binding_is_an_upvalue_with_its_depth() {
    let mut table = ScopedSymbolTableBuilder::new();
    table.define_local(&name("a"), 2);
    table.initialize_scope();
    table.define_local(&name("b"), 0);
    table.enter_block();
    assert_eq!(table.lookup(&name("a")), Some((SymbolScope::UpValue(1), 2)));
    assert_eq!(table.lookup(&name("b")), Some((SymbolScope::Local, 0)));
    table.initialize_scope();
    assert_eq!(table.lookup(&name("a")), Some((SymbolScope::UpValue(2), 2)));
    assert_eq!(table.lookup(&name("b")), Some((SymbolScope::UpValue(1), 0)));
    assert_eq!(table.lookup(&name("c")), Some((SymbolScope::Global, 0)));
}

#[test]
fn finalize_closes_every_block_of_the_function() {
    let mut table = ScopedSymbolTableBuilder::new();
    table.define_local(&name("a"), 1);
    table.initialize_scope();
    table.define_local(&name("b"), 0);
    table.enter_block();
    table.define_local(&name("c"), 1);
    table.finalize_scope();
    assert_eq!(table.lookup(&name("a")), Some((SymbolScope::Local, 1)));
    assert_eq!(table.lookup(&name("b")), Some((SymbolScope::Global, 0)));
    assert_eq!(table.lookup(&name("c")), Some((SymbolScope::Global, 0)));
}

#[test]
fn nothing_is_resolved_once_the_root_is_closed() {
    let mut table = ScopedSymbolTableBuilder::new();
    table.finalize_scope();
    assert_eq!(table.lookup(&name("a")), None);
    // and nothing can be bound
    table.define_local(&name("a"), 0);
    assert_eq!(table.lookup(&name("a")), None);
    table.finalize_scope();
    assert_eq!(table.lookup(&name("a")), None);
}

#[test]
fn globals_are_recorded_once_and_still_resolve_as_globals() {
    let mut table = ScopedSymbolTableBuilder::new();
    assert!(!table.knows_global(&name("g")));
    table.define_global(&name("g"));
    table.define_global(&name("g"));
    assert!(table.knows_global(&name("g")));
    assert!(!table.knows_global(&name("h")));
    assert_eq!(table.lookup(&name("g")), Some((SymbolScope::Global, 0)));
    // a local of the same name wins
    table.define_local(&name("g"), 7);
    assert_eq!(table.lookup(&name("g")), Some((SymbolScope::Local, 7)));
}
