use luagen::compiler::resource_allocator::{
    propagate_upvalue, ConstAlloc, FunctionAlloc, LabelAlloc, RegisterAlloc, ResourceAlloc,
    UpvalueAlloc,
};
use luagen::compiler::types::{CompileError, ConstType, FunctionChunk, UpvalueDescriptor};

fn name(text: &str) -> String {
    String::from(text)
}

#[test]
fn registers_are_handed_out_in_order() {
    let mut regs = RegisterAlloc::new();
    assert_eq!(regs.size(), 0);
    assert_eq!(regs.push(None), Some(0));
    assert_eq!(regs.push(Some(&name("a"))), Some(1));
    assert_eq!(regs.push(None), Some(2));
    assert_eq!(regs.size(), 3);
}

#[test]
fn naming_a_register_does_not_grow_the_stack() {
    let mut regs = RegisterAlloc::new();
    regs.push(Some(&name("a")));
    regs.push(None);
    regs.push_set(&name("b"), 1);
    regs.push_set(&name("c"), 0);
    assert_eq!(regs.size(), 2);
    assert_eq!(regs.name_of(0), Some(&name("c")));
    assert_eq!(regs.name_of(1), Some(&name("b")));
    // a register that was not handed out cannot be named
    regs.push_set(&name("d"), 5);
    assert_eq!(regs.name_of(5), None);
    assert_eq!(regs.size(), 2);
}

#[test]
fn unnamed_register_has_no_name() {
    let mut regs = RegisterAlloc::new();
    regs.push(None);
    assert_eq!(regs.name_of(0), None);
}

#[test]
fn constants_are_held_once() {
    let mut pool = ConstAlloc::new();
    assert_eq!(pool.push(ConstType::Real(1.5f64.to_bits())), Some(0));
    assert_eq!(pool.push(ConstType::Str(name("x"))), Some(1));
    assert_eq!(pool.push(ConstType::Real(1.5f64.to_bits())), Some(0));
    assert_eq!(pool.push(ConstType::Boolean(true)), Some(2));
    assert_eq!(pool.push(ConstType::Nil), Some(3));
    assert_eq!(pool.push(ConstType::Str(name("x"))), Some(1));
    assert_eq!(pool.push(ConstType::Boolean(false)), Some(4));
    assert_eq!(pool.push(ConstType::Nil), Some(3));
    assert_eq!(
        pool.dump(),
        vec![
            ConstType::Real(1.5f64.to_bits()),
            ConstType::Str(name("x")),
            ConstType::Boolean(true),
            ConstType::Nil,
            ConstType::Boolean(false),
        ]
    );
}

#[test]
fn a_number_and_its_text_are_different_constants() {
    let mut pool = ConstAlloc::new();
    assert_eq!(pool.push(ConstType::Real(1.0f64.to_bits())), Some(0));
    assert_eq!(pool.push(ConstType::Str(name("1"))), Some(1));
    assert!(!ConstType::Real(0.0f64.to_bits()).same(&ConstType::Real((-0.0f64).to_bits())));
    assert!(ConstType::Str(name("a")).same(&ConstType::Str(name("a"))));
    assert!(!ConstType::Nil.same(&ConstType::Boolean(false)));
}

#[test]
fn nested_functions_keep_source_order() {
    let mut protos = FunctionAlloc::new();
    let mut first = FunctionChunk::new();
    first.para_num = 1;
    let mut second = FunctionChunk::new();
    second.para_num = 2;
    assert_eq!(protos.push(first), Some(0));
    assert_eq!(protos.push(second), Some(1));
    assert_eq!(protos.size(), 2);
    let list = protos.get_function_prototypes();
    assert_eq!(list[0].para_num, 1);
    assert_eq!(list[1].para_num, 2);
}

#[test]
fn labels_are_fresh() {
    let mut labels = LabelAlloc::new();
    assert_eq!(labels.new_label(), Some(0));
    assert_eq!(labels.new_label(), Some(1));
    assert_eq!(labels.new_label(), Some(2));
}

#[test]
fn upvalue_keeps_its_slot() {
    let mut upvalues = UpvalueAlloc::new();
    assert_eq!(upvalues.lookup_or_add(&name("a"), true, 4), Some(0));
    assert_eq!(upvalues.lookup_or_add(&name("b"), false, 1), Some(1));
    // asking again changes nothing, whatever is offered
    assert_eq!(upvalues.lookup_or_add(&name("a"), false, 9), Some(0));
    assert_eq!(upvalues.size(), 2);
    assert_eq!(
        upvalues.into_list(),
        vec![
            UpvalueDescriptor { is_immediate: true, slot_in_enclosing: 4, slot_in_closure: 0 },
            UpvalueDescriptor { is_immediate: false, slot_in_enclosing: 1, slot_in_closure: 1 },
        ]
    );
}

#[test]
fn propagation_threads_every_function_in_between() {
    // three functions inside the owner of register 7
    let mut chain = vec![
        ResourceAlloc::new(),
        ResourceAlloc::new(),
        ResourceAlloc::new(),
        ResourceAlloc::new(),
    ];
    // the middle function has captured something else before
    assert_eq!(chain[2].upvalue_alloc.lookup_or_add(&name("other"), true, 0), Some(0));
    assert_eq!(propagate_upvalue(&mut chain, &name("x"), 7, 3), Ok(0));
    let innermost = chain.pop().unwrap().upvalue_alloc.into_list();
    let middle = chain.pop().unwrap().upvalue_alloc.into_list();
    let outer = chain.pop().unwrap().upvalue_alloc.into_list();
    let owner = chain.pop().unwrap().upvalue_alloc.into_list();
    assert!(owner.is_empty());
    assert_eq!(
        outer,
        vec![UpvalueDescriptor { is_immediate: true, slot_in_enclosing: 7, slot_in_closure: 0 }]
    );
    assert_eq!(
        middle,
        vec![
            UpvalueDescriptor { is_immediate: true, slot_in_enclosing: 0, slot_in_closure: 0 },
            UpvalueDescriptor { is_immediate: false, slot_in_enclosing: 0, slot_in_closure: 1 },
        ]
    );
    assert_eq!(
        innermost,
        vec![UpvalueDescriptor { is_immediate: false, slot_in_enclosing: 1, slot_in_closure: 0 }]
    );
}

#[test]
fn propagation_from_the_enclosing_function_is_immediate() {
    let mut chain = vec![ResourceAlloc::new(), ResourceAlloc::new()];
    assert_eq!(propagate_upvalue(&mut chain, &name("x"), 3, 1), Ok(0));
    assert_eq!(propagate_upvalue(&mut chain, &name("y"), 5, 1), Ok(1));
    assert_eq!(propagate_upvalue(&mut chain, &name("x"), 3, 1), Ok(0));
    assert_eq!(
        chain.pop().unwrap().upvalue_alloc.into_list(),
        vec![
            UpvalueDescriptor { is_immediate: true, slot_in_enclosing: 3, slot_in_closure: 0 },
            UpvalueDescriptor { is_immediate: true, slot_in_enclosing: 5, slot_in_closure: 1 },
        ]
    );
    assert_eq!(chain[0].upvalue_alloc.size(), 0);
}

#[test]
fn nothing_to_capture_from_is_an_undefined_symbol() {
    let mut none: Vec<ResourceAlloc> = Vec::new();
    assert_eq!(
        propagate_upvalue(&mut none, &name("x"), 0, 1),
        Err(CompileError::UndefinedSymbol)
    );
    let mut chain = vec![ResourceAlloc::new(), ResourceAlloc::new()];
    assert_eq!(
        propagate_upvalue(&mut chain, &name("x"), 0, 0),
        Err(CompileError::UndefinedSymbol)
    );
    assert_eq!(
        propagate_upvalue(&mut chain, &name("x"), 0, 2),
        Err(CompileError::UndefinedSymbol)
    );
    assert_eq!(chain[1].upvalue_alloc.size(), 0);
}

#[test]
fn fresh_pools_are_empty() {
    let pools = ResourceAlloc::new();
    assert_eq!(pools.reg_alloc.size(), 0);
    assert_eq!(pools.function_alloc.size(), 0);
    assert_eq!(pools.upvalue_alloc.size(), 0);
    assert!(pools.const_alloc.dump().is_empty());
}
