//! Every function that the generator compiles is well formed.
//!
//! The proof follows the generator visit by visit: each visit of a
//! consistent state leaves a consistent state that extends it, and appends
//! code that is well formed in the frame of the current function.

use crate::compiler::invariants::{
    consistent, extends, lemma_add_const, lemma_add_proto, lemma_capture, lemma_define_local,
    lemma_dest_reg, lemma_extends_refl, lemma_extends_trans, lemma_fresh_reg, lemma_fresh_regs,
    lemma_new_label, lemma_pools_extend_frame, lemma_reserve, lemma_resolve_name, level_ok,
    pools_extend,
};
use crate::compiler::labels::resolve;
use crate::compiler::model::{
    assemble, bindings, branch_on, m_args, m_block, m_bool, m_call, m_call_at, m_compile, m_expr,
    m_exprs, m_function, m_logic, m_params, m_results, m_return, m_returned, m_stat, m_stats,
    m_var, Code, GenView, Operand,
};
use crate::compiler::opcodes::{arith_opcode, relational_opcode, Label, OpMode, OpName};
use crate::compiler::resource_allocator::{descriptors, AllocView};
use crate::compiler::symbol_table::{frame_start, SymbolScope};
use crate::compiler::types::{
    expect_reg, CompileError, ConstView, Expect, ProtoView, RetExpect, UpvalueDescriptor, Usize,
};
use crate::compiler::wellformed::{
    chunk_frame, code_ok, descriptors_ok, frame_le, frame_of, instr_ok, lemma_code_ok_closure,
    lemma_code_ok_concat, lemma_code_ok_empty, lemma_code_ok_monotone, lemma_code_ok_push,
    lemma_code_ok_single, lemma_resolved_stream, well_formed, Frame,
};
use crate::parser::types::{
    plain_block, plain_expr, plain_exprs, plain_node, plain_stats, Block, Expr, Name, Node, Stat,
    Var,
};
use crate::tokens::FlagType;
use crate::compiler::soundness_stat::lemma_stat;
use vstd::prelude::*;

verus! {

/// A visit that gives a register was sound: it found every symbol it looked
/// up, the state it leaves is consistent and extends the one it found, the
/// code is well formed, and the register is in use.
pub open spec fn operand_sound(s: GenView, r: Result<(GenView, Code, Operand), CompileError>)
    -> bool {
    &&& !(r matches Err(CompileError::UndefinedSymbol))
    &&& r matches Ok((s1, code, operand)) ==> {
        &&& consistent(s1)
        &&& extends(s, s1)
        &&& code_ok(code, frame_of(s1.current()))
        &&& operand.1 < s1.stack_size()
    }
}

/// A visit that gives registers was sound.
pub open spec fn operands_sound(
    s: GenView,
    r: Result<(GenView, Code, Seq<Operand>), CompileError>,
    count: int,
) -> bool {
    &&& !(r matches Err(CompileError::UndefinedSymbol))
    &&& r matches Ok((s1, code, operands)) ==> {
        &&& consistent(s1)
        &&& extends(s, s1)
        &&& code_ok(code, frame_of(s1.current()))
        &&& operands.len() == count
        &&& forall|i: int| 0 <= i < operands.len() ==> (#[trigger] operands[i]).1 < s1.stack_size()
    }
}

/// A visit that gives code only was sound.
pub open spec fn code_sound(s: GenView, r: Result<(GenView, Code), CompileError>) -> bool {
    &&& !(r matches Err(CompileError::UndefinedSymbol))
    &&& r matches Ok((s1, code)) ==> {
        &&& consistent(s1)
        &&& extends(s, s1)
        &&& code_ok(code, frame_of(s1.current()))
    }
}

/// The state after a function has been compiled: its block is still open,
/// its pools are gone.
pub open spec fn scope_left(s: GenView) -> bool {
    &&& s.table.scopes.len() == s.chain.len() + 1
    &&& s.table.scopes.last().opens_function
    &&& forall|i: int| 0 <= i < s.chain.len() ==> level_ok(s, i)
}

/// The compilation of a function was sound: the function is well formed,
/// and its upvalue list is what the function around it can bind.
pub open spec fn function_sound(s: GenView, r: Result<(GenView, ProtoView), CompileError>) -> bool {
    &&& !(r matches Err(CompileError::UndefinedSymbol))
    &&& r matches Ok((s1, proto)) ==> {
        &&& scope_left(s1)
        &&& extends(s, s1)
        &&& well_formed(proto.chunk)
        &&& proto.chunk.upvalue_num == proto.upvalue_list.len()
        &&& s1.chain.len() > 0 ==> descriptors_ok(proto.upvalue_list, frame_of(s1.current()))
    }
}

/// What the current function had, it has in a state that extends the first.
pub proof fn lemma_grown(a: GenView, b: GenView)
    requires
        a.chain.len() > 0,
        extends(a, b),
    ensures
        pools_extend(a.current(), b.current()),
        frame_le(frame_of(a.current()), frame_of(b.current())),
        a.stack_size() <= b.stack_size(),
{
    assert(pools_extend(a.chain[a.chain.len() - 1], b.chain[a.chain.len() - 1]));
    lemma_pools_extend_frame(a.current(), b.current());
}

/// Code that is well formed in a state is well formed in a state that
/// extends it.
pub proof fn lemma_lift(code: Code, a: GenView, b: GenView)
    requires
        a.chain.len() > 0,
        extends(a, b),
        code_ok(code, frame_of(a.current())),
    ensures
        code_ok(code, frame_of(b.current())),
{
    lemma_grown(a, b);
    lemma_code_ok_monotone(code, 0, frame_of(a.current()), frame_of(b.current()));
}

/// An upvalue list that a frame can bind, a frame that offers more can bind.
pub proof fn lemma_descriptors_monotone(list: Seq<UpvalueDescriptor>, a: Frame, b: Frame)
    requires
        descriptors_ok(list, a),
        frame_le(a, b),
    ensures
        descriptors_ok(list, b),
{
    assert forall|j: int| 0 <= j < list.len() implies {
        &&& (#[trigger] list[j]).slot_in_closure == j
        &&& list[j].is_immediate ==> list[j].slot_in_enclosing < b.registers
        &&& !list[j].is_immediate ==> list[j].slot_in_enclosing < b.upvalues
    } by {}
}

/// Two instructions that name only what the frame offers are well-formed
/// code.
pub proof fn lemma_code_ok_pair(first: OpMode, second: OpMode, frame: Frame)
    requires
        instr_ok(first, frame),
        instr_ok(second, frame),
    ensures
        code_ok(seq![first, second], frame),
{
    lemma_code_ok_single(first, frame);
    lemma_code_ok_push(seq![first], second, frame);
    assert(seq![first].push(second) =~= seq![first, second]);
}

/// Reading a plain variable is sound.
pub proof fn lemma_var(s: GenView, var: Var, want: Option<Usize>)
    requires
        consistent(s),
        !(var is Reg),
        want matches Some(reg) ==> reg < s.stack_size(),
    ensures
        operand_sound(s, m_var(s, var, want)),
{
    reveal(m_var);
    lemma_extends_refl(s);
    lemma_code_ok_empty(frame_of(s.current()));
    match var {
        Var::Name(name) => {
            lemma_resolve_name(s, s.chain.len() as int, name@, 0);
            match s.table.lookup(name@) {
                None => {},
                Some((SymbolScope::Global, _)) => {
                    lemma_add_const(s, ConstView::Str(name@));
                    if let Ok((s1, k)) = s.add_const(ConstView::Str(name@)) {
                        lemma_dest_reg(s1, want);
                        if let Ok((s2, reg)) = s1.dest_reg(want) {
                            lemma_grown(s1, s2);
                            lemma_extends_trans(s, s1, s2);
                            lemma_code_ok_single(
                                OpMode::iABx(OpName::GETGLOBAL, reg, k),
                                frame_of(s2.current()),
                            );
                        }
                    }
                },
                Some((SymbolScope::UpValue(depth), pos)) => {
                    lemma_capture(s, name@, pos, depth as nat);
                    if let Ok((s1, slot)) = s.capture(name@, pos, depth as nat) {
                        lemma_dest_reg(s1, want);
                        if let Ok((s2, reg)) = s1.dest_reg(want) {
                            lemma_grown(s1, s2);
                            lemma_extends_trans(s, s1, s2);
                            lemma_code_ok_single(
                                OpMode::iABx(OpName::GETUPVAL, reg, slot),
                                frame_of(s2.current()),
                            );
                        }
                    }
                },
                Some((SymbolScope::Local, pos)) => {
                    if let Some(reg) = want {
                        lemma_code_ok_single(
                            OpMode::iABx(OpName::MOVE, reg, pos),
                            frame_of(s.current()),
                        );
                    }
                },
            }
        },
        _ => {},
    }
}

/// Evaluating a plain expression is sound.
pub proof fn lemma_expr(s: GenView, expr: Expr, expect: Option<Expect>)
    requires
        consistent(s),
        plain_expr(expr),
        expect_reg(expect) matches Some(reg) ==> reg < s.stack_size(),
    ensures
        operand_sound(s, m_expr(s, expr, expect)),
    decreases expr, 2int,
{
    reveal(m_expr);
    reveal(m_logic);
    reveal(m_call);
    reveal(m_function);
    let want = expect_reg(expect);
    match expr {
        Expr::Num(bits) => {
            lemma_add_const(s, ConstView::Real(bits));
            if let Ok((s1, k)) = s.add_const(ConstView::Real(bits)) {
                lemma_dest_reg(s1, want);
                if let Ok((s2, reg)) = s1.dest_reg(want) {
                    lemma_grown(s1, s2);
                    lemma_extends_trans(s, s1, s2);
                    lemma_code_ok_single(
                        OpMode::iABx(OpName::LOADK, reg, k),
                        frame_of(s2.current()),
                    );
                }
            }
        },
        Expr::Boole(value) => {
            lemma_dest_reg(s, want);
            if let Ok((s1, reg)) = s.dest_reg(want) {
                lemma_code_ok_single(
                    OpMode::iABC(OpName::LOADBOOL, reg, if value { 1 } else { 0 }, 0),
                    frame_of(s1.current()),
                );
            }
        },
        Expr::BinOp(flag, left, right) => {
            match arith_opcode(flag) {
                Some(op) => {
                    lemma_expr(s, *left, None);
                    if let Ok((s1, c1, (left_temp, left_reg))) = m_expr(s, *left, None) {
                        lemma_expr(s1, *right, None);
                        if let Ok((s2, c2, (_, right_reg))) = m_expr(s1, *right, None) {
                            lemma_grown(s, s1);
                            lemma_grown(s1, s2);
                            lemma_extends_trans(s, s1, s2);
                            let dest = match want {
                                Some(reg) => Ok((s2, (false, reg))),
                                None => if left_temp {
                                    Ok((s2, (true, left_reg)))
                                } else {
                                    match s2.fresh_reg(None) {
                                        Ok((s3, reg)) => Ok((s3, (true, reg))),
                                        Err(e) => Err(e),
                                    }
                                },
                            };
                            lemma_fresh_reg(s2, None);
                            lemma_extends_refl(s2);
                            if let Ok((s3, (temp, reg))) = dest {
                                lemma_grown(s2, s3);
                                lemma_extends_trans(s, s2, s3);
                                lemma_extends_trans(s1, s2, s3);
                                lemma_lift(c1, s1, s3);
                                lemma_lift(c2, s2, s3);
                                lemma_code_ok_concat(c1, c2, frame_of(s3.current()));
                                lemma_code_ok_push(
                                    c1 + c2,
                                    OpMode::iABC(op, reg, left_reg, right_reg),
                                    frame_of(s3.current()),
                                );
                            }
                        }
                    }
                },
                None => {
                    lemma_logic(s, expr, expect);
                },
            }
        },
        Expr::Var(var) => {
            lemma_var(s, var, want);
        },
        Expr::FunctionDef((params, is_vararg), body) => {
            let s0 = s.with_table(s.table.initialize_scope());
            assert forall|i: int| 0 <= i < s0.chain.len() implies level_ok(s0, i) by {
                assert(level_ok(s, i));
            }
            lemma_function(s0, *body, params@, is_vararg);
            if let Ok((s1, proto)) = m_function(s0, *body, params@, is_vararg) {
                let s1f = s1.with_table(s1.table.finalize_scope());
                lemma_closed_scope(s1);
                lemma_add_proto(s1f, proto.chunk);
                if let Ok((s2, index)) = s1f.add_proto(proto.chunk) {
                    lemma_dest_reg(s2, want);
                    lemma_grown(s, s1);
                    lemma_grown(s1f, s2);
                    if let Ok((s3, reg)) = s2.dest_reg(want) {
                        lemma_grown(s2, s3);
                        lemma_extends_trans(s, s1f, s2);
                        lemma_extends_trans(s, s2, s3);
                        lemma_extends_trans(s1f, s2, s3);
                        lemma_grown(s1f, s3);
                        lemma_descriptors_monotone(
                            proto.upvalue_list,
                            frame_of(s1.current()),
                            frame_of(s3.current()),
                        );
                        assert(s3.current().protos[index as int] == proto.chunk);
                        lemma_code_ok_closure(
                            reg,
                            index,
                            proto.upvalue_list,
                            frame_of(s3.current()),
                        );
                    }
                }
            }
        },
        Expr::FunctionCall(_, _, _) => {
            lemma_call(s, expr, RetExpect::Num(1));
            if let Ok((s1, code, func_pos)) = m_call(s, expr, RetExpect::Num(1)) {
                lemma_grown(s, s1);
                if let Some(reg) = want {
                    lemma_code_ok_push(
                        code,
                        OpMode::iABx(OpName::MOVE, reg, func_pos),
                        frame_of(s1.current()),
                    );
                }
            }
        },
        Expr::UnaryOp(op, operand) => {
            match op {
                FlagType::Minus => {},
                FlagType::Plus => {
                    lemma_expr(s, *operand, expect);
                },
                _ => {
                    lemma_logic(s, expr, expect);
                },
            }
        },
        Expr::Str(_) => {},
    }
}

/// Closing the block of a function that has been compiled gives a
/// consistent state again.
pub proof fn lemma_closed_scope(s: GenView)
    requires
        scope_left(s),
        0 < s.chain.len() <= usize::MAX,
    ensures
        consistent(s.with_table(s.table.finalize_scope())),
        extends(s, s.with_table(s.table.finalize_scope())),
        s.with_table(s.table.finalize_scope()).chain == s.chain,
{
    let s1 = s.with_table(s.table.finalize_scope());
    let n = s.table.scopes.len() as int;
    assert(frame_start(s.table.scopes, n) == n - 1);
    assert forall|i: int| 0 <= i < s1.chain.len() implies level_ok(s1, i) by {
        assert(level_ok(s, i));
    }
    lemma_extends_refl(s);
}

/// Evaluating a plain predicate into a register is sound.
pub proof fn lemma_logic(s: GenView, expr: Expr, expect: Option<Expect>)
    requires
        consistent(s),
        plain_expr(expr),
        expect_reg(expect) matches Some(reg) ==> reg < s.stack_size(),
    ensures
        operand_sound(s, m_logic(s, expr, expect)),
    decreases expr, 1int,
{
    reveal(m_logic);
    reveal(m_bool);
    lemma_dest_reg(s, expect_reg(expect));
    if let Ok((s1, reg)) = s.dest_reg(expect_reg(expect)) {
        lemma_new_label(s1);
        if let Ok((s2, true_label)) = s1.new_label() {
            lemma_new_label(s2);
            if let Ok((s3, false_label)) = s2.new_label() {
                lemma_bool(s3, expr, true_label, false_label, true);
                if let Ok((s4, code)) = m_bool(s3, expr, true_label, false_label, true) {
                    lemma_extends_trans(s, s1, s2);
                    lemma_extends_trans(s, s2, s3);
                    lemma_extends_trans(s, s3, s4);
                    lemma_grown(s3, s4);
                    let frame = frame_of(s4.current());
                    let tail = seq![
                        OpMode::Label(false_label),
                        OpMode::iABC(OpName::LOADBOOL, reg, 0, 1),
                        OpMode::Label(true_label),
                        OpMode::iABC(OpName::LOADBOOL, reg, 1, 0),
                    ];
                    lemma_code_ok_push(code, tail[0], frame);
                    lemma_code_ok_push(code.push(tail[0]), tail[1], frame);
                    lemma_code_ok_push(code.push(tail[0]).push(tail[1]), tail[2], frame);
                    lemma_code_ok_push(
                        code.push(tail[0]).push(tail[1]).push(tail[2]),
                        tail[3],
                        frame,
                    );
                    assert(code + tail =~= code.push(tail[0]).push(tail[1]).push(tail[2]).push(
                        tail[3],
                    ));
                }
            }
        }
    }
}

/// Lowering a plain predicate to branches is sound.
pub proof fn lemma_bool(
    s: GenView,
    expr: Expr,
    true_br: Label,
    false_br: Label,
    jump_if_true: bool,
)
    requires
        consistent(s),
        plain_expr(expr),
    ensures
        code_sound(s, m_bool(s, expr, true_br, false_br, jump_if_true)),
    decreases expr, 0int,
{
    reveal(m_bool);
    reveal(m_expr);
    lemma_extends_refl(s);
    match expr {
        Expr::BinOp(FlagType::OR, left, right) => {
            lemma_new_label(s);
            if let Ok((s1, right_label)) = s.new_label() {
                lemma_bool(s1, *left, true_br, right_label, true);
                if let Ok((s2, c1)) = m_bool(s1, *left, true_br, right_label, true) {
                    lemma_bool(s2, *right, true_br, false_br, jump_if_true);
                    if let Ok((s3, c2)) = m_bool(s2, *right, true_br, false_br, jump_if_true) {
                        lemma_joined(s, s1, s2, s3, c1, OpMode::Label(right_label), c2);
                    }
                }
            }
        },
        Expr::BinOp(FlagType::AND, left, right) => {
            lemma_new_label(s);
            if let Ok((s1, right_label)) = s.new_label() {
                lemma_bool(s1, *left, right_label, false_br, false);
                if let Ok((s2, c1)) = m_bool(s1, *left, right_label, false_br, false) {
                    lemma_bool(s2, *right, true_br, false_br, jump_if_true);
                    if let Ok((s3, c2)) = m_bool(s2, *right, true_br, false_br, jump_if_true) {
                        lemma_joined(s, s1, s2, s3, c1, OpMode::Label(right_label), c2);
                    }
                }
            }
        },
        Expr::BinOp(flag, left, right) => {
            if let Some((op, holds)) = relational_opcode(flag) {
                lemma_expr(s, *left, None);
                if let Ok((s1, c1, (_, left_reg))) = m_expr(s, *left, None) {
                    lemma_expr(s1, *right, None);
                    if let Ok((s2, c2, (_, right_reg))) = m_expr(s1, *right, None) {
                        lemma_grown(s1, s2);
                        lemma_extends_trans(s, s1, s2);
                        let frame = frame_of(s2.current());
                        let test = OpMode::iABC(op, if holds { 1 } else { 0 }, left_reg, right_reg);
                        let negated = OpMode::iABC(
                            op,
                            if holds { 0 } else { 1 },
                            left_reg,
                            right_reg,
                        );
                        lemma_lift(c1, s1, s2);
                        lemma_code_ok_concat(c1, c2, frame);
                        lemma_code_ok_pair(test, OpMode::iAsBx(OpName::JMP, 0, true_br), frame);
                        lemma_code_ok_pair(negated, OpMode::iAsBx(OpName::JMP, 0, false_br), frame);
                        lemma_code_ok_concat(
                            c1 + c2,
                            branch_on(test, negated, true_br, false_br, jump_if_true),
                            frame,
                        );
                    }
                }
            }
        },
        Expr::UnaryOp(FlagType::Not, operand) => {
            lemma_bool(s, *operand, false_br, true_br, !jump_if_true);
        },
        Expr::Var(var) => {
            lemma_var(s, var, None);
            if let Ok((s1, c1, (_, reg))) = m_var(s, var, None) {
                let frame = frame_of(s1.current());
                let test = OpMode::iABx(OpName::TEST, reg, 1);
                let negated = OpMode::iABx(OpName::TEST, reg, 0);
                lemma_code_ok_pair(test, OpMode::iAsBx(OpName::JMP, 0, true_br), frame);
                lemma_code_ok_pair(negated, OpMode::iAsBx(OpName::JMP, 0, false_br), frame);
                lemma_code_ok_concat(
                    c1,
                    branch_on(test, negated, true_br, false_br, jump_if_true),
                    frame,
                );
            }
        },
        Expr::Boole(value) => {
            lemma_code_ok_single(
                OpMode::iAsBx(OpName::JMP, 0, if value { true_br } else { false_br }),
                frame_of(s.current()),
            );
        },
        _ => {},
    }
}

/// Two sound runs of code with one instruction between them are sound.
pub proof fn lemma_joined(
    s: GenView,
    s1: GenView,
    s2: GenView,
    s3: GenView,
    c1: Code,
    between: OpMode,
    c2: Code,
)
    requires
        s.chain.len() > 0,
        extends(s, s1),
        extends(s1, s2),
        extends(s2, s3),
        code_ok(c1, frame_of(s2.current())),
        code_ok(c2, frame_of(s3.current())),
        instr_ok(between, frame_of(s3.current())),
    ensures
        extends(s, s3),
        code_ok(c1.push(between) + c2, frame_of(s3.current())),
{
    lemma_extends_trans(s, s1, s2);
    lemma_extends_trans(s, s2, s3);
    lemma_lift(c1, s2, s3);
    lemma_code_ok_push(c1, between, frame_of(s3.current()));
    lemma_code_ok_concat(c1.push(between), c2, frame_of(s3.current()));
}

/// Taking the registers for the results of a call is sound, and the
/// registers of the results wanted are in use afterwards.
pub proof fn lemma_results(s: GenView, func_pos: Usize, expect_ret: RetExpect)
    requires
        consistent(s),
    ensures
        m_results(s, func_pos, expect_ret) matches Err(e) ==> e == CompileError::SyntaxError,
        m_results(s, func_pos, expect_ret) matches Ok((s1, field)) ==> {
            &&& consistent(s1)
            &&& extends(s, s1)
            &&& match expect_ret {
                RetExpect::Num(count) => field == count + 1 && (count >= 1 ==> func_pos + count - 1
                    < s1.stack_size()),
                RetExpect::Indeterminate => s1 == s && field == 0,
            }
        },
{
    reveal(m_results);
    lemma_extends_refl(s);
    if let RetExpect::Num(count) = expect_ret {
        if count > 0 && func_pos + count - 1 <= Usize::MAX {
            lemma_reserve(s, (func_pos + count - 1) as Usize);
        }
    }
}

/// Calling a function with plain callee and arguments is sound, and the
/// registers of the results wanted are in use.
pub proof fn lemma_call(s: GenView, call: Expr, expect_ret: RetExpect)
    requires
        consistent(s),
        plain_expr(call),
    ensures
        !(m_call(s, call, expect_ret) matches Err(CompileError::UndefinedSymbol)),
        m_call(s, call, expect_ret) matches Ok((s1, code, func_pos)) ==> {
            &&& consistent(s1)
            &&& extends(s, s1)
            &&& code_ok(code, frame_of(s1.current()))
            &&& func_pos < s1.stack_size()
            &&& func_pos == s.stack_size()
            &&& expect_ret matches RetExpect::Num(count) ==> func_pos + count - 1
                < s1.stack_size()
        },
    decreases call, 1int,
{
    reveal(m_call);
    reveal(m_call_at);
    lemma_fresh_reg(s, None);
    if let Ok((s1, func_pos)) = s.fresh_reg(None) {
        lemma_call_at(s1, call, func_pos, expect_ret);
        if let Ok((s2, code)) = m_call_at(s1, call, func_pos, expect_ret) {
            lemma_grown(s1, s2);
            lemma_extends_trans(s, s1, s2);
        }
    }
}

/// Calling a function whose callee goes to a register in use is sound.
pub proof fn lemma_call_at(s: GenView, call: Expr, func_pos: Usize, expect_ret: RetExpect)
    requires
        consistent(s),
        plain_expr(call),
        func_pos < s.stack_size(),
    ensures
        !(m_call_at(s, call, func_pos, expect_ret) matches Err(CompileError::UndefinedSymbol)),
        m_call_at(s, call, func_pos, expect_ret) matches Ok((s1, code)) ==> {
            &&& consistent(s1)
            &&& extends(s, s1)
            &&& code_ok(code, frame_of(s1.current()))
            &&& expect_ret matches RetExpect::Num(count) ==> func_pos + count - 1
                < s1.stack_size()
        },
    decreases call, 0int,
{
    reveal(m_call_at);
    reveal(m_args);
    reveal(m_expr);
    match call {
        Expr::FunctionCall(callee, args, _) => {
            lemma_expr(s, *callee, Some(Expect::Reg(func_pos)));
            if let Ok((s2, c0, _)) = m_expr(s, *callee, Some(Expect::Reg(func_pos))) {
                lemma_grown(s, s2);
                lemma_results(s2, func_pos, expect_ret);
                if let Ok((s3, ret_field)) = m_results(s2, func_pos, expect_ret) {
                    lemma_grown(s2, s3);
                    lemma_extends_trans(s, s2, s3);
                    lemma_lift(c0, s2, s3);
                    let n = args@.len() as int;
                    if n == 0 {
                        lemma_code_ok_push(
                            c0,
                            OpMode::iABC(OpName::CALL, func_pos, 1, ret_field),
                            frame_of(s3.current()),
                        );
                    } else if *args@[n - 1] is FunctionCall {
                        assert(plain_exprs(args@));
                        assert(plain_expr(*args@[n - 1]));
                        lemma_args(s3, args@, n - 1, func_pos);
                        if let Ok((s4, c1)) = m_args(s3, args@, n - 1, func_pos) {
                            if func_pos + n <= Usize::MAX {
                                let inner = (func_pos + n) as Usize;
                                lemma_reserve(s4, inner);
                                if let Ok(s5) = s4.reserve(inner) {
                                    lemma_call_at(
                                        s5,
                                        *args@[n - 1],
                                        inner,
                                        RetExpect::Indeterminate,
                                    );
                                    if let Ok((s6, c2)) = m_call_at(
                                        s5,
                                        *args@[n - 1],
                                        inner,
                                        RetExpect::Indeterminate,
                                    ) {
                                        lemma_grown(s3, s4);
                                        lemma_grown(s4, s5);
                                        lemma_grown(s5, s6);
                                        lemma_extends_trans(s, s3, s4);
                                        lemma_extends_trans(s, s4, s5);
                                        lemma_extends_trans(s, s5, s6);
                                        lemma_extends_trans(s3, s4, s5);
                                        lemma_extends_trans(s3, s5, s6);
                                        lemma_extends_trans(s4, s5, s6);
                                        let frame = frame_of(s6.current());
                                        lemma_lift(c0, s3, s6);
                                        lemma_lift(c1, s4, s6);
                                        lemma_code_ok_concat(c0, c1, frame);
                                        lemma_code_ok_concat(c0 + c1, c2, frame);
                                        lemma_code_ok_push(
                                            c0 + c1 + c2,
                                            OpMode::iABC(OpName::CALL, func_pos, 0, ret_field),
                                            frame,
                                        );
                                    }
                                }
                            }
                        }
                    } else {
                        lemma_args(s3, args@, n, func_pos);
                        if let Ok((s4, c1)) = m_args(s3, args@, n, func_pos) {
                            if n < Usize::MAX {
                                lemma_grown(s3, s4);
                                lemma_extends_trans(s, s3, s4);
                                let frame = frame_of(s4.current());
                                lemma_lift(c0, s3, s4);
                                lemma_code_ok_concat(c0, c1, frame);
                                lemma_code_ok_push(
                                    c0 + c1,
                                    OpMode::iABC(
                                        OpName::CALL,
                                        func_pos,
                                        (n + 1) as Usize,
                                        ret_field,
                                    ),
                                    frame,
                                );
                            }
                        }
                    }
                }
            }
        },
        _ => {},
    }
}

/// Evaluating plain arguments is sound, and their registers are in use.
pub proof fn lemma_args(s: GenView, args: Seq<Box<Expr>>, count: int, func_pos: Usize)
    requires
        consistent(s),
        plain_exprs(args),
        0 <= count <= args.len(),
        func_pos < s.stack_size(),
    ensures
        code_sound(s, m_args(s, args, count, func_pos)),
        m_args(s, args, count, func_pos) matches Ok((s1, _)) ==> func_pos + count < s1.stack_size(),
    decreases args, count,
{
    reveal(m_args);
    reveal(m_expr);
    lemma_extends_refl(s);
    lemma_code_ok_empty(frame_of(s.current()));
    if count > 0 {
        lemma_args(s, args, count - 1, func_pos);
        if let Ok((s1, c1)) = m_args(s, args, count - 1, func_pos) {
            if func_pos + count <= Usize::MAX {
                let target = (func_pos + count) as Usize;
                lemma_reserve(s1, target);
                if let Ok(s2) = s1.reserve(target) {
                    lemma_expr(s2, *args[count - 1], Some(Expect::Reg(target)));
                    if let Ok((s3, c2, _)) = m_expr(
                        s2,
                        *args[count - 1],
                        Some(Expect::Reg(target)),
                    ) {
                        lemma_grown(s2, s3);
                        lemma_extends_trans(s, s1, s2);
                        lemma_extends_trans(s, s2, s3);
                        lemma_extends_trans(s1, s2, s3);
                        lemma_lift(c1, s1, s3);
                        lemma_code_ok_concat(c1, c2, frame_of(s3.current()));
                    }
                }
            }
        }
    }
}

/// Evaluating plain expressions is sound, and there is a register in use
/// for each.
pub proof fn lemma_exprs(s: GenView, exprs: Seq<Box<Expr>>, count: int)
    requires
        consistent(s),
        plain_exprs(exprs),
        0 <= count <= exprs.len(),
    ensures
        operands_sound(s, m_exprs(s, exprs, count), count),
    decreases exprs, count,
{
    reveal(m_exprs);
    reveal(m_expr);
    lemma_extends_refl(s);
    lemma_code_ok_empty(frame_of(s.current()));
    if count > 0 {
        lemma_exprs(s, exprs, count - 1);
        if let Ok((s1, c1, operands)) = m_exprs(s, exprs, count - 1) {
            lemma_expr(s1, *exprs[count - 1], None);
            if let Ok((s2, c2, operand)) = m_expr(s1, *exprs[count - 1], None) {
                lemma_grown(s1, s2);
                lemma_extends_trans(s, s1, s2);
                lemma_lift(c1, s1, s2);
                lemma_code_ok_concat(c1, c2, frame_of(s2.current()));
                let all = operands.push(operand);
                assert forall|i: int| 0 <= i < all.len() implies (#[trigger] all[i]).1
                    < s2.stack_size() by {
                    if i < operands.len() {
                        assert(all[i] == operands[i]);
                    }
                }
            }
        }
    }
}

/// Lowering a return of plain expressions is sound.
pub proof fn lemma_return(s: GenView, exprs: Seq<Box<Expr>>)
    requires
        consistent(s),
        plain_exprs(exprs),
    ensures
        code_sound(s, m_return(s, exprs)),
    decreases exprs, exprs.len() + 1,
{
    reveal(m_return);
    reveal(m_returned);
    lemma_fresh_regs(s, exprs.len());
    if let Ok((s1, first)) = s.fresh_regs(exprs.len()) {
        let start = if exprs.len() > 0 {
            first
        } else {
            0
        };
        lemma_returned(s1, exprs, exprs.len() as int, start);
        if let Ok((s2, code)) = m_returned(s1, exprs, exprs.len() as int, start) {
            if exprs.len() < Usize::MAX {
                lemma_grown(s1, s2);
                lemma_extends_trans(s, s1, s2);
                lemma_code_ok_push(
                    code,
                    OpMode::iABx(OpName::RETURN, start, (exprs.len() + 1) as Usize),
                    frame_of(s2.current()),
                );
            }
        }
    }
}

/// Evaluating the values of a return into registers in use is sound.
pub proof fn lemma_returned(s: GenView, exprs: Seq<Box<Expr>>, count: int, start: Usize)
    requires
        consistent(s),
        plain_exprs(exprs),
        0 <= count <= exprs.len(),
        count > 0 ==> start + count <= s.stack_size(),
    ensures
        code_sound(s, m_returned(s, exprs, count, start)),
    decreases exprs, count,
{
    reveal(m_returned);
    reveal(m_expr);
    lemma_extends_refl(s);
    lemma_code_ok_empty(frame_of(s.current()));
    if count > 0 {
        lemma_returned(s, exprs, count - 1, start);
        if let Ok((s1, c1)) = m_returned(s, exprs, count - 1, start) {
            lemma_grown(s, s1);
            let target = (start + count - 1) as Usize;
            lemma_expr(s1, *exprs[count - 1], Some(Expect::Reg(target)));
            if let Ok((s2, c2, _)) = m_expr(s1, *exprs[count - 1], Some(Expect::Reg(target))) {
                lemma_extends_trans(s, s1, s2);
                lemma_lift(c1, s1, s2);
                lemma_code_ok_concat(c1, c2, frame_of(s2.current()));
            }
        }
    }
}

/// Lowering plain statements is sound.
pub proof fn lemma_stats(s: GenView, stats: Seq<Box<Stat>>, count: int)
    requires
        consistent(s),
        plain_stats(stats),
        0 <= count <= stats.len(),
    ensures
        code_sound(s, m_stats(s, stats, count)),
    decreases stats, count,
{
    reveal(m_stats);
    reveal(m_stat);
    lemma_extends_refl(s);
    lemma_code_ok_empty(frame_of(s.current()));
    if count > 0 {
        lemma_stats(s, stats, count - 1);
        if let Ok((s1, c1)) = m_stats(s, stats, count - 1) {
            lemma_stat(s1, *stats[count - 1]);
            if let Ok((s2, c2)) = m_stat(s1, *stats[count - 1]) {
                lemma_extends_trans(s, s1, s2);
                lemma_lift(c1, s1, s2);
                lemma_code_ok_concat(c1, c2, frame_of(s2.current()));
            }
        }
    }
}

/// Lowering a plain block is sound.
pub proof fn lemma_block(s: GenView, block: Block)
    requires
        consistent(s),
        plain_block(block),
    ensures
        code_sound(s, m_block(s, block)),
    decreases block, 1int,
{
    reveal(m_block);
    reveal(m_stats);
    reveal(m_return);
    lemma_stats(s, block.stats@, block.stats@.len() as int);
    if let Ok((s1, c1)) = m_stats(s, block.stats@, block.stats@.len() as int) {
        if let Some(exprs) = block.ret {
            lemma_return(s1, exprs@);
            if let Ok((s2, c2)) = m_return(s1, exprs@) {
                lemma_extends_trans(s, s1, s2);
                lemma_lift(c1, s1, s2);
                lemma_code_ok_concat(c1, c2, frame_of(s2.current()));
            }
        }
    }
}

/// Binding parameters keeps the state consistent.
pub proof fn lemma_params(s: GenView, params: Seq<Name>, count: int)
    requires
        consistent(s),
    ensures
        m_params(s, params, count) matches Err(e) ==> e == CompileError::SyntaxError,
        m_params(s, params, count) matches Ok(s1) ==> consistent(s1) && extends(s, s1),
    decreases count,
{
    reveal(m_params);
    lemma_extends_refl(s);
    if 0 < count <= params.len() {
        lemma_params(s, params, count - 1);
        if let Ok(s1) = m_params(s, params, count - 1) {
            lemma_fresh_reg(s1, Some(params[count - 1]@));
            if let Ok((s2, reg)) = s1.fresh_reg(Some(params[count - 1]@)) {
                lemma_define_local(s2, params[count - 1]@, reg);
                let s3 = s2.with_table(s2.table.define_local(params[count - 1]@, reg));
                lemma_extends_trans(s, s1, s2);
                lemma_extends_trans(s, s2, s3);
            }
        }
    }
}

/// The state in which a function is compiled: the table has the block of
/// that function open and empty, the chain does not hold its pools yet.
pub open spec fn scope_open(s: GenView) -> bool {
    &&& scope_left(s)
    &&& s.table.scopes.last().bindings.len() == 0
}

/// Compiling a function with a plain body is sound.
pub proof fn lemma_function(s: GenView, body: Block, params: Seq<Name>, is_vararg: bool)
    requires
        scope_open(s),
        plain_block(body),
    ensures
        function_sound(s, m_function(s, body, params, is_vararg)),
    decreases body, 2int,
{
    reveal(m_function);
    reveal(m_block);
    let n = s.chain.len() as int;
    if n >= usize::MAX {
        return ;
    }
    let s0 = GenView { chain: s.chain.push(AllocView::empty()), ..s };
    assert forall|i: int| 0 <= i < s0.chain.len() implies level_ok(s0, i) by {
        if i < n {
            assert(level_ok(s, i));
            assert(s0.chain[i] == s.chain[i]);
            if i > 0 {
                assert(s0.chain[i - 1] == s.chain[i - 1]);
            }
        } else {
            assert(s0.chain[i] == AllocView::empty());
            assert(descriptors(s0.chain[i].upvalues).len() == 0);
        }
    }
    lemma_params(s0, params, params.len() as int);
    if let Ok(s1) = m_params(s0, params, params.len() as int) {
        lemma_block(s1, body);
        if let Ok((s2, code)) = m_block(s1, body) {
            lemma_extends_trans(s0, s1, s2);
            let frame = frame_of(s2.current());
            let stream = code.push(OpMode::iABx(OpName::RETURN, 0, 1));
            lemma_code_ok_push(code, OpMode::iABx(OpName::RETURN, 0, 1), frame);
            if let Some(flat) = resolve(stream) {
                if !(s2.current().upvalues.len() > Usize::MAX || params.len() > Usize::MAX) {
                    lemma_resolved_stream(stream, frame);
                    let s3 = GenView { chain: s2.chain.drop_last(), ..s2 };
                    let proto = assemble(s2.current(), params.len(), is_vararg, flat);
                    assert(level_ok(s2, n));
                    assert(chunk_frame(proto.chunk) =~= frame);
                    assert(well_formed(proto.chunk));
                    assert forall|i: int| 0 <= i < s3.chain.len() implies level_ok(s3, i) by {
                        assert(level_ok(s2, i));
                        assert(s3.chain[i] == s2.chain[i]);
                        if i > 0 {
                            assert(s3.chain[i - 1] == s2.chain[i - 1]);
                        }
                    }
                    assert forall|i: int| 0 <= i < s.chain.len() implies pools_extend(
                        #[trigger] s.chain[i],
                        s3.chain[i],
                    ) by {
                        assert(pools_extend(s0.chain[i], s2.chain[i]));
                    }
                    if n > 0 {
                        assert(s3.current() == s2.chain[n - 1]);
                    }
                }
            }
        }
    }
}

/// The root function of a plain unit is well formed, and so is every
/// function nested in it. Compiling a plain unit finds every symbol that it
/// looks up: it may fail because a construct is not lowered or because the
/// unit cannot be lowered, but not for an undefined symbol.
pub proof fn lemma_compile(ast: Node)
    requires
        plain_node(ast),
    ensures
        m_compile(ast) matches Ok(chunk) ==> well_formed(chunk),
        !(m_compile(ast) matches Err(CompileError::UndefinedSymbol)),
{
    reveal(m_compile);
    if let Node::Block(block) = ast {
        lemma_function(GenView::fresh(), block, Seq::empty(), true);
    }
}

} // verus!
