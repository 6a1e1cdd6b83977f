//! Laws of the generator that relate one visit to another.

use crate::compiler::framing::{frame_function, same_but_upvalues};
use crate::compiler::invariants::{consistent, lemma_fresh_regs};
use crate::compiler::model::{
    bindings, m_adjust, m_args, m_bool, m_call, m_call_at, m_declare, m_expr, m_exprs,
    m_function, m_logic, m_results, m_return, m_returned, m_var, temporaries, Code, GenView,
    Operand,
};
use crate::compiler::opcodes::{arith_opcode, Label, OpMode, OpName};
use crate::compiler::soundness::lemma_returned;
use crate::compiler::types::{expect_reg, CompileError, Expect, RetExpect, Usize};
use crate::parser::types::{plain_expr, plain_exprs, Block, Expr, Name};
use crate::tokens::FlagType;
use vstd::prelude::*;

verus! {

/// Destructive reuse: an arithmetic operation whose left operand arrives in
/// a temporary, and whose result is wanted nowhere in particular, puts the
/// result in that temporary. It takes no register of its own: the state
/// after the operation is the state after its operands.
pub proof fn lemma_destructive_reuse(s: GenView, expr: Expr)
    requires
        expr matches Expr::BinOp(flag, left, right) && arith_opcode(flag) is Some && (m_expr(
            s,
            *left,
            None,
        ) matches Ok((s1, _, operand)) && operand.0 && m_expr(s1, *right, None) is Ok),
    ensures
        expr matches Expr::BinOp(flag, left, right) && (m_expr(s, *left, None) matches Ok(
            (s1, c1, (_, left_reg)),
        ) && (m_expr(s1, *right, None) matches Ok((s2, c2, (_, right_reg))) && m_expr(s, expr, None)
            == Ok::<(GenView, Code, Operand), CompileError>(
            (
                s2,
                (c1 + c2).push(OpMode::iABC(arith_opcode(flag)->0, left_reg, left_reg, right_reg)),
                (true, left_reg),
            ),
        ))),
{
    reveal(m_expr);
}

/// Local rename: a local that is declared with a value in a temporary takes
/// that register for its own, and no instruction is emitted; a local that is
/// declared with any other value gets a new register and one `MOVE`.
pub proof fn lemma_local_rename(s: GenView, name: Seq<char>, value: Operand)
    ensures
        value.0 ==> m_declare(s, name, value) == Ok::<(GenView, Code), CompileError>(
            (
                s.name_reg(name, value.1).with_table(
                    s.name_reg(name, value.1).table.define_local(name, value.1),
                ),
                Seq::empty(),
            ),
        ),
        !value.0 ==> (m_declare(s, name, value) matches Ok((_, code)) ==> code.len() == 1 && (
        code[0] matches OpMode::iABx(OpName::MOVE, _, from) && from == value.1)),
{
    reveal(m_declare);
}

/// Call spread: a single call that stands for more variables than there are
/// expressions is made to give that many results. The adjustment appends
/// the code of that call and nothing else, so no `LOADNIL`, and the
/// variables get the registers from the callee's on.
pub proof fn lemma_call_spread(s: GenView, wanted: nat, exprs: Seq<Box<Expr>>)
    requires
        exprs.len() == 1,
        *exprs[0] is FunctionCall,
        1 < wanted <= Usize::MAX,
    ensures
        match m_call(s, *exprs[0], RetExpect::Num(wanted as Usize)) {
            Ok((s1, code, func_pos)) => m_adjust(s, wanted, exprs) == if func_pos + wanted - 1
                <= Usize::MAX {
                Ok::<(GenView, Code, Seq<Operand>), CompileError>(
                    (s1, code, temporaries(func_pos, wanted)),
                )
            } else {
                Err::<(GenView, Code, Seq<Operand>), CompileError>(CompileError::SyntaxError)
            },
            Err(e) => m_adjust(s, wanted, exprs) == Err::<
                (GenView, Code, Seq<Operand>),
                CompileError,
            >(e),
        },
{
    reveal(m_adjust);
    reveal(m_call);
}

/// The result field of a `CALL`: one more than the number of results
/// wanted, 0 for all of them.
pub open spec fn result_field(expect_ret: RetExpect) -> int {
    match expect_ret {
        RetExpect::Num(count) => count + 1,
        RetExpect::Indeterminate => 0,
    }
}

/// The code of a call ends in its `CALL`, which names the callee's register
/// and the results wanted. Its argument field counts the arguments, the
/// callee included. When the last argument is a call itself, the argument
/// field is 0, and the `CALL` stands right behind the `CALL` of that
/// argument, whose callee is in the register where the argument would be and
/// which passes on all of its results.
pub proof fn lemma_call_at_ends(s: GenView, call: Expr, func_pos: Usize, expect_ret: RetExpect)
    ensures
        m_call_at(s, call, func_pos, expect_ret) matches Ok((_, code)) ==> call matches Expr::FunctionCall(
            _,
            args,
            _,
        ) && code.len() > 0 && (code.last() matches OpMode::iABC(OpName::CALL, a, b, c) && {
            let n = args@.len() as int;
            &&& a == func_pos
            &&& c == result_field(expect_ret)
            &&& n == 0 ==> b == 1
            &&& n > 0 && !(*args@[n - 1] is FunctionCall) ==> b == n + 1
            &&& n > 0 && *args@[n - 1] is FunctionCall ==> b == 0 && code.len() >= 2 && (code[code.len()
                - 2] matches OpMode::iABC(OpName::CALL, inner, _, all) && inner == func_pos + n
                && all == 0)
        }),
    decreases call,
{
    reveal(m_call_at);
    reveal(m_results);
    reveal(m_expr);
    reveal(m_args);
    if let Expr::FunctionCall(callee, args, _) = call {
        let n = args@.len() as int;
        if n > 0 && *args@[n - 1] is FunctionCall {
            if let Ok((s2, c0, _)) = m_expr(s, *callee, Some(Expect::Reg(func_pos))) {
                if let Ok((s3, _)) = m_results(s2, func_pos, expect_ret) {
                    if let Ok((s4, c1)) = m_args(s3, args@, n - 1, func_pos) {
                        if func_pos + n <= Usize::MAX {
                            let inner = (func_pos + n) as Usize;
                            if let Ok(s5) = s4.reserve(inner) {
                                lemma_call_at_ends(
                                    s5,
                                    *args@[n - 1],
                                    inner,
                                    RetExpect::Indeterminate,
                                );
                            }
                        }
                    }
                }
            }
        }
    }
}

/// The code of a call ends in its `CALL`, whose last operand is one more
/// than the number of results wanted; the results arrive from the callee's
/// register on.
pub proof fn lemma_call_ends_in_call(s: GenView, call: Expr, count: Usize)
    ensures
        m_call(s, call, RetExpect::Num(count)) matches Ok((_, code, func_pos)) ==> code.len() > 0
            && (code.last() matches OpMode::iABC(OpName::CALL, a, _, c) && a == func_pos && c
            == count + 1),
{
    reveal(m_call);
    reveal(m_call_at);
    if let Ok((s1, func_pos)) = s.fresh_reg(None) {
        lemma_call_at_ends(s1, call, func_pos, RetExpect::Num(count));
    }
}

/// A call whose value is wanted in a register puts it there: the first
/// result arrives in the callee's register, and a `MOVE` behind the `CALL`
/// takes it to the register wanted.
pub proof fn lemma_call_moved(s: GenView, expr: Expr, reg: Usize)
    requires
        expr is FunctionCall,
    ensures
        m_expr(s, expr, Some(Expect::Reg(reg))) == (match m_call(s, expr, RetExpect::Num(1)) {
            Ok((s1, code, func_pos)) => Ok::<(GenView, Code, Operand), CompileError>(
                (
                    s1,
                    if reg != func_pos {
                        code.push(OpMode::iABx(OpName::MOVE, reg, func_pos))
                    } else {
                        code
                    },
                    (true, reg),
                ),
            ),
            Err(e) => Err::<(GenView, Code, Operand), CompileError>(e),
        }),
{
    reveal(m_expr);
    reveal(m_call);
}

/// An expression whose value is wanted in a register gives that register:
/// whatever the form of a plain expression, its value is materialized where
/// the caller asked for it.
pub proof fn lemma_hint_kept(s: GenView, expr: Expr, reg: Usize)
    requires
        plain_expr(expr),
    ensures
        m_expr(s, expr, Some(Expect::Reg(reg))) matches Ok((_, _, operand)) ==> operand.1 == reg,
    decreases expr,
{
    reveal(m_expr);
    reveal(m_var);
    reveal(m_call);
    reveal(m_function);
    reveal(m_logic);
    reveal(GenView::dest_reg);
    lemma_logic_tail(s, expr, Some(Expect::Reg(reg)));
    if let Expr::UnaryOp(FlagType::Plus, operand) = expr {
        lemma_hint_kept(s, *operand, reg);
    }
}

/// The code that evaluates a predicate into a register ends in the two
/// loads that materialize it, each behind the marker of its label: first
/// the load of `false`, which skips the next instruction, then the load of
/// `true`. The register is the one asked for, else a new one, and it is a
/// temporary.
pub proof fn lemma_logic_tail(s: GenView, expr: Expr, expect: Option<Expect>)
    ensures
        m_logic(s, expr, expect) matches Ok((_, code, operand)) ==> {
            let n = code.len() as int;
            let reg = operand.1;
            &&& operand.0
            &&& expect matches Some(Expect::Reg(wanted)) ==> reg == wanted
            &&& expect is None ==> reg == s.stack_size()
            &&& n >= 4
            &&& code[n - 4] matches OpMode::Label(false_label) && (code[n - 2] matches OpMode::Label(
                true_label,
            ) && false_label == true_label + 1 && true_label == s.current().labels)
            &&& code[n - 3] == OpMode::iABC(OpName::LOADBOOL, reg, 0, 1)
            &&& code[n - 1] == OpMode::iABC(OpName::LOADBOOL, reg, 1, 0)
        },
{
    reveal(m_logic);
    reveal(GenView::dest_reg);
    reveal(GenView::fresh_reg);
    reveal(GenView::new_label);
}

/// Whether a predicate ends in a test of registers rather than in a
/// literal: its last operand, through every `not`, is a comparison or a
/// variable.
pub open spec fn ends_in_test(expr: Expr) -> bool
    decreases expr,
{
    match expr {
        Expr::BinOp(FlagType::OR, _, right) => ends_in_test(*right),
        Expr::BinOp(FlagType::AND, _, right) => ends_in_test(*right),
        Expr::BinOp(_, _, _) => true,
        Expr::UnaryOp(FlagType::Not, operand) => ends_in_test(*operand),
        Expr::Var(_) => true,
        _ => false,
    }
}

/// The branches of a predicate that ends in a test end in that test and
/// its jump. The jump goes to the label that the caller asked to be jumped
/// to, however many `not` stand above the test: each of them swaps the
/// labels and the sense of the jump both.
pub proof fn lemma_last_branch(
    s: GenView,
    expr: Expr,
    true_br: Label,
    false_br: Label,
    jump_if_true: bool,
)
    requires
        ends_in_test(expr),
    ensures
        m_bool(s, expr, true_br, false_br, jump_if_true) matches Ok((_, code)) ==> {
            let n = code.len() as int;
            &&& n >= 2
            &&& code[n - 1] == OpMode::iAsBx(
                OpName::JMP,
                0,
                if jump_if_true {
                    true_br
                } else {
                    false_br
                },
            )
            &&& code[n - 2] is iABC || code[n - 2] is iABx
        },
    decreases expr,
{
    reveal(m_bool);
    match expr {
        Expr::BinOp(FlagType::OR, left, right) => {
            if let Ok((s1, right_label)) = s.new_label() {
                if let Ok((s2, _)) = m_bool(s1, *left, true_br, right_label, true) {
                    lemma_last_branch(s2, *right, true_br, false_br, jump_if_true);
                }
            }
        },
        Expr::BinOp(FlagType::AND, left, right) => {
            if let Ok((s1, right_label)) = s.new_label() {
                if let Ok((s2, _)) = m_bool(s1, *left, right_label, false_br, false) {
                    lemma_last_branch(s2, *right, true_br, false_br, jump_if_true);
                }
            }
        },
        Expr::UnaryOp(FlagType::Not, operand) => {
            lemma_last_branch(s, *operand, false_br, true_br, !jump_if_true);
        },
        _ => {},
    }
}

/// Evaluating a predicate that ends in a test into a register: the jump of
/// that test stands directly in front of the two loads and goes to the load
/// of `true`, so it skips exactly one instruction, the load of `false`.
pub proof fn lemma_logic_last_jump(s: GenView, expr: Expr, expect: Option<Expect>)
    requires
        ends_in_test(expr),
    ensures
        m_logic(s, expr, expect) matches Ok((_, code, (_, reg))) ==> {
            let n = code.len() as int;
            &&& n >= 6
            &&& code[n - 2] matches OpMode::Label(true_label) && code[n - 5] == OpMode::iAsBx(
                OpName::JMP,
                0,
                true_label,
            )
            &&& code[n - 4] is Label
            &&& code[n - 3] == OpMode::iABC(OpName::LOADBOOL, reg, 0, 1)
            &&& code[n - 1] == OpMode::iABC(OpName::LOADBOOL, reg, 1, 0)
        },
{
    reveal(m_logic);
    reveal(m_bool);
    if let Ok((s1, reg)) = s.dest_reg(expect_reg(expect)) {
        if let Ok((s2, true_label)) = s1.new_label() {
            if let Ok((s3, false_label)) = s2.new_label() {
                lemma_last_branch(s3, expr, true_label, false_label, true);
            }
        }
    }
}

/// An argument lands behind the callee: argument `count` of a call, counted
/// from 1, is evaluated behind the arguments in front of it, and its value
/// is materialized in register `func_pos + count`, which is in use by then.
pub proof fn lemma_argument_in_place(
    s: GenView,
    args: Seq<Box<Expr>>,
    count: int,
    func_pos: Usize,
)
    requires
        1 <= count <= args.len(),
        plain_expr(*args[count - 1]),
    ensures
        m_args(s, args, count, func_pos) matches Ok((after, code)) ==> func_pos + count
            <= Usize::MAX && (m_args(s, args, count - 1, func_pos) matches Ok((s1, c1)) && (
        s1.reserve((func_pos + count) as Usize) matches Ok(s2) && (m_expr(
            s2,
            *args[count - 1],
            Some(Expect::Reg((func_pos + count) as Usize)),
        ) matches Ok((s3, c2, (_, reg))) && {
            &&& after == s3
            &&& code == c1 + c2
            &&& reg == func_pos + count
        }))),
{
    reveal(m_args);
    reveal(m_expr);
    if func_pos + count <= Usize::MAX {
        if let Ok((s1, _)) = m_args(s, args, count - 1, func_pos) {
            if let Ok(s2) = s1.reserve((func_pos + count) as Usize) {
                lemma_hint_kept(s2, *args[count - 1], (func_pos + count) as Usize);
            }
        }
    }
}

/// A returned value lands in its place: value `count - 1` of a return,
/// counted from 0, is evaluated behind the values in front of it, and is
/// materialized in register `start + count - 1`.
pub proof fn lemma_returned_in_place(s: GenView, exprs: Seq<Box<Expr>>, count: int, start: Usize)
    requires
        1 <= count <= exprs.len(),
        plain_expr(*exprs[count - 1]),
    ensures
        m_returned(s, exprs, count, start) matches Ok((after, code)) ==> start + count - 1
            <= Usize::MAX && (m_returned(s, exprs, count - 1, start) matches Ok((s1, c1)) && (
        m_expr(
            s1,
            *exprs[count - 1],
            Some(Expect::Reg((start + count - 1) as Usize)),
        ) matches Ok((s2, c2, (_, reg))) && {
            &&& after == s2
            &&& code == c1 + c2
            &&& reg == start + count - 1
        })),
{
    reveal(m_returned);
    reveal(m_expr);
    if start + count - 1 <= Usize::MAX {
        if let Ok((s1, _)) = m_returned(s, exprs, count - 1, start) {
            lemma_hint_kept(s1, *exprs[count - 1], (start + count - 1) as Usize);
        }
    }
}

/// A return of `n` values takes `n` new registers, evaluates the values
/// into them in order, and ends in `RETURN start n+1`, where `start` is the
/// first of those registers. A return of nothing takes no register and is
/// the one instruction `RETURN 0 1`.
pub proof fn lemma_return_ends(s: GenView, exprs: Seq<Box<Expr>>)
    requires
        consistent(s),
        plain_exprs(exprs),
    ensures
        m_return(s, exprs) matches Ok((after, code)) ==> {
            let n = exprs.len();
            let start = if n > 0 {
                s.stack_size()
            } else {
                0
            };
            &&& s.fresh_regs(n) matches Ok((s1, _)) && m_returned(s1, exprs, n as int, start)
                matches Ok((s2, values)) && after == s2 && code == values.push(
                OpMode::iABx(OpName::RETURN, start, (n + 1) as Usize),
            )
            &&& after.stack_size() >= s.stack_size() + n
            &&& n == 0 ==> after.stack_size() == s.stack_size() && code.len() == 1
        },
{
    reveal(m_return);
    reveal(m_returned);
    reveal(GenView::fresh_regs);
    lemma_fresh_regs(s, exprs.len());
    if let Ok((s1, first)) = s.fresh_regs(exprs.len()) {
        let start = if exprs.len() > 0 {
            first
        } else {
            0
        };
        lemma_returned(s1, exprs, exprs.len() as int, start);
    }
}

/// An expression list is evaluated only as far as it is counted.
pub proof fn lemma_exprs_prefix(s: GenView, exprs: Seq<Box<Expr>>, count: int, kept: int)
    requires
        0 <= count <= kept <= exprs.len(),
    ensures
        m_exprs(s, exprs.take(kept), count) == m_exprs(s, exprs, count),
    decreases count,
{
    reveal(m_exprs);
    if count > 0 {
        lemma_exprs_prefix(s, exprs, count - 1, kept);
        assert(exprs.take(kept)[count - 1] == exprs[count - 1]);
    }
}

/// Truncation: expressions beyond the number of variables are left out.
/// Adjusting a list that is too long gives what adjusting its first
/// expressions gives, one for each variable.
pub proof fn lemma_truncation(s: GenView, wanted: nat, exprs: Seq<Box<Expr>>)
    requires
        wanted <= exprs.len(),
    ensures
        m_adjust(s, wanted, exprs) == m_adjust(s, wanted, exprs.take(wanted as int)),
        m_adjust(s, wanted, exprs) == m_exprs(s, exprs, wanted as int),
{
    reveal(m_adjust);
    reveal(m_exprs);
    lemma_exprs_prefix(s, exprs, wanted as int, wanted as int);
}

/// Compiling a nested function leaves the function around it as it was but
/// for its upvalues: the registers, the constants, the labels and the nested
/// functions of the enclosing function, and of every function further out,
/// are unchanged.
pub proof fn lemma_nested_function_frame(
    s: GenView,
    body: Block,
    params: Seq<Name>,
    is_vararg: bool,
)
    ensures
        m_function(s, body, params, is_vararg) matches Ok((s1, _)) ==> {
            &&& s1.chain.len() == s.chain.len()
            &&& forall|i: int|
                0 <= i < s.chain.len() ==> {
                    &&& (#[trigger] s1.chain[i]).regs == s.chain[i].regs
                    &&& s1.chain[i].consts == s.chain[i].consts
                    &&& s1.chain[i].labels == s.chain[i].labels
                    &&& s1.chain[i].protos == s.chain[i].protos
                }
        },
{
    frame_function(s, body, params, is_vararg);
    if let Ok((s1, _)) = m_function(s, body, params, is_vararg) {
        assert forall|i: int| 0 <= i < s.chain.len() implies {
            &&& (#[trigger] s1.chain[i]).regs == s.chain[i].regs
            &&& s1.chain[i].consts == s.chain[i].consts
            &&& s1.chain[i].labels == s.chain[i].labels
            &&& s1.chain[i].protos == s.chain[i].protos
        } by {
            assert(same_but_upvalues(s.chain[i], s1.chain[i]));
        }
    }
}

/// A function definition emits `CLOSURE dest f` with `f` the number of
/// nested functions that the enclosing function had before, followed by the
/// bindings of the closure's upvalues and nothing else. The enclosing
/// function gets the new function as its last nested function; its
/// constants and labels stay as they were, and it takes a register only if
/// none was asked for.
pub proof fn lemma_closure_index(s: GenView, expr: Expr, expect: Option<Expect>)
    requires
        expr is FunctionDef,
        s.chain.len() > 0,
    ensures
        m_expr(s, expr, expect) matches Ok((s1, code, (temp, dest))) ==> expr matches Expr::FunctionDef(
            (params, is_vararg),
            body,
        ) && (m_function(s.with_table(s.table.initialize_scope()), *body, params@, is_vararg) matches Ok(
            (_, proto),
        ) && {
            &&& temp
            &&& code == seq![
                OpMode::iABx(OpName::CLOSURE, dest, s.current().protos.len() as Usize),
            ] + bindings(proto.upvalue_list)
            &&& s1.chain.len() == s.chain.len()
            &&& s1.current().protos == s.current().protos.push(proto.chunk)
            &&& s1.current().consts == s.current().consts
            &&& s1.current().labels == s.current().labels
            &&& match expect {
                Some(Expect::Reg(reg)) => dest == reg && s1.current().regs == s.current().regs,
                None => dest == s.stack_size() && s1.stack_size() == dest + 1,
            }
        }),
{
    reveal(m_expr);
    reveal(m_function);
    reveal(GenView::add_proto);
    reveal(GenView::dest_reg);
    reveal(GenView::fresh_reg);
    if let Expr::FunctionDef((params, is_vararg), body) = expr {
        let s0 = s.with_table(s.table.initialize_scope());
        frame_function(s0, *body, params@, is_vararg);
        if let Ok((s1, proto)) = m_function(s0, *body, params@, is_vararg) {
            assert(same_but_upvalues(s.chain[s.chain.len() - 1], s1.chain[s.chain.len() - 1]));
        }
    }
}

} // verus!
