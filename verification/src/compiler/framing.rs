//! Compiling a function leaves the functions around it alone: all that a
//! visit changes of an enclosing function is its upvalues.

use crate::compiler::framing_stat::frame_stat;
use crate::compiler::model::{
    m_args, m_block, m_bool, m_call, m_call_at, m_expr, m_exprs, m_function, m_logic, m_params,
    m_results, m_return, m_returned, m_stat, m_stats, m_var, GenView,
};
use crate::compiler::opcodes::{arith_opcode, relational_opcode, Label};
use crate::compiler::resource_allocator::{
    const_push, label_next, lemma_propagate_frame, propagate, proto_push, AllocView, RegView,
};
use crate::compiler::symbol_table::SymbolScope;
use crate::compiler::types::{expect_reg, ChunkView, ConstView, Expect, RetExpect, Usize};
use crate::parser::types::{Block, Expr, Name, Stat, Var};
use crate::tokens::FlagType;
use vstd::prelude::*;

verus! {

/// The second pools are the first but for their upvalues.
pub open spec fn same_but_upvalues(p: AllocView, q: AllocView) -> bool {
    q == (AllocView { upvalues: q.upvalues, ..p })
}

/// The state compiles a function inside the functions whose pools are
/// `outer`, and those pools are as they were but for their upvalues.
pub open spec fn over(outer: Seq<AllocView>, s: GenView) -> bool {
    &&& s.chain.len() == outer.len() + 1
    &&& forall|i: int| 0 <= i < outer.len() ==> same_but_upvalues(outer[i], #[trigger] s.chain[i])
}

/// Other pools for the current function leave the enclosing ones alone.
pub proof fn lemma_over_current(outer: Seq<AllocView>, s: GenView, pools: AllocView)
    requires
        over(outer, s),
    ensures
        over(outer, s.with_current(pools)),
{
    let s1 = s.with_current(pools);
    assert forall|i: int| 0 <= i < outer.len() implies same_but_upvalues(
        outer[i],
        #[trigger] s1.chain[i],
    ) by {
        assert(same_but_upvalues(outer[i], s.chain[i]));
    }
}

/// Taking a register leaves the enclosing functions alone.
pub proof fn frame_fresh_reg(outer: Seq<AllocView>, s: GenView, name: Option<Seq<char>>)
    requires
        over(outer, s),
    ensures
        s.fresh_reg(name) matches Ok((s1, _)) ==> over(outer, s1) && s1.table == s.table,
{
    reveal(GenView::fresh_reg);
    if let Some((regs, _)) = s.current().regs.push(name) {
        lemma_over_current(outer, s, AllocView { regs, ..s.current() });
    }
}

/// Taking registers leaves the enclosing functions alone.
pub proof fn frame_fresh_regs(outer: Seq<AllocView>, s: GenView, count: nat)
    requires
        over(outer, s),
    ensures
        s.fresh_regs(count) matches Ok((s1, _)) ==> over(outer, s1) && s1.table == s.table,
{
    reveal(GenView::fresh_regs);
    let regs = RegView { size: (s.stack_size() + count) as Usize, ..s.current().regs };
    lemma_over_current(outer, s, AllocView { regs, ..s.current() });
}

/// Reserving a register leaves the enclosing functions alone.
pub proof fn frame_reserve(outer: Seq<AllocView>, s: GenView, reg: Usize)
    requires
        over(outer, s),
    ensures
        s.reserve(reg) matches Ok(s1) ==> over(outer, s1) && s1.table == s.table,
{
    reveal(GenView::reserve);
    if reg >= s.stack_size() {
        frame_fresh_regs(outer, s, (reg + 1 - s.stack_size()) as nat);
    }
}

/// Choosing the register of a value leaves the enclosing functions alone.
pub proof fn frame_dest_reg(outer: Seq<AllocView>, s: GenView, want: Option<Usize>)
    requires
        over(outer, s),
    ensures
        s.dest_reg(want) matches Ok((s1, _)) ==> over(outer, s1) && s1.table == s.table,
{
    reveal(GenView::dest_reg);
    frame_fresh_reg(outer, s, None);
}

/// Naming a register leaves the enclosing functions alone.
pub proof fn frame_name_reg(outer: Seq<AllocView>, s: GenView, name: Seq<char>, reg: Usize)
    requires
        over(outer, s),
    ensures
        over(outer, s.name_reg(name, reg)),
        s.name_reg(name, reg).table == s.table,
{
    reveal(GenView::name_reg);
    lemma_over_current(
        outer,
        s,
        AllocView { regs: s.current().regs.push_set(name, reg), ..s.current() },
    );
}

/// Adding a constant leaves the enclosing functions alone.
pub proof fn frame_add_const(outer: Seq<AllocView>, s: GenView, value: ConstView)
    requires
        over(outer, s),
    ensures
        s.add_const(value) matches Ok((s1, _)) ==> over(outer, s1) && s1.table == s.table,
{
    reveal(GenView::add_const);
    if let Some((consts, _)) = const_push(s.current().consts, value) {
        lemma_over_current(outer, s, AllocView { consts, ..s.current() });
    }
}

/// Taking a label leaves the enclosing functions alone.
pub proof fn frame_new_label(outer: Seq<AllocView>, s: GenView)
    requires
        over(outer, s),
    ensures
        s.new_label() matches Ok((s1, _)) ==> over(outer, s1) && s1.table == s.table,
{
    reveal(GenView::new_label);
    if let Some((labels, _)) = label_next(s.current().labels) {
        lemma_over_current(outer, s, AllocView { labels, ..s.current() });
    }
}

/// Adding a nested function leaves the enclosing functions alone.
pub proof fn frame_add_proto(outer: Seq<AllocView>, s: GenView, chunk: ChunkView)
    requires
        over(outer, s),
    ensures
        s.add_proto(chunk) matches Ok((s1, _)) ==> over(outer, s1) && s1.table == s.table,
{
    reveal(GenView::add_proto);
    if let Some((protos, _)) = proto_push(s.current().protos, chunk) {
        lemma_over_current(outer, s, AllocView { protos, ..s.current() });
    }
}

/// Capturing changes nothing of the enclosing functions but their upvalues.
pub proof fn frame_capture(
    outer: Seq<AllocView>,
    s: GenView,
    name: Seq<char>,
    origin_reg: Usize,
    depth: nat,
)
    requires
        over(outer, s),
    ensures
        s.capture(name, origin_reg, depth) matches Ok((s1, _)) ==> over(outer, s1) && s1.table
            == s.table,
{
    reveal(GenView::capture);
    lemma_propagate_frame(s.chain, s.chain.len() - 1, name, origin_reg, depth);
    if let Ok((chain, _)) = propagate(s.chain, s.chain.len() - 1, name, origin_reg, depth) {
        assert forall|i: int| 0 <= i < outer.len() implies same_but_upvalues(
            outer[i],
            #[trigger] chain[i],
        ) by {
            assert(same_but_upvalues(outer[i], s.chain[i]));
        }
    }
}

/// Reading a variable leaves the enclosing functions alone.
pub proof fn frame_var(outer: Seq<AllocView>, s: GenView, var: Var, want: Option<Usize>)
    requires
        over(outer, s),
    ensures
        m_var(s, var, want) matches Ok((s1, _, _)) ==> over(outer, s1),
{
    reveal(m_var);
    if let Var::Name(name) = var {
        match s.table.lookup(name@) {
            Some((SymbolScope::Global, _)) => {
                frame_add_const(outer, s, ConstView::Str(name@));
                if let Ok((s1, _)) = s.add_const(ConstView::Str(name@)) {
                    frame_dest_reg(outer, s1, want);
                }
            },
            Some((SymbolScope::UpValue(depth), pos)) => {
                frame_capture(outer, s, name@, pos, depth as nat);
                if let Ok((s1, _)) = s.capture(name@, pos, depth as nat) {
                    frame_dest_reg(outer, s1, want);
                }
            },
            _ => {},
        }
    }
}

/// Evaluating an expression leaves the enclosing functions alone.
pub proof fn frame_expr(outer: Seq<AllocView>, s: GenView, expr: Expr, expect: Option<Expect>)
    requires
        over(outer, s),
    ensures
        m_expr(s, expr, expect) matches Ok((s1, _, _)) ==> over(outer, s1),
    decreases expr, 2int,
{
    reveal(m_expr);
    reveal(m_logic);
    reveal(m_call);
    reveal(m_function);
    let want = expect_reg(expect);
    match expr {
        Expr::Num(bits) => {
            frame_add_const(outer, s, ConstView::Real(bits));
            if let Ok((s1, _)) = s.add_const(ConstView::Real(bits)) {
                frame_dest_reg(outer, s1, want);
            }
        },
        Expr::Boole(_) => {
            frame_dest_reg(outer, s, want);
        },
        Expr::BinOp(flag, left, right) => {
            if arith_opcode(flag) is Some {
                frame_expr(outer, s, *left, None);
                if let Ok((s1, _, _)) = m_expr(s, *left, None) {
                    frame_expr(outer, s1, *right, None);
                    if let Ok((s2, _, _)) = m_expr(s1, *right, None) {
                        frame_fresh_reg(outer, s2, None);
                    }
                }
            } else {
                frame_logic(outer, s, expr, expect);
            }
        },
        Expr::Var(var) => {
            frame_var(outer, s, var, want);
        },
        Expr::FunctionDef((params, is_vararg), body) => {
            let s0 = s.with_table(s.table.initialize_scope());
            frame_function(s0, *body, params@, is_vararg);
            if let Ok((s1, proto)) = m_function(s0, *body, params@, is_vararg) {
                let s1f = s1.with_table(s1.table.finalize_scope());
                assert forall|i: int| 0 <= i < outer.len() implies same_but_upvalues(
                    outer[i],
                    #[trigger] s1f.chain[i],
                ) by {
                    assert(same_but_upvalues(outer[i], s.chain[i]));
                    assert(same_but_upvalues(s.chain[i], s1.chain[i]));
                }
                frame_add_proto(outer, s1f, proto.chunk);
                if let Ok((s2, _)) = s1f.add_proto(proto.chunk) {
                    frame_dest_reg(outer, s2, want);
                }
            }
        },
        Expr::FunctionCall(_, _, _) => {
            frame_call(outer, s, expr, RetExpect::Num(1));
        },
        Expr::UnaryOp(op, operand) => {
            match op {
                FlagType::Minus => {},
                FlagType::Plus => {
                    frame_expr(outer, s, *operand, expect);
                },
                _ => {
                    frame_logic(outer, s, expr, expect);
                },
            }
        },
        Expr::Str(_) => {},
    }
}

/// Evaluating a predicate into a register leaves the enclosing functions alone.
pub proof fn frame_logic(outer: Seq<AllocView>, s: GenView, expr: Expr, expect: Option<Expect>)
    requires
        over(outer, s),
    ensures
        m_logic(s, expr, expect) matches Ok((s1, _, _)) ==> over(outer, s1),
    decreases expr, 1int,
{
    reveal(m_logic);
    reveal(m_bool);
    frame_dest_reg(outer, s, expect_reg(expect));
    if let Ok((s1, _)) = s.dest_reg(expect_reg(expect)) {
        frame_new_label(outer, s1);
        if let Ok((s2, true_label)) = s1.new_label() {
            frame_new_label(outer, s2);
            if let Ok((s3, false_label)) = s2.new_label() {
                frame_bool(outer, s3, expr, true_label, false_label, true);
            }
        }
    }
}

/// Lowering a predicate leaves the enclosing functions alone.
pub proof fn frame_bool(outer: Seq<AllocView>, s: GenView, expr: Expr, true_br: Label, false_br: Label, jump_if_true: bool)
    requires
        over(outer, s),
    ensures
        m_bool(s, expr, true_br, false_br, jump_if_true) matches Ok((s1, _)) ==> over(outer, s1),
    decreases expr, 0int,
{
    reveal(m_bool);
    reveal(m_expr);
    match expr {
        Expr::BinOp(FlagType::OR, left, right) => {
            frame_new_label(outer, s);
            if let Ok((s1, right_label)) = s.new_label() {
                frame_bool(outer, s1, *left, true_br, right_label, true);
                if let Ok((s2, _)) = m_bool(s1, *left, true_br, right_label, true) {
                    frame_bool(outer, s2, *right, true_br, false_br, jump_if_true);
                }
            }
        },
        Expr::BinOp(FlagType::AND, left, right) => {
            frame_new_label(outer, s);
            if let Ok((s1, right_label)) = s.new_label() {
                frame_bool(outer, s1, *left, right_label, false_br, false);
                if let Ok((s2, _)) = m_bool(s1, *left, right_label, false_br, false) {
                    frame_bool(outer, s2, *right, true_br, false_br, jump_if_true);
                }
            }
        },
        Expr::BinOp(flag, left, right) => {
            if relational_opcode(flag) is Some {
                frame_expr(outer, s, *left, None);
                if let Ok((s1, _, _)) = m_expr(s, *left, None) {
                    frame_expr(outer, s1, *right, None);
                }
            }
        },
        Expr::UnaryOp(FlagType::Not, operand) => {
            frame_bool(outer, s, *operand, false_br, true_br, !jump_if_true);
        },
        Expr::Var(var) => {
            frame_var(outer, s, var, None);
        },
        _ => {},
    }
}

/// Taking the registers for the results of a call leaves the enclosing functions alone.
pub proof fn frame_results(outer: Seq<AllocView>, s: GenView, func_pos: Usize, expect_ret: RetExpect)
    requires
        over(outer, s),
    ensures
        m_results(s, func_pos, expect_ret) matches Ok((s1, _)) ==> over(outer, s1),
{
    reveal(m_results);
    if let RetExpect::Num(count) = expect_ret {
        if count > 0 && func_pos + count - 1 <= Usize::MAX {
            frame_reserve(outer, s, (func_pos + count - 1) as Usize);
        }
    }
}

/// Calling a function leaves the enclosing functions alone.
pub proof fn frame_call(outer: Seq<AllocView>, s: GenView, call: Expr, expect_ret: RetExpect)
    requires
        over(outer, s),
    ensures
        m_call(s, call, expect_ret) matches Ok((s1, _, _)) ==> over(outer, s1),
    decreases call, 1int,
{
    reveal(m_call);
    reveal(m_call_at);
    frame_fresh_reg(outer, s, None);
    if let Ok((s1, func_pos)) = s.fresh_reg(None) {
        frame_call_at(outer, s1, call, func_pos, expect_ret);
    }
}

/// Calling a function with its callee in a given register leaves the
/// enclosing functions alone.
pub proof fn frame_call_at(
    outer: Seq<AllocView>,
    s: GenView,
    call: Expr,
    func_pos: Usize,
    expect_ret: RetExpect,
)
    requires
        over(outer, s),
    ensures
        m_call_at(s, call, func_pos, expect_ret) matches Ok((s1, _)) ==> over(outer, s1),
    decreases call, 0int,
{
    reveal(m_call_at);
    reveal(m_args);
    reveal(m_expr);
    if let Expr::FunctionCall(callee, args, _) = call {
        frame_expr(outer, s, *callee, Some(Expect::Reg(func_pos)));
        if let Ok((s2, _, _)) = m_expr(s, *callee, Some(Expect::Reg(func_pos))) {
            frame_results(outer, s2, func_pos, expect_ret);
            if let Ok((s3, _)) = m_results(s2, func_pos, expect_ret) {
                let n = args@.len() as int;
                if n == 0 {
                } else if *args@[n - 1] is FunctionCall {
                    frame_args(outer, s3, args@, n - 1, func_pos);
                    if let Ok((s4, _)) = m_args(s3, args@, n - 1, func_pos) {
                        if func_pos + n <= Usize::MAX {
                            let inner = (func_pos + n) as Usize;
                            frame_reserve(outer, s4, inner);
                            if let Ok(s5) = s4.reserve(inner) {
                                frame_call_at(outer, s5, *args@[n - 1], inner, RetExpect::Indeterminate);
                            }
                        }
                    }
                } else {
                    frame_args(outer, s3, args@, n, func_pos);
                }
            }
        }
    }
}

/// Evaluating arguments leaves the enclosing functions alone.
pub proof fn frame_args(outer: Seq<AllocView>, s: GenView, args: Seq<Box<Expr>>, count: int, func_pos: Usize)
    requires
        over(outer, s),
        0 <= count <= args.len(),
    ensures
        m_args(s, args, count, func_pos) matches Ok((s1, _)) ==> over(outer, s1),
    decreases args, count,
{
    reveal(m_args);
    reveal(m_expr);
    if count > 0 {
        frame_args(outer, s, args, count - 1, func_pos);
        if let Ok((s1, _)) = m_args(s, args, count - 1, func_pos) {
            if func_pos + count <= Usize::MAX {
                let target = (func_pos + count) as Usize;
                frame_reserve(outer, s1, target);
                if let Ok(s2) = s1.reserve(target) {
                    frame_expr(outer, s2, *args[count - 1], Some(Expect::Reg(target)));
                }
            }
        }
    }
}

/// Evaluating expressions leaves the enclosing functions alone.
pub proof fn frame_exprs(outer: Seq<AllocView>, s: GenView, exprs: Seq<Box<Expr>>, count: int)
    requires
        over(outer, s),
        0 <= count <= exprs.len(),
    ensures
        m_exprs(s, exprs, count) matches Ok((s1, _, _)) ==> over(outer, s1),
    decreases exprs, count,
{
    reveal(m_exprs);
    reveal(m_expr);
    if count > 0 {
        frame_exprs(outer, s, exprs, count - 1);
        if let Ok((s1, _, _)) = m_exprs(s, exprs, count - 1) {
            frame_expr(outer, s1, *exprs[count - 1], None);
        }
    }
}

/// Lowering a return leaves the enclosing functions alone.
pub proof fn frame_return(outer: Seq<AllocView>, s: GenView, exprs: Seq<Box<Expr>>)
    requires
        over(outer, s),
    ensures
        m_return(s, exprs) matches Ok((s1, _)) ==> over(outer, s1),
    decreases exprs, exprs.len() + 1,
{
    reveal(m_return);
    reveal(m_returned);
    frame_fresh_regs(outer, s, exprs.len());
    if let Ok((s1, first)) = s.fresh_regs(exprs.len()) {
        let start = if exprs.len() > 0 {
            first
        } else {
            0
        };
        frame_returned(outer, s1, exprs, exprs.len() as int, start);
    }
}

/// Evaluating the values of a return leaves the enclosing functions alone.
pub proof fn frame_returned(outer: Seq<AllocView>, s: GenView, exprs: Seq<Box<Expr>>, count: int, start: Usize)
    requires
        over(outer, s),
        0 <= count <= exprs.len(),
    ensures
        m_returned(s, exprs, count, start) matches Ok((s1, _)) ==> over(outer, s1),
    decreases exprs, count,
{
    reveal(m_returned);
    reveal(m_expr);
    if count > 0 {
        frame_returned(outer, s, exprs, count - 1, start);
        if let Ok((s1, _)) = m_returned(s, exprs, count - 1, start) {
            if start + count - 1 <= Usize::MAX {
                let target = (start + count - 1) as Usize;
                frame_expr(outer, s1, *exprs[count - 1], Some(Expect::Reg(target)));
            }
        }
    }
}

/// Lowering statements leaves the enclosing functions alone.
pub proof fn frame_stats(outer: Seq<AllocView>, s: GenView, stats: Seq<Box<Stat>>, count: int)
    requires
        over(outer, s),
        0 <= count <= stats.len(),
    ensures
        m_stats(s, stats, count) matches Ok((s1, _)) ==> over(outer, s1),
    decreases stats, count,
{
    reveal(m_stats);
    reveal(m_stat);
    if count > 0 {
        frame_stats(outer, s, stats, count - 1);
        if let Ok((s1, _)) = m_stats(s, stats, count - 1) {
            frame_stat(outer, s1, *stats[count - 1]);
        }
    }
}

/// Lowering a block leaves the enclosing functions alone.
pub proof fn frame_block(outer: Seq<AllocView>, s: GenView, block: Block)
    requires
        over(outer, s),
    ensures
        m_block(s, block) matches Ok((s1, _)) ==> over(outer, s1),
    decreases block, 1int,
{
    reveal(m_block);
    reveal(m_stats);
    reveal(m_return);
    frame_stats(outer, s, block.stats@, block.stats@.len() as int);
    if let Ok((s1, _)) = m_stats(s, block.stats@, block.stats@.len() as int) {
        if let Some(exprs) = block.ret {
            frame_return(outer, s1, exprs@);
        }
    }
}

/// Binding parameters leaves the enclosing functions alone.
pub proof fn frame_params(outer: Seq<AllocView>, s: GenView, params: Seq<Name>, count: int)
    requires
        over(outer, s),
    ensures
        m_params(s, params, count) matches Ok(s1) ==> over(outer, s1),
    decreases count,
{
    reveal(m_params);
    if 0 < count <= params.len() {
        frame_params(outer, s, params, count - 1);
        if let Ok(s1) = m_params(s, params, count - 1) {
            frame_fresh_reg(outer, s1, Some(params[count - 1]@));
        }
    }
}

/// Compiling a nested function changes nothing of the functions around it
/// but their upvalues: their registers, constants, labels and nested
/// functions are as they were.
pub proof fn frame_function(s: GenView, body: Block, params: Seq<Name>, is_vararg: bool)
    ensures
        m_function(s, body, params, is_vararg) matches Ok((s1, _)) ==> {
            &&& s1.chain.len() == s.chain.len()
            &&& forall|i: int|
                0 <= i < s.chain.len() ==> same_but_upvalues(s.chain[i], #[trigger] s1.chain[i])
        },
    decreases body, 2int,
{
    reveal(m_function);
    reveal(m_block);
    if s.chain.len() < usize::MAX {
        let s0 = GenView { chain: s.chain.push(AllocView::empty()), ..s };
        assert(over(s.chain, s0));
        frame_params(s.chain, s0, params, params.len() as int);
        if let Ok(s1) = m_params(s0, params, params.len() as int) {
            frame_block(s.chain, s1, body);
            if let Ok((s2, code)) = m_block(s1, body) {
                let s3 = GenView { chain: s2.chain.drop_last(), ..s2 };
                assert forall|i: int| 0 <= i < s.chain.len() implies same_but_upvalues(
                    s.chain[i],
                    #[trigger] s3.chain[i],
                ) by {
                    assert(same_but_upvalues(s.chain[i], s2.chain[i]));
                }
            }
        }
    }
}

} // verus!
