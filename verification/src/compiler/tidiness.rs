//! Every function that the generator compiles is tidy, whatever the unit:
//! it ends in a `RETURN`, its jumps land inside it, and its constants hold no
//! value twice.

use crate::compiler::labels::resolve;
use crate::compiler::model::{
    m_args, m_block, m_bool, m_call, m_call_at, m_compile, m_expr, m_exprs, m_function,
    m_logic, m_params, m_results, m_return, m_returned, m_stat, m_stats, m_var, GenView,
};
use crate::compiler::opcodes::{arith_opcode, relational_opcode, Label, OpMode, OpName};
use crate::compiler::resource_allocator::{
    const_push, label_next, lemma_const_push, lemma_propagate_frame, lemma_upvalue_add, propagate,
    proto_push, upvalue_add, upvalues_in_order, AllocView, RegView,
};
use crate::compiler::symbol_table::SymbolScope;
use crate::compiler::tidiness_stat::tidy_stat;
use crate::compiler::types::{
    expect_reg, ChunkView, ConstView, Expect, RetExpect, Usize,
};
use crate::compiler::wellformed::{lemma_resolved_shape, tidy};
use crate::parser::types::{Block, Expr, Name, Node, Stat, Var};
use crate::tokens::FlagType;
use vstd::prelude::*;

verus! {

/// The pools of a function hold no constant twice, only tidy nested
/// functions, and no upvalue of a name twice.
pub open spec fn pools_tidy(pools: AllocView) -> bool {
    &&& pools.consts.no_duplicates()
    &&& upvalues_in_order(pools.upvalues)
    &&& forall|f: int| 0 <= f < pools.protos.len() ==> tidy(#[trigger] pools.protos[f])
}

/// Capturing keeps the upvalues of every function in order: no function
/// comes to capture a name twice.
pub proof fn lemma_propagate_in_order(
    chain: Seq<AllocView>,
    level: int,
    name: Seq<char>,
    origin_reg: Usize,
    depth: nat,
)
    requires
        forall|i: int| 0 <= i < chain.len() ==> upvalues_in_order((#[trigger] chain[i]).upvalues),
    ensures
        propagate(chain, level, name, origin_reg, depth) matches Ok((after, _)) ==> forall|i: int|
            0 <= i < after.len() ==> upvalues_in_order((#[trigger] after[i]).upvalues),
    decreases depth,
{
    if !(depth == 0 || level < depth || level >= chain.len()) {
        let outer = if depth == 1 {
            Ok((chain, origin_reg))
        } else {
            propagate(chain, level - 1, name, origin_reg, (depth - 1) as nat)
        };
        if depth > 1 {
            lemma_propagate_in_order(chain, level - 1, name, origin_reg, (depth - 1) as nat);
            lemma_propagate_frame(chain, level - 1, name, origin_reg, (depth - 1) as nat);
        }
        if let Ok((chain1, source)) = outer {
            assert(upvalues_in_order(chain1[level].upvalues));
            lemma_upvalue_add(chain1[level].upvalues, name, depth == 1, source);
            if let Some((upvalues, _)) = upvalue_add(
                chain1[level].upvalues,
                name,
                depth == 1,
                source,
            ) {
                let after = chain1.update(level, AllocView { upvalues, ..chain1[level] });
                assert forall|i: int| 0 <= i < after.len() implies upvalues_in_order(
                    (#[trigger] after[i]).upvalues,
                ) by {
                    if i != level {
                        assert(upvalues_in_order(chain1[i].upvalues));
                    }
                }
            }
        }
    }
}

/// Every function that is being compiled has tidy pools.
pub open spec fn state_tidy(s: GenView) -> bool {
    forall|i: int| 0 <= i < s.chain.len() ==> pools_tidy(#[trigger] s.chain[i])
}

/// A state stays tidy over a visit, which compiles the same functions.
pub open spec fn kept_tidy(s: GenView, s1: GenView) -> bool {
    &&& state_tidy(s1)
    &&& s1.chain.len() == s.chain.len()
}

/// Tidy pools in place of the current ones keep the state tidy.
pub proof fn lemma_tidy_current(s: GenView, pools: AllocView)
    requires
        state_tidy(s),
        s.chain.len() > 0,
        pools_tidy(pools),
    ensures
        kept_tidy(s, s.with_current(pools)),
{
    let s1 = s.with_current(pools);
    assert forall|i: int| 0 <= i < s1.chain.len() implies pools_tidy(#[trigger] s1.chain[i]) by {
        if i < s.chain.len() - 1 {
            assert(pools_tidy(s.chain[i]));
        }
    }
}

/// Taking a register keeps the state tidy.
pub proof fn tidy_fresh_reg(s: GenView, name: Option<Seq<char>>)
    requires
        state_tidy(s),
    ensures
        s.fresh_reg(name) matches Ok((s1, _)) ==> kept_tidy(s, s1) && s1.table == s.table,
{
    reveal(GenView::fresh_reg);
    if s.chain.len() > 0 {
        assert(pools_tidy(s.chain[s.chain.len() - 1]));
        if let Some((regs, _)) = s.current().regs.push(name) {
            lemma_tidy_current(s, AllocView { regs, ..s.current() });
        }
    }
}

/// Taking registers keeps the state tidy.
pub proof fn tidy_fresh_regs(s: GenView, count: nat)
    requires
        state_tidy(s),
    ensures
        s.fresh_regs(count) matches Ok((s1, _)) ==> kept_tidy(s, s1) && s1.table == s.table,
{
    reveal(GenView::fresh_regs);
    if s.chain.len() > 0 {
        assert(pools_tidy(s.chain[s.chain.len() - 1]));
        let regs = RegView { size: (s.stack_size() + count) as Usize, ..s.current().regs };
        lemma_tidy_current(s, AllocView { regs, ..s.current() });
    }
}

/// Reserving a register keeps the state tidy.
pub proof fn tidy_reserve(s: GenView, reg: Usize)
    requires
        state_tidy(s),
    ensures
        s.reserve(reg) matches Ok(s1) ==> kept_tidy(s, s1) && s1.table == s.table,
{
    reveal(GenView::reserve);
    if s.chain.len() > 0 && reg >= s.stack_size() {
        tidy_fresh_regs(s, (reg + 1 - s.stack_size()) as nat);
    }
}

/// Choosing the register of a value keeps the state tidy.
pub proof fn tidy_dest_reg(s: GenView, want: Option<Usize>)
    requires
        state_tidy(s),
    ensures
        s.dest_reg(want) matches Ok((s1, _)) ==> kept_tidy(s, s1) && s1.table == s.table,
{
    reveal(GenView::dest_reg);
    tidy_fresh_reg(s, None);
}

/// Naming a register keeps the state tidy.
pub proof fn tidy_name_reg(s: GenView, name: Seq<char>, reg: Usize)
    requires
        state_tidy(s),
    ensures
        kept_tidy(s, s.name_reg(name, reg)),
        s.name_reg(name, reg).table == s.table,
{
    reveal(GenView::name_reg);
    if s.chain.len() > 0 {
        assert(pools_tidy(s.chain[s.chain.len() - 1]));
        lemma_tidy_current(
            s,
            AllocView { regs: s.current().regs.push_set(name, reg), ..s.current() },
        );
    }
}

/// Adding a constant keeps the state tidy.
pub proof fn tidy_add_const(s: GenView, value: ConstView)
    requires
        state_tidy(s),
    ensures
        s.add_const(value) matches Ok((s1, _)) ==> kept_tidy(s, s1) && s1.table == s.table,
{
    reveal(GenView::add_const);
    if s.chain.len() > 0 {
        assert(pools_tidy(s.chain[s.chain.len() - 1]));
        lemma_const_push(s.current().consts, value);
        if let Some((consts, _)) = const_push(s.current().consts, value) {
            lemma_tidy_current(s, AllocView { consts, ..s.current() });
        }
    }
}

/// Taking a label keeps the state tidy.
pub proof fn tidy_new_label(s: GenView)
    requires
        state_tidy(s),
    ensures
        s.new_label() matches Ok((s1, _)) ==> kept_tidy(s, s1) && s1.table == s.table,
{
    reveal(GenView::new_label);
    if s.chain.len() > 0 {
        assert(pools_tidy(s.chain[s.chain.len() - 1]));
        if let Some((labels, _)) = label_next(s.current().labels) {
            lemma_tidy_current(s, AllocView { labels, ..s.current() });
        }
    }
}

/// Adding a tidy nested function keeps the state tidy.
pub proof fn tidy_add_proto(s: GenView, chunk: ChunkView)
    requires
        state_tidy(s),
        tidy(chunk),
    ensures
        s.add_proto(chunk) matches Ok((s1, _)) ==> kept_tidy(s, s1) && s1.table == s.table,
{
    reveal(GenView::add_proto);
    if s.chain.len() > 0 {
        assert(pools_tidy(s.chain[s.chain.len() - 1]));
        if let Some((protos, _)) = proto_push(s.current().protos, chunk) {
            lemma_tidy_current(s, AllocView { protos, ..s.current() });
        }
    }
}

/// Capturing keeps the state tidy.
pub proof fn tidy_capture(s: GenView, name: Seq<char>, origin_reg: Usize, depth: nat)
    requires
        state_tidy(s),
    ensures
        s.capture(name, origin_reg, depth) matches Ok((s1, _)) ==> kept_tidy(s, s1) && s1.table
            == s.table,
{
    reveal(GenView::capture);
    assert forall|i: int| 0 <= i < s.chain.len() implies upvalues_in_order(
        (#[trigger] s.chain[i]).upvalues,
    ) by {
        assert(pools_tidy(s.chain[i]));
    }
    lemma_propagate_frame(s.chain, s.chain.len() - 1, name, origin_reg, depth);
    lemma_propagate_in_order(s.chain, s.chain.len() - 1, name, origin_reg, depth);
    if let Ok((chain, _)) = propagate(s.chain, s.chain.len() - 1, name, origin_reg, depth) {
        assert forall|i: int| 0 <= i < chain.len() implies pools_tidy(#[trigger] chain[i]) by {
            assert(pools_tidy(s.chain[i]));
            assert(upvalues_in_order(chain[i].upvalues));
        }
    }
}

/// Reading a variable keeps the state tidy.
pub proof fn tidy_var(s: GenView, var: Var, want: Option<Usize>)
    requires
        state_tidy(s),
    ensures
        m_var(s, var, want) matches Ok((s1, _, _)) ==> kept_tidy(s, s1),
{
    reveal(m_var);
    if let Var::Name(name) = var {
        match s.table.lookup(name@) {
            Some((SymbolScope::Global, _)) => {
                tidy_add_const(s, ConstView::Str(name@));
                if let Ok((s1, _)) = s.add_const(ConstView::Str(name@)) {
                    tidy_dest_reg(s1, want);
                }
            },
            Some((SymbolScope::UpValue(depth), pos)) => {
                tidy_capture(s, name@, pos, depth as nat);
                if let Ok((s1, _)) = s.capture(name@, pos, depth as nat) {
                    tidy_dest_reg(s1, want);
                }
            },
            _ => {},
        }
    }
}

/// Evaluating an expression keeps the state tidy.
pub proof fn tidy_expr(s: GenView, expr: Expr, expect: Option<Expect>)
    requires
        state_tidy(s),
    ensures
        m_expr(s, expr, expect) matches Ok((s1, _, _)) ==> kept_tidy(s, s1),
    decreases expr, 2int,
{
    reveal(m_expr);
    reveal(m_logic);
    reveal(m_call);
    reveal(m_function);
    let want = expect_reg(expect);
    match expr {
        Expr::Num(bits) => {
            tidy_add_const(s, ConstView::Real(bits));
            if let Ok((s1, _)) = s.add_const(ConstView::Real(bits)) {
                tidy_dest_reg(s1, want);
            }
        },
        Expr::Boole(_) => {
            tidy_dest_reg(s, want);
        },
        Expr::BinOp(flag, left, right) => {
            if arith_opcode(flag) is Some {
                tidy_expr(s, *left, None);
                if let Ok((s1, _, _)) = m_expr(s, *left, None) {
                    tidy_expr(s1, *right, None);
                    if let Ok((s2, _, _)) = m_expr(s1, *right, None) {
                        tidy_fresh_reg(s2, None);
                    }
                }
            } else {
                tidy_logic(s, expr, expect);
            }
        },
        Expr::Var(var) => {
            tidy_var(s, var, want);
        },
        Expr::FunctionDef((params, is_vararg), body) => {
            let s0 = s.with_table(s.table.initialize_scope());
            tidy_function(s0, *body, params@, is_vararg);
            if let Ok((s1, proto)) = m_function(s0, *body, params@, is_vararg) {
                let s1f = s1.with_table(s1.table.finalize_scope());
                tidy_add_proto(s1f, proto.chunk);
                if let Ok((s2, _)) = s1f.add_proto(proto.chunk) {
                    tidy_dest_reg(s2, want);
                }
            }
        },
        Expr::FunctionCall(_, _, _) => {
            tidy_call(s, expr, RetExpect::Num(1));
        },
        Expr::UnaryOp(op, operand) => {
            match op {
                FlagType::Minus => {},
                FlagType::Plus => {
                    tidy_expr(s, *operand, expect);
                },
                _ => {
                    tidy_logic(s, expr, expect);
                },
            }
        },
        Expr::Str(_) => {},
    }
}

/// Evaluating a predicate into a register keeps the state tidy.
pub proof fn tidy_logic(s: GenView, expr: Expr, expect: Option<Expect>)
    requires
        state_tidy(s),
    ensures
        m_logic(s, expr, expect) matches Ok((s1, _, _)) ==> kept_tidy(s, s1),
    decreases expr, 1int,
{
    reveal(m_logic);
    reveal(m_bool);
    tidy_dest_reg(s, expect_reg(expect));
    if let Ok((s1, _)) = s.dest_reg(expect_reg(expect)) {
        tidy_new_label(s1);
        if let Ok((s2, true_label)) = s1.new_label() {
            tidy_new_label(s2);
            if let Ok((s3, false_label)) = s2.new_label() {
                tidy_bool(s3, expr, true_label, false_label, true);
            }
        }
    }
}

/// Lowering a predicate keeps the state tidy.
pub proof fn tidy_bool(s: GenView, expr: Expr, true_br: Label, false_br: Label, jump_if_true: bool)
    requires
        state_tidy(s),
    ensures
        m_bool(s, expr, true_br, false_br, jump_if_true) matches Ok((s1, _)) ==> kept_tidy(s, s1),
    decreases expr, 0int,
{
    reveal(m_bool);
    reveal(m_expr);
    match expr {
        Expr::BinOp(FlagType::OR, left, right) => {
            tidy_new_label(s);
            if let Ok((s1, right_label)) = s.new_label() {
                tidy_bool(s1, *left, true_br, right_label, true);
                if let Ok((s2, _)) = m_bool(s1, *left, true_br, right_label, true) {
                    tidy_bool(s2, *right, true_br, false_br, jump_if_true);
                }
            }
        },
        Expr::BinOp(FlagType::AND, left, right) => {
            tidy_new_label(s);
            if let Ok((s1, right_label)) = s.new_label() {
                tidy_bool(s1, *left, right_label, false_br, false);
                if let Ok((s2, _)) = m_bool(s1, *left, right_label, false_br, false) {
                    tidy_bool(s2, *right, true_br, false_br, jump_if_true);
                }
            }
        },
        Expr::BinOp(flag, left, right) => {
            if relational_opcode(flag) is Some {
                tidy_expr(s, *left, None);
                if let Ok((s1, _, _)) = m_expr(s, *left, None) {
                    tidy_expr(s1, *right, None);
                }
            }
        },
        Expr::UnaryOp(FlagType::Not, operand) => {
            tidy_bool(s, *operand, false_br, true_br, !jump_if_true);
        },
        Expr::Var(var) => {
            tidy_var(s, var, None);
        },
        _ => {},
    }
}

/// Taking the registers for the results of a call keeps the state tidy.
pub proof fn tidy_results(s: GenView, func_pos: Usize, expect_ret: RetExpect)
    requires
        state_tidy(s),
    ensures
        m_results(s, func_pos, expect_ret) matches Ok((s1, _)) ==> kept_tidy(s, s1),
{
    reveal(m_results);
    if let RetExpect::Num(count) = expect_ret {
        if count > 0 && func_pos + count - 1 <= Usize::MAX {
            tidy_reserve(s, (func_pos + count - 1) as Usize);
        }
    }
}

/// Calling a function keeps the state tidy.
pub proof fn tidy_call(s: GenView, call: Expr, expect_ret: RetExpect)
    requires
        state_tidy(s),
    ensures
        m_call(s, call, expect_ret) matches Ok((s1, _, _)) ==> kept_tidy(s, s1),
    decreases call, 1int,
{
    reveal(m_call);
    reveal(m_call_at);
    tidy_fresh_reg(s, None);
    if let Ok((s1, func_pos)) = s.fresh_reg(None) {
        tidy_call_at(s1, call, func_pos, expect_ret);
    }
}

/// Calling a function with its callee in a given register keeps the state
/// tidy.
pub proof fn tidy_call_at(s: GenView, call: Expr, func_pos: Usize, expect_ret: RetExpect)
    requires
        state_tidy(s),
    ensures
        m_call_at(s, call, func_pos, expect_ret) matches Ok((s1, _)) ==> kept_tidy(s, s1),
    decreases call, 0int,
{
    reveal(m_call_at);
    reveal(m_args);
    reveal(m_expr);
    if let Expr::FunctionCall(callee, args, _) = call {
        tidy_expr(s, *callee, Some(Expect::Reg(func_pos)));
        if let Ok((s2, _, _)) = m_expr(s, *callee, Some(Expect::Reg(func_pos))) {
            tidy_results(s2, func_pos, expect_ret);
            if let Ok((s3, _)) = m_results(s2, func_pos, expect_ret) {
                let n = args@.len() as int;
                if n == 0 {
                } else if *args@[n - 1] is FunctionCall {
                    tidy_args(s3, args@, n - 1, func_pos);
                    if let Ok((s4, _)) = m_args(s3, args@, n - 1, func_pos) {
                        if func_pos + n <= Usize::MAX {
                            let inner = (func_pos + n) as Usize;
                            tidy_reserve(s4, inner);
                            if let Ok(s5) = s4.reserve(inner) {
                                tidy_call_at(s5, *args@[n - 1], inner, RetExpect::Indeterminate);
                            }
                        }
                    }
                } else {
                    tidy_args(s3, args@, n, func_pos);
                }
            }
        }
    }
}

/// Evaluating arguments keeps the state tidy.
pub proof fn tidy_args(s: GenView, args: Seq<Box<Expr>>, count: int, func_pos: Usize)
    requires
        state_tidy(s),
        0 <= count <= args.len(),
    ensures
        m_args(s, args, count, func_pos) matches Ok((s1, _)) ==> kept_tidy(s, s1),
    decreases args, count,
{
    reveal(m_args);
    reveal(m_expr);
    if count > 0 {
        tidy_args(s, args, count - 1, func_pos);
        if let Ok((s1, _)) = m_args(s, args, count - 1, func_pos) {
            if func_pos + count <= Usize::MAX {
                let target = (func_pos + count) as Usize;
                tidy_reserve(s1, target);
                if let Ok(s2) = s1.reserve(target) {
                    tidy_expr(s2, *args[count - 1], Some(Expect::Reg(target)));
                }
            }
        }
    }
}

/// Evaluating expressions keeps the state tidy.
pub proof fn tidy_exprs(s: GenView, exprs: Seq<Box<Expr>>, count: int)
    requires
        state_tidy(s),
        0 <= count <= exprs.len(),
    ensures
        m_exprs(s, exprs, count) matches Ok((s1, _, _)) ==> kept_tidy(s, s1),
    decreases exprs, count,
{
    reveal(m_exprs);
    reveal(m_expr);
    if count > 0 {
        tidy_exprs(s, exprs, count - 1);
        if let Ok((s1, _, _)) = m_exprs(s, exprs, count - 1) {
            tidy_expr(s1, *exprs[count - 1], None);
        }
    }
}

/// Lowering a return keeps the state tidy.
pub proof fn tidy_return(s: GenView, exprs: Seq<Box<Expr>>)
    requires
        state_tidy(s),
    ensures
        m_return(s, exprs) matches Ok((s1, _)) ==> kept_tidy(s, s1),
    decreases exprs, exprs.len() + 1,
{
    reveal(m_return);
    reveal(m_returned);
    tidy_fresh_regs(s, exprs.len());
    if let Ok((s1, first)) = s.fresh_regs(exprs.len()) {
        let start = if exprs.len() > 0 {
            first
        } else {
            0
        };
        tidy_returned(s1, exprs, exprs.len() as int, start);
    }
}

/// Evaluating the values of a return keeps the state tidy.
pub proof fn tidy_returned(s: GenView, exprs: Seq<Box<Expr>>, count: int, start: Usize)
    requires
        state_tidy(s),
        0 <= count <= exprs.len(),
    ensures
        m_returned(s, exprs, count, start) matches Ok((s1, _)) ==> kept_tidy(s, s1),
    decreases exprs, count,
{
    reveal(m_returned);
    reveal(m_expr);
    if count > 0 {
        tidy_returned(s, exprs, count - 1, start);
        if let Ok((s1, _)) = m_returned(s, exprs, count - 1, start) {
            if start + count - 1 <= Usize::MAX {
                let target = (start + count - 1) as Usize;
                tidy_expr(s1, *exprs[count - 1], Some(Expect::Reg(target)));
            }
        }
    }
}

/// Lowering statements keeps the state tidy.
pub proof fn tidy_stats(s: GenView, stats: Seq<Box<Stat>>, count: int)
    requires
        state_tidy(s),
        0 <= count <= stats.len(),
    ensures
        m_stats(s, stats, count) matches Ok((s1, _)) ==> kept_tidy(s, s1),
    decreases stats, count,
{
    reveal(m_stats);
    reveal(m_stat);
    if count > 0 {
        tidy_stats(s, stats, count - 1);
        if let Ok((s1, _)) = m_stats(s, stats, count - 1) {
            tidy_stat(s1, *stats[count - 1]);
        }
    }
}

/// Lowering a block keeps the state tidy.
pub proof fn tidy_block(s: GenView, block: Block)
    requires
        state_tidy(s),
    ensures
        m_block(s, block) matches Ok((s1, _)) ==> kept_tidy(s, s1),
    decreases block, 1int,
{
    reveal(m_block);
    reveal(m_stats);
    reveal(m_return);
    tidy_stats(s, block.stats@, block.stats@.len() as int);
    if let Ok((s1, _)) = m_stats(s, block.stats@, block.stats@.len() as int) {
        if let Some(exprs) = block.ret {
            tidy_return(s1, exprs@);
        }
    }
}

/// Binding parameters keeps the state tidy.
pub proof fn tidy_params(s: GenView, params: Seq<Name>, count: int)
    requires
        state_tidy(s),
    ensures
        m_params(s, params, count) matches Ok(s1) ==> kept_tidy(s, s1),
    decreases count,
{
    reveal(m_params);
    if 0 < count <= params.len() {
        tidy_params(s, params, count - 1);
        if let Ok(s1) = m_params(s, params, count - 1) {
            tidy_fresh_reg(s1, Some(params[count - 1]@));
        }
    }
}

/// A function that is compiled in a tidy state is tidy, and the state is
/// tidy afterwards. Its upvalue list has one descriptor for each upvalue,
/// each in its slot.
pub proof fn tidy_function(s: GenView, body: Block, params: Seq<Name>, is_vararg: bool)
    requires
        state_tidy(s),
    ensures
        m_function(s, body, params, is_vararg) matches Ok((s1, proto)) ==> {
            &&& kept_tidy(s, s1)
            &&& tidy(proto.chunk)
            &&& proto.upvalue_list.len() == proto.chunk.upvalue_num
            &&& forall|j: int|
                0 <= j < proto.upvalue_list.len() ==> (#[trigger] proto.upvalue_list[j]).slot_in_closure
                    == j
        },
    decreases body, 2int,
{
    reveal(m_function);
    reveal(m_block);
    if s.chain.len() < usize::MAX {
        let s0 = GenView { chain: s.chain.push(AllocView::empty()), ..s };
        assert forall|i: int| 0 <= i < s0.chain.len() implies pools_tidy(#[trigger] s0.chain[i]) by {
            if i < s.chain.len() {
                assert(pools_tidy(s.chain[i]));
            }
        }
        tidy_params(s0, params, params.len() as int);
        if let Ok(s1) = m_params(s0, params, params.len() as int) {
            tidy_block(s1, body);
            if let Ok((s2, code)) = m_block(s1, body) {
                let stream = code.push(OpMode::iABx(OpName::RETURN, 0, 1));
                if let Some(flat) = resolve(stream) {
                    lemma_resolved_shape(stream);
                    assert(pools_tidy(s2.chain[s2.chain.len() - 1]));
                    let s3 = GenView { chain: s2.chain.drop_last(), ..s2 };
                    assert forall|i: int| 0 <= i < s3.chain.len() implies pools_tidy(
                        #[trigger] s3.chain[i],
                    ) by {
                        assert(pools_tidy(s2.chain[i]));
                    }
                }
            }
        }
    }
}

/// The root function of any unit is tidy, and so is every function nested
/// in it.
pub proof fn tidy_compile(ast: Node)
    ensures
        m_compile(ast) matches Ok(chunk) ==> tidy(chunk),
{
    reveal(m_compile);
    if let Node::Block(block) = ast {
        tidy_function(GenView::fresh(), block, Seq::empty(), true);
    }
}

} // verus!
