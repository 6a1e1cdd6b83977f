//! Statements leave the enclosing functions alone.

use crate::compiler::model::{
    m_adjust, m_declare, m_declares, m_exprs, m_return, m_stat, m_store, m_stores, shorter,
    GenView, Operand,
};
use crate::compiler::framing::{
    frame_add_const, frame_call, frame_exprs, frame_fresh_reg, frame_fresh_regs, frame_name_reg,
    frame_return, over,
};
use crate::compiler::resource_allocator::AllocView;
use crate::compiler::types::{ConstView, RetExpect, Usize};
use crate::parser::types::{Expr, Name, Stat, Var};
use vstd::prelude::*;

verus! {

/// Adjusting a list of expressions leaves the enclosing functions alone.
pub proof fn frame_adjust(outer: Seq<AllocView>, s: GenView, wanted: nat, exprs: Seq<Box<Expr>>)
    requires
        over(outer, s),
    ensures
        m_adjust(s, wanted, exprs) matches Ok((s1, _, _)) ==> over(outer, s1),
    decreases exprs, exprs.len() + 1,
{
    reveal(m_adjust);
    if wanted <= exprs.len() {
        frame_exprs(outer, s, exprs, wanted as int);
    } else if exprs.len() == 1 && *exprs[0] is FunctionCall {
        if wanted <= Usize::MAX {
            frame_call(outer, s, *exprs[0], RetExpect::Num(wanted as Usize));
        }
    } else {
        frame_exprs(outer, s, exprs, exprs.len() as int);
        if let Ok((s1, _, _)) = m_exprs(s, exprs, exprs.len() as int) {
            frame_fresh_regs(outer, s1, (wanted - exprs.len()) as nat);
        }
    }
}

/// Storing a value leaves the enclosing functions alone.
pub proof fn frame_store(outer: Seq<AllocView>, s: GenView, var: Var, value: Usize)
    requires
        over(outer, s),
    ensures
        m_store(s, var, value) matches Ok((s1, _)) ==> over(outer, s1),
{
    reveal(m_store);
    if let Var::Name(name) = var {
        frame_add_const(outer, s, ConstView::Str(name@));
    }
}

/// Storing values leaves the enclosing functions alone.
pub proof fn frame_stores(outer: Seq<AllocView>, s: GenView, vars: Seq<Var>, values: Seq<Operand>, count: int)
    requires
        over(outer, s),
    ensures
        m_stores(s, vars, values, count) matches Ok((s1, _)) ==> over(outer, s1),
    decreases count,
{
    reveal(m_stores);
    if 0 < count <= vars.len() && count <= values.len() {
        frame_stores(outer, s, vars, values, count - 1);
        if let Ok((s1, _)) = m_stores(s, vars, values, count - 1) {
            frame_store(outer, s1, vars[count - 1], values[count - 1].1);
        }
    }
}

/// Declaring a local leaves the enclosing functions alone.
pub proof fn frame_declare(outer: Seq<AllocView>, s: GenView, name: Seq<char>, value: Operand)
    requires
        over(outer, s),
    ensures
        m_declare(s, name, value) matches Ok((s1, _)) ==> over(outer, s1),
{
    reveal(m_declare);
    frame_name_reg(outer, s, name, value.1);
    frame_fresh_reg(outer, s, Some(name));
}

/// Declaring locals leaves the enclosing functions alone.
pub proof fn frame_declares(outer: Seq<AllocView>, s: GenView, names: Seq<Name>, values: Seq<Operand>, count: int)
    requires
        over(outer, s),
    ensures
        m_declares(s, names, values, count) matches Ok((s1, _)) ==> over(outer, s1),
    decreases count,
{
    reveal(m_declares);
    if 0 < count <= names.len() && count <= values.len() {
        frame_declares(outer, s, names, values, count - 1);
        if let Ok((s1, _)) = m_declares(s, names, values, count - 1) {
            frame_declare(outer, s1, names[count - 1]@, values[count - 1]);
        }
    }
}

/// Lowering a statement leaves the enclosing functions alone.
pub proof fn frame_stat(outer: Seq<AllocView>, s: GenView, stat: Stat)
    requires
        over(outer, s),
    ensures
        m_stat(s, stat) matches Ok((s1, _)) ==> over(outer, s1),
    decreases stat,
{
    reveal(m_stat);
    reveal(m_adjust);
    reveal(m_return);
    match stat {
        Stat::Assign(vars, exprs) => {
            frame_adjust(outer, s, vars@.len(), exprs@);
            if let Ok((s1, _, values)) = m_adjust(s, vars@.len(), exprs@) {
                frame_stores(outer, s1, vars@, values, shorter(vars@.len(), values.len()));
            }
        },
        Stat::AssignLocal(names, exprs) => {
            frame_adjust(outer, s, names@.len(), exprs@);
            if let Ok((s1, _, values)) = m_adjust(s, names@.len(), exprs@) {
                frame_declares(outer, s1, names@, values, shorter(names@.len(), values.len()));
            }
        },
        Stat::Ret(exprs) => {
            frame_return(outer, s, exprs@);
        },
        _ => {},
    }
}

} // verus!
