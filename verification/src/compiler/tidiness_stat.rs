//! Statements keep the generator's state tidy.

use crate::compiler::model::{
    m_adjust, m_declare, m_declares, m_exprs, m_return, m_stat, m_store, m_stores, shorter,
    GenView, Operand,
};
use crate::compiler::tidiness::{
    kept_tidy, state_tidy, tidy_add_const, tidy_call, tidy_exprs, tidy_fresh_reg, tidy_fresh_regs,
    tidy_name_reg, tidy_return,
};
use crate::compiler::types::{ConstView, RetExpect, Usize};
use crate::parser::types::{Expr, Name, Stat, Var};
use vstd::prelude::*;

verus! {

/// Adjusting a list of expressions keeps the state tidy.
pub proof fn tidy_adjust(s: GenView, wanted: nat, exprs: Seq<Box<Expr>>)
    requires
        state_tidy(s),
    ensures
        m_adjust(s, wanted, exprs) matches Ok((s1, _, _)) ==> kept_tidy(s, s1),
    decreases exprs, exprs.len() + 1,
{
    reveal(m_adjust);
    if wanted <= exprs.len() {
        tidy_exprs(s, exprs, wanted as int);
    } else if exprs.len() == 1 && *exprs[0] is FunctionCall {
        if wanted <= Usize::MAX {
            tidy_call(s, *exprs[0], RetExpect::Num(wanted as Usize));
        }
    } else {
        tidy_exprs(s, exprs, exprs.len() as int);
        if let Ok((s1, _, _)) = m_exprs(s, exprs, exprs.len() as int) {
            tidy_fresh_regs(s1, (wanted - exprs.len()) as nat);
        }
    }
}

/// Storing a value keeps the state tidy.
pub proof fn tidy_store(s: GenView, var: Var, value: Usize)
    requires
        state_tidy(s),
    ensures
        m_store(s, var, value) matches Ok((s1, _)) ==> kept_tidy(s, s1),
{
    reveal(m_store);
    if let Var::Name(name) = var {
        tidy_add_const(s, ConstView::Str(name@));
    }
}

/// Storing values keeps the state tidy.
pub proof fn tidy_stores(s: GenView, vars: Seq<Var>, values: Seq<Operand>, count: int)
    requires
        state_tidy(s),
    ensures
        m_stores(s, vars, values, count) matches Ok((s1, _)) ==> kept_tidy(s, s1),
    decreases count,
{
    reveal(m_stores);
    if 0 < count <= vars.len() && count <= values.len() {
        tidy_stores(s, vars, values, count - 1);
        if let Ok((s1, _)) = m_stores(s, vars, values, count - 1) {
            tidy_store(s1, vars[count - 1], values[count - 1].1);
        }
    }
}

/// Declaring a local keeps the state tidy.
pub proof fn tidy_declare(s: GenView, name: Seq<char>, value: Operand)
    requires
        state_tidy(s),
    ensures
        m_declare(s, name, value) matches Ok((s1, _)) ==> kept_tidy(s, s1),
{
    reveal(m_declare);
    tidy_name_reg(s, name, value.1);
    tidy_fresh_reg(s, Some(name));
}

/// Declaring locals keeps the state tidy.
pub proof fn tidy_declares(s: GenView, names: Seq<Name>, values: Seq<Operand>, count: int)
    requires
        state_tidy(s),
    ensures
        m_declares(s, names, values, count) matches Ok((s1, _)) ==> kept_tidy(s, s1),
    decreases count,
{
    reveal(m_declares);
    if 0 < count <= names.len() && count <= values.len() {
        tidy_declares(s, names, values, count - 1);
        if let Ok((s1, _)) = m_declares(s, names, values, count - 1) {
            tidy_declare(s1, names[count - 1]@, values[count - 1]);
        }
    }
}

/// Lowering a statement keeps the state tidy.
pub proof fn tidy_stat(s: GenView, stat: Stat)
    requires
        state_tidy(s),
    ensures
        m_stat(s, stat) matches Ok((s1, _)) ==> kept_tidy(s, s1),
    decreases stat,
{
    reveal(m_stat);
    reveal(m_adjust);
    reveal(m_return);
    match stat {
        Stat::Assign(vars, exprs) => {
            tidy_adjust(s, vars@.len(), exprs@);
            if let Ok((s1, _, values)) = m_adjust(s, vars@.len(), exprs@) {
                tidy_stores(s1, vars@, values, shorter(vars@.len(), values.len()));
            }
        },
        Stat::AssignLocal(names, exprs) => {
            tidy_adjust(s, names@.len(), exprs@);
            if let Ok((s1, _, values)) = m_adjust(s, names@.len(), exprs@) {
                tidy_declares(s1, names@, values, shorter(names@.len(), values.len()));
            }
        },
        Stat::Ret(exprs) => {
            tidy_return(s, exprs@);
        },
        _ => {},
    }
}

} // verus!
