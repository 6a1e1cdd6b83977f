//! The code of statements has its labels in order.

use crate::compiler::invariants::consistent;
use crate::compiler::model::{
    m_adjust, m_declare, m_declares, m_exprs, m_return, m_stat, m_store, m_stores, shorter,
    GenView, Operand,
};
use crate::compiler::opcodes::{OpMode, OpName};
use crate::compiler::soundness::{lemma_exprs, lemma_grown};
use crate::compiler::soundness_stat::{
    lemma_adjust, lemma_declare, lemma_declares, lemma_store, lemma_stores,
};
use crate::compiler::types::{RetExpect, Usize};
use crate::parser::types::{plain_exprs, plain_stat, Expr, Name, Stat, Var};
use crate::compiler::labelling::{
    labels_call, labels_exprs, labels_return, lemma_just, lemma_then, lemma_then_plain, plain_entry,
    visit_labelled,
};
use vstd::prelude::*;

verus! {

/// The code that adjusts a list of expressions has its labels in order.
pub proof fn labels_adjust(s: GenView, wanted: nat, exprs: Seq<Box<Expr>>)
    requires
        consistent(s),
        plain_exprs(exprs),
    ensures
        m_adjust(s, wanted, exprs) matches Ok((s1, code, _)) ==> visit_labelled(s, s1, code),
    decreases exprs, exprs.len() + 1,
{
    reveal(m_adjust);
    if wanted <= exprs.len() {
        labels_exprs(s, exprs, wanted as int);
    } else if exprs.len() == 1 && *exprs[0] is FunctionCall {
        if wanted <= Usize::MAX {
            labels_call(s, *exprs[0], RetExpect::Num(wanted as Usize));
        }
    } else {
        lemma_exprs(s, exprs, exprs.len() as int);
        labels_exprs(s, exprs, exprs.len() as int);
        if let Ok((s1, code, _)) = m_exprs(s, exprs, exprs.len() as int) {
            let missing = (wanted - exprs.len()) as nat;
            crate::compiler::invariants::lemma_fresh_regs(s1, missing);
            if let Ok((s2, first)) = s1.fresh_regs(missing) {
                lemma_then_plain(
                    s,
                    s1,
                    s2,
                    code,
                    OpMode::iABx(OpName::LOADNIL, first, (missing - 1) as Usize),
                );
            }
        }
    }
}

/// The code of stores places no label and does not jump.
pub proof fn labels_stores(s: GenView, vars: Seq<Var>, values: Seq<Operand>, count: int)
    requires
        consistent(s),
        forall|i: int| 0 <= i < values.len() ==> (#[trigger] values[i]).1 < s.stack_size(),
    ensures
        m_stores(s, vars, values, count) matches Ok((s1, code)) ==> visit_labelled(s, s1, code),
    decreases count,
{
    reveal(m_stores);
    if 0 < count <= vars.len() && count <= values.len() {
        lemma_stores(s, vars, values, count - 1);
        labels_stores(s, vars, values, count - 1);
        if let Ok((s1, c1)) = m_stores(s, vars, values, count - 1) {
            lemma_grown(s, s1);
            assert(values[count - 1].1 < s.stack_size());
            lemma_store(s1, vars[count - 1], values[count - 1].1);
            if let Ok((s2, c2)) = m_store(s1, vars[count - 1], values[count - 1].1) {
                assert forall|i: int| 0 <= i < c2.len() implies plain_entry(#[trigger] c2[i]) by {
                    reveal(m_store);
                }
                lemma_just(s1, s2, c2);
                lemma_then(s, s1, s2, c1, c2);
            }
        }
    } else {
        crate::compiler::invariants::lemma_extends_refl(s);
        lemma_just(s, s, Seq::empty());
    }
}

/// The code of declarations places no label and does not jump.
pub proof fn labels_declares(s: GenView, names: Seq<Name>, values: Seq<Operand>, count: int)
    requires
        consistent(s),
        forall|i: int| 0 <= i < values.len() ==> (#[trigger] values[i]).1 < s.stack_size(),
    ensures
        m_declares(s, names, values, count) matches Ok((s1, code)) ==> visit_labelled(s, s1, code),
    decreases count,
{
    reveal(m_declares);
    if 0 < count <= names.len() && count <= values.len() {
        lemma_declares(s, names, values, count - 1);
        labels_declares(s, names, values, count - 1);
        if let Ok((s1, c1)) = m_declares(s, names, values, count - 1) {
            lemma_grown(s, s1);
            assert(values[count - 1].1 < s.stack_size());
            lemma_declare(s1, names[count - 1]@, values[count - 1]);
            if let Ok((s2, c2)) = m_declare(s1, names[count - 1]@, values[count - 1]) {
                assert forall|i: int| 0 <= i < c2.len() implies plain_entry(#[trigger] c2[i]) by {
                    reveal(m_declare);
                }
                lemma_just(s1, s2, c2);
                lemma_then(s, s1, s2, c1, c2);
            }
        }
    } else {
        crate::compiler::invariants::lemma_extends_refl(s);
        lemma_just(s, s, Seq::empty());
    }
}

/// The code of a statement has its labels in order.
pub proof fn labels_stat(s: GenView, stat: Stat)
    requires
        consistent(s),
        plain_stat(stat),
    ensures
        m_stat(s, stat) matches Ok((s1, code)) ==> visit_labelled(s, s1, code),
    decreases stat,
{
    reveal(m_stat);
    reveal(m_adjust);
    reveal(m_return);
    match stat {
        Stat::Assign(vars, exprs) => {
            lemma_adjust(s, vars@.len(), exprs@);
            labels_adjust(s, vars@.len(), exprs@);
            if let Ok((s1, c1, values)) = m_adjust(s, vars@.len(), exprs@) {
                let count = shorter(vars@.len(), values.len());
                lemma_stores(s1, vars@, values, count);
                labels_stores(s1, vars@, values, count);
                if let Ok((s2, c2)) = m_stores(s1, vars@, values, count) {
                    lemma_then(s, s1, s2, c1, c2);
                }
            }
        },
        Stat::AssignLocal(names, exprs) => {
            lemma_adjust(s, names@.len(), exprs@);
            labels_adjust(s, names@.len(), exprs@);
            if let Ok((s1, c1, values)) = m_adjust(s, names@.len(), exprs@) {
                let count = shorter(names@.len(), values.len());
                lemma_declares(s1, names@, values, count);
                labels_declares(s1, names@, values, count);
                if let Ok((s2, c2)) = m_declares(s1, names@, values, count) {
                    lemma_then(s, s1, s2, c1, c2);
                }
            }
        },
        Stat::Ret(exprs) => {
            labels_return(s, exprs@);
        },
        _ => {},
    }
}

} // verus!
