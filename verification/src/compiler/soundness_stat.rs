//! Statements leave the generator's state consistent and append well-formed
//! code.

use crate::compiler::invariants::{
    consistent, lemma_add_const, lemma_define_global, lemma_define_local, lemma_extends_refl,
    lemma_extends_trans, lemma_fresh_reg, lemma_fresh_regs, lemma_name_reg, lemma_resolve_name,
};
use crate::compiler::model::{
    m_adjust, m_declare, m_declares, m_exprs, m_return, m_stat, m_store, m_stores, shorter,
    temporaries, GenView, Operand,
};
use crate::compiler::opcodes::{OpMode, OpName};
use crate::compiler::symbol_table::SymbolScope;
use crate::compiler::types::{ConstView, RetExpect, Usize};
use crate::compiler::wellformed::{
    frame_of, lemma_code_ok_concat, lemma_code_ok_empty, lemma_code_ok_push, lemma_code_ok_single,
};
use crate::parser::types::{plain_exprs, plain_stat, Expr, Name, Stat, Var};
use crate::compiler::soundness::{
    code_sound, lemma_call, lemma_exprs, lemma_grown, lemma_lift, lemma_return, operands_sound,
};
use vstd::prelude::*;

verus! {

/// Adjusting a plain list of expressions is sound, and there is a register
/// in use for each variable.
pub proof fn lemma_adjust(s: GenView, wanted: nat, exprs: Seq<Box<Expr>>)
    requires
        consistent(s),
        plain_exprs(exprs),
    ensures
        operands_sound(s, m_adjust(s, wanted, exprs), wanted as int),
    decreases exprs, exprs.len() + 1,
{
    reveal(m_adjust);
    if wanted <= exprs.len() {
        lemma_exprs(s, exprs, wanted as int);
    } else if exprs.len() == 1 && *exprs[0] is FunctionCall {
        if wanted <= Usize::MAX {
            lemma_call(s, *exprs[0], RetExpect::Num(wanted as Usize));
        }
    } else {
        lemma_exprs(s, exprs, exprs.len() as int);
        if let Ok((s1, code, operands)) = m_exprs(s, exprs, exprs.len() as int) {
            let missing = (wanted - exprs.len()) as nat;
            lemma_fresh_regs(s1, missing);
            if let Ok((s2, first)) = s1.fresh_regs(missing) {
                lemma_grown(s1, s2);
                lemma_extends_trans(s, s1, s2);
                lemma_lift(code, s1, s2);
                lemma_code_ok_push(
                    code,
                    OpMode::iABx(OpName::LOADNIL, first, (missing - 1) as Usize),
                    frame_of(s2.current()),
                );
                let all = operands + temporaries(first, missing);
                assert forall|i: int| 0 <= i < all.len() implies (#[trigger] all[i]).1
                    < s2.stack_size() by {
                    if i < operands.len() {
                        assert(all[i] == operands[i]);
                    } else {
                        assert(all[i] == temporaries(first, missing)[i - operands.len()]);
                    }
                }
            }
        }
    }
}

/// Storing a value that is in a register in use is sound.
pub proof fn lemma_store(s: GenView, var: Var, value: Usize)
    requires
        consistent(s),
        value < s.stack_size(),
    ensures
        code_sound(s, m_store(s, var, value)),
{
    reveal(m_store);
    lemma_extends_refl(s);
    if let Var::Name(name) = var {
        lemma_resolve_name(s, s.chain.len() as int, name@, 0);
        match s.table.lookup(name@) {
            Some((SymbolScope::Local, pos)) => {
                lemma_code_ok_single(OpMode::iABx(OpName::MOVE, pos, value), frame_of(s.current()));
            },
            Some((SymbolScope::UpValue(_), _)) => {},
            _ => {
                lemma_add_const(s, ConstView::Str(name@));
                if let Ok((s1, k)) = s.add_const(ConstView::Str(name@)) {
                    lemma_define_global(s1, name@);
                    let s2 = s1.with_table(s1.table.define_global(name@));
                    lemma_extends_trans(s, s1, s2);
                    lemma_code_ok_single(
                        OpMode::iABx(OpName::SETGLOBAL, value, k),
                        frame_of(s2.current()),
                    );
                }
            },
        }
    }
}

/// Storing values that are in registers in use is sound.
pub proof fn lemma_stores(s: GenView, vars: Seq<Var>, values: Seq<Operand>, count: int)
    requires
        consistent(s),
        forall|i: int| 0 <= i < values.len() ==> (#[trigger] values[i]).1 < s.stack_size(),
    ensures
        code_sound(s, m_stores(s, vars, values, count)),
    decreases count,
{
    reveal(m_stores);
    lemma_extends_refl(s);
    lemma_code_ok_empty(frame_of(s.current()));
    if 0 < count <= vars.len() && count <= values.len() {
        lemma_stores(s, vars, values, count - 1);
        if let Ok((s1, c1)) = m_stores(s, vars, values, count - 1) {
            lemma_grown(s, s1);
            assert(values[count - 1].1 < s.stack_size());
            lemma_store(s1, vars[count - 1], values[count - 1].1);
            if let Ok((s2, c2)) = m_store(s1, vars[count - 1], values[count - 1].1) {
                lemma_extends_trans(s, s1, s2);
                lemma_lift(c1, s1, s2);
                lemma_code_ok_concat(c1, c2, frame_of(s2.current()));
            }
        }
    }
}

/// Declaring a local with a value that is in a register in use is sound.
pub proof fn lemma_declare(s: GenView, name: Seq<char>, value: Operand)
    requires
        consistent(s),
        value.1 < s.stack_size(),
    ensures
        code_sound(s, m_declare(s, name, value)),
{
    reveal(m_declare);
    if value.0 {
        lemma_name_reg(s, name, value.1);
        let s1 = s.name_reg(name, value.1);
        lemma_define_local(s1, name, value.1);
        let s2 = s1.with_table(s1.table.define_local(name, value.1));
        lemma_extends_trans(s, s1, s2);
        lemma_code_ok_empty(frame_of(s2.current()));
    } else {
        lemma_fresh_reg(s, Some(name));
        if let Ok((s1, pos)) = s.fresh_reg(Some(name)) {
            lemma_define_local(s1, name, pos);
            let s2 = s1.with_table(s1.table.define_local(name, pos));
            lemma_extends_trans(s, s1, s2);
            lemma_code_ok_single(OpMode::iABx(OpName::MOVE, pos, value.1), frame_of(s2.current()));
        }
    }
}

/// Declaring locals with values that are in registers in use is sound.
pub proof fn lemma_declares(s: GenView, names: Seq<Name>, values: Seq<Operand>, count: int)
    requires
        consistent(s),
        forall|i: int| 0 <= i < values.len() ==> (#[trigger] values[i]).1 < s.stack_size(),
    ensures
        code_sound(s, m_declares(s, names, values, count)),
    decreases count,
{
    reveal(m_declares);
    lemma_extends_refl(s);
    lemma_code_ok_empty(frame_of(s.current()));
    if 0 < count <= names.len() && count <= values.len() {
        lemma_declares(s, names, values, count - 1);
        if let Ok((s1, c1)) = m_declares(s, names, values, count - 1) {
            lemma_grown(s, s1);
            assert(values[count - 1].1 < s.stack_size());
            lemma_declare(s1, names[count - 1]@, values[count - 1]);
            if let Ok((s2, c2)) = m_declare(s1, names[count - 1]@, values[count - 1]) {
                lemma_extends_trans(s, s1, s2);
                lemma_lift(c1, s1, s2);
                lemma_code_ok_concat(c1, c2, frame_of(s2.current()));
            }
        }
    }
}

/// Lowering a plain statement is sound.
pub proof fn lemma_stat(s: GenView, stat: Stat)
    requires
        consistent(s),
        plain_stat(stat),
    ensures
        code_sound(s, m_stat(s, stat)),
    decreases stat,
{
    reveal(m_stat);
    reveal(m_adjust);
    reveal(m_return);
    match stat {
        Stat::Assign(vars, exprs) => {
            lemma_adjust(s, vars@.len(), exprs@);
            if let Ok((s1, c1, values)) = m_adjust(s, vars@.len(), exprs@) {
                let count = shorter(vars@.len(), values.len());
                lemma_stores(s1, vars@, values, count);
                if let Ok((s2, c2)) = m_stores(s1, vars@, values, count) {
                    lemma_extends_trans(s, s1, s2);
                    lemma_lift(c1, s1, s2);
                    lemma_code_ok_concat(c1, c2, frame_of(s2.current()));
                }
            }
        },
        Stat::AssignLocal(names, exprs) => {
            lemma_adjust(s, names@.len(), exprs@);
            if let Ok((s1, c1, values)) = m_adjust(s, names@.len(), exprs@) {
                let count = shorter(names@.len(), values.len());
                lemma_declares(s1, names@, values, count);
                if let Ok((s2, c2)) = m_declares(s1, names@, values, count) {
                    lemma_extends_trans(s, s1, s2);
                    lemma_lift(c1, s1, s2);
                    lemma_code_ok_concat(c1, c2, frame_of(s2.current()));
                }
            }
        },
        Stat::Ret(exprs) => {
            lemma_return(s, exprs@);
        },
        _ => {},
    }
}

} // verus!
