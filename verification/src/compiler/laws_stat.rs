//! Laws of the generator at the statement visit.

use crate::compiler::model::{
    m_adjust, m_declare, m_declares, m_expr, m_exprs, m_return, m_stat, shorter, Code, GenView,
    Operand,
};
use crate::compiler::opcodes::OpMode;
use crate::compiler::symbol_table::{find_binding, SymbolScope};
use crate::compiler::types::CompileError;
use crate::parser::types::Stat;
use vstd::prelude::*;

verus! {

/// The values for one variable out of one expression are the value of that
/// expression.
pub proof fn lemma_adjust_one(s: GenView, stat: Stat)
    requires
        stat matches Stat::AssignLocal(names, exprs) && names@.len() == 1 && exprs@.len() == 1,
    ensures
        stat matches Stat::AssignLocal(_, exprs) && m_adjust(s, 1, exprs@) == (match m_expr(
            s,
            *exprs@[0],
            None,
        ) {
            Ok((s1, code, operand)) => Ok::<(GenView, Code, Seq<Operand>), CompileError>(
                (s1, code, seq![operand]),
            ),
            Err(e) => Err::<(GenView, Code, Seq<Operand>), CompileError>(e),
        }),
{
    reveal(m_adjust);
    reveal(m_exprs);
    reveal(m_expr);
    if let Stat::AssignLocal(_, exprs) = stat {
        assert(m_exprs(s, exprs@, 0) == Ok::<(GenView, Code, Seq<Operand>), CompileError>(
            (s, Seq::empty(), Seq::empty()),
        ));
        if let Ok((s1, code, operand)) = m_expr(s, *exprs@[0], None) {
            assert(Seq::<OpMode>::empty() + code =~= code);
            assert(Seq::<Operand>::empty().push(operand) =~= seq![operand]);
        }
    }
}

/// Declaring one name with one value is the declaration of that name.
pub proof fn lemma_declares_one(s: GenView, stat: Stat, value: Operand)
    requires
        stat matches Stat::AssignLocal(names, _) && names@.len() == 1,
    ensures
        stat matches Stat::AssignLocal(names, _) && m_declares(s, names@, seq![value], 1)
            == m_declare(s, names@[0]@, value),
{
    reveal(m_declares);
    if let Stat::AssignLocal(names, _) = stat {
        let values = seq![value];
        assert(values[0] == value);
        assert(m_declares(s, names@, values, 0) == Ok::<(GenView, Code), CompileError>(
            (s, Seq::empty()),
        ));
        if let Ok((s2, tail)) = m_declare(s, names@[0]@, value) {
            assert(Seq::<OpMode>::empty() + tail =~= tail);
        }
    }
}

/// Local rename at the statement: `local x = e`, where the value of `e`
/// arrives in a temporary, appends the code of `e` and nothing else. No
/// `MOVE` is emitted and no register is taken: the temporary is named `x`,
/// and from then on `x` resolves to it as a local.
pub proof fn lemma_local_rename_statement(s: GenView, stat: Stat)
    requires
        stat matches Stat::AssignLocal(names, exprs) && names@.len() == 1 && exprs@.len() == 1 && (
        m_expr(s, *exprs@[0], None) matches Ok((_, _, operand)) && operand.0),
    ensures
        stat matches Stat::AssignLocal(names, exprs) && (m_expr(s, *exprs@[0], None) matches Ok(
            (s1, code, (_, reg)),
        ) && (m_stat(s, stat) matches Ok((s2, emitted)) && {
            &&& emitted == code
            &&& s2.chain == s1.name_reg(names@[0]@, reg).chain
            &&& s2.table == s1.table.define_local(names@[0]@, reg)
            &&& s1.chain.len() > 0 ==> s2.stack_size() == s1.stack_size()
            &&& s1.table.scopes.len() > 0 ==> s2.table.lookup(names@[0]@) == Some(
                (SymbolScope::Local, reg),
            )
        })),
{
    if let Stat::AssignLocal(names, exprs) = stat {
        lemma_adjust_one(s, stat);
        if let Ok((s1, code, operand)) = m_expr(s, *exprs@[0], None) {
            lemma_declares_one(s1, stat, operand);
            assert(m_declare(s1, names@[0]@, operand) == Ok::<(GenView, Code), CompileError>(
                (
                    s1.name_reg(names@[0]@, operand.1).with_table(
                        s1.table.define_local(names@[0]@, operand.1),
                    ),
                    Seq::empty(),
                ),
            )) by {
                reveal(m_declare);
                reveal(GenView::name_reg);
            }
            assert(code + Seq::<OpMode>::empty() =~= code);
            assert(m_stat(s, stat) == (match m_adjust(s, 1, exprs@) {
                Ok((s1, c1, values)) => match m_declares(
                    s1,
                    names@,
                    values,
                    shorter(names@.len(), values.len()),
                ) {
                    Ok((s2, c2)) => Ok::<(GenView, Code), CompileError>((s2, c1 + c2)),
                    Err(e) => Err::<(GenView, Code), CompileError>(e),
                },
                Err(e) => Err::<(GenView, Code), CompileError>(e),
            })) by {
                reveal(m_stat);
                reveal(m_adjust);
            }
            assert(s1.chain.len() > 0 ==> s1.name_reg(names@[0]@, operand.1).stack_size()
                == s1.stack_size()) by {
                reveal(GenView::name_reg);
            }
            if s1.table.scopes.len() > 0 {
                let table = s1.table.define_local(names@[0]@, operand.1);
                let top = table.scopes.last();
                assert(top.bindings.last() == (names@[0]@, operand.1));
                assert(find_binding(top.bindings, top.bindings.len() as int, names@[0]@) == Some(
                    operand.1,
                ));
            }
        }
    }
}

/// A return statement is lowered as a return of its values: what holds of
/// the one holds of the other.
pub proof fn lemma_return_statement(s: GenView, stat: Stat)
    requires
        stat is Ret,
    ensures
        stat matches Stat::Ret(exprs) && m_stat(s, stat) == m_return(s, exprs@),
{
    reveal(m_stat);
}

} // verus!
