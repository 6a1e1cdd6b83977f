//! Lowering statements.

use crate::compiler::model::{
    lemma_declares_failed, lemma_returned_failed, lemma_stores_failed, m_adjust, m_declare,
    m_declares, m_expr, m_return, m_returned, m_stat, m_store, m_stores, temporaries, Code,
    GenView, Operand,
};
use crate::compiler::opcodes::{OpMode, OpName};
use crate::compiler::symbol_table::SymbolScope;
use crate::compiler::types::{CompileError, Expect, RetExpect, Usize};
use crate::compiler::{appends, CodeGen};
use crate::parser::types::{Expr, Name, Stat, Var};
use vstd::prelude::*;

verus! {

impl CodeGen {
    /// The registers `first`, `first + 1`, ... as temporaries.
    pub(crate) fn temporaries(first: Usize, count: usize, list: &mut Vec<Operand>)
        requires
            count == 0 || first + count - 1 <= Usize::MAX,
        ensures
            final(list)@ =~= old(list)@ + temporaries(first, count as nat),
    {
        let mut i: usize = 0;
        while i < count
            invariant
                i <= count,
                count == 0 || first + count - 1 <= Usize::MAX,
                list@ =~= old(list)@ + temporaries(first, i as nat),
            decreases count - i,
        {
            list.push((true, first + i as Usize));
            i += 1;
        }
    }

    /// Evaluates a list of expressions so that there is a value for each of
    /// `wanted` variables; gives the values.
    pub(crate) fn adjust_list(
        &mut self,
        wanted: usize,
        exprlist: &Vec<Box<Expr>>,
        instructions: &mut Vec<OpMode>,
    ) -> (r: Result<Vec<Operand>, CompileError>)
        ensures
            final(self).root() == old(self).root(),
            match m_adjust(old(self)@, wanted as nat, exprlist@) {
                Ok((s, code, operands)) => r matches Ok(list) && list@ == operands && final(self)@
                    == s && final(instructions)@ =~= old(instructions)@ + code,
                Err(e) => r matches Err(err) && err == e,
            },
        decreases exprlist, 1int,
    {
        proof {
            reveal(m_adjust);
        }
        if wanted <= exprlist.len() {
            // balanced, or too many expressions: the rest is left out
            return self.visit_exprlist(exprlist, wanted, instructions);
        }
        if exprlist.len() == 1 {
            if let Expr::FunctionCall(_, _, _) = &*exprlist[0] {
                // one call stands for all the variables
                if wanted > Usize::MAX as usize {
                    return Err(CompileError::SyntaxError);
                }
                let central_reg = self.visit_function_call(
                    &exprlist[0],
                    RetExpect::Num(wanted as Usize),
                    instructions,
                )?;
                if wanted - 1 > (Usize::MAX - central_reg) as usize {
                    return Err(CompileError::SyntaxError);
                }
                let mut expr_regs: Vec<Operand> = Vec::new();
                CodeGen::temporaries(central_reg, wanted, &mut expr_regs);
                return Ok(expr_regs);
            }
        }
        // the variables that are left get nil
        let mut extended = self.visit_exprlist(exprlist, exprlist.len(), instructions)?;
        let num = wanted - exprlist.len();
        let start_reg = self.fresh_regs(num)?;
        CodeGen::emit_iABx(instructions, OpName::LOADNIL, start_reg, (num - 1) as Usize);
        CodeGen::temporaries(start_reg, num, &mut extended);
        Ok(extended)
    }

    /// Stores a value in a variable.
    pub(crate) fn store_value(&mut self, var: &Var, value: Usize, instructions: &mut Vec<OpMode>) -> (r:
        Result<(), CompileError>)
        ensures
            appends(
                m_store(old(self)@, *var, value),
                *old(self),
                *final(self),
                old(instructions)@,
                final(instructions)@,
                r,
            ),
    {
        proof {
            reveal(m_store);
        }
        match var {
            Var::Name(name) => {
                match self.lookup(name) {
                    Some((SymbolScope::Local, pos)) => {
                        CodeGen::emit_iABx(instructions, OpName::MOVE, pos, value);
                        Ok(())
                    },
                    Some((SymbolScope::UpValue(_), _)) => Err(CompileError::Unimplemented),
                    _ => {
                        let const_pos = self.prepare_global_value(name)?;
                        CodeGen::emit_iABx(instructions, OpName::SETGLOBAL, value, const_pos);
                        Ok(())
                    },
                }
            },
            _ => Err(CompileError::Unimplemented),
        }
    }

    /// Declares a local with a value.
    pub(crate) fn declare_local(&mut self, name: &Name, value: Operand, instructions: &mut Vec<OpMode>) -> (r:
        Result<(), CompileError>)
        ensures
            appends(
                m_declare(old(self)@, name@, value),
                *old(self),
                *final(self),
                old(instructions)@,
                final(instructions)@,
                r,
            ),
    {
        proof {
            reveal(m_declare);
        }
        let (is_temp, expr_reg) = value;
        if is_temp {
            self.name_reg(name, expr_reg);
            self.define_local(name, expr_reg);
            assert(instructions@ =~= old(instructions)@ + Seq::<OpMode>::empty());
        } else {
            let pos = self.fresh_reg(Some(name))?;
            self.define_local(name, pos);
            CodeGen::emit_iABx(instructions, OpName::MOVE, pos, expr_reg);
        }
        Ok(())
    }

    /// Stores the first `count` values in the first `count` variables.
    pub(crate) fn store_values(
        &mut self,
        varlist: &Vec<Var>,
        reg_list: &Vec<Operand>,
        count: usize,
        instructions: &mut Vec<OpMode>,
    ) -> (r: Result<(), CompileError>)
        requires
            count <= varlist.len(),
            count <= reg_list.len(),
        ensures
            appends(
                m_stores(old(self)@, varlist@, reg_list@, count as int),
                *old(self),
                *final(self),
                old(instructions)@,
                final(instructions)@,
                r,
            ),
    {
        proof {
            reveal(m_stores);
        }
        let ghost mut code: Code = Seq::empty();
        let mut i: usize = 0;
        while i < count
            invariant
                i <= count,
                count <= varlist.len(),
                count <= reg_list.len(),
                self.root() == old(self).root(),
                m_stores(old(self)@, varlist@, reg_list@, i as int) == Ok::<
                    (GenView, Code),
                    CompileError,
                >((self@, code)),
                instructions@ =~= old(instructions)@ + code,
            decreases count - i,
        {
            proof {
                reveal(m_stores);
            }
            let ghost before = self@;
            match self.store_value(&varlist[i], reg_list[i].1, instructions) {
                Ok(()) => {},
                Err(e) => {
                    proof {
                        lemma_stores_failed(old(self)@, varlist@, reg_list@, i + 1, count as int);
                    }
                    return Err(e);
                },
            }
            proof {
                code = code + m_store(before, varlist@[i as int], reg_list@[i as int].1)->Ok_0.1;
            }
            i += 1;
        }
        Ok(())
    }

    /// Declares the first `count` names with the first `count` values.
    pub(crate) fn declare_locals(
        &mut self,
        namelist: &Vec<Name>,
        reg_list: &Vec<Operand>,
        count: usize,
        instructions: &mut Vec<OpMode>,
    ) -> (r: Result<(), CompileError>)
        requires
            count <= namelist.len(),
            count <= reg_list.len(),
        ensures
            appends(
                m_declares(old(self)@, namelist@, reg_list@, count as int),
                *old(self),
                *final(self),
                old(instructions)@,
                final(instructions)@,
                r,
            ),
    {
        proof {
            reveal(m_declares);
        }
        let ghost mut code: Code = Seq::empty();
        let mut i: usize = 0;
        while i < count
            invariant
                i <= count,
                count <= namelist.len(),
                count <= reg_list.len(),
                self.root() == old(self).root(),
                m_declares(old(self)@, namelist@, reg_list@, i as int) == Ok::<
                    (GenView, Code),
                    CompileError,
                >((self@, code)),
                instructions@ =~= old(instructions)@ + code,
            decreases count - i,
        {
            proof {
                reveal(m_declares);
            }
            let ghost before = self@;
            match self.declare_local(&namelist[i], reg_list[i], instructions) {
                Ok(()) => {},
                Err(e) => {
                    proof {
                        lemma_declares_failed(old(self)@, namelist@, reg_list@, i + 1, count as int);
                    }
                    return Err(e);
                },
            }
            proof {
                code = code + m_declare(before, namelist@[i as int]@, reg_list@[i as int])->Ok_0.1;
            }
            i += 1;
        }
        Ok(())
    }

    /// Lowers a statement.
    pub(crate) fn visit_stat(&mut self, stat: &Stat, instructions: &mut Vec<OpMode>) -> (r: Result<
        (),
        CompileError,
    >)
        ensures
            appends(
                m_stat(old(self)@, *stat),
                *old(self),
                *final(self),
                old(instructions)@,
                final(instructions)@,
                r,
            ),
        decreases stat, 0int,
    {
        proof {
            reveal(m_stat);
            reveal(m_adjust);
            reveal(m_return);
        }
        match stat {
            Stat::Assign(varlist, exprlist) => {
                let reg_list = self.adjust_list(varlist.len(), exprlist, instructions)?;
                // as many stores as there are variables and values
                let count = if varlist.len() <= reg_list.len() {
                    varlist.len()
                } else {
                    reg_list.len()
                };
                self.store_values(varlist, &reg_list, count, instructions)
            },
            Stat::AssignLocal(namelist, exprlist) => {
                let reg_list = self.adjust_list(namelist.len(), exprlist, instructions)?;
                let count = if namelist.len() <= reg_list.len() {
                    namelist.len()
                } else {
                    reg_list.len()
                };
                self.declare_locals(namelist, &reg_list, count, instructions)
            },
            Stat::Ret(exprlist) => self.visit_return(exprlist, instructions),
            _ => Err(CompileError::Unimplemented),
        }
    }

    /// Evaluates the first `count` values of a return into the registers
    /// from `start_register` on.
    pub(crate) fn visit_returned(
        &mut self,
        exprlist: &Vec<Box<Expr>>,
        count: usize,
        start_register: Usize,
        instructions: &mut Vec<OpMode>,
    ) -> (r: Result<(), CompileError>)
        requires
            count <= exprlist.len(),
        ensures
            appends(
                m_returned(old(self)@, exprlist@, count as int, start_register),
                *old(self),
                *final(self),
                old(instructions)@,
                final(instructions)@,
                r,
            ),
        decreases exprlist, 0int,
    {
        proof {
            reveal(m_returned);
        }
        let ghost mut code: Code = Seq::empty();
        let mut i: usize = 0;
        while i < count
            invariant
                i <= count <= exprlist.len(),
                self.root() == old(self).root(),
                m_returned(old(self)@, exprlist@, i as int, start_register) == Ok::<
                    (GenView, Code),
                    CompileError,
                >((self@, code)),
                instructions@ =~= old(instructions)@ + code,
            decreases count - i,
        {
            proof {
                reveal(m_returned);
            }
            if i > (Usize::MAX - start_register) as usize {
                proof {
                    lemma_returned_failed(old(self)@, exprlist@, i + 1, count as int, start_register);
                }
                return Err(CompileError::SyntaxError);
            }
            let target = start_register + i as Usize;
            let ghost before = self@;
            match self.visit_expr(&exprlist[i], instructions, Some(Expect::Reg(target))) {
                Ok(_) => {},
                Err(e) => {
                    proof {
                        lemma_returned_failed(
                            old(self)@,
                            exprlist@,
                            i + 1,
                            count as int,
                            start_register,
                        );
                    }
                    return Err(e);
                },
            }
            proof {
                code = code + m_expr(before, *exprlist@[i as int], Some(Expect::Reg(target)))->Ok_0.1;
            }
            i += 1;
        }
        Ok(())
    }

    /// Lowers a return of the values of a list.
    pub(crate) fn visit_return(
        &mut self,
        exprlist: &Vec<Box<Expr>>,
        instructions: &mut Vec<OpMode>,
    ) -> (r: Result<(), CompileError>)
        ensures
            appends(
                m_return(old(self)@, exprlist@),
                *old(self),
                *final(self),
                old(instructions)@,
                final(instructions)@,
                r,
            ),
        decreases exprlist, 1int,
    {
        proof {
            reveal(m_return);
            reveal(m_returned);
        }
        // the values go to registers in a row
        let ret_num = exprlist.len();
        let first = self.fresh_regs(ret_num)?;
        // a return of nothing names no register
        let start_register = if ret_num > 0 {
            first
        } else {
            0
        };
        self.visit_returned(exprlist, ret_num, start_register, instructions)?;
        // B is one more than the number of values: R(A) .. R(A + B - 2)
        if ret_num < Usize::MAX as usize {
            CodeGen::emit_iABx(instructions, OpName::RETURN, start_register, ret_num as u32 + 1);
            Ok(())
        } else {
            Err(CompileError::SyntaxError)
        }
    }
}

} // verus!
