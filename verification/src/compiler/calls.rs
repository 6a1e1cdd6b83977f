//! Lowering calls and lists of expressions.

use crate::compiler::model::{
    lemma_args_failed, lemma_exprs_failed, m_args, m_call, m_call_at, m_expr, m_exprs, m_results,
    Code,
    GenView, Operand,
};
use crate::compiler::opcodes::{OpMode, OpName};
use crate::compiler::types::{CompileError, Expect, RetExpect, Usize};
use crate::compiler::{appends, emits, steps, CodeGen};
use crate::parser::types::Expr;
use vstd::prelude::*;

verus! {

impl CodeGen {
    /// Takes the registers for the results of a call, from the callee's on,
    /// and gives the result field of its `CALL`.
    pub(crate) fn prepare_results(&mut self, func_pos: Usize, expect_ret: RetExpect) -> (r: Result<
        Usize,
        CompileError,
    >)
        ensures
            steps(m_results(old(self)@, func_pos, expect_ret), *old(self), *final(self), r),
    {
        proof {
            reveal(m_results);
        }
        match expect_ret {
            RetExpect::Num(ret_num) => {
                if ret_num == 0 {
                    Ok(1)
                } else if ret_num - 1 > Usize::MAX - func_pos || ret_num == Usize::MAX {
                    Err(CompileError::SyntaxError)
                } else {
                    // the results arrive in R(func_pos) .. R(func_pos + ret_num - 1)
                    self.reserve(func_pos + (ret_num - 1))?;
                    Ok(ret_num + 1)
                }
            },
            RetExpect::Indeterminate => Ok(0),
        }
    }

    /// Calls a function whose callee goes to a new register; gives that
    /// register, where the first result arrives.
    pub(crate) fn visit_function_call(
        &mut self,
        call: &Expr,
        expect_ret: RetExpect,
        instructions: &mut Vec<OpMode>,
    ) -> (r: Result<Usize, CompileError>)
        ensures
            emits(
                m_call(old(self)@, *call, expect_ret),
                *old(self),
                *final(self),
                old(instructions)@,
                final(instructions)@,
                r,
            ),
        decreases call, 1int,
    {
        proof {
            reveal(m_call);
            reveal(m_call_at);
        }
        let func_pos = self.fresh_reg(None)?;
        self.visit_function_call_at(call, func_pos, expect_ret, instructions)?;
        Ok(func_pos)
    }

    /// Calls a function whose callee goes to register `func_pos`.
    pub(crate) fn visit_function_call_at(
        &mut self,
        call: &Expr,
        func_pos: Usize,
        expect_ret: RetExpect,
        instructions: &mut Vec<OpMode>,
    ) -> (r: Result<(), CompileError>)
        ensures
            appends(
                m_call_at(old(self)@, *call, func_pos, expect_ret),
                *old(self),
                *final(self),
                old(instructions)@,
                final(instructions)@,
                r,
            ),
        decreases call, 0int,
    {
        proof {
            reveal(m_call_at);
            reveal(m_args);
            reveal(m_expr);
        }
        match call {
            Expr::FunctionCall(callee, args, _) => {
                self.visit_expr(callee, instructions, Some(Expect::Reg(func_pos)))?;
                let ret_field = self.prepare_results(func_pos, expect_ret)?;
                let n = args.len();
                let arg_field: u32;
                if n == 0 {
                    arg_field = 1;
                } else if let Expr::FunctionCall(_, _, _) = &*args[n - 1] {
                    // the arguments lie in a row behind the callee, and the
                    // results of the last one follow them
                    self.visit_args(args, n - 1, func_pos, instructions)?;
                    if n > (Usize::MAX - func_pos) as usize {
                        return Err(CompileError::SyntaxError);
                    }
                    let inner = func_pos + n as Usize;
                    self.reserve(inner)?;
                    self.visit_function_call_at(
                        &args[n - 1],
                        inner,
                        RetExpect::Indeterminate,
                        instructions,
                    )?;
                    arg_field = 0;
                } else {
                    self.visit_args(args, n, func_pos, instructions)?;
                    if n < Usize::MAX as usize {
                        arg_field = n as u32 + 1;
                    } else {
                        return Err(CompileError::SyntaxError);
                    }
                }
                CodeGen::emit_iABC(instructions, OpName::CALL, func_pos, arg_field, ret_field);
                Ok(())
            },
            _ => Err(CompileError::SyntaxError),
        }
    }

    /// Evaluates the first `count` arguments of a call into the registers
    /// behind the callee.
    pub(crate) fn visit_args(
        &mut self,
        args: &Vec<Box<Expr>>,
        count: usize,
        func_pos: Usize,
        instructions: &mut Vec<OpMode>,
    ) -> (r: Result<(), CompileError>)
        requires
            count <= args.len(),
        ensures
            appends(
                m_args(old(self)@, args@, count as int, func_pos),
                *old(self),
                *final(self),
                old(instructions)@,
                final(instructions)@,
                r,
            ),
        decreases args, 0int,
    {
        proof {
            reveal(m_args);
        }
        let ghost mut code: Code = Seq::empty();
        let mut i: usize = 0;
        while i < count
            invariant
                i <= count <= args.len(),
                self.root() == old(self).root(),
                m_args(old(self)@, args@, i as int, func_pos) == Ok::<(GenView, Code), CompileError>(
                    (self@, code),
                ),
                instructions@ =~= old(instructions)@ + code,
            decreases count - i,
        {
            proof {
                reveal(m_args);
                reveal(m_expr);
            }
            if i >= (Usize::MAX - func_pos) as usize {
                proof {
                    lemma_args_failed(old(self)@, args@, i + 1, count as int, func_pos);
                }
                return Err(CompileError::SyntaxError);
            }
            let target = func_pos + i as Usize + 1;
            match self.reserve(target) {
                Ok(()) => {},
                Err(e) => {
                    proof {
                        lemma_args_failed(old(self)@, args@, i + 1, count as int, func_pos);
                    }
                    return Err(e);
                },
            }
            let ghost before = self@;
            match self.visit_expr(&args[i], instructions, Some(Expect::Reg(target))) {
                Ok(_) => {},
                Err(e) => {
                    proof {
                        lemma_args_failed(old(self)@, args@, i + 1, count as int, func_pos);
                    }
                    return Err(e);
                },
            }
            proof {
                code = code + m_expr(before, *args@[i as int], Some(Expect::Reg(target)))->Ok_0.1;
            }
            i += 1;
        }
        Ok(())
    }

    /// Evaluates the first `count` expressions of a list, each into a
    /// register of its own choosing.
    pub(crate) fn visit_exprlist(
        &mut self,
        exprlist: &Vec<Box<Expr>>,
        count: usize,
        instructions: &mut Vec<OpMode>,
    ) -> (r: Result<Vec<Operand>, CompileError>)
        requires
            count <= exprlist.len(),
        ensures
            final(self).root() == old(self).root(),
            match m_exprs(old(self)@, exprlist@, count as int) {
                Ok((s, code, operands)) => r matches Ok(list) && list@ == operands && final(self)@
                    == s && final(instructions)@ =~= old(instructions)@ + code,
                Err(e) => r matches Err(err) && err == e,
            },
        decreases exprlist, 0int,
    {
        proof {
            reveal(m_exprs);
        }
        let ghost mut code: Code = Seq::empty();
        let mut reg_list: Vec<Operand> = Vec::new();
        let mut i: usize = 0;
        while i < count
            invariant
                i <= count <= exprlist.len(),
                self.root() == old(self).root(),
                m_exprs(old(self)@, exprlist@, i as int) == Ok::<
                    (GenView, Code, Seq<Operand>),
                    CompileError,
                >((self@, code, reg_list@)),
                instructions@ =~= old(instructions)@ + code,
            decreases count - i,
        {
            proof {
                reveal(m_exprs);
                reveal(m_expr);
            }
            let ghost before = self@;
            match self.visit_expr(&exprlist[i], instructions, None) {
                Ok(operand) => {
                    reg_list.push(operand);
                },
                Err(e) => {
                    proof {
                        lemma_exprs_failed(old(self)@, exprlist@, i + 1, count as int);
                    }
                    return Err(e);
                },
            }
            proof {
                code = code + m_expr(before, *exprlist@[i as int], None)->Ok_0.1;
            }
            i += 1;
        }
        Ok(reg_list)
    }
}

} // verus!
