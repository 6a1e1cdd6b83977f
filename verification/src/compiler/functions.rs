//! Lowering blocks and functions.

use crate::compiler::model::{
    lemma_params_failed, lemma_stats_failed, m_block, m_function, m_params, m_return, m_stat,
    m_stats, Code, GenView,
};
use crate::compiler::labels::remove_label;
use crate::compiler::opcodes::{OpMode, OpName};
use crate::compiler::resource_allocator::{AllocView, ResourceAlloc};
use crate::compiler::types::{
    lemma_nested_views, CompileError, FunctionChunk, FunctionPrototype, Usize,
};
use crate::compiler::{appends, CodeGen};
use crate::parser::types::{Block, Name, Stat};
use vstd::prelude::*;

verus! {

impl CodeGen {
    /// Lowers the first `count` statements of a list.
    pub(crate) fn visit_stats(
        &mut self,
        stats: &Vec<Box<Stat>>,
        count: usize,
        instructions: &mut Vec<OpMode>,
    ) -> (r: Result<(), CompileError>)
        requires
            count <= stats.len(),
        ensures
            appends(
                m_stats(old(self)@, stats@, count as int),
                *old(self),
                *final(self),
                old(instructions)@,
                final(instructions)@,
                r,
            ),
        decreases stats, 0int,
    {
        proof {
            reveal(m_stats);
        }
        let ghost mut code: Code = Seq::empty();
        let mut i: usize = 0;
        while i < count
            invariant
                i <= count <= stats.len(),
                self.root() == old(self).root(),
                m_stats(old(self)@, stats@, i as int) == Ok::<(GenView, Code), CompileError>(
                    (self@, code),
                ),
                instructions@ =~= old(instructions)@ + code,
            decreases count - i,
        {
            proof {
                reveal(m_stats);
            }
            let ghost before = self@;
            match self.visit_stat(&stats[i], instructions) {
                Ok(()) => {},
                Err(e) => {
                    proof {
                        lemma_stats_failed(old(self)@, stats@, i + 1, count as int);
                    }
                    return Err(e);
                },
            }
            proof {
                code = code + m_stat(before, *stats@[i as int])->Ok_0.1;
            }
            i += 1;
        }
        Ok(())
    }

    /// Lowers the statements of a block, then its return.
    pub(crate) fn visit_block(&mut self, block: &Block, instructions: &mut Vec<OpMode>) -> (r:
        Result<(), CompileError>)
        ensures
            appends(
                m_block(old(self)@, *block),
                *old(self),
                *final(self),
                old(instructions)@,
                final(instructions)@,
                r,
            ),
        decreases block, 1int,
    {
        proof {
            reveal(m_block);
            reveal(m_stats);
            reveal(m_return);
        }
        self.visit_stats(&block.stats, block.stats.len(), instructions)?;
        match &block.ret {
            Some(ret_exprs) => self.visit_return(ret_exprs, instructions),
            None => {
                assert(instructions@ =~= instructions@ + Seq::<OpMode>::empty());
                Ok(())
            },
        }
    }

    /// Binds the parameters of a function to its first registers.
    pub(crate) fn define_params(&mut self, paras: &Vec<Name>) -> (r: Result<(), CompileError>)
        ensures
            final(self).root() == old(self).root(),
            match m_params(old(self)@, paras@, paras@.len() as int) {
                Ok(s) => r is Ok && final(self)@ == s,
                Err(e) => r == Err::<(), CompileError>(e),
            },
    {
        proof {
            reveal(m_params);
        }
        let mut i: usize = 0;
        while i < paras.len()
            invariant
                i <= paras.len(),
                self.root() == old(self).root(),
                m_params(old(self)@, paras@, i as int) == Ok::<GenView, CompileError>(self@),
            decreases paras.len() - i,
        {
            proof {
                reveal(m_params);
            }
            match self.fresh_reg(Some(&paras[i])) {
                Ok(pos) => {
                    self.define_local(&paras[i], pos);
                },
                Err(e) => {
                    proof {
                        lemma_params_failed(old(self)@, paras@, i + 1, paras@.len() as int);
                    }
                    return Err(e);
                },
            }
            i += 1;
        }
        Ok(())
    }

    /// Compiles a function in pools of its own. The symbol table must have
    /// the function's first block open already.
    pub(crate) fn visit_function(&mut self, body: &Block, paras: &Vec<Name>, is_vararg: bool) -> (r: Result<
        FunctionPrototype,
        CompileError,
    >)
        ensures
            final(self).root() == old(self).root(),
            match m_function(old(self)@, *body, paras@, is_vararg) {
                Ok((s, proto)) => r matches Ok(p) && p@ == proto && final(self)@ == s,
                Err(e) => r matches Err(err) && err == e,
            },
        decreases body, 2int,
    {
        proof {
            reveal(m_function);
            reveal(m_block);
        }
        if self.depth() >= usize::MAX {
            return Err(CompileError::SyntaxError);
        }
        self.enter_function();
        // the parameters take the first registers
        self.define_params(paras)?;
        let mut instructions: Vec<OpMode> = Vec::new();
        self.visit_block(body, &mut instructions)?;
        // may be redundant
        CodeGen::emit_iABx(&mut instructions, OpName::RETURN, 0, 1);
        let ghost stream = instructions@;
        assert(stream =~= m_block(
            m_params(
                GenView { chain: old(self)@.chain.push(AllocView::empty()), ..old(self)@ },
                paras@,
                paras@.len() as int,
            )->Ok_0,
            *body,
        )->Ok_0.1.push(OpMode::iABx(OpName::RETURN, 0, 1)));
        let flat = remove_label(&instructions)?;
        let res_alloc = match self.leave_function() {
            Some(pools) => pools,
            None => {
                return Err(CompileError::SyntaxError);
            },
        };
        let upvalue_num = res_alloc.upvalue_alloc.size();
        if upvalue_num > Usize::MAX as usize || paras.len() > Usize::MAX as usize {
            return Err(CompileError::SyntaxError);
        }
        let ResourceAlloc { reg_alloc, const_alloc, function_alloc, label_alloc: _, upvalue_alloc } =
            res_alloc;
        let func_chunk = FunctionChunk {
            upvalue_num: upvalue_num as Usize,
            para_num: paras.len() as Usize,
            is_vararg,
            stack_size: reg_alloc.size(),
            instructions: flat,
            constants: const_alloc.dump(),
            function_prototypes: function_alloc.get_function_prototypes(),
        };
        proof {
            lemma_nested_views(func_chunk);
        }
        Ok(FunctionPrototype::new(func_chunk, upvalue_alloc.into_list()))
    }
}

} // verus!
