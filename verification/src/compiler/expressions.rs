//! Lowering expressions and predicates.

use crate::compiler::model::{
    bindings, m_bool, m_call, m_expr, m_function, m_logic, m_var, Operand,
};
use crate::compiler::opcodes::{flag_to_op, flag_to_test, Label, OpMode, OpName};
use crate::compiler::symbol_table::SymbolScope;
use crate::compiler::types::{
    extract_expect_reg, CompileError, ConstType, Expect, FunctionPrototype, RetExpect, Usize,
};
use crate::compiler::{appends, emits, CodeGen};
use crate::parser::types::{Expr, Name, Var};
use crate::tokens::FlagType;
use vstd::prelude::*;

verus! {

impl CodeGen {
    /// Reads a variable; gives whether the register is a temporary, and the
    /// register.
    pub(crate) fn visit_var(
        &mut self,
        var: &Var,
        instructions: &mut Vec<OpMode>,
        expect_reg: Option<Usize>,
    ) -> (r: Result<Operand, CompileError>)
        ensures
            emits(
                m_var(old(self)@, *var, expect_reg),
                *old(self),
                *final(self),
                old(instructions)@,
                final(instructions)@,
                r,
            ),
    {
        proof {
            reveal(m_var);
        }
        match var {
            Var::Name(name) => {
                let (scope, pos) = match self.lookup(name) {
                    Some(found) => found,
                    None => {
                        return Err(CompileError::UndefinedSymbol);
                    },
                };
                match scope {
                    SymbolScope::Global => {
                        let const_pos = self.add_const(ConstType::Str(name.clone()))?;
                        let reg = self.dest_reg(expect_reg)?;
                        CodeGen::emit_iABx(instructions, OpName::GETGLOBAL, reg, const_pos);
                        Ok((true, reg))
                    },
                    SymbolScope::UpValue(depth) => {
                        let slot = self.capture(name, pos, depth)?;
                        let reg = self.dest_reg(expect_reg)?;
                        CodeGen::emit_iABx(instructions, OpName::GETUPVAL, reg, slot);
                        Ok((true, reg))
                    },
                    SymbolScope::Local => {
                        if let Some(expect) = expect_reg {
                            if expect != pos {
                                CodeGen::emit_iABx(instructions, OpName::MOVE, expect, pos);
                            }
                            // a register that the caller chose is not a temporary
                            Ok((false, expect))
                        } else {
                            Ok((false, pos))
                        }
                    },
                }
            },
            Var::Reg(reg) => Ok((true, *reg)),
            Var::PrefixExp(_) => Err(CompileError::Unimplemented),
        }
    }

    /// Evaluates an expression into the register asked for, or into one of
    /// its own choosing; gives whether the register is a temporary, and the
    /// register.
    pub(crate) fn visit_expr(
        &mut self,
        expr: &Expr,
        instructions: &mut Vec<OpMode>,
        expect: Option<Expect>,
    ) -> (r: Result<Operand, CompileError>)
        ensures
            emits(
                m_expr(old(self)@, *expr, expect),
                *old(self),
                *final(self),
                old(instructions)@,
                final(instructions)@,
                r,
            ),
        decreases expr, 2int,
    {
        proof {
            reveal(m_expr);
            reveal(m_logic);
            reveal(m_call);
            reveal(m_function);
        }
        match expr {
            Expr::Num(num) => {
                let const_pos = self.add_const(ConstType::Real(*num))?;
                let reg = self.dest_reg(extract_expect_reg(expect))?;
                CodeGen::emit_iABx(instructions, OpName::LOADK, reg, const_pos);
                Ok((true, reg))
            },
            Expr::Boole(value) => {
                let bit: u32 = if *value {
                    1
                } else {
                    0
                };
                let reg = self.dest_reg(extract_expect_reg(expect))?;
                CodeGen::emit_iABC(instructions, OpName::LOADBOOL, reg, bit, 0);
                Ok((true, reg))
            },
            Expr::BinOp(flag, left, right) => {
                match flag_to_op(*flag) {
                    Some(op) => {
                        let (is_temp, left_reg) = self.visit_expr(left, instructions, None)?;
                        let (_, right_reg) = self.visit_expr(right, instructions, None)?;
                        // only a temporary may be overwritten by the result
                        let (result_is_temp, result_reg) = if let Some(reg) = extract_expect_reg(
                            expect,
                        ) {
                            (false, reg)
                        } else if is_temp {
                            (true, left_reg)
                        } else {
                            (true, self.fresh_reg(None)?)
                        };
                        CodeGen::emit_iABC(instructions, op, result_reg, left_reg, right_reg);
                        Ok((result_is_temp, result_reg))
                    },
                    None => self.visit_logic_arith(expr, instructions, expect),
                }
            },
            Expr::Var(var) => self.visit_var(var, instructions, extract_expect_reg(expect)),
            Expr::FunctionDef((namelist, is_vararg), function_body) => {
                // the nested function gets a scope of its own
                self.initialize_scope();
                let function_prototype = self.visit_function(function_body, namelist, *is_vararg)?;
                self.finalize_scope();
                let FunctionPrototype { prototype, upvalue_list } = function_prototype;
                let func_pos = self.add_proto(prototype)?;
                let reg = self.dest_reg(extract_expect_reg(expect))?;
                CodeGen::emit_iABx(instructions, OpName::CLOSURE, reg, func_pos);
                // the machine reads the instructions behind CLOSURE as the
                // bindings of the closure's upvalues
                CodeGen::emit_bindings(instructions, &upvalue_list);
                Ok((true, reg))
            },
            Expr::FunctionCall(_, _, _) => {
                let func_pos = self.visit_function_call(expr, RetExpect::Num(1), instructions)?;
                // the first result arrives in the callee's register
                match extract_expect_reg(expect) {
                    Some(reg) => {
                        if reg != func_pos {
                            CodeGen::emit_iABx(instructions, OpName::MOVE, reg, func_pos);
                        }
                        Ok((true, reg))
                    },
                    None => Ok((true, func_pos)),
                }
            },
            Expr::UnaryOp(op, operand) => {
                match op {
                    FlagType::Minus => Err(CompileError::Unimplemented),
                    FlagType::Plus => self.visit_expr(operand, instructions, expect),
                    _ => self.visit_logic_arith(expr, instructions, expect),
                }
            },
            Expr::Str(_) => Err(CompileError::Unimplemented),
        }
    }

    /// Evaluates a predicate into a register.
    pub(crate) fn visit_logic_arith(
        &mut self,
        expr: &Expr,
        instructions: &mut Vec<OpMode>,
        expect: Option<Expect>,
    ) -> (r: Result<Operand, CompileError>)
        ensures
            emits(
                m_logic(old(self)@, *expr, expect),
                *old(self),
                *final(self),
                old(instructions)@,
                final(instructions)@,
                r,
            ),
        decreases expr, 1int,
    {
        proof {
            reveal(m_logic);
            reveal(m_bool);
        }
        let result_reg = self.dest_reg(extract_expect_reg(expect))?;
        let true_label = self.new_label()?;
        let false_label = self.new_label()?;
        self.visit_boolean_expr(expr, true_label, false_label, true, instructions)?;
        CodeGen::place_label(instructions, false_label);
        CodeGen::emit_iABC(instructions, OpName::LOADBOOL, result_reg, 0, 1);
        CodeGen::place_label(instructions, true_label);
        CodeGen::emit_iABC(instructions, OpName::LOADBOOL, result_reg, 1, 0);
        Ok((true, result_reg))
    }

    /// Lowers a predicate to branches on two labels. With `jump_if_true` the
    /// code jumps to `true_br` and runs on into the false path; without it
    /// the other way round.
    pub(crate) fn visit_boolean_expr(
        &mut self,
        expr: &Expr,
        true_br: Label,
        false_br: Label,
        jump_if_true: bool,
        instructions: &mut Vec<OpMode>,
    ) -> (r: Result<(), CompileError>)
        ensures
            appends(
                m_bool(old(self)@, *expr, true_br, false_br, jump_if_true),
                *old(self),
                *final(self),
                old(instructions)@,
                final(instructions)@,
                r,
            ),
        decreases expr, 0int,
    {
        proof {
            reveal(m_bool);
            reveal(m_expr);
        }
        match expr {
            Expr::BinOp(FlagType::OR, left, right) => {
                let label_for_right = self.new_label()?;
                self.visit_boolean_expr(left, true_br, label_for_right, true, instructions)?;
                CodeGen::place_label(instructions, label_for_right);
                self.visit_boolean_expr(right, true_br, false_br, jump_if_true, instructions)
            },
            Expr::BinOp(FlagType::AND, left, right) => {
                let label_for_right = self.new_label()?;
                self.visit_boolean_expr(left, label_for_right, false_br, false, instructions)?;
                CodeGen::place_label(instructions, label_for_right);
                self.visit_boolean_expr(right, true_br, false_br, jump_if_true, instructions)
            },
            Expr::BinOp(flag, left, right) => {
                match flag_to_test(*flag) {
                    None => Err(CompileError::Unimplemented),
                    Some((op_name, holds)) => {
                        let (_, left_reg) = self.visit_expr(left, instructions, None)?;
                        let (_, right_reg) = self.visit_expr(right, instructions, None)?;
                        let (pass, fail): (u32, u32) = if holds {
                            (1, 0)
                        } else {
                            (0, 1)
                        };
                        CodeGen::emit_branch(
                            instructions,
                            OpMode::iABC(op_name, pass, left_reg, right_reg),
                            OpMode::iABC(op_name, fail, left_reg, right_reg),
                            true_br,
                            false_br,
                            jump_if_true,
                        );
                        Ok(())
                    },
                }
            },
            Expr::UnaryOp(FlagType::Not, operand) => {
                self.visit_boolean_expr(operand, false_br, true_br, !jump_if_true, instructions)
            },
            Expr::Var(var) => {
                let (_, reg) = self.visit_var(var, instructions, None)?;
                CodeGen::emit_branch(
                    instructions,
                    OpMode::iABx(OpName::TEST, reg, 1),
                    OpMode::iABx(OpName::TEST, reg, 0),
                    true_br,
                    false_br,
                    jump_if_true,
                );
                Ok(())
            },
            Expr::Boole(value) => {
                if *value {
                    CodeGen::emit_iAsBx(instructions, OpName::JMP, 0, true_br);
                } else {
                    CodeGen::emit_iAsBx(instructions, OpName::JMP, 0, false_br);
                }
                Ok(())
            },
            _ => Err(CompileError::Unimplemented),
        }
    }
}

} // verus!
