//! Appending instructions to a stream.

use crate::compiler::model::{bindings, branch_on};
use crate::compiler::opcodes::{Label, OpMode, OpName};
use crate::compiler::types::UpvalueDescriptor;
use crate::compiler::CodeGen;
use vstd::prelude::*;

verus! {

impl CodeGen {
    /// Appends an instruction with two operands.
    #[allow(non_snake_case)]
    pub(crate) fn emit_iABx(instructions: &mut Vec<OpMode>, op: OpName, A: u32, Bx: u32)
        ensures
            final(instructions)@ == old(instructions)@ + seq![OpMode::iABx(op, A, Bx)],
    {
        instructions.push(OpMode::iABx(op, A, Bx));
        assert(instructions@ =~= old(instructions)@ + seq![OpMode::iABx(op, A, Bx)]);
    }

    /// Appends an instruction with three operands.
    #[allow(non_snake_case)]
    pub(crate) fn emit_iABC(instructions: &mut Vec<OpMode>, op: OpName, A: u32, B: u32, C: u32)
        ensures
            final(instructions)@ == old(instructions)@ + seq![OpMode::iABC(op, A, B, C)],
    {
        instructions.push(OpMode::iABC(op, A, B, C));
        assert(instructions@ =~= old(instructions)@ + seq![OpMode::iABC(op, A, B, C)]);
    }

    /// Appends an instruction with a signed operand.
    #[allow(non_snake_case)]
    pub(crate) fn emit_iAsBx(instructions: &mut Vec<OpMode>, op: OpName, A: u32, sBx: i32)
        ensures
            final(instructions)@ == old(instructions)@ + seq![OpMode::iAsBx(op, A, sBx)],
    {
        instructions.push(OpMode::iAsBx(op, A, sBx));
        assert(instructions@ =~= old(instructions)@ + seq![OpMode::iAsBx(op, A, sBx)]);
    }

    /// Appends the marker of a label.
    pub(crate) fn place_label(instructions: &mut Vec<OpMode>, label: Label)
        ensures
            final(instructions)@ == old(instructions)@ + seq![OpMode::Label(label)],
    {
        instructions.push(OpMode::Label(label));
        assert(instructions@ =~= old(instructions)@ + seq![OpMode::Label(label)]);
    }

    /// Appends the instructions that bind the upvalues of a new closure.
    pub(crate) fn emit_bindings(instructions: &mut Vec<OpMode>, list: &Vec<UpvalueDescriptor>)
        ensures
            final(instructions)@ == old(instructions)@ + bindings(list@),
    {
        let mut i: usize = 0;
        while i < list.len()
            invariant
                i <= list.len(),
                instructions@ == old(instructions)@ + bindings(list@.take(i as int)),
            decreases list.len() - i,
        {
            let d = list[i];
            if d.is_immediate {
                instructions.push(OpMode::iABx(OpName::MOVE, d.slot_in_closure, d.slot_in_enclosing));
            } else {
                instructions.push(
                    OpMode::iABx(OpName::GETUPVAL, d.slot_in_closure, d.slot_in_enclosing),
                );
            }
            assert(list@.take(i + 1) =~= list@.take(i as int).push(d));
            assert(instructions@ =~= old(instructions)@ + bindings(list@.take(i + 1)));
            i += 1;
        }
        assert(list@.take(i as int) =~= list@);
    }

    /// Appends the test of a predicate and the jump behind it.
    pub(crate) fn emit_branch(
        instructions: &mut Vec<OpMode>,
        test: OpMode,
        negated: OpMode,
        true_br: Label,
        false_br: Label,
        jump_if_true: bool,
    )
        ensures
            final(instructions)@ == old(instructions)@ + branch_on(
                test,
                negated,
                true_br,
                false_br,
                jump_if_true,
            ),
    {
        if jump_if_true {
            instructions.push(test);
            instructions.push(OpMode::iAsBx(OpName::JMP, 0, true_br));
        } else {
            instructions.push(negated);
            instructions.push(OpMode::iAsBx(OpName::JMP, 0, false_br));
        }
        assert(instructions@ =~= old(instructions)@ + branch_on(
            test,
            negated,
            true_br,
            false_br,
            jump_if_true,
        ));
    }
}

} // verus!
