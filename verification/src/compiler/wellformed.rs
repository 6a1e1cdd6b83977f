//! What it means for compiled code to be well formed: every instruction names
//! only registers, constants, upvalues and nested functions that its function
//! has, every jump lands inside the function, and every closure is followed
//! by the bindings of its upvalues.

use crate::compiler::labels::{
    instr_count, jumps_in_range, lemma_instr_count_monotone, lemma_resolve_origin,
    lemma_resolve_upto, lemma_resolved_jumps_in_range, resolve, resolve_entry,
};
use crate::compiler::model::bindings;
use crate::compiler::opcodes::{OpMode, OpName};
use crate::compiler::resource_allocator::AllocView;
use crate::compiler::types::{ChunkView, UpvalueDescriptor};
use vstd::prelude::*;

verus! {

/// What the instructions of a function may refer to: so many registers,
/// upvalues and constants, and nested functions with so many upvalues each.
pub ghost struct Frame {
    pub registers: int,
    pub upvalues: int,
    pub constants: int,
    pub nested: Seq<int>,
}

/// The frame that a function has while it is compiled.
pub open spec fn frame_of(pools: AllocView) -> Frame {
    Frame {
        registers: pools.regs.size as int,
        upvalues: pools.upvalues.len() as int,
        constants: pools.consts.len() as int,
        nested: pools.protos.map_values(|c: ChunkView| c.upvalue_num as int),
    }
}

/// The frame of a compiled function.
pub open spec fn chunk_frame(chunk: ChunkView) -> Frame {
    Frame {
        registers: chunk.stack_size as int,
        upvalues: chunk.upvalue_num as int,
        constants: chunk.constants.len() as int,
        nested: chunk.function_prototypes.map_values(|c: ChunkView| c.upvalue_num as int),
    }
}

/// Everything that the first frame offers, the second offers too.
pub open spec fn frame_le(a: Frame, b: Frame) -> bool {
    &&& a.registers <= b.registers
    &&& a.upvalues <= b.upvalues
    &&& a.constants <= b.constants
    &&& a.nested.len() <= b.nested.len()
    &&& forall|f: int| 0 <= f < a.nested.len() ==> a.nested[f] == b.nested[f]
}

/// An instruction other than `CLOSURE` names only what the frame offers.
///
/// The registers of an instruction are its operands that number registers,
/// and the runs of registers that it reads or writes: the values of a
/// `RETURN`, the registers that a `LOADNIL` clears, the arguments and the
/// results of a `CALL` that states how many there are. The first operand of
/// a comparison is a polarity, not a register. A marker names nothing.
pub open spec fn instr_ok(op: OpMode, frame: Frame) -> bool {
    match op {
        OpMode::Label(_) => true,
        OpMode::iAsBx(name, _, _) => name == OpName::JMP,
        OpMode::iABx(name, a, b) => match name {
            OpName::MOVE => a < frame.registers && b < frame.registers,
            OpName::LOADK | OpName::GETGLOBAL | OpName::SETGLOBAL => a < frame.registers && b
                < frame.constants,
            OpName::GETUPVAL => a < frame.registers && b < frame.upvalues,
            OpName::LOADNIL => a + b < frame.registers,
            OpName::TEST => a < frame.registers && b <= 1,
            OpName::RETURN => b == 1 || (b >= 2 && a + b - 2 < frame.registers),
            _ => false,
        },
        OpMode::iABC(name, a, b, c) => match name {
            OpName::LOADBOOL => a < frame.registers && b <= 1 && c <= 1,
            OpName::ADD | OpName::SUB | OpName::MUL | OpName::DIV => a < frame.registers && b
                < frame.registers && c < frame.registers,
            OpName::EQ | OpName::LT | OpName::LE => a <= 1 && b < frame.registers && c
                < frame.registers,
            OpName::CALL => a < frame.registers && (b >= 1 ==> a + b - 1 < frame.registers) && (c
                >= 2 ==> a + c - 2 < frame.registers),
            _ => false,
        },
    }
}

/// An instruction behind a `CLOSURE` binds upvalue `slot` of the new
/// closure: a `MOVE` from a register of the function that creates the
/// closure, or a `GETUPVAL` from one of that function's upvalues.
pub open spec fn binding_ok(op: OpMode, slot: int, frame: Frame) -> bool {
    match op {
        OpMode::iABx(OpName::MOVE, a, b) => a == slot && b < frame.registers,
        OpMode::iABx(OpName::GETUPVAL, a, b) => a == slot && b < frame.upvalues,
        _ => false,
    }
}

/// The code from `pc` on is well formed: a `CLOSURE` names a register and a
/// nested function and is followed by one binding for each upvalue of that
/// function, slot by slot; any other instruction names only what the frame
/// offers.
pub open spec fn code_ok_from(code: Seq<OpMode>, pc: int, frame: Frame) -> bool
    decreases code.len() - pc,
{
    if pc < 0 || pc >= code.len() {
        true
    } else {
        match code[pc] {
            OpMode::iABx(OpName::CLOSURE, a, f) => {
                &&& a < frame.registers
                &&& f < frame.nested.len()
                &&& 0 <= frame.nested[f as int]
                &&& pc + 1 + frame.nested[f as int] <= code.len()
                &&& forall|q: int|
                    pc < q <= pc + frame.nested[f as int] ==> binding_ok(
                        #[trigger] code[q],
                        q - pc - 1,
                        frame,
                    )
                &&& code_ok_from(code, pc + 1 + frame.nested[f as int], frame)
            },
            op => instr_ok(op, frame) && code_ok_from(code, pc + 1, frame),
        }
    }
}

/// The whole of the code is well formed.
pub open spec fn code_ok(code: Seq<OpMode>, frame: Frame) -> bool {
    code_ok_from(code, 0, frame)
}

/// The code holds no marker.
pub open spec fn marker_free(code: Seq<OpMode>) -> bool {
    forall|pc: int| 0 <= pc < code.len() ==> !(#[trigger] code[pc]).is_marker()
}

/// A compiled function is well formed, and so is every function nested in
/// it: the instructions end in a `RETURN`, hold no marker, name only what
/// the function has, follow every `CLOSURE` by the bindings of the closure's
/// upvalues, and jump only to instructions of the function; the constants
/// hold no value twice.
pub open spec fn well_formed(chunk: ChunkView) -> bool
    decreases chunk,
{
    &&& chunk.instructions.len() > 0
    &&& chunk.instructions.last() matches OpMode::iABx(OpName::RETURN, _, _)
    &&& marker_free(chunk.instructions)
    &&& code_ok(chunk.instructions, chunk_frame(chunk))
    &&& jumps_in_range(chunk.instructions)
    &&& chunk.constants.no_duplicates()
    &&& forall|f: int|
        0 <= f < chunk.function_prototypes.len() ==> well_formed(
            #[trigger] chunk.function_prototypes[f],
        )
}

/// In well-formed code every `CLOSURE` names a register and a nested
/// function, and the instructions behind it bind the upvalues of that
/// function, one each and slot by slot.
pub proof fn lemma_closure_bindings(code: Seq<OpMode>, from: int, pc: int, frame: Frame)
    requires
        0 <= from <= pc < code.len(),
        code_ok_from(code, from, frame),
        code[pc] matches OpMode::iABx(OpName::CLOSURE, _, _),
    ensures
        code[pc] matches OpMode::iABx(OpName::CLOSURE, a, f) && {
            &&& a < frame.registers
            &&& f < frame.nested.len()
            &&& pc + 1 + frame.nested[f as int] <= code.len()
            &&& forall|q: int|
                pc < q <= pc + frame.nested[f as int] ==> binding_ok(
                    #[trigger] code[q],
                    q - pc - 1,
                    frame,
                )
        },
    decreases code.len() - from,
{
    if from < pc {
        match code[from] {
            OpMode::iABx(OpName::CLOSURE, _, f) => {
                let n = frame.nested[f as int];
                if pc <= from + n {
                    assert(binding_ok(code[pc], pc - from - 1, frame));
                } else {
                    lemma_closure_bindings(code, from + 1 + n, pc, frame);
                }
            },
            _ => {
                lemma_closure_bindings(code, from + 1, pc, frame);
            },
        }
    }
}

/// Well-formed code stays well formed when the frame grows.
pub proof fn lemma_code_ok_monotone(code: Seq<OpMode>, pc: int, a: Frame, b: Frame)
    requires
        code_ok_from(code, pc, a),
        frame_le(a, b),
    ensures
        code_ok_from(code, pc, b),
    decreases code.len() - pc,
{
    if 0 <= pc < code.len() {
        match code[pc] {
            OpMode::iABx(OpName::CLOSURE, _, f) => {
                lemma_code_ok_monotone(code, pc + 1 + a.nested[f as int], a, b);
            },
            _ => {
                lemma_code_ok_monotone(code, pc + 1, a, b);
            },
        }
    }
}

/// Behind well-formed code, well-formed code is well formed.
proof fn lemma_code_ok_shift(a: Seq<OpMode>, b: Seq<OpMode>, q: int, frame: Frame)
    requires
        0 <= q,
        code_ok_from(b, q, frame),
    ensures
        code_ok_from(a + b, a.len() + q, frame),
    decreases b.len() - q,
{
    let ab = a + b;
    if q < b.len() {
        assert(ab[a.len() + q] == b[q]);
        match b[q] {
            OpMode::iABx(OpName::CLOSURE, _, f) => {
                let n = frame.nested[f as int];
                assert forall|p: int| a.len() + q < p <= a.len() + q + n implies binding_ok(
                    #[trigger] ab[p],
                    p - (a.len() + q) - 1,
                    frame,
                ) by {
                    assert(ab[p] == b[p - a.len()]);
                }
                lemma_code_ok_shift(a, b, q + 1 + n, frame);
            },
            _ => {
                lemma_code_ok_shift(a, b, q + 1, frame);
            },
        }
    }
}

/// In front of well-formed code, well-formed code is well formed.
proof fn lemma_code_ok_prefix(a: Seq<OpMode>, b: Seq<OpMode>, pc: int, frame: Frame)
    requires
        0 <= pc <= a.len(),
        code_ok_from(a, pc, frame),
        code_ok_from(a + b, a.len() as int, frame),
    ensures
        code_ok_from(a + b, pc, frame),
    decreases a.len() - pc,
{
    let ab = a + b;
    if pc < a.len() {
        assert(ab[pc] == a[pc]);
        match a[pc] {
            OpMode::iABx(OpName::CLOSURE, _, f) => {
                let n = frame.nested[f as int];
                assert forall|p: int| pc < p <= pc + n implies binding_ok(
                    #[trigger] ab[p],
                    p - pc - 1,
                    frame,
                ) by {
                    assert(ab[p] == a[p]);
                }
                lemma_code_ok_prefix(a, b, pc + 1 + n, frame);
            },
            _ => {
                lemma_code_ok_prefix(a, b, pc + 1, frame);
            },
        }
    }
}

/// Well-formed code followed by well-formed code is well formed.
pub proof fn lemma_code_ok_concat(a: Seq<OpMode>, b: Seq<OpMode>, frame: Frame)
    requires
        code_ok(a, frame),
        code_ok(b, frame),
    ensures
        code_ok(a + b, frame),
{
    lemma_code_ok_shift(a, b, 0, frame);
    lemma_code_ok_prefix(a, b, 0, frame);
}

/// One instruction that names only what the frame offers is well-formed
/// code.
pub proof fn lemma_code_ok_single(op: OpMode, frame: Frame)
    requires
        instr_ok(op, frame),
    ensures
        code_ok(seq![op], frame),
{
    let code = seq![op];
    assert(code[0] == op);
    assert(code_ok_from(code, 1, frame));
}

/// Well-formed code with one more instruction is well formed.
pub proof fn lemma_code_ok_push(code: Seq<OpMode>, op: OpMode, frame: Frame)
    requires
        code_ok(code, frame),
        instr_ok(op, frame),
    ensures
        code_ok(code.push(op), frame),
{
    lemma_code_ok_single(op, frame);
    lemma_code_ok_concat(code, seq![op], frame);
    assert(code.push(op) =~= code + seq![op]);
}

/// No code is well formed.
pub proof fn lemma_code_ok_empty(frame: Frame)
    ensures
        code_ok(Seq::<OpMode>::empty(), frame),
{
}

/// The bindings of an upvalue list are what a closure of that many upvalues
/// must be followed by, if each descriptor sits in its slot and names a
/// register or an upvalue that the frame offers.
pub open spec fn descriptors_ok(list: Seq<UpvalueDescriptor>, frame: Frame) -> bool {
    forall|j: int|
        0 <= j < list.len() ==> {
            &&& (#[trigger] list[j]).slot_in_closure == j
            &&& list[j].is_immediate ==> list[j].slot_in_enclosing < frame.registers
            &&& !list[j].is_immediate ==> list[j].slot_in_enclosing < frame.upvalues
        }
}

/// A `CLOSURE` with the bindings of its function's upvalue list is
/// well-formed code.
pub proof fn lemma_code_ok_closure(reg: u32, index: u32, list: Seq<UpvalueDescriptor>, frame: Frame)
    requires
        reg < frame.registers,
        index < frame.nested.len(),
        frame.nested[index as int] == list.len(),
        descriptors_ok(list, frame),
    ensures
        code_ok(seq![OpMode::iABx(OpName::CLOSURE, reg, index)] + bindings(list), frame),
{
    let code = seq![OpMode::iABx(OpName::CLOSURE, reg, index)] + bindings(list);
    assert(code[0] == OpMode::iABx(OpName::CLOSURE, reg, index));
    assert forall|q: int| 0 < q <= list.len() implies binding_ok(#[trigger] code[q], q - 1, frame) by {
        assert(code[q] == bindings(list)[q - 1]);
        assert(list[q - 1].slot_in_closure == q - 1);
    }
    assert(code_ok_from(code, 1 + list.len() as int, frame));
}

/// Resolving the labels of well-formed code gives well-formed code.
proof fn lemma_resolve_code_ok(stream: Seq<OpMode>, i: int, frame: Frame)
    requires
        0 <= i <= stream.len(),
        resolve(stream) is Some,
        code_ok_from(stream, i, frame),
    ensures
        code_ok_from(resolve(stream)->0, instr_count(stream, i), frame),
    decreases stream.len() - i,
{
    let out = resolve(stream)->0;
    let n = stream.len() as int;
    lemma_resolve_upto(stream, n);
    lemma_instr_count_monotone(stream, i, n);
    if i < n {
        lemma_instr_count_monotone(stream, i, i + 1);
        lemma_instr_count_monotone(stream, i + 1, n);
        match stream[i] {
            OpMode::Label(_) => {
                lemma_resolve_code_ok(stream, i + 1, frame);
            },
            OpMode::iABx(OpName::CLOSURE, a, f) => {
                let count = frame.nested[f as int];
                let pc = instr_count(stream, i);
                assert(resolve_entry(stream, i) == Some(out[instr_count(stream, i)]));
                assert(out[pc] == stream[i]);
                lemma_bindings_counted(stream, i, count, count, frame);
                lemma_instr_count_monotone(stream, i + 1 + count, n);
                assert(pc + 1 + count <= out.len());
                assert forall|q: int| pc < q <= pc + count implies binding_ok(
                    #[trigger] out[q],
                    q - pc - 1,
                    frame,
                ) by {
                    let k = q - pc;
                    lemma_bindings_counted(stream, i, count, k - 1, frame);
                    assert(instr_count(stream, i + k) == q);
                    assert(binding_ok(stream[i + k], k - 1, frame));
                    assert(resolve_entry(stream, i + k) == Some(out[instr_count(stream, i + k)]));
                    assert(out[q] == stream[i + k]);
                }
                lemma_resolve_code_ok(stream, i + 1 + count, frame);
                assert(code_ok_from(out, pc + 1 + count, frame));
            },
            _ => {
                let pc = instr_count(stream, i);
                assert(resolve_entry(stream, i) == Some(out[instr_count(stream, i)]));
                lemma_resolve_code_ok(stream, i + 1, frame);
                assert(instr_ok(stream[i], frame));
                assert(instr_ok(out[pc], frame));
                assert(!(out[pc] matches OpMode::iABx(OpName::CLOSURE, _, _)));
                assert(code_ok_from(out, pc + 1, frame));
            },
        }
    }
}

/// The bindings behind a `CLOSURE` are instructions, so they are counted one
/// by one.
proof fn lemma_bindings_counted(stream: Seq<OpMode>, i: int, count: int, k: int, frame: Frame)
    requires
        0 <= i,
        0 <= k <= count,
        i + 1 + count <= stream.len(),
        !stream[i].is_marker(),
        forall|q: int| i < q <= i + count ==> binding_ok(#[trigger] stream[q], q - i - 1, frame),
    ensures
        instr_count(stream, i + 1 + k) == instr_count(stream, i) + 1 + k,
    decreases k,
{
    if k > 0 {
        lemma_bindings_counted(stream, i, count, k - 1, frame);
        assert(binding_ok(stream[i + k], k - 1, frame));
    }
}

/// The flat vector of a stream that ends in a `RETURN` ends in that `RETURN`,
/// holds no marker, and jumps only to its own instructions.
pub proof fn lemma_resolved_shape(stream: Seq<OpMode>)
    requires
        stream.len() > 0,
        stream.last() matches OpMode::iABx(OpName::RETURN, _, _),
        resolve(stream) is Some,
    ensures
        ({
            let flat = resolve(stream)->0;
            &&& flat.len() > 0
            &&& flat.last() == stream.last()
            &&& marker_free(flat)
            &&& jumps_in_range(flat)
        }),
{
    let flat = resolve(stream)->0;
    let n = stream.len() as int;
    lemma_resolve_upto(stream, n);
    lemma_resolved_jumps_in_range(stream);
    lemma_instr_count_monotone(stream, 0, n - 1);
    assert(instr_count(stream, n) == instr_count(stream, n - 1) + 1);
    assert(resolve_entry(stream, n - 1) == Some(flat[instr_count(stream, n - 1)]));
    assert forall|pc: int| 0 <= pc < flat.len() implies !(#[trigger] flat[pc]).is_marker() by {
        let i = lemma_resolve_origin(stream, n, pc);
    }
}

/// The flat vector of a well-formed stream that ends in a `RETURN` has all
/// that a well-formed function asks of its instructions.
pub proof fn lemma_resolved_stream(stream: Seq<OpMode>, frame: Frame)
    requires
        stream.len() > 0,
        stream.last() matches OpMode::iABx(OpName::RETURN, _, _),
        code_ok(stream, frame),
        resolve(stream) is Some,
    ensures
        ({
            let flat = resolve(stream)->0;
            &&& flat.len() > 0
            &&& flat.last() == stream.last()
            &&& marker_free(flat)
            &&& code_ok(flat, frame)
            &&& jumps_in_range(flat)
        }),
{
    lemma_resolved_shape(stream);
    lemma_resolve_code_ok(stream, 0, frame);
}

/// A compiled function is tidy, and so is every function nested in it: the
/// instructions end in a `RETURN`, hold no marker and jump only to
/// instructions of the function, and the constants hold no value twice.
pub open spec fn tidy(chunk: ChunkView) -> bool
    decreases chunk,
{
    &&& chunk.instructions.len() > 0
    &&& chunk.instructions.last() matches OpMode::iABx(OpName::RETURN, _, _)
    &&& marker_free(chunk.instructions)
    &&& jumps_in_range(chunk.instructions)
    &&& chunk.constants.no_duplicates()
    &&& forall|f: int|
        0 <= f < chunk.function_prototypes.len() ==> tidy(#[trigger] chunk.function_prototypes[f])
}

/// A well-formed function is tidy.
pub proof fn lemma_well_formed_tidy(chunk: ChunkView)
    requires
        well_formed(chunk),
    ensures
        tidy(chunk),
    decreases chunk,
{
    assert forall|f: int| 0 <= f < chunk.function_prototypes.len() implies tidy(
        #[trigger] chunk.function_prototypes[f],
    ) by {
        lemma_well_formed_tidy(chunk.function_prototypes[f]);
    }
}

} // verus!
