//! Label resolution: from a stream with label markers and symbolic jumps to
//! the flat instruction vector of a function.

use crate::compiler::opcodes::{Label, OpMode, OpName};
use crate::compiler::types::CompileError;
use vstd::prelude::*;

verus! {

/// The number of instructions among the first `upto` entries of a stream:
/// markers do not count.
pub open spec fn instr_count(stream: Seq<OpMode>, upto: int) -> int
    decreases upto,
{
    if upto <= 0 || upto > stream.len() {
        0
    } else if stream[upto - 1].is_marker() {
        instr_count(stream, upto - 1)
    } else {
        instr_count(stream, upto - 1) + 1
    }
}

/// The position of a label: the number of instructions in front of its first
/// marker at or after entry `from`, which is the index that the instruction
/// behind the marker gets once the markers are gone.
pub open spec fn label_position(stream: Seq<OpMode>, label: Label, from: int) -> Option<int>
    decreases stream.len() - from,
{
    if from < 0 || from >= stream.len() {
        None
    } else if stream[from] == OpMode::Label(label) {
        Some(instr_count(stream, from))
    } else {
        label_position(stream, label, from + 1)
    }
}

/// The instruction that entry `i` of a stream becomes. A `JMP` to a label is
/// given the displacement from the instruction behind it to the label's
/// position; any other instruction stays as it is. A `JMP` cannot be resolved
/// when its label has no marker or the displacement does not fit.
pub open spec fn resolve_entry(stream: Seq<OpMode>, i: int) -> Option<OpMode> {
    match stream[i] {
        OpMode::iAsBx(OpName::JMP, a, label) => match label_position(stream, label, 0) {
            Some(position) => {
                let sbx = position - (instr_count(stream, i) + 1);
                if i32::MIN <= sbx <= i32::MAX {
                    Some(OpMode::iAsBx(OpName::JMP, a, sbx as i32))
                } else {
                    None
                }
            },
            None => None,
        },
        other => Some(other),
    }
}

/// The instructions that the first `upto` entries of a stream become.
pub open spec fn resolve_upto(stream: Seq<OpMode>, upto: int) -> Option<Seq<OpMode>>
    decreases upto,
{
    if upto <= 0 || upto > stream.len() {
        Some(Seq::empty())
    } else {
        match resolve_upto(stream, upto - 1) {
            None => None,
            Some(out) => if stream[upto - 1].is_marker() {
                Some(out)
            } else {
                match resolve_entry(stream, upto - 1) {
                    None => None,
                    Some(instruction) => Some(out.push(instruction)),
                }
            },
        }
    }
}

/// The flat instruction vector of a stream: its instructions in order, the
/// markers dropped and every `JMP` resolved.
pub open spec fn resolve(stream: Seq<OpMode>) -> Option<Seq<OpMode>> {
    resolve_upto(stream, stream.len() as int)
}

/// Every `JMP` lands on an instruction of the same vector.
pub open spec fn jumps_in_range(code: Seq<OpMode>) -> bool {
    forall|pc: int|
        0 <= pc < code.len() ==> (#[trigger] code[pc] matches OpMode::iAsBx(OpName::JMP, _, sbx)
            ==> 0 <= pc + 1 + sbx < code.len())
}

/// Instructions are counted one at a time.
pub proof fn lemma_instr_count_monotone(stream: Seq<OpMode>, i: int, j: int)
    requires
        0 <= i <= j <= stream.len(),
    ensures
        0 <= instr_count(stream, i) <= instr_count(stream, j),
        instr_count(stream, j) - instr_count(stream, i) <= j - i,
        i < j && !stream[j - 1].is_marker() ==> instr_count(stream, i) < instr_count(stream, j),
    decreases j,
{
    if i < j {
        lemma_instr_count_monotone(stream, i, j - 1);
    } else if i > 0 {
        lemma_instr_count_monotone(stream, i - 1, i - 1);
    }
}

/// A label's position is the instruction count at one of its markers.
pub proof fn lemma_label_position(stream: Seq<OpMode>, label: Label, from: int)
    requires
        0 <= from,
    ensures
        match label_position(stream, label, from) {
            Some(position) => exists|j: int|
                from <= j < stream.len() && stream[j] == OpMode::Label(label) && position
                    == instr_count(stream, j),
            None => forall|j: int| from <= j < stream.len() ==> stream[j] != OpMode::Label(label),
        },
    decreases stream.len() - from,
{
    if from < stream.len() && stream[from] != OpMode::Label(label) {
        lemma_label_position(stream, label, from + 1);
    }
}

/// What resolution keeps: as many instructions as the stream has, each the
/// resolved form of the stream entry it came from.
pub proof fn lemma_resolve_upto(stream: Seq<OpMode>, upto: int)
    requires
        0 <= upto <= stream.len(),
    ensures
        match resolve_upto(stream, upto) {
            Some(out) => {
                &&& out.len() == instr_count(stream, upto)
                &&& forall|i: int|
                    0 <= i < upto && !stream[i].is_marker() ==> resolve_entry(stream, i) == Some(
                        #[trigger] out[instr_count(stream, i)],
                    )
            },
            None => true,
        },
    decreases upto,
{
    if upto > 0 {
        lemma_resolve_upto(stream, upto - 1);
        if let Some(out) = resolve_upto(stream, upto) {
            let out0 = resolve_upto(stream, upto - 1)->0;
            assert forall|i: int| 0 <= i < upto && !stream[i].is_marker() implies resolve_entry(
                stream,
                i,
            ) == Some(#[trigger] out[instr_count(stream, i)]) by {
                if i < upto - 1 {
                    lemma_instr_count_monotone(stream, i + 1, upto - 1);
                    lemma_instr_count_monotone(stream, i, i + 1);
                    assert(instr_count(stream, i + 1) == instr_count(stream, i) + 1);
                    assert(resolve_entry(stream, i) == Some(out0[instr_count(stream, i)]));
                    assert(out0.len() == instr_count(stream, upto - 1));
                    if stream[upto - 1].is_marker() {
                        assert(out == out0);
                    } else {
                        assert(out == out0.push(resolve_entry(stream, upto - 1)->0));
                    }
                    assert(out[instr_count(stream, i)] == out0[instr_count(stream, i)]);
                } else {
                    assert(out == out0.push(resolve_entry(stream, i)->0));
                }
            }
        }
    }
}

/// Each instruction of the result comes from a stream entry that is no
/// marker, and sits at that entry's instruction count.
pub proof fn lemma_resolve_origin(stream: Seq<OpMode>, upto: int, pc: int) -> (i: int)
    requires
        0 <= upto <= stream.len(),
        resolve_upto(stream, upto) is Some,
        0 <= pc < resolve_upto(stream, upto)->0.len(),
    ensures
        0 <= i < upto,
        !stream[i].is_marker(),
        instr_count(stream, i) == pc,
        resolve_entry(stream, i) == Some(resolve_upto(stream, upto)->0[pc]),
    decreases upto,
{
    lemma_resolve_upto(stream, upto);
    lemma_resolve_upto(stream, upto - 1);
    let out0 = resolve_upto(stream, upto - 1)->0;
    if stream[upto - 1].is_marker() || pc < out0.len() {
        lemma_resolve_origin(stream, upto - 1, pc)
    } else {
        upto - 1
    }
}

/// In the flat vector of a stream that ends in an instruction, every `JMP`
/// lands on an instruction of the vector.
pub proof fn lemma_resolved_jumps_in_range(stream: Seq<OpMode>)
    requires
        stream.len() > 0,
        !stream.last().is_marker(),
        resolve(stream) is Some,
    ensures
        jumps_in_range(resolve(stream)->0),
{
    let out = resolve(stream)->0;
    let n = stream.len() as int;
    lemma_resolve_upto(stream, n);
    assert forall|pc: int| 0 <= pc < out.len() implies (#[trigger] out[pc] matches OpMode::iAsBx(
        OpName::JMP,
        _,
        sbx,
    ) ==> 0 <= pc + 1 + sbx < out.len()) by {
        let i = lemma_resolve_origin(stream, n, pc);
        match stream[i] {
            OpMode::iAsBx(OpName::JMP, a, label) => {
                lemma_label_position(stream, label, 0);
                let position = label_position(stream, label, 0)->0;
                let j = choose|j: int|
                    0 <= j < stream.len() && stream[j] == OpMode::Label(label) && position
                        == instr_count(stream, j);
                lemma_instr_count_monotone(stream, 0, j);
                lemma_instr_count_monotone(stream, j, n);
            },
            _ => {},
        }
    }
}

/// The position of a label is the instruction count at its first marker.
pub proof fn lemma_first_marker(stream: Seq<OpMode>, label: Label, from: int, j: int)
    requires
        0 <= from <= j < stream.len(),
        stream[j] == OpMode::Label(label),
        forall|k: int| from <= k < j ==> stream[k] != OpMode::Label(label),
    ensures
        label_position(stream, label, from) == Some(instr_count(stream, j)),
    decreases j - from,
{
    if from < j {
        lemma_first_marker(stream, label, from + 1, j);
    }
}

/// A jump lands on the instruction behind the marker of its label: in the
/// flat vector the `JMP` keeps its first operand, and its displacement leads
/// from the instruction behind it to the instruction that stood behind the
/// first marker of the label.
pub proof fn lemma_jump_lands(stream: Seq<OpMode>, i: int, j: int)
    requires
        0 <= i < stream.len(),
        stream[i] matches OpMode::iAsBx(OpName::JMP, _, label) && (0 <= j && j + 1 < stream.len()
            && stream[j] == OpMode::Label(label) && forall|k: int|
            0 <= k < j ==> stream[k] != OpMode::Label(label)),
        !stream[j + 1].is_marker(),
        resolve(stream) is Some,
    ensures
        ({
            let flat = resolve(stream)->0;
            let pc = instr_count(stream, i);
            let target = instr_count(stream, j);
            &&& 0 <= pc < flat.len()
            &&& 0 <= target < flat.len()
            &&& flat[pc] matches OpMode::iAsBx(OpName::JMP, a, sbx) && (stream[i] matches OpMode::iAsBx(
                _,
                b,
                _,
            ) && a == b && pc + 1 + sbx == target)
            &&& resolve_entry(stream, j + 1) == Some(flat[target])
        }),
{
    let n = stream.len() as int;
    lemma_resolve_upto(stream, n);
    if let OpMode::iAsBx(OpName::JMP, _, label) = stream[i] {
        lemma_first_marker(stream, label, 0, j);
    }
    lemma_instr_count_monotone(stream, 0, i);
    lemma_instr_count_monotone(stream, i, i + 1);
    lemma_instr_count_monotone(stream, i + 1, n);
    lemma_instr_count_monotone(stream, 0, j);
    lemma_instr_count_monotone(stream, j + 1, j + 2);
    lemma_instr_count_monotone(stream, j + 2, n);
    assert(instr_count(stream, j + 1) == instr_count(stream, j));
    assert(resolve_entry(stream, i) == Some(resolve(stream)->0[instr_count(stream, i)]));
    assert(resolve_entry(stream, j + 1) == Some(resolve(stream)->0[instr_count(stream, j + 1)]));
}

/// A jump over one instruction: where a `JMP` is followed by a marker, one
/// instruction and the first marker of its own label, it gets the
/// displacement 1 and lands on the instruction behind that marker, past the
/// one in between.
pub proof fn lemma_jump_skips_one(stream: Seq<OpMode>, i: int)
    requires
        0 <= i,
        i + 4 < stream.len(),
        stream[i] matches OpMode::iAsBx(OpName::JMP, _, label) && stream[i + 3] == OpMode::Label(
            label,
        ) && forall|k: int| 0 <= k < i + 3 ==> stream[k] != OpMode::Label(label),
        stream[i + 1].is_marker(),
        !stream[i + 2].is_marker(),
        !stream[i + 4].is_marker(),
        resolve(stream) is Some,
    ensures
        ({
            let flat = resolve(stream)->0;
            let pc = instr_count(stream, i);
            &&& 0 <= pc
            &&& pc + 2 < flat.len()
            &&& stream[i] matches OpMode::iAsBx(_, a, _) && flat[pc] == OpMode::iAsBx(
                OpName::JMP,
                a,
                1,
            )
            &&& resolve_entry(stream, i + 2) == Some(flat[pc + 1])
            &&& resolve_entry(stream, i + 4) == Some(flat[pc + 2])
        }),
{
    lemma_jump_lands(stream, i, i + 3);
    lemma_instr_count_monotone(stream, 0, i);
    assert(instr_count(stream, i + 1) == instr_count(stream, i) + 1);
    assert(instr_count(stream, i + 2) == instr_count(stream, i + 1));
    assert(instr_count(stream, i + 3) == instr_count(stream, i + 2) + 1);
    lemma_resolve_upto(stream, stream.len() as int);
    lemma_instr_count_monotone(stream, i + 3, stream.len() as int);
}

/// The position of `label` in a stream, counted in instructions.
fn find_label(stream: &Vec<OpMode>, label: Label) -> (r: Option<usize>)
    ensures
        match label_position(stream@, label, 0) {
            Some(position) => r == Some(position as usize) && 0 <= position <= stream@.len(),
            None => r is None,
        },
{
    let mut i: usize = 0;
    let mut count: usize = 0;
    while i < stream.len()
        invariant
            i <= stream.len(),
            count == instr_count(stream@, i as int),
            count <= i,
            label_position(stream@, label, 0) == label_position(stream@, label, i as int),
        decreases stream.len() - i,
    {
        match stream[i] {
            OpMode::Label(l) => {
                if l == label {
                    return Some(count);
                }
            },
            _ => {
                count += 1;
            },
        }
        i += 1;
    }
    None
}

/// The displacement from the instruction behind `pc` to `position`, if it
/// fits.
fn displacement(position: usize, pc: usize) -> (r: Option<i32>)
    requires
        pc < usize::MAX,
    ensures
        match r {
            Some(sbx) => sbx == position - (pc + 1),
            None => !(i32::MIN <= position - (pc + 1) <= i32::MAX),
        },
{
    let next = pc + 1;
    if position >= next {
        let forward = position - next;
        if forward <= i32::MAX as usize {
            Some(forward as i32)
        } else {
            None
        }
    } else {
        let backward = next - position;
        if backward <= i32::MAX as usize {
            Some(-(backward as i32))
        } else if backward - 1 == i32::MAX as usize {
            Some(i32::MIN)
        } else {
            None
        }
    }
}

/// Turns a stream into the flat instruction vector of a function: drops the
/// markers and gives every `JMP` the displacement to its label. A stream with
/// a `JMP` whose label has no marker, or whose displacement does not fit,
/// cannot be lowered.
pub fn remove_label(stream: &Vec<OpMode>) -> (r: Result<Vec<OpMode>, CompileError>)
    ensures
        match resolve(stream@) {
            Some(out) => r matches Ok(code) && code@ == out,
            None => r == Err::<Vec<OpMode>, CompileError>(CompileError::SyntaxError),
        },
        stream@.len() > 0 && !stream@.last().is_marker() ==> (r matches Ok(code)
            ==> jumps_in_range(code@)),
{
    let mut out: Vec<OpMode> = Vec::new();
    let mut i: usize = 0;
    while i < stream.len()
        invariant
            i <= stream.len(),
            resolve_upto(stream@, i as int) == Some(out@),
            out@.len() == instr_count(stream@, i as int),
            out@.len() <= i,
        decreases stream.len() - i,
    {
        match stream[i] {
            OpMode::Label(_) => {},
            OpMode::iAsBx(OpName::JMP, a, label) => {
                let resolved = match find_label(stream, label) {
                    Some(position) => displacement(position, out.len()),
                    None => None,
                };
                match resolved {
                    Some(sbx) => {
                        assert(resolve_entry(stream@, i as int) == Some(
                            OpMode::iAsBx(OpName::JMP, a, sbx),
                        ));
                        out.push(OpMode::iAsBx(OpName::JMP, a, sbx));
                    },
                    None => {
                        proof {
                            assert(resolve_entry(stream@, i as int) is None);
                            lemma_resolve_fails(stream@, i + 1, stream@.len() as int);
                        }
                        return Err(CompileError::SyntaxError);
                    },
                }
            },
            other => {
                assert(resolve_entry(stream@, i as int) == Some(other));
                out.push(other);
            },
        }
        i += 1;
    }
    proof {
        if stream@.len() > 0 && !stream@.last().is_marker() {
            lemma_resolved_jumps_in_range(stream@);
        }
    }
    Ok(out)
}

/// Once an entry cannot be resolved, no longer prefix of the stream can.
pub proof fn lemma_resolve_fails(stream: Seq<OpMode>, upto: int, later: int)
    requires
        0 <= upto <= later <= stream.len(),
        resolve_upto(stream, upto) is None,
    ensures
        resolve_upto(stream, later) is None,
    decreases later,
{
    if upto < later {
        lemma_resolve_fails(stream, upto, later - 1);
    }
}

} // verus!
