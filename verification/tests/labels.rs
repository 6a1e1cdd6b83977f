use luagen::compiler::labels::remove_label;
use luagen::compiler::opcodes::{OpMode, OpName};
use luagen::compiler::types::CompileError;

fn jump(label: i32) -> OpMode {
    OpMode::iAsBx(OpName::JMP, 0, label)
}

#[test]
fn forward_jump_skips_to_the_label() {
    let stream = vec![
        jump(0),
        OpMode::iABC(OpName::LOADBOOL, 0, 0, 1),
        OpMode::Label(0),
        OpMode::iABC(OpName::LOADBOOL, 0, 1, 0),
    ];
    assert_eq!(
        remove_label(&stream),
        Ok(vec![
            jump(1),
            OpMode::iABC(OpName::LOADBOOL, 0, 0, 1),
            OpMode::iABC(OpName::LOADBOOL, 0, 1, 0),
        ])
    );
}

#[test]
fn backward_jump_has_a_negative_displacement() {
    let stream = vec![
        OpMode::Label(3),
        OpMode::iABx(OpName::LOADK, 0, 0),
        OpMode::iABx(OpName::TEST, 0, 1),
        jump(3),
        OpMode::iABx(OpName::RETURN, 0, 1),
    ];
    assert_eq!(
        remove_label(&stream),
        Ok(vec![
            OpMode::iABx(OpName::LOADK, 0, 0),
            OpMode::iABx(OpName::TEST, 0, 1),
            jump(-3),
            OpMode::iABx(OpName::RETURN, 0, 1),
        ])
    );
}

#[test]
fn jump_to_the_next_instruction_is_zero() {
    let stream = vec![jump(1), OpMode::Label(1), OpMode::iABx(OpName::RETURN, 0, 1)];
    assert_eq!(
        remove_label(&stream),
        Ok(vec![jump(0), OpMode::iABx(OpName::RETURN, 0, 1)])
    );
}

#[test]
fn markers_do_not_count_as_positions() {
    let stream = vec![
        OpMode::Label(0),
        OpMode::Label(1),
        jump(2),
        OpMode::Label(5),
        jump(1),
        OpMode::Label(2),
        OpMode::iABx(OpName::RETURN, 0, 1),
    ];
    assert_eq!(
        remove_label(&stream),
        Ok(vec![jump(1), jump(-2), OpMode::iABx(OpName::RETURN, 0, 1)])
    );
}

#[test]
fn the_first_marker_of_a_label_counts() {
    let stream = vec![
        OpMode::Label(0),
        OpMode::iABx(OpName::LOADK, 0, 0),
        OpMode::Label(0),
        jump(0),
    ];
    assert_eq!(
        remove_label(&stream),
        Ok(vec![OpMode::iABx(OpName::LOADK, 0, 0), jump(-2)])
    );
}

#[test]
fn label_without_marker_cannot_be_resolved() {
    let stream = vec![jump(4), OpMode::Label(3), OpMode::iABx(OpName::RETURN, 0, 1)];
    assert_eq!(remove_label(&stream), Err(CompileError::SyntaxError));
}

#[test]
fn stream_without_jumps_only_loses_its_markers() {
    let stream = vec![
        OpMode::iABx(OpName::LOADK, 0, 0),
        OpMode::Label(9),
        OpMode::iAsBx(OpName::MOVE, 1, 7),
        OpMode::iABx(OpName::RETURN, 0, 1),
    ];
    assert_eq!(
        remove_label(&stream),
        Ok(vec![
            OpMode::iABx(OpName::LOADK, 0, 0),
            OpMode::iAsBx(OpName::MOVE, 1, 7),
            OpMode::iABx(OpName::RETURN, 0, 1),
        ])
    );
    assert_eq!(remove_label(&Vec::new()), Ok(Vec::new()));
}
