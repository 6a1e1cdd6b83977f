//! Every jump of a function names a label that the function places, and no
//! label is placed twice: the stream of a function can be resolved unless it
//! is too long for a displacement.

use crate::compiler::invariants::{
    consistent, extends, lemma_dest_reg, lemma_extends_trans, lemma_fresh_reg, lemma_new_label,
    lemma_reserve,
};
use crate::compiler::labels::{
    instr_count, label_position, lemma_instr_count_monotone, lemma_label_position, resolve,
    resolve_entry, resolve_upto,
};
use crate::compiler::model::{
    bindings, branch_on, m_args, m_block, m_bool, m_call, m_call_at, m_expr, m_exprs, m_logic,
    m_results, m_return, m_returned, m_stat, m_stats, m_var, Code, GenView,
};
use crate::compiler::opcodes::{arith_opcode, relational_opcode, Label, OpMode, OpName};
use crate::compiler::soundness::{
    lemma_args, lemma_bool, lemma_call, lemma_call_at, lemma_expr, lemma_exprs, lemma_grown,
    lemma_results, lemma_return, lemma_returned, lemma_stats, lemma_var,
};
use crate::compiler::soundness_stat::lemma_stat;
use crate::compiler::types::{expect_reg, Expect, RetExpect, UpvalueDescriptor, Usize};
use crate::parser::types::{
    plain_block, plain_expr, plain_exprs, plain_stats, Block, Expr, Stat, Var,
};
use crate::compiler::labelling_stat::labels_stat;
use crate::tokens::FlagType;
use vstd::prelude::*;

verus! {

/// The code places the label.
pub open spec fn marked(code: Code, label: Label) -> bool {
    exists|j: int| 0 <= j < code.len() && #[trigger] code[j] == OpMode::Label(label)
}

/// Every label that the code places lies in a range.
pub open spec fn markers_within(code: Code, lo: int, hi: int) -> bool {
    forall|j: int|
        0 <= j < code.len() ==> (#[trigger] code[j] matches OpMode::Label(l) ==> lo <= l < hi)
}

/// The code places no label twice.
pub open spec fn markers_distinct(code: Code) -> bool {
    forall|i: int, j: int|
        0 <= i < j < code.len() && (#[trigger] code[i]).is_marker() ==> code[i]
            != #[trigger] code[j]
}

/// Every jump of the code names a label that the code places, or one of the
/// labels outside.
pub open spec fn jumps_marked(code: Code, outside: Set<Label>) -> bool {
    forall|i: int|
        0 <= i < code.len() ==> (#[trigger] code[i] matches OpMode::iAsBx(OpName::JMP, _, l)
            ==> marked(code, l) || outside.contains(l))
}

/// The labels of a run of code are in order: it places each label once, all
/// in a range of its own, and it jumps only to labels it places and to the
/// labels outside.
pub open spec fn labelled(code: Code, lo: int, hi: int, outside: Set<Label>) -> bool {
    &&& markers_within(code, lo, hi)
    &&& markers_distinct(code)
    &&& jumps_marked(code, outside)
}

/// Every jump of the code names a label that the code places.
pub open spec fn closed(code: Code) -> bool {
    jumps_marked(code, Set::empty())
}

/// Whether an entry neither places a label nor jumps.
pub open spec fn plain_entry(op: OpMode) -> bool {
    !op.is_marker() && !(op matches OpMode::iAsBx(OpName::JMP, _, _))
}

/// Code without markers and jumps has its labels in order.
pub proof fn lemma_labelled_plain(code: Code, at: int, outside: Set<Label>)
    requires
        forall|i: int| 0 <= i < code.len() ==> plain_entry(#[trigger] code[i]),
    ensures
        labelled(code, at, at, outside),
{
}

/// The labels of a run stay in order in a wider range with more labels
/// outside.
pub proof fn lemma_labelled_widen(
    code: Code,
    lo: int,
    hi: int,
    outside: Set<Label>,
    lo2: int,
    hi2: int,
    outside2: Set<Label>,
)
    requires
        labelled(code, lo, hi, outside),
        lo2 <= lo,
        hi <= hi2,
        outside.subset_of(outside2),
    ensures
        labelled(code, lo2, hi2, outside2),
{
}

/// Two runs with their labels in order, in ranges that do not meet, make a
/// run with its labels in order.
pub proof fn lemma_labelled_concat(
    a: Code,
    b: Code,
    lo_a: int,
    hi_a: int,
    lo_b: int,
    hi_b: int,
    outside: Set<Label>,
)
    requires
        labelled(a, lo_a, hi_a, outside),
        labelled(b, lo_b, hi_b, outside),
        hi_a <= lo_b || hi_b <= lo_a,
    ensures
        labelled(
            a + b,
            if lo_a <= lo_b { lo_a } else { lo_b },
            if hi_a <= hi_b { hi_b } else { hi_a },
            outside,
        ),
{
    let ab = a + b;
    assert forall|i: int| 0 <= i < ab.len() implies (#[trigger] ab[i] matches OpMode::iAsBx(
        OpName::JMP,
        _,
        l,
    ) ==> marked(ab, l) || outside.contains(l)) by {
        if let OpMode::iAsBx(OpName::JMP, _, l) = ab[i] {
            if i < a.len() {
                assert(ab[i] == a[i]);
                if marked(a, l) {
                    let j = choose|j: int| 0 <= j < a.len() && #[trigger] a[j] == OpMode::Label(l);
                    assert(ab[j] == OpMode::Label(l));
                }
            } else {
                assert(ab[i] == b[i - a.len()]);
                if marked(b, l) {
                    let j = choose|j: int| 0 <= j < b.len() && #[trigger] b[j] == OpMode::Label(l);
                    assert(ab[j + a.len()] == OpMode::Label(l));
                }
            }
        }
    }
    assert forall|i: int, j: int|
        0 <= i < j < ab.len() && (#[trigger] ab[i]).is_marker() implies ab[i] != #[trigger] ab[j] by {
        if j < a.len() {
            assert(ab[i] == a[i] && ab[j] == a[j]);
        } else if i >= a.len() {
            assert(ab[i] == b[i - a.len()] && ab[j] == b[j - a.len()]);
        } else {
            assert(ab[i] == a[i] && ab[j] == b[j - a.len()]);
        }
    }
    assert forall|j: int| 0 <= j < ab.len() implies (#[trigger] ab[j] matches OpMode::Label(l)
        ==> (if lo_a <= lo_b { lo_a } else { lo_b }) <= l < (if hi_a <= hi_b { hi_b } else { hi_a })) by {
        if j < a.len() {
            assert(ab[j] == a[j]);
        } else {
            assert(ab[j] == b[j - a.len()]);
        }
    }
}

/// A label that the code places need not be kept outside.
pub proof fn lemma_labelled_close(code: Code, lo: int, hi: int, outside: Set<Label>, label: Label)
    requires
        labelled(code, lo, hi, outside),
        marked(code, label),
    ensures
        labelled(code, lo, hi, outside.remove(label)),
{
}

/// A stream whose jumps are all marked, and which is short enough for every
/// displacement, resolves.
pub proof fn lemma_closed_resolves(stream: Code, upto: int)
    requires
        closed(stream),
        stream.len() <= i32::MAX,
        0 <= upto <= stream.len(),
    ensures
        resolve_upto(stream, upto) is Some,
    decreases upto,
{
    if upto > 0 {
        lemma_closed_resolves(stream, upto - 1);
        let i = upto - 1;
        if let OpMode::iAsBx(OpName::JMP, _, l) = stream[i] {
            assert(marked(stream, l));
            lemma_label_position(stream, l, 0);
            let position = label_position(stream, l, 0)->0;
            let j = choose|j: int|
                0 <= j < stream.len() && stream[j] == OpMode::Label(l) && position == instr_count(
                    stream,
                    j,
                );
            lemma_instr_count_monotone(stream, 0, j);
            lemma_instr_count_monotone(stream, 0, i);
            assert(resolve_entry(stream, i) is Some);
        }
    }
}

/// The labels that the current function has handed out.
pub open spec fn labels_of(s: GenView) -> int {
    s.current().labels as int
}

/// The code of a visit has its labels in order among those handed out
/// during the visit.
pub open spec fn visit_labelled(s: GenView, s1: GenView, code: Code) -> bool {
    labelled(code, labels_of(s), labels_of(s1), Set::empty())
}

/// One run after another, each with its labels in order among those handed
/// out while it was made, is such a run.
pub proof fn lemma_then(s: GenView, s1: GenView, s2: GenView, c1: Code, c2: Code)
    requires
        s.chain.len() > 0,
        extends(s, s1),
        extends(s1, s2),
        visit_labelled(s, s1, c1),
        visit_labelled(s1, s2, c2),
    ensures
        visit_labelled(s, s2, c1 + c2),
{
    lemma_grown(s, s1);
    lemma_grown(s1, s2);
    lemma_labelled_concat(
        c1,
        c2,
        labels_of(s),
        labels_of(s1),
        labels_of(s1),
        labels_of(s2),
        Set::empty(),
    );
}

/// A run followed by an instruction that neither places a label nor jumps.
pub proof fn lemma_then_plain(s: GenView, s1: GenView, s2: GenView, code: Code, op: OpMode)
    requires
        s.chain.len() > 0,
        extends(s, s1),
        extends(s1, s2),
        visit_labelled(s, s1, code),
        plain_entry(op),
    ensures
        visit_labelled(s, s2, code.push(op)),
        visit_labelled(s, s2, code + seq![op]),
{
    lemma_grown(s, s1);
    lemma_grown(s1, s2);
    lemma_labelled_plain(seq![op], labels_of(s2), Set::empty());
    lemma_labelled_concat(
        code,
        seq![op],
        labels_of(s),
        labels_of(s1),
        labels_of(s2),
        labels_of(s2),
        Set::empty(),
    );
    assert(code.push(op) =~= code + seq![op]);
}

/// A visit that emits nothing, or one instruction that neither places a
/// label nor jumps.
pub proof fn lemma_just(s: GenView, s1: GenView, code: Code)
    requires
        s.chain.len() > 0,
        extends(s, s1),
        forall|i: int| 0 <= i < code.len() ==> plain_entry(#[trigger] code[i]),
    ensures
        visit_labelled(s, s1, code),
{
    lemma_grown(s, s1);
    lemma_labelled_plain(code, labels_of(s), Set::empty());
    lemma_labelled_widen(
        code,
        labels_of(s),
        labels_of(s),
        Set::empty(),
        labels_of(s),
        labels_of(s1),
        Set::empty(),
    );
}

/// The entries of the code of a variable read neither place labels nor
/// jump.
pub proof fn labels_var(s: GenView, var: Var, want: Option<Usize>)
    requires
        consistent(s),
        !(var is Reg),
        want matches Some(reg) ==> reg < s.stack_size(),
    ensures
        m_var(s, var, want) matches Ok((s1, code, _)) ==> visit_labelled(s, s1, code)
            && forall|i: int| 0 <= i < code.len() ==> plain_entry(#[trigger] code[i]),
{
    lemma_var(s, var, want);
    if let Ok((s1, code, _)) = m_var(s, var, want) {
        assert forall|i: int| 0 <= i < code.len() implies plain_entry(#[trigger] code[i]) by {
            reveal(m_var);
        }
        lemma_just(s, s1, code);
    }
}

/// The code of an expression has its labels in order.
pub proof fn labels_expr(s: GenView, expr: Expr, expect: Option<Expect>)
    requires
        consistent(s),
        plain_expr(expr),
        expect_reg(expect) matches Some(reg) ==> reg < s.stack_size(),
    ensures
        m_expr(s, expr, expect) matches Ok((s1, code, _)) ==> visit_labelled(s, s1, code),
    decreases expr, 2int,
{
    lemma_expr(s, expr, expect);
    let want = expect_reg(expect);
    match expr {
        Expr::BinOp(flag, left, right) => {
            match arith_opcode(flag) {
                Some(op) => {
                    reveal(m_expr);
                    lemma_expr(s, *left, None);
                    labels_expr(s, *left, None);
                    if let Ok((s1, c1, (left_temp, left_reg))) = m_expr(s, *left, None) {
                        lemma_expr(s1, *right, None);
                        labels_expr(s1, *right, None);
                        if let Ok((s2, c2, (_, right_reg))) = m_expr(s1, *right, None) {
                            lemma_fresh_reg(s2, None);
                            if let Ok((s3, code, _)) = m_expr(s, expr, expect) {
                                lemma_then(s, s1, s2, c1, c2);
                                lemma_extends_trans(s, s1, s2);
                                assert(extends(s2, s3)) by {
                                    if s3 != s2 {
                                        assert(s2.fresh_reg(None) is Ok);
                                    }
                                }
                                lemma_then_plain(
                                    s,
                                    s2,
                                    s3,
                                    c1 + c2,
                                    OpMode::iABC(op, code.last()->iABC_1, left_reg, right_reg),
                                );
                            }
                        }
                    }
                },
                None => {
                    reveal(m_expr);
                    reveal(m_logic);
                    labels_logic(s, expr, expect);
                },
            }
        },
        Expr::Var(var) => {
            reveal(m_expr);
            labels_var(s, var, want);
        },
        Expr::FunctionCall(_, _, _) => {
            reveal(m_expr);
            reveal(m_call);
            labels_call(s, expr, RetExpect::Num(1));
            lemma_call(s, expr, RetExpect::Num(1));
            if let Ok((s1, code, func_pos)) = m_call(s, expr, RetExpect::Num(1)) {
                if let Some(reg) = want {
                    crate::compiler::invariants::lemma_extends_refl(s1);
                    lemma_then_plain(s, s1, s1, code, OpMode::iABx(OpName::MOVE, reg, func_pos));
                }
            }
        },
        Expr::UnaryOp(op, operand) => {
            reveal(m_expr);
            reveal(m_logic);
            match op {
                FlagType::Minus => {},
                FlagType::Plus => {
                    labels_expr(s, *operand, expect);
                },
                _ => {
                    labels_logic(s, expr, expect);
                },
            }
        },
        _ => {
            // a literal or a closure: no label is placed, nothing jumps
            if let Ok((s1, code, _)) = m_expr(s, expr, expect) {
                assert forall|i: int| 0 <= i < code.len() implies plain_entry(
                    #[trigger] code[i],
                ) by {
                    reveal(m_expr);
                    if let Expr::FunctionDef(_, _) = expr {
                        if i > 0 {
                            let list = choose|list: Seq<UpvalueDescriptor>|
                                code.subrange(1, code.len() as int) == bindings(list);
                            assert(code[i] == code.subrange(1, code.len() as int)[i - 1]);
                        }
                    }
                }
                lemma_just(s, s1, code);
            }
        },
    }
}

/// The code that evaluates a predicate into a register has its labels in
/// order: the two labels that the branches end in are placed behind them.
pub proof fn labels_logic(s: GenView, expr: Expr, expect: Option<Expect>)
    requires
        consistent(s),
        plain_expr(expr),
        expect_reg(expect) matches Some(reg) ==> reg < s.stack_size(),
    ensures
        m_logic(s, expr, expect) matches Ok((s1, code, _)) ==> visit_labelled(s, s1, code),
    decreases expr, 1int,
{
    reveal(m_logic);
    reveal(m_bool);
    lemma_dest_reg(s, expect_reg(expect));
    if let Ok((s1, reg)) = s.dest_reg(expect_reg(expect)) {
        lemma_new_label(s1);
        if let Ok((s2, true_label)) = s1.new_label() {
            lemma_new_label(s2);
            if let Ok((s3, false_label)) = s2.new_label() {
                lemma_bool(s3, expr, true_label, false_label, true);
                labels_bool(s3, expr, true_label, false_label, true);
                if let Ok((s4, code)) = m_bool(s3, expr, true_label, false_label, true) {
                    lemma_grown(s, s1);
                    lemma_grown(s3, s4);
                    let both = set![true_label, false_label];
                    let tail = seq![
                        OpMode::Label(false_label),
                        OpMode::iABC(OpName::LOADBOOL, reg, 0, 1),
                        OpMode::Label(true_label),
                        OpMode::iABC(OpName::LOADBOOL, reg, 1, 0),
                    ];
                    assert(labelled(tail, true_label as int, false_label + 1, both));
                    lemma_labelled_concat(
                        code,
                        tail,
                        labels_of(s3),
                        labels_of(s4),
                        true_label as int,
                        false_label + 1,
                        both,
                    );
                    let all = code + tail;
                    assert(all[code.len() as int] == OpMode::Label(false_label));
                    assert(all[code.len() as int + 2] == OpMode::Label(true_label));
                    lemma_labelled_close(all, true_label as int, labels_of(s4), both, false_label);
                    lemma_labelled_close(
                        all,
                        true_label as int,
                        labels_of(s4),
                        both.remove(false_label),
                        true_label,
                    );
                    assert(both.remove(false_label).remove(true_label) =~= Set::<Label>::empty());
                    lemma_labelled_widen(
                        all,
                        true_label as int,
                        labels_of(s4),
                        Set::empty(),
                        labels_of(s),
                        labels_of(s4),
                        Set::empty(),
                    );
                }
            }
        }
    }
}

/// The test of a predicate and the jump behind it place no label and jump
/// only to one of the two labels of the predicate.
proof fn lemma_branch_labelled(
    test: OpMode,
    negated: OpMode,
    true_br: Label,
    false_br: Label,
    jump_if_true: bool,
    at: int,
)
    requires
        plain_entry(test),
        plain_entry(negated),
    ensures
        labelled(
            branch_on(test, negated, true_br, false_br, jump_if_true),
            at,
            at,
            set![true_br, false_br],
        ),
{
    let code = branch_on(test, negated, true_br, false_br, jump_if_true);
    assert(code.len() == 2);
}

/// The branches of a predicate have their labels in order, but for the jumps
/// to the two labels that the predicate is lowered on.
pub proof fn labels_bool(
    s: GenView,
    expr: Expr,
    true_br: Label,
    false_br: Label,
    jump_if_true: bool,
)
    requires
        consistent(s),
        plain_expr(expr),
        true_br < labels_of(s),
        false_br < labels_of(s),
    ensures
        m_bool(s, expr, true_br, false_br, jump_if_true) matches Ok((s1, code)) ==> labelled(
            code,
            labels_of(s),
            labels_of(s1),
            set![true_br, false_br],
        ),
    decreases expr, 0int,
{
    reveal(m_bool);
    reveal(m_expr);
    let both = set![true_br, false_br];
    match expr {
        Expr::BinOp(FlagType::OR, left, right) => {
            lemma_new_label(s);
            if let Ok((s1, right_label)) = s.new_label() {
                lemma_bool(s1, *left, true_br, right_label, true);
                labels_bool(s1, *left, true_br, right_label, true);
                if let Ok((s2, c1)) = m_bool(s1, *left, true_br, right_label, true) {
                    lemma_bool(s2, *right, true_br, false_br, jump_if_true);
                    lemma_grown(s1, s2);
                    labels_bool(s2, *right, true_br, false_br, jump_if_true);
                    if let Ok((s3, c2)) = m_bool(s2, *right, true_br, false_br, jump_if_true) {
                        lemma_grown(s2, s3);
                        lemma_joined_labels(
                            c1,
                            c2,
                            right_label,
                            true_br,
                            false_br,
                            set![true_br, right_label],
                            labels_of(s1),
                            labels_of(s2),
                            labels_of(s3),
                        );
                    }
                }
            }
        },
        Expr::BinOp(FlagType::AND, left, right) => {
            lemma_new_label(s);
            if let Ok((s1, right_label)) = s.new_label() {
                lemma_bool(s1, *left, right_label, false_br, false);
                labels_bool(s1, *left, right_label, false_br, false);
                if let Ok((s2, c1)) = m_bool(s1, *left, right_label, false_br, false) {
                    lemma_bool(s2, *right, true_br, false_br, jump_if_true);
                    lemma_grown(s1, s2);
                    labels_bool(s2, *right, true_br, false_br, jump_if_true);
                    if let Ok((s3, c2)) = m_bool(s2, *right, true_br, false_br, jump_if_true) {
                        lemma_grown(s2, s3);
                        lemma_joined_labels(
                            c1,
                            c2,
                            right_label,
                            true_br,
                            false_br,
                            set![right_label, false_br],
                            labels_of(s1),
                            labels_of(s2),
                            labels_of(s3),
                        );
                    }
                }
            }
        },
        Expr::BinOp(flag, left, right) => {
            if let Some((op, holds)) = relational_opcode(flag) {
                lemma_expr(s, *left, None);
                labels_expr(s, *left, None);
                if let Ok((s1, c1, (_, left_reg))) = m_expr(s, *left, None) {
                    lemma_expr(s1, *right, None);
                    labels_expr(s1, *right, None);
                    if let Ok((s2, c2, (_, right_reg))) = m_expr(s1, *right, None) {
                        lemma_then(s, s1, s2, c1, c2);
                        let test = OpMode::iABC(op, if holds { 1 } else { 0 }, left_reg, right_reg);
                        let negated = OpMode::iABC(
                            op,
                            if holds { 0 } else { 1 },
                            left_reg,
                            right_reg,
                        );
                        lemma_branch_labelled(
                            test,
                            negated,
                            true_br,
                            false_br,
                            jump_if_true,
                            labels_of(s2),
                        );
                        lemma_labelled_widen(
                            c1 + c2,
                            labels_of(s),
                            labels_of(s2),
                            Set::empty(),
                            labels_of(s),
                            labels_of(s2),
                            both,
                        );
                        lemma_labelled_concat(
                            c1 + c2,
                            branch_on(test, negated, true_br, false_br, jump_if_true),
                            labels_of(s),
                            labels_of(s2),
                            labels_of(s2),
                            labels_of(s2),
                            both,
                        );
                        lemma_grown(s, s1);
                        lemma_grown(s1, s2);
                    }
                }
            }
        },
        Expr::UnaryOp(FlagType::Not, operand) => {
            labels_bool(s, *operand, false_br, true_br, !jump_if_true);
            assert(set![false_br, true_br] =~= both);
        },
        Expr::Var(var) => {
            lemma_var(s, var, None);
            labels_var(s, var, None);
            if let Ok((s1, c1, (_, reg))) = m_var(s, var, None) {
                let test = OpMode::iABx(OpName::TEST, reg, 1);
                let negated = OpMode::iABx(OpName::TEST, reg, 0);
                lemma_branch_labelled(
                    test,
                    negated,
                    true_br,
                    false_br,
                    jump_if_true,
                    labels_of(s1),
                );
                lemma_labelled_widen(
                    c1,
                    labels_of(s),
                    labels_of(s1),
                    Set::empty(),
                    labels_of(s),
                    labels_of(s1),
                    both,
                );
                lemma_labelled_concat(
                    c1,
                    branch_on(test, negated, true_br, false_br, jump_if_true),
                    labels_of(s),
                    labels_of(s1),
                    labels_of(s1),
                    labels_of(s1),
                    both,
                );
                lemma_grown(s, s1);
            }
        },
        Expr::Boole(value) => {
            let code = seq![OpMode::iAsBx(OpName::JMP, 0, if value { true_br } else { false_br })];
            assert(code.len() == 1);
        },
        _ => {},
    }
}

/// Two runs of branches with the label between them that the first run
/// jumps to.
proof fn lemma_joined_labels(
    c1: Code,
    c2: Code,
    between: Label,
    true_br: Label,
    false_br: Label,
    first: Set<Label>,
    lo: int,
    mid: int,
    hi: int,
)
    requires
        labelled(c1, lo, mid, first),
        labelled(c2, mid, hi, set![true_br, false_br]),
        first.subset_of(set![true_br, false_br, between]),
        between + 1 == lo,
        lo <= mid <= hi,
        true_br < between,
        false_br < between,
    ensures
        labelled(c1.push(OpMode::Label(between)) + c2, between as int, hi, set![true_br, false_br]),
{
    let all = set![true_br, false_br, between];
    let marker = seq![OpMode::Label(between)];
    assert(labelled(marker, between as int, between + 1, all));
    lemma_labelled_widen(c1, lo, mid, first, lo, mid, all);
    lemma_labelled_widen(c2, mid, hi, set![true_br, false_br], mid, hi, all);
    lemma_labelled_concat(c1, marker, lo, mid, between as int, between + 1, all);
    lemma_labelled_concat(c1 + marker, c2, between as int, mid, mid, hi, all);
    let code = c1 + marker + c2;
    assert(code[c1.len() as int] == OpMode::Label(between));
    lemma_labelled_close(code, between as int, hi, all, between);
    assert(all.remove(between) =~= set![true_br, false_br]);
    assert(c1.push(OpMode::Label(between)) + c2 =~= code);
}

/// The code of a call has its labels in order.
pub proof fn labels_call(s: GenView, call: Expr, expect_ret: RetExpect)
    requires
        consistent(s),
        plain_expr(call),
    ensures
        m_call(s, call, expect_ret) matches Ok((s1, code, _)) ==> visit_labelled(s, s1, code),
    decreases call, 1int,
{
    reveal(m_call);
    reveal(m_call_at);
    lemma_fresh_reg(s, None);
    if let Ok((s1, func_pos)) = s.fresh_reg(None) {
        lemma_call_at(s1, call, func_pos, expect_ret);
        labels_call_at(s1, call, func_pos, expect_ret);
        if let Ok((s2, code)) = m_call_at(s1, call, func_pos, expect_ret) {
            lemma_grown(s, s1);
            lemma_grown(s1, s2);
            lemma_labelled_widen(
                code,
                labels_of(s1),
                labels_of(s2),
                Set::empty(),
                labels_of(s),
                labels_of(s2),
                Set::empty(),
            );
        }
    }
}

/// The code of a call whose callee goes to a given register has its labels
/// in order.
pub proof fn labels_call_at(s: GenView, call: Expr, func_pos: Usize, expect_ret: RetExpect)
    requires
        consistent(s),
        plain_expr(call),
        func_pos < s.stack_size(),
    ensures
        m_call_at(s, call, func_pos, expect_ret) matches Ok((s1, code)) ==> visit_labelled(
            s,
            s1,
            code,
        ),
    decreases call, 0int,
{
    reveal(m_call_at);
    reveal(m_args);
    reveal(m_expr);
    if let Expr::FunctionCall(callee, args, _) = call {
        lemma_expr(s, *callee, Some(Expect::Reg(func_pos)));
        labels_expr(s, *callee, Some(Expect::Reg(func_pos)));
        if let Ok((s2, c0, _)) = m_expr(s, *callee, Some(Expect::Reg(func_pos))) {
            lemma_grown(s, s2);
            lemma_results(s2, func_pos, expect_ret);
            if let Ok((s3, ret_field)) = m_results(s2, func_pos, expect_ret) {
                lemma_grown(s2, s3);
                lemma_labelled_widen(
                    c0,
                    labels_of(s),
                    labels_of(s2),
                    Set::empty(),
                    labels_of(s),
                    labels_of(s3),
                    Set::empty(),
                );
                lemma_extends_trans(s, s2, s3);
                let n = args@.len() as int;
                if n == 0 {
                    lemma_then_plain(
                        s,
                        s3,
                        s3,
                        c0,
                        OpMode::iABC(OpName::CALL, func_pos, 1, ret_field),
                    );
                } else if *args@[n - 1] is FunctionCall {
                    assert(plain_exprs(args@));
                    assert(plain_expr(*args@[n - 1]));
                    lemma_args(s3, args@, n - 1, func_pos);
                    labels_args(s3, args@, n - 1, func_pos);
                    if let Ok((s4, c1)) = m_args(s3, args@, n - 1, func_pos) {
                        if func_pos + n <= Usize::MAX {
                            let inner = (func_pos + n) as Usize;
                            lemma_reserve(s4, inner);
                            if let Ok(s5) = s4.reserve(inner) {
                                lemma_call_at(s5, *args@[n - 1], inner, RetExpect::Indeterminate);
                                labels_call_at(s5, *args@[n - 1], inner, RetExpect::Indeterminate);
                                if let Ok((s6, c2)) = m_call_at(
                                    s5,
                                    *args@[n - 1],
                                    inner,
                                    RetExpect::Indeterminate,
                                ) {
                                    lemma_grown(s4, s5);
                                    lemma_grown(s5, s6);
                                    lemma_extends_trans(s4, s5, s6);
                                    lemma_labelled_widen(
                                        c2,
                                        labels_of(s5),
                                        labels_of(s6),
                                        Set::empty(),
                                        labels_of(s4),
                                        labels_of(s6),
                                        Set::empty(),
                                    );
                                    lemma_then(s, s3, s4, c0, c1);
                                    lemma_extends_trans(s, s3, s4);
                                    lemma_then(s, s4, s6, c0 + c1, c2);
                                    lemma_extends_trans(s, s4, s6);
                                    lemma_then_plain(
                                        s,
                                        s6,
                                        s6,
                                        c0 + c1 + c2,
                                        OpMode::iABC(OpName::CALL, func_pos, 0, ret_field),
                                    );
                                }
                            }
                        }
                    }
                } else {
                    lemma_args(s3, args@, n, func_pos);
                    labels_args(s3, args@, n, func_pos);
                    if let Ok((s4, c1)) = m_args(s3, args@, n, func_pos) {
                        if n < Usize::MAX {
                            lemma_then(s, s3, s4, c0, c1);
                            lemma_extends_trans(s, s3, s4);
                            lemma_then_plain(
                                s,
                                s4,
                                s4,
                                c0 + c1,
                                OpMode::iABC(OpName::CALL, func_pos, (n + 1) as Usize, ret_field),
                            );
                        }
                    }
                }
            }
        }
    }
}

/// The code of the arguments of a call has its labels in order.
pub proof fn labels_args(s: GenView, args: Seq<Box<Expr>>, count: int, func_pos: Usize)
    requires
        consistent(s),
        plain_exprs(args),
        0 <= count <= args.len(),
        func_pos < s.stack_size(),
    ensures
        m_args(s, args, count, func_pos) matches Ok((s1, code)) ==> visit_labelled(s, s1, code),
    decreases args, count,
{
    reveal(m_args);
    reveal(m_expr);
    if count > 0 {
        lemma_args(s, args, count - 1, func_pos);
        labels_args(s, args, count - 1, func_pos);
        if let Ok((s1, c1)) = m_args(s, args, count - 1, func_pos) {
            if func_pos + count <= Usize::MAX {
                let target = (func_pos + count) as Usize;
                crate::compiler::invariants::lemma_reserve(s1, target);
                if let Ok(s2) = s1.reserve(target) {
                    lemma_expr(s2, *args[count - 1], Some(Expect::Reg(target)));
                    labels_expr(s2, *args[count - 1], Some(Expect::Reg(target)));
                    if let Ok((s3, c2, _)) = m_expr(
                        s2,
                        *args[count - 1],
                        Some(Expect::Reg(target)),
                    ) {
                        lemma_grown(s1, s2);
                        lemma_grown(s2, s3);
                        lemma_extends_trans(s1, s2, s3);
                        lemma_labelled_widen(
                            c2,
                            labels_of(s2),
                            labels_of(s3),
                            Set::empty(),
                            labels_of(s1),
                            labels_of(s3),
                            Set::empty(),
                        );
                        lemma_then(s, s1, s3, c1, c2);
                    }
                }
            }
        }
    } else {
        crate::compiler::invariants::lemma_extends_refl(s);
        lemma_just(s, s, Seq::empty());
    }
}

/// The code of a list of expressions has its labels in order.
pub proof fn labels_exprs(s: GenView, exprs: Seq<Box<Expr>>, count: int)
    requires
        consistent(s),
        plain_exprs(exprs),
        0 <= count <= exprs.len(),
    ensures
        m_exprs(s, exprs, count) matches Ok((s1, code, _)) ==> visit_labelled(s, s1, code),
    decreases exprs, count,
{
    reveal(m_exprs);
    reveal(m_expr);
    if count > 0 {
        lemma_exprs(s, exprs, count - 1);
        labels_exprs(s, exprs, count - 1);
        if let Ok((s1, c1, _)) = m_exprs(s, exprs, count - 1) {
            lemma_expr(s1, *exprs[count - 1], None);
            labels_expr(s1, *exprs[count - 1], None);
            if let Ok((s2, c2, _)) = m_expr(s1, *exprs[count - 1], None) {
                lemma_then(s, s1, s2, c1, c2);
            }
        }
    } else {
        crate::compiler::invariants::lemma_extends_refl(s);
        lemma_just(s, s, Seq::empty());
    }
}

/// The code of a return has its labels in order.
pub proof fn labels_return(s: GenView, exprs: Seq<Box<Expr>>)
    requires
        consistent(s),
        plain_exprs(exprs),
    ensures
        m_return(s, exprs) matches Ok((s1, code)) ==> visit_labelled(s, s1, code),
    decreases exprs, exprs.len() + 1,
{
    reveal(m_return);
    reveal(m_returned);
    crate::compiler::invariants::lemma_fresh_regs(s, exprs.len());
    if let Ok((s1, first)) = s.fresh_regs(exprs.len()) {
        let start = if exprs.len() > 0 {
            first
        } else {
            0
        };
        lemma_returned(s1, exprs, exprs.len() as int, start);
        labels_returned(s1, exprs, exprs.len() as int, start);
        if let Ok((s2, code)) = m_returned(s1, exprs, exprs.len() as int, start) {
            if exprs.len() < Usize::MAX {
                lemma_grown(s, s1);
                lemma_grown(s1, s2);
                lemma_extends_trans(s, s1, s2);
                lemma_labelled_widen(
                    code,
                    labels_of(s1),
                    labels_of(s2),
                    Set::empty(),
                    labels_of(s),
                    labels_of(s2),
                    Set::empty(),
                );
                lemma_then_plain(
                    s,
                    s2,
                    s2,
                    code,
                    OpMode::iABx(OpName::RETURN, start, (exprs.len() + 1) as Usize),
                );
            }
        }
    }
}

/// The code of the values of a return has its labels in order.
pub proof fn labels_returned(s: GenView, exprs: Seq<Box<Expr>>, count: int, start: Usize)
    requires
        consistent(s),
        plain_exprs(exprs),
        0 <= count <= exprs.len(),
        count > 0 ==> start + count <= s.stack_size(),
    ensures
        m_returned(s, exprs, count, start) matches Ok((s1, code)) ==> visit_labelled(s, s1, code),
    decreases exprs, count,
{
    reveal(m_returned);
    reveal(m_expr);
    if count > 0 {
        lemma_returned(s, exprs, count - 1, start);
        labels_returned(s, exprs, count - 1, start);
        if let Ok((s1, c1)) = m_returned(s, exprs, count - 1, start) {
            lemma_grown(s, s1);
            let target = (start + count - 1) as Usize;
            lemma_expr(s1, *exprs[count - 1], Some(Expect::Reg(target)));
            labels_expr(s1, *exprs[count - 1], Some(Expect::Reg(target)));
            if let Ok((s2, c2, _)) = m_expr(s1, *exprs[count - 1], Some(Expect::Reg(target))) {
                lemma_then(s, s1, s2, c1, c2);
            }
        }
    } else {
        crate::compiler::invariants::lemma_extends_refl(s);
        lemma_just(s, s, Seq::empty());
    }
}

/// The code of a list of statements has its labels in order.
pub proof fn labels_stats(s: GenView, stats: Seq<Box<Stat>>, count: int)
    requires
        consistent(s),
        plain_stats(stats),
        0 <= count <= stats.len(),
    ensures
        m_stats(s, stats, count) matches Ok((s1, code)) ==> visit_labelled(s, s1, code),
    decreases stats, count,
{
    reveal(m_stats);
    reveal(m_stat);
    if count > 0 {
        lemma_stats(s, stats, count - 1);
        labels_stats(s, stats, count - 1);
        if let Ok((s1, c1)) = m_stats(s, stats, count - 1) {
            lemma_stat(s1, *stats[count - 1]);
            labels_stat(s1, *stats[count - 1]);
            if let Ok((s2, c2)) = m_stat(s1, *stats[count - 1]) {
                lemma_then(s, s1, s2, c1, c2);
            }
        }
    } else {
        crate::compiler::invariants::lemma_extends_refl(s);
        lemma_just(s, s, Seq::empty());
    }
}

/// The stream of a function can be resolved unless it is too long: the body
/// of a function places every label that it jumps to, and each label once.
/// So does the stream that the closing `RETURN` makes of it, and if the
/// stream is short enough for every displacement, its labels resolve.
pub proof fn lemma_labels_resolve(s: GenView, block: Block)
    requires
        consistent(s),
        plain_block(block),
    ensures
        m_block(s, block) matches Ok((s1, code)) ==> {
            let stream = code.push(OpMode::iABx(OpName::RETURN, 0, 1));
            &&& closed(stream)
            &&& markers_distinct(stream)
            &&& stream.len() <= i32::MAX ==> resolve(stream) is Some
        },
{
    reveal(m_block);
    reveal(m_stats);
    reveal(m_return);
    lemma_stats(s, block.stats@, block.stats@.len() as int);
    labels_stats(s, block.stats@, block.stats@.len() as int);
    if let Ok((s1, c1)) = m_stats(s, block.stats@, block.stats@.len() as int) {
        if let Ok((s2, code)) = m_block(s, block) {
            if let Some(exprs) = block.ret {
                lemma_return(s1, exprs@);
                labels_return(s1, exprs@);
                if let Ok((s2, c2)) = m_return(s1, exprs@) {
                    lemma_then(s, s1, s2, c1, c2);
                }
            }
            crate::compiler::soundness::lemma_block(s, block);
            crate::compiler::invariants::lemma_extends_refl(s2);
            lemma_then_plain(s, s2, s2, code, OpMode::iABx(OpName::RETURN, 0, 1));
            let stream = code.push(OpMode::iABx(OpName::RETURN, 0, 1));
            if stream.len() <= i32::MAX {
                lemma_closed_resolves(stream, stream.len() as int);
            }
        }
    }
}

} // verus!
