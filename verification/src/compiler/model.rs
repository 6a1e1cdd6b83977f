//! What the generator emits, written as functions of the syntax tree.
//!
//! Each function takes the state of the generator before a visit and gives
//! the state after it, the stream entries that the visit appends and what the
//! visit returns, or the error that ends the compilation. The generator in
//! [`crate::compiler`] is proved to compute exactly these functions.

use crate::compiler::labels::resolve;
use crate::compiler::opcodes::{arith_opcode, relational_opcode, Label, OpMode, OpName};
use crate::compiler::resource_allocator::{
    descriptors, label_next, const_push, propagate, proto_push, AllocView, RegView,
};
use crate::compiler::symbol_table::{SymbolScope, TableView};
use crate::compiler::types::{
    expect_reg, ChunkView, CompileError, ConstView, Expect, ProtoView, RetExpect,
    UpvalueDescriptor, Usize,
};
use crate::parser::types::{Block, Expr, Name, Node, Stat, Var};
use crate::tokens::FlagType;
use vstd::prelude::*;

verus! {

/// The state of a generator: the symbol table, and the pools of the functions
/// being compiled, the outermost first and the current one last.
pub ghost struct GenView {
    pub table: TableView,
    pub chain: Seq<AllocView>,
}

/// A run of stream entries.
pub type Code = Seq<OpMode>;

/// A register together with whether it is a temporary that the caller may
/// overwrite or rename.
pub type Operand = (bool, Usize);

impl GenView {
    /// A generator that has compiled nothing.
    pub open spec fn fresh() -> GenView {
        GenView { table: TableView::fresh(), chain: Seq::empty() }
    }

    /// The pools of the function being compiled.
    pub open spec fn current(self) -> AllocView {
        self.chain.last()
    }

    /// The state with other pools for the function being compiled.
    pub open spec fn with_current(self, pools: AllocView) -> GenView {
        GenView { chain: self.chain.update(self.chain.len() - 1, pools), ..self }
    }

    /// The state with another symbol table.
    pub open spec fn with_table(self, table: TableView) -> GenView {
        GenView { table, ..self }
    }

    /// The number of registers that the current function has in use.
    pub open spec fn stack_size(self) -> Usize {
        self.current().regs.size
    }

    /// Takes the next register of the current function.
    #[verifier::opaque]
    pub open spec fn fresh_reg(self, name: Option<Seq<char>>) -> Result<
        (GenView, Usize),
        CompileError,
    > {
        if self.chain.len() == 0 {
            Err(CompileError::SyntaxError)
        } else {
            match self.current().regs.push(name) {
                Some((regs, reg)) => Ok(
                    (self.with_current(AllocView { regs, ..self.current() }), reg),
                ),
                None => Err(CompileError::SyntaxError),
            }
        }
    }

    /// Takes the next `count` registers of the current function, unnamed, and
    /// gives the first of them.
    #[verifier::opaque]
    pub open spec fn fresh_regs(self, count: nat) -> Result<(GenView, Usize), CompileError> {
        if self.chain.len() == 0 || self.stack_size() + count > Usize::MAX {
            Err(CompileError::SyntaxError)
        } else {
            let regs = RegView { size: (self.stack_size() + count) as Usize, ..self.current().regs };
            Ok((self.with_current(AllocView { regs, ..self.current() }), self.stack_size()))
        }
    }

    /// Takes registers until `reg` is among those in use.
    #[verifier::opaque]
    pub open spec fn reserve(self, reg: Usize) -> Result<GenView, CompileError> {
        if self.chain.len() == 0 {
            Err(CompileError::SyntaxError)
        } else if reg < self.stack_size() {
            Ok(self)
        } else {
            match self.fresh_regs((reg + 1 - self.stack_size()) as nat) {
                Ok((after, _)) => Ok(after),
                Err(e) => Err(e),
            }
        }
    }

    /// The register that a value goes to: the one asked for, else the next
    /// free one.
    #[verifier::opaque]
    pub open spec fn dest_reg(self, want: Option<Usize>) -> Result<(GenView, Usize), CompileError> {
        match want {
            Some(reg) => Ok((self, reg)),
            None => self.fresh_reg(None),
        }
    }

    /// Names a register of the current function.
    #[verifier::opaque]
    pub open spec fn name_reg(self, name: Seq<char>, reg: Usize) -> GenView {
        if self.chain.len() == 0 {
            self
        } else {
            self.with_current(
                AllocView { regs: self.current().regs.push_set(name, reg), ..self.current() },
            )
        }
    }

    /// The index of a constant in the current function's pool.
    #[verifier::opaque]
    pub open spec fn add_const(self, value: ConstView) -> Result<(GenView, Usize), CompileError> {
        if self.chain.len() == 0 {
            Err(CompileError::SyntaxError)
        } else {
            match const_push(self.current().consts, value) {
                Some((consts, index)) => Ok(
                    (self.with_current(AllocView { consts, ..self.current() }), index),
                ),
                None => Err(CompileError::SyntaxError),
            }
        }
    }

    /// A label that the current function has not used.
    #[verifier::opaque]
    pub open spec fn new_label(self) -> Result<(GenView, Label), CompileError> {
        if self.chain.len() == 0 {
            Err(CompileError::SyntaxError)
        } else {
            match label_next(self.current().labels) {
                Some((labels, label)) => Ok(
                    (self.with_current(AllocView { labels, ..self.current() }), label),
                ),
                None => Err(CompileError::SyntaxError),
            }
        }
    }

    /// Adds a nested function to the current function.
    #[verifier::opaque]
    pub open spec fn add_proto(self, chunk: ChunkView) -> Result<(GenView, Usize), CompileError> {
        if self.chain.len() == 0 {
            Err(CompileError::SyntaxError)
        } else {
            match proto_push(self.current().protos, chunk) {
                Some((protos, index)) => Ok(
                    (self.with_current(AllocView { protos, ..self.current() }), index),
                ),
                None => Err(CompileError::SyntaxError),
            }
        }
    }

    /// Makes the current function capture a name bound `depth` functions out.
    #[verifier::opaque]
    pub open spec fn capture(self, name: Seq<char>, origin_reg: Usize, depth: nat) -> Result<
        (GenView, Usize),
        CompileError,
    > {
        match propagate(self.chain, self.chain.len() - 1, name, origin_reg, depth) {
            Ok((chain, slot)) => Ok((GenView { chain, ..self }, slot)),
            Err(e) => Err(e),
        }
    }
}

/// The instructions behind a `CLOSURE` that bind the upvalues of the new
/// closure, one for each descriptor: a `MOVE` from a register of the function
/// that creates the closure, or a `GETUPVAL` from one of its upvalues.
pub open spec fn bindings(list: Seq<UpvalueDescriptor>) -> Code {
    list.map_values(
        |d: UpvalueDescriptor|
            if d.is_immediate {
                OpMode::iABx(OpName::MOVE, d.slot_in_closure, d.slot_in_enclosing)
            } else {
                OpMode::iABx(OpName::GETUPVAL, d.slot_in_closure, d.slot_in_enclosing)
            },
    )
}

/// The registers `first`, `first + 1`, ... as temporaries.
pub open spec fn temporaries(first: Usize, count: nat) -> Seq<Operand> {
    Seq::new(count, |i: int| (true, (first + i) as Usize))
}

/// Reading a variable.
///
/// A global is fetched by its name from the constant pool, an upvalue through
/// the slot that capturing gives; both go to the register asked for, else to
/// a new one. A local is copied only if a register other than its own is
/// asked for. A register stands for itself.
#[verifier::opaque]
pub open spec fn m_var(s: GenView, var: Var, want: Option<Usize>) -> Result<
    (GenView, Code, Operand),
    CompileError,
> {
    match var {
        Var::Name(name) => match s.table.lookup(name@) {
            None => Err(CompileError::UndefinedSymbol),
            Some((SymbolScope::Global, _)) => match s.add_const(ConstView::Str(name@)) {
                Err(e) => Err(e),
                Ok((s1, k)) => match s1.dest_reg(want) {
                    Err(e) => Err(e),
                    Ok((s2, reg)) => Ok(
                        (s2, seq![OpMode::iABx(OpName::GETGLOBAL, reg, k)], (true, reg)),
                    ),
                },
            },
            Some((SymbolScope::UpValue(depth), pos)) => match s.capture(name@, pos, depth as nat) {
                Err(e) => Err(e),
                Ok((s1, slot)) => match s1.dest_reg(want) {
                    Err(e) => Err(e),
                    Ok((s2, reg)) => Ok(
                        (s2, seq![OpMode::iABx(OpName::GETUPVAL, reg, slot)], (true, reg)),
                    ),
                },
            },
            Some((SymbolScope::Local, pos)) => match want {
                Some(reg) => if reg != pos {
                    Ok((s, seq![OpMode::iABx(OpName::MOVE, reg, pos)], (false, reg)))
                } else {
                    Ok((s, Seq::empty(), (false, reg)))
                },
                None => Ok((s, Seq::empty(), (false, pos))),
            },
        },
        Var::Reg(reg) => Ok((s, Seq::empty(), (true, reg))),
        Var::PrefixExp(_) => Err(CompileError::Unimplemented),
    }
}

/// Evaluating an expression into a register.
#[verifier::opaque]
pub open spec fn m_expr(s: GenView, expr: Expr, expect: Option<Expect>) -> Result<
    (GenView, Code, Operand),
    CompileError,
>
    decreases expr, 2int,
{
    let want = expect_reg(expect);
    match expr {
        Expr::Num(bits) => match s.add_const(ConstView::Real(bits)) {
            Err(e) => Err(e),
            Ok((s1, k)) => match s1.dest_reg(want) {
                Err(e) => Err(e),
                Ok((s2, reg)) => Ok((s2, seq![OpMode::iABx(OpName::LOADK, reg, k)], (true, reg))),
            },
        },
        Expr::Boole(value) => match s.dest_reg(want) {
            Err(e) => Err(e),
            Ok((s1, reg)) => Ok(
                (
                    s1,
                    seq![OpMode::iABC(OpName::LOADBOOL, reg, if value { 1 } else { 0 }, 0)],
                    (true, reg),
                ),
            ),
        },
        Expr::BinOp(flag, left, right) => match arith_opcode(flag) {
            Some(op) => match m_expr(s, *left, None) {
                Err(e) => Err(e),
                Ok((s1, c1, (left_temp, left_reg))) => match m_expr(s1, *right, None) {
                    Err(e) => Err(e),
                    Ok((s2, c2, (_, right_reg))) => {
                        // the left operand's register is reused when nobody else owns it
                        let dest = match want {
                            Some(reg) => Ok((s2, (false, reg))),
                            None => if left_temp {
                                Ok((s2, (true, left_reg)))
                            } else {
                                match s2.fresh_reg(None) {
                                    Ok((s3, reg)) => Ok((s3, (true, reg))),
                                    Err(e) => Err(e),
                                }
                            },
                        };
                        match dest {
                            Err(e) => Err(e),
                            Ok((s3, (temp, reg))) => Ok(
                                (
                                    s3,
                                    (c1 + c2).push(OpMode::iABC(op, reg, left_reg, right_reg)),
                                    (temp, reg),
                                ),
                            ),
                        }
                    },
                },
            },
            None => m_logic(s, expr, expect),
        },
        Expr::Var(var) => m_var(s, var, want),
        Expr::FunctionDef((params, is_vararg), body) => match m_function(
            s.with_table(s.table.initialize_scope()),
            *body,
            params@,
            is_vararg,
        ) {
            Err(e) => Err(e),
            Ok((s1, proto)) => match s1.with_table(s1.table.finalize_scope()).add_proto(
                proto.chunk,
            ) {
                Err(e) => Err(e),
                Ok((s2, index)) => match s2.dest_reg(want) {
                    Err(e) => Err(e),
                    Ok((s3, reg)) => Ok(
                        (
                            s3,
                            seq![OpMode::iABx(OpName::CLOSURE, reg, index)] + bindings(
                                proto.upvalue_list,
                            ),
                            (true, reg),
                        ),
                    ),
                },
            },
        },
        Expr::FunctionCall(_, _, _) => match m_call(s, expr, RetExpect::Num(1)) {
            Err(e) => Err(e),
            // the first result arrives in the callee's register
            Ok((s1, code, func_pos)) => match want {
                Some(reg) => if reg != func_pos {
                    Ok((s1, code.push(OpMode::iABx(OpName::MOVE, reg, func_pos)), (true, reg)))
                } else {
                    Ok((s1, code, (true, reg)))
                },
                None => Ok((s1, code, (true, func_pos))),
            },
        },
        Expr::UnaryOp(op, operand) => match op {
            FlagType::Minus => Err(CompileError::Unimplemented),
            FlagType::Plus => m_expr(s, *operand, expect),
            _ => m_logic(s, expr, expect),
        },
        Expr::Str(_) => Err(CompileError::Unimplemented),
    }
}

/// Evaluating a predicate into a register: the branches of the predicate,
/// then the two loads that they end in. The load of `false` skips the load
/// of `true`.
#[verifier::opaque]
pub open spec fn m_logic(s: GenView, expr: Expr, expect: Option<Expect>) -> Result<
    (GenView, Code, Operand),
    CompileError,
>
    decreases expr, 1int,
{
    match s.dest_reg(expect_reg(expect)) {
        Err(e) => Err(e),
        Ok((s1, reg)) => match s1.new_label() {
            Err(e) => Err(e),
            Ok((s2, true_label)) => match s2.new_label() {
                Err(e) => Err(e),
                Ok((s3, false_label)) => match m_bool(s3, expr, true_label, false_label, true) {
                    Err(e) => Err(e),
                    Ok((s4, code)) => Ok(
                        (
                            s4,
                            code + seq![
                                OpMode::Label(false_label),
                                OpMode::iABC(OpName::LOADBOOL, reg, 0, 1),
                                OpMode::Label(true_label),
                                OpMode::iABC(OpName::LOADBOOL, reg, 1, 0),
                            ],
                            (true, reg),
                        ),
                    ),
                },
            },
        },
    }
}

/// The test that a predicate ends in, and the jump behind it. With
/// `jump_if_true` the jump goes to the true label and the false path is the
/// one that runs on; without it the other way round.
pub open spec fn branch_on(
    test: OpMode,
    negated: OpMode,
    true_br: Label,
    false_br: Label,
    jump_if_true: bool,
) -> Code {
    if jump_if_true {
        seq![test, OpMode::iAsBx(OpName::JMP, 0, true_br)]
    } else {
        seq![negated, OpMode::iAsBx(OpName::JMP, 0, false_br)]
    }
}

/// Lowering a predicate to branches on two labels.
#[verifier::opaque]
pub open spec fn m_bool(
    s: GenView,
    expr: Expr,
    true_br: Label,
    false_br: Label,
    jump_if_true: bool,
) -> Result<(GenView, Code), CompileError>
    decreases expr, 0int,
{
    match expr {
        Expr::BinOp(FlagType::OR, left, right) => match s.new_label() {
            Err(e) => Err(e),
            Ok((s1, right_label)) => match m_bool(s1, *left, true_br, right_label, true) {
                Err(e) => Err(e),
                Ok((s2, c1)) => match m_bool(s2, *right, true_br, false_br, jump_if_true) {
                    Err(e) => Err(e),
                    Ok((s3, c2)) => Ok((s3, c1.push(OpMode::Label(right_label)) + c2)),
                },
            },
        },
        Expr::BinOp(FlagType::AND, left, right) => match s.new_label() {
            Err(e) => Err(e),
            Ok((s1, right_label)) => match m_bool(s1, *left, right_label, false_br, false) {
                Err(e) => Err(e),
                Ok((s2, c1)) => match m_bool(s2, *right, true_br, false_br, jump_if_true) {
                    Err(e) => Err(e),
                    Ok((s3, c2)) => Ok((s3, c1.push(OpMode::Label(right_label)) + c2)),
                },
            },
        },
        Expr::BinOp(flag, left, right) => match relational_opcode(flag) {
            None => Err(CompileError::Unimplemented),
            Some((op, holds)) => match m_expr(s, *left, None) {
                Err(e) => Err(e),
                Ok((s1, c1, (_, left_reg))) => match m_expr(s1, *right, None) {
                    Err(e) => Err(e),
                    Ok((s2, c2, (_, right_reg))) => Ok(
                        (
                            s2,
                            c1 + c2 + branch_on(
                                OpMode::iABC(op, if holds { 1 } else { 0 }, left_reg, right_reg),
                                OpMode::iABC(op, if holds { 0 } else { 1 }, left_reg, right_reg),
                                true_br,
                                false_br,
                                jump_if_true,
                            ),
                        ),
                    ),
                },
            },
        },
        Expr::UnaryOp(FlagType::Not, operand) => m_bool(
            s,
            *operand,
            false_br,
            true_br,
            !jump_if_true,
        ),
        Expr::Var(var) => match m_var(s, var, None) {
            Err(e) => Err(e),
            Ok((s1, c1, (_, reg))) => Ok(
                (
                    s1,
                    c1 + branch_on(
                        OpMode::iABx(OpName::TEST, reg, 1),
                        OpMode::iABx(OpName::TEST, reg, 0),
                        true_br,
                        false_br,
                        jump_if_true,
                    ),
                ),
            ),
        },
        Expr::Boole(value) => Ok(
            (s, seq![OpMode::iAsBx(OpName::JMP, 0, if value { true_br } else { false_br })]),
        ),
        _ => Err(CompileError::Unimplemented),
    }
}

/// The registers for the results of a call and the result field of its
/// `CALL`: one more than the number of results wanted, 0 for all of them.
/// The results arrive in the callee's register and those behind it, which
/// are taken as far as they are not in use.
#[verifier::opaque]
pub open spec fn m_results(s: GenView, func_pos: Usize, expect_ret: RetExpect) -> Result<
    (GenView, Usize),
    CompileError,
> {
    match expect_ret {
        RetExpect::Num(count) => if count == 0 {
            Ok((s, 1))
        } else if func_pos + count - 1 > Usize::MAX || count == Usize::MAX {
            Err(CompileError::SyntaxError)
        } else {
            match s.reserve((func_pos + count - 1) as Usize) {
                Err(e) => Err(e),
                Ok(s1) => Ok((s1, (count + 1) as Usize)),
            }
        },
        RetExpect::Indeterminate => Ok((s, 0)),
    }
}

/// Calling a function: the callee goes to a new register, the arguments to
/// the registers behind it, and the results arrive from the callee's
/// register on. Gives the callee's register.
#[verifier::opaque]
pub open spec fn m_call(s: GenView, call: Expr, expect_ret: RetExpect) -> Result<
    (GenView, Code, Usize),
    CompileError,
>
    decreases call, 1int,
{
    match s.fresh_reg(None) {
        Err(e) => Err(e),
        Ok((s1, func_pos)) => match m_call_at(s1, call, func_pos, expect_ret) {
            Err(e) => Err(e),
            Ok((s2, code)) => Ok((s2, code, func_pos)),
        },
    }
}

/// Calling a function whose callee goes to register `func_pos`: argument `i`
/// (from 1) goes to register `func_pos + i`. When the last argument is a call
/// itself, its callee goes where that argument would go, all of its results
/// are passed on from there, and the argument field is 0.
#[verifier::opaque]
pub open spec fn m_call_at(s: GenView, call: Expr, func_pos: Usize, expect_ret: RetExpect) -> Result<
    (GenView, Code),
    CompileError,
>
    decreases call, 0int,
{
    match call {
        Expr::FunctionCall(callee, args, _) => match m_expr(
            s,
            *callee,
            Some(Expect::Reg(func_pos)),
        ) {
            Err(e) => Err(e),
            Ok((s2, c0, _)) => match m_results(s2, func_pos, expect_ret) {
                Err(e) => Err(e),
                Ok((s3, ret_field)) => {
                    let n = args@.len() as int;
                    if n == 0 {
                        Ok((s3, c0.push(OpMode::iABC(OpName::CALL, func_pos, 1, ret_field))))
                    } else if *args@[n - 1] is FunctionCall {
                        match m_args(s3, args@, n - 1, func_pos) {
                            Err(e) => Err(e),
                            Ok((s4, c1)) => if func_pos + n > Usize::MAX {
                                Err(CompileError::SyntaxError)
                            } else {
                                let inner = (func_pos + n) as Usize;
                                match s4.reserve(inner) {
                                    Err(e) => Err(e),
                                    Ok(s5) => match m_call_at(
                                        s5,
                                        *args@[n - 1],
                                        inner,
                                        RetExpect::Indeterminate,
                                    ) {
                                        Err(e) => Err(e),
                                        Ok((s6, c2)) => Ok(
                                            (
                                                s6,
                                                (c0 + c1 + c2).push(
                                                    OpMode::iABC(
                                                        OpName::CALL,
                                                        func_pos,
                                                        0,
                                                        ret_field,
                                                    ),
                                                ),
                                            ),
                                        ),
                                    },
                                }
                            },
                        }
                    } else {
                        match m_args(s3, args@, n, func_pos) {
                            Err(e) => Err(e),
                            Ok((s4, c1)) => if n < Usize::MAX {
                                Ok(
                                    (
                                        s4,
                                        (c0 + c1).push(
                                            OpMode::iABC(
                                                OpName::CALL,
                                                func_pos,
                                                (n + 1) as Usize,
                                                ret_field,
                                            ),
                                        ),
                                    ),
                                )
                            } else {
                                Err(CompileError::SyntaxError)
                            },
                        }
                    }
                },
            },
        },
        _ => Err(CompileError::SyntaxError),
    }
}

/// The first `count` arguments of a call, argument `i` (from 1) going to
/// register `func_pos + i`, which is taken first if it is not in use.
#[verifier::opaque]
pub open spec fn m_args(s: GenView, args: Seq<Box<Expr>>, count: int, func_pos: Usize) -> Result<
    (GenView, Code),
    CompileError,
>
    decreases args, count,
{
    if count <= 0 {
        Ok((s, Seq::empty()))
    } else if count > args.len() {
        Err(CompileError::SyntaxError)
    } else {
        match m_args(s, args, count - 1, func_pos) {
            Err(e) => Err(e),
            Ok((s1, c1)) => if func_pos + count > Usize::MAX {
                Err(CompileError::SyntaxError)
            } else {
                let target = (func_pos + count) as Usize;
                match s1.reserve(target) {
                    Err(e) => Err(e),
                    Ok(s2) => match m_expr(s2, *args[count - 1], Some(Expect::Reg(target))) {
                        Err(e) => Err(e),
                        Ok((s3, c2, _)) => Ok((s3, c1 + c2)),
                    },
                }
            },
        }
    }
}

/// The first `count` expressions of a list, each into a register of its own
/// choosing.
#[verifier::opaque]
pub open spec fn m_exprs(s: GenView, exprs: Seq<Box<Expr>>, count: int) -> Result<
    (GenView, Code, Seq<Operand>),
    CompileError,
>
    decreases exprs, count,
{
    if count <= 0 {
        Ok((s, Seq::empty(), Seq::empty()))
    } else if count > exprs.len() {
        Err(CompileError::SyntaxError)
    } else {
        match m_exprs(s, exprs, count - 1) {
            Err(e) => Err(e),
            Ok((s1, c1, operands)) => match m_expr(s1, *exprs[count - 1], None) {
                Err(e) => Err(e),
                Ok((s2, c2, operand)) => Ok((s2, c1 + c2, operands.push(operand))),
            },
        }
    }
}

/// The values for `wanted` variables out of a list of expressions.
///
/// With enough expressions, the first `wanted` are evaluated and the others
/// are left out. A single call that stands for several variables is made to
/// give that many results. Otherwise all expressions are evaluated and the
/// variables that are left get `nil` from one `LOADNIL` over new registers.
#[verifier::opaque]
pub open spec fn m_adjust(s: GenView, wanted: nat, exprs: Seq<Box<Expr>>) -> Result<
    (GenView, Code, Seq<Operand>),
    CompileError,
>
    decreases exprs, exprs.len() + 1,
{
    if wanted <= exprs.len() {
        m_exprs(s, exprs, wanted as int)
    } else if exprs.len() == 1 && *exprs[0] is FunctionCall {
        if wanted > Usize::MAX {
            Err(CompileError::SyntaxError)
        } else {
            match m_call(s, *exprs[0], RetExpect::Num(wanted as Usize)) {
                Err(e) => Err(e),
                Ok((s1, code, func_pos)) => if func_pos + wanted - 1 > Usize::MAX {
                    Err(CompileError::SyntaxError)
                } else {
                    Ok((s1, code, temporaries(func_pos, wanted)))
                },
            }
        }
    } else {
        match m_exprs(s, exprs, exprs.len() as int) {
            Err(e) => Err(e),
            Ok((s1, code, operands)) => {
                let missing = (wanted - exprs.len()) as nat;
                match s1.fresh_regs(missing) {
                    Err(e) => Err(e),
                    Ok((s2, first)) => Ok(
                        (
                            s2,
                            code.push(OpMode::iABx(OpName::LOADNIL, first, (missing - 1) as Usize)),
                            operands + temporaries(first, missing),
                        ),
                    ),
                }
            },
        }
    }
}

/// Storing a value in a variable: a global by its name, a local by a copy.
#[verifier::opaque]
pub open spec fn m_store(s: GenView, var: Var, value: Usize) -> Result<(GenView, Code), CompileError> {
    match var {
        Var::Name(name) => match s.table.lookup(name@) {
            Some((SymbolScope::Local, pos)) => Ok(
                (s, seq![OpMode::iABx(OpName::MOVE, pos, value)]),
            ),
            Some((SymbolScope::UpValue(_), _)) => Err(CompileError::Unimplemented),
            _ => match s.add_const(ConstView::Str(name@)) {
                Err(e) => Err(e),
                Ok((s1, k)) => Ok(
                    (
                        s1.with_table(s1.table.define_global(name@)),
                        seq![OpMode::iABx(OpName::SETGLOBAL, value, k)],
                    ),
                ),
            },
        },
        _ => Err(CompileError::Unimplemented),
    }
}

/// Storing the first `count` values in the first `count` variables.
#[verifier::opaque]
pub open spec fn m_stores(s: GenView, vars: Seq<Var>, values: Seq<Operand>, count: int) -> Result<
    (GenView, Code),
    CompileError,
>
    decreases count,
{
    if count <= 0 || count > vars.len() || count > values.len() {
        Ok((s, Seq::empty()))
    } else {
        match m_stores(s, vars, values, count - 1) {
            Err(e) => Err(e),
            Ok((s1, c1)) => match m_store(s1, vars[count - 1], values[count - 1].1) {
                Err(e) => Err(e),
                Ok((s2, c2)) => Ok((s2, c1 + c2)),
            },
        }
    }
}

/// Declaring a local: a temporary is renamed, any other value is copied
/// into a new register.
#[verifier::opaque]
pub open spec fn m_declare(s: GenView, name: Seq<char>, value: Operand) -> Result<
    (GenView, Code),
    CompileError,
> {
    if value.0 {
        let s1 = s.name_reg(name, value.1);
        Ok((s1.with_table(s1.table.define_local(name, value.1)), Seq::empty()))
    } else {
        match s.fresh_reg(Some(name)) {
            Err(e) => Err(e),
            Ok((s1, pos)) => Ok(
                (
                    s1.with_table(s1.table.define_local(name, pos)),
                    seq![OpMode::iABx(OpName::MOVE, pos, value.1)],
                ),
            ),
        }
    }
}

/// Declaring the first `count` names with the first `count` values.
#[verifier::opaque]
pub open spec fn m_declares(s: GenView, names: Seq<Name>, values: Seq<Operand>, count: int)
    -> Result<(GenView, Code), CompileError>
    decreases count,
{
    if count <= 0 || count > names.len() || count > values.len() {
        Ok((s, Seq::empty()))
    } else {
        match m_declares(s, names, values, count - 1) {
            Err(e) => Err(e),
            Ok((s1, c1)) => match m_declare(s1, names[count - 1]@, values[count - 1]) {
                Err(e) => Err(e),
                Ok((s2, c2)) => Ok((s2, c1 + c2)),
            },
        }
    }
}

/// The smaller of two lengths.
pub open spec fn shorter(a: nat, b: nat) -> int {
    if a <= b {
        a as int
    } else {
        b as int
    }
}

/// A statement.
#[verifier::opaque]
pub open spec fn m_stat(s: GenView, stat: Stat) -> Result<(GenView, Code), CompileError>
    decreases stat,
{
    match stat {
        Stat::Assign(vars, exprs) => match m_adjust(s, vars@.len(), exprs@) {
            Err(e) => Err(e),
            Ok((s1, c1, values)) => match m_stores(
                s1,
                vars@,
                values,
                shorter(vars@.len(), values.len()),
            ) {
                Err(e) => Err(e),
                Ok((s2, c2)) => Ok((s2, c1 + c2)),
            },
        },
        Stat::AssignLocal(names, exprs) => match m_adjust(s, names@.len(), exprs@) {
            Err(e) => Err(e),
            Ok((s1, c1, values)) => match m_declares(
                s1,
                names@,
                values,
                shorter(names@.len(), values.len()),
            ) {
                Err(e) => Err(e),
                Ok((s2, c2)) => Ok((s2, c1 + c2)),
            },
        },
        Stat::Ret(exprs) => m_return(s, exprs@),
        _ => Err(CompileError::Unimplemented),
    }
}

/// Returning the values of a list: each goes to one of as many new registers
/// in a row, and `RETURN` names the first of them and one more than their
/// number. With no value `RETURN` names register 0.
#[verifier::opaque]
pub open spec fn m_return(s: GenView, exprs: Seq<Box<Expr>>) -> Result<(GenView, Code), CompileError>
    decreases exprs, exprs.len() + 1,
{
    match s.fresh_regs(exprs.len()) {
        Err(e) => Err(e),
        Ok((s1, first)) => {
            let start = if exprs.len() > 0 {
                first
            } else {
                0
            };
            match m_returned(s1, exprs, exprs.len() as int, start) {
                Err(e) => Err(e),
                Ok((s2, code)) => if exprs.len() < Usize::MAX {
                    Ok(
                        (
                            s2,
                            code.push(
                                OpMode::iABx(OpName::RETURN, start, (exprs.len() + 1) as Usize),
                            ),
                        ),
                    )
                } else {
                    Err(CompileError::SyntaxError)
                },
            }
        },
    }
}

/// The first `count` values of a return, value `i` (from 0) going to register
/// `start + i`.
#[verifier::opaque]
pub open spec fn m_returned(s: GenView, exprs: Seq<Box<Expr>>, count: int, start: Usize) -> Result<
    (GenView, Code),
    CompileError,
>
    decreases exprs, count,
{
    if count <= 0 {
        Ok((s, Seq::empty()))
    } else if count > exprs.len() {
        Err(CompileError::SyntaxError)
    } else {
        match m_returned(s, exprs, count - 1, start) {
            Err(e) => Err(e),
            Ok((s1, c1)) => if start + count - 1 > Usize::MAX {
                Err(CompileError::SyntaxError)
            } else {
                match m_expr(
                    s1,
                    *exprs[count - 1],
                    Some(Expect::Reg((start + count - 1) as Usize)),
                ) {
                    Err(e) => Err(e),
                    Ok((s2, c2, _)) => Ok((s2, c1 + c2)),
                }
            },
        }
    }
}

/// The first `count` statements of a block.
#[verifier::opaque]
pub open spec fn m_stats(s: GenView, stats: Seq<Box<Stat>>, count: int) -> Result<
    (GenView, Code),
    CompileError,
>
    decreases stats, count,
{
    if count <= 0 {
        Ok((s, Seq::empty()))
    } else if count > stats.len() {
        Err(CompileError::SyntaxError)
    } else {
        match m_stats(s, stats, count - 1) {
            Err(e) => Err(e),
            Ok((s1, c1)) => match m_stat(s1, *stats[count - 1]) {
                Err(e) => Err(e),
                Ok((s2, c2)) => Ok((s2, c1 + c2)),
            },
        }
    }
}

/// A block: its statements, then its return if it has one.
#[verifier::opaque]
pub open spec fn m_block(s: GenView, block: Block) -> Result<(GenView, Code), CompileError>
    decreases block, 1int,
{
    match m_stats(s, block.stats@, block.stats@.len() as int) {
        Err(e) => Err(e),
        Ok((s1, c1)) => match block.ret {
            None => Ok((s1, c1)),
            Some(exprs) => match m_return(s1, exprs@) {
                Err(e) => Err(e),
                Ok((s2, c2)) => Ok((s2, c1 + c2)),
            },
        },
    }
}

/// Binding the first `count` parameters to the first registers.
#[verifier::opaque]
pub open spec fn m_params(s: GenView, params: Seq<Name>, count: int) -> Result<GenView, CompileError>
    decreases count,
{
    if count <= 0 || count > params.len() {
        Ok(s)
    } else {
        match m_params(s, params, count - 1) {
            Err(e) => Err(e),
            Ok(s1) => match s1.fresh_reg(Some(params[count - 1]@)) {
                Err(e) => Err(e),
                Ok((s2, reg)) => Ok(s2.with_table(s2.table.define_local(params[count - 1]@, reg))),
            },
        }
    }
}

/// The function that the pools of a finished function and its resolved code
/// make up.
pub open spec fn assemble(pools: AllocView, params: nat, is_vararg: bool, code: Code) -> ProtoView {
    ProtoView {
        chunk: ChunkView {
            upvalue_num: pools.upvalues.len() as Usize,
            para_num: params as Usize,
            is_vararg,
            stack_size: pools.regs.size,
            instructions: code,
            constants: pools.consts,
            function_prototypes: pools.protos,
        },
        upvalue_list: descriptors(pools.upvalues),
    }
}

/// Compiling a function in pools of its own: the parameters take the first
/// registers, the body follows, a `RETURN 0 1` closes the stream, and the
/// labels are resolved. The symbol table must have the function's first block
/// open already. A function nested deeper than can be counted cannot be
/// lowered.
#[verifier::opaque]
pub open spec fn m_function(s: GenView, body: Block, params: Seq<Name>, is_vararg: bool) -> Result<
    (GenView, ProtoView),
    CompileError,
>
    decreases body, 2int,
{
    if s.chain.len() >= usize::MAX {
        Err(CompileError::SyntaxError)
    } else {
        match m_params(
            GenView { chain: s.chain.push(AllocView::empty()), ..s },
            params,
            params.len() as int,
        ) {
            Err(e) => Err(e),
            Ok(s1) => match m_block(s1, body) {
                Err(e) => Err(e),
                Ok((s2, code)) => match resolve(code.push(OpMode::iABx(OpName::RETURN, 0, 1))) {
                    None => Err(CompileError::SyntaxError),
                    Some(flat) => if s2.chain.len() == 0 || s2.current().upvalues.len()
                        > Usize::MAX || params.len() > Usize::MAX {
                        Err(CompileError::SyntaxError)
                    } else {
                        Ok(
                            (
                                GenView { chain: s2.chain.drop_last(), ..s2 },
                                assemble(s2.current(), params.len(), is_vararg, flat),
                            ),
                        )
                    },
                },
            },
        }
    }
}

/// Compiling a unit: a block is the body of the root function, which takes
/// no parameters and is vararg; anything else cannot be lowered.
#[verifier::opaque]
pub open spec fn m_compile(ast: Node) -> Result<ChunkView, CompileError> {
    match ast {
        Node::Block(block) => match m_function(GenView::fresh(), block, Seq::empty(), true) {
            Err(e) => Err(e),
            Ok((_, proto)) => Ok(proto.chunk),
        },
        Node::Expr(_) => Err(CompileError::SyntaxError),
    }
}

/// Once an argument cannot be lowered, no longer run of arguments can.
pub proof fn lemma_args_failed(
    s: GenView,
    args: Seq<Box<Expr>>,
    count: int,
    later: int,
    func_pos: Usize,
)
    requires
        0 <= count <= later <= args.len(),
        m_args(s, args, count, func_pos) is Err,
    ensures
        m_args(s, args, later, func_pos) == m_args(s, args, count, func_pos),
    decreases later,
{
    reveal(m_args);
    if count < later {
        lemma_args_failed(s, args, count, later - 1, func_pos);
    }
}

/// Once an expression cannot be lowered, no longer run of expressions can.
pub proof fn lemma_exprs_failed(s: GenView, exprs: Seq<Box<Expr>>, count: int, later: int)
    requires
        0 <= count <= later <= exprs.len(),
        m_exprs(s, exprs, count) is Err,
    ensures
        m_exprs(s, exprs, later) == m_exprs(s, exprs, count),
    decreases later,
{
    reveal(m_exprs);
    if count < later {
        lemma_exprs_failed(s, exprs, count, later - 1);
    }
}

/// Once a store cannot be lowered, no longer run of stores can.
pub proof fn lemma_stores_failed(
    s: GenView,
    vars: Seq<Var>,
    values: Seq<Operand>,
    count: int,
    later: int,
)
    requires
        0 <= count <= later <= vars.len(),
        later <= values.len(),
        m_stores(s, vars, values, count) is Err,
    ensures
        m_stores(s, vars, values, later) == m_stores(s, vars, values, count),
    decreases later,
{
    reveal(m_stores);
    if count < later {
        lemma_stores_failed(s, vars, values, count, later - 1);
    }
}

/// Once a declaration cannot be lowered, no longer run of declarations can.
pub proof fn lemma_declares_failed(
    s: GenView,
    names: Seq<Name>,
    values: Seq<Operand>,
    count: int,
    later: int,
)
    requires
        0 <= count <= later <= names.len(),
        later <= values.len(),
        m_declares(s, names, values, count) is Err,
    ensures
        m_declares(s, names, values, later) == m_declares(s, names, values, count),
    decreases later,
{
    reveal(m_declares);
    if count < later {
        lemma_declares_failed(s, names, values, count, later - 1);
    }
}

/// Once a returned value cannot be lowered, no longer run of them can.
pub proof fn lemma_returned_failed(
    s: GenView,
    exprs: Seq<Box<Expr>>,
    count: int,
    later: int,
    start: Usize,
)
    requires
        0 <= count <= later <= exprs.len(),
        m_returned(s, exprs, count, start) is Err,
    ensures
        m_returned(s, exprs, later, start) == m_returned(s, exprs, count, start),
    decreases later,
{
    reveal(m_returned);
    if count < later {
        lemma_returned_failed(s, exprs, count, later - 1, start);
    }
}

/// Once a statement cannot be lowered, no longer run of statements can.
pub proof fn lemma_stats_failed(s: GenView, stats: Seq<Box<Stat>>, count: int, later: int)
    requires
        0 <= count <= later <= stats.len(),
        m_stats(s, stats, count) is Err,
    ensures
        m_stats(s, stats, later) == m_stats(s, stats, count),
    decreases later,
{
    reveal(m_stats);
    if count < later {
        lemma_stats_failed(s, stats, count, later - 1);
    }
}

/// Once a parameter cannot be bound, no longer run of parameters can.
pub proof fn lemma_params_failed(s: GenView, params: Seq<Name>, count: int, later: int)
    requires
        0 <= count <= later <= params.len(),
        m_params(s, params, count) is Err,
    ensures
        m_params(s, params, later) == m_params(s, params, count),
    decreases later,
{
    reveal(m_params);
    if count < later {
        lemma_params_failed(s, params, count, later - 1);
    }
}

} // verus!
