//! Values that the generator hands out: constants, prototypes, errors, and
//! the hints its visitors take.

use crate::compiler::opcodes::OpMode;
use vstd::prelude::*;

verus! {

/// The width of a register index, a constant index and the like.
pub type Usize = u32;

/// A constant of a function's pool. A real number is kept as the bit pattern
/// of its IEEE-754 double, so two reals are the same constant exactly when
/// their bits agree.
#[derive(Clone, Debug, PartialEq)]
pub enum ConstType {
    Nil,
    Boolean(bool),
    Real(u64),
    Str(String),
}

/// What a constant is, with a string taken by its characters.
pub ghost enum ConstView {
    Nil,
    Boolean(bool),
    Real(u64),
    Str(Seq<char>),
}

impl View for ConstType {
    type V = ConstView;

    open spec fn view(&self) -> ConstView {
        match self {
            ConstType::Nil => ConstView::Nil,
            ConstType::Boolean(b) => ConstView::Boolean(*b),
            ConstType::Real(bits) => ConstView::Real(*bits),
            ConstType::Str(s) => ConstView::Str(s@),
        }
    }
}

impl ConstType {
    /// Whether two constants have the same content.
    pub fn same(&self, other: &ConstType) -> (r: bool)
        ensures
            r == (self@ == other@),
    {
        match (self, other) {
            (ConstType::Nil, ConstType::Nil) => true,
            (ConstType::Boolean(a), ConstType::Boolean(b)) => *a == *b,
            (ConstType::Real(a), ConstType::Real(b)) => *a == *b,
            (ConstType::Str(a), ConstType::Str(b)) => a.eq(b),
            _ => false,
        }
    }
}

/// How a closure obtains one of its upvalues when it is created.
#[derive(Clone, Copy, Debug, PartialEq, Eq, Structural)]
pub struct UpvalueDescriptor {
    /// Captured from a register of the directly enclosing function; otherwise
    /// from that function's own upvalues.
    pub is_immediate: bool,
    /// The register, or the upvalue slot, of the enclosing function.
    pub slot_in_enclosing: Usize,
    /// The upvalue slot of the closure.
    pub slot_in_closure: Usize,
}

/// A compiled function.
#[derive(Debug, PartialEq)]
pub struct FunctionChunk {
    pub upvalue_num: Usize,
    pub para_num: Usize,
    pub is_vararg: bool,
    pub stack_size: Usize,
    pub instructions: Vec<OpMode>,
    pub constants: Vec<ConstType>,
    pub function_prototypes: Vec<FunctionChunk>,
}

/// What a compiled function is, nested functions included.
pub ghost struct ChunkView {
    pub upvalue_num: Usize,
    pub para_num: Usize,
    pub is_vararg: bool,
    pub stack_size: Usize,
    pub instructions: Seq<OpMode>,
    pub constants: Seq<ConstView>,
    pub function_prototypes: Seq<ChunkView>,
}

impl View for FunctionChunk {
    type V = ChunkView;

    open spec fn view(&self) -> ChunkView
        decreases self,
    {
        ChunkView {
            upvalue_num: self.upvalue_num,
            para_num: self.para_num,
            is_vararg: self.is_vararg,
            stack_size: self.stack_size,
            instructions: self.instructions@,
            constants: consts_view(self.constants@),
            function_prototypes: Seq::new(
                self.function_prototypes@.len(),
                |i: int|
                    if 0 <= i < self.function_prototypes@.len() {
                        self.function_prototypes@[i].view()
                    } else {
                        arbitrary()
                    },
            ),
        }
    }
}

/// The views of a run of constants.
pub open spec fn consts_view(pool: Seq<ConstType>) -> Seq<ConstView> {
    pool.map_values(|c: ConstType| c@)
}

/// The views of a run of compiled functions.
pub open spec fn chunks_view(chunks: Seq<FunctionChunk>) -> Seq<ChunkView> {
    chunks.map_values(|c: FunctionChunk| c@)
}

impl FunctionChunk {
    /// A function with no code.
    pub fn new() -> (c: FunctionChunk)
        ensures
            c@ == ChunkView::empty(),
    {
        let c = FunctionChunk {
            upvalue_num: 0,
            para_num: 0,
            is_vararg: false,
            stack_size: 0,
            instructions: Vec::new(),
            constants: Vec::new(),
            function_prototypes: Vec::new(),
        };
        assert(c@.constants =~= Seq::empty());
        assert(c@.function_prototypes =~= Seq::empty());
        c
    }
}

/// The nested functions of a chunk's view are the views of its nested
/// functions.
pub proof fn lemma_nested_views(chunk: FunctionChunk)
    ensures
        chunk@.function_prototypes == chunks_view(chunk.function_prototypes@),
{
    let nested = chunk.function_prototypes@;
    reveal_with_fuel(<FunctionChunk as View>::view, 2);
    assert(chunk@.instructions == chunk.instructions@);
    assert(chunk@.function_prototypes.len() == nested.len());
    assert forall|i: int| 0 <= i < nested.len() implies chunk@.function_prototypes[i]
        == chunks_view(nested)[i] by {}
    assert(chunk@.function_prototypes =~= chunks_view(nested));
}

impl ChunkView {
    /// The view of a function with no code.
    pub open spec fn empty() -> ChunkView {
        ChunkView {
            upvalue_num: 0,
            para_num: 0,
            is_vararg: false,
            stack_size: 0,
            instructions: Seq::empty(),
            constants: Seq::empty(),
            function_prototypes: Seq::empty(),
        }
    }
}

/// A compiled function together with the list that tells the enclosing
/// function how to bind its upvalues; entry `j` describes upvalue slot `j`.
#[derive(Debug, PartialEq)]
pub struct FunctionPrototype {
    pub prototype: FunctionChunk,
    pub upvalue_list: Vec<UpvalueDescriptor>,
}

/// What compiling a function gives: the function and its upvalue list.
pub ghost struct ProtoView {
    pub chunk: ChunkView,
    pub upvalue_list: Seq<UpvalueDescriptor>,
}

impl View for FunctionPrototype {
    type V = ProtoView;

    open spec fn view(&self) -> ProtoView {
        ProtoView { chunk: self.prototype@, upvalue_list: self.upvalue_list@ }
    }
}

impl FunctionPrototype {
    /// Pairs a compiled function with its upvalue list.
    pub fn new(prototype: FunctionChunk, upvalue_list: Vec<UpvalueDescriptor>) -> (p:
        FunctionPrototype)
        ensures
            p.prototype == prototype,
            p.upvalue_list == upvalue_list,
    {
        FunctionPrototype { prototype, upvalue_list }
    }
}

/// Why a program was not compiled.
#[derive(Clone, Copy, Debug, PartialEq, Eq, Structural)]
pub enum CompileError {
    /// The program cannot be lowered: a malformed unit, or one that needs
    /// more registers, constants, labels or nested functions than an index
    /// can number.
    SyntaxError,
    /// A name was looked up where no scope is open.
    UndefinedSymbol,
    /// The program uses a construct that the generator does not lower.
    Unimplemented,
}

/// Where the value of an expression is wanted.
#[derive(Clone, Copy, Debug, PartialEq, Eq, Structural)]
pub enum Expect {
    /// In this register, which the caller has allocated.
    Reg(Usize),
}

/// How many results of a call are wanted.
#[derive(Clone, Copy, Debug, PartialEq, Eq, Structural)]
pub enum RetExpect {
    Num(Usize),
    Indeterminate,
}

/// The register of a hint, if there is a hint.
pub open spec fn expect_reg(expect: Option<Expect>) -> Option<Usize> {
    match expect {
        Some(Expect::Reg(r)) => Some(r),
        None => None,
    }
}

/// Computes [`expect_reg`].
pub fn extract_expect_reg(expect: Option<Expect>) -> (r: Option<Usize>)
    ensures
        r == expect_reg(expect),
{
    match expect {
        Some(Expect::Reg(r)) => Some(r),
        None => None,
    }
}

} // verus!
