//! The code generator and the parts it is built from.
//!
//! [`CodeGen::compile`] walks a syntax tree once and gives a tree of
//! function prototypes. What it gives is written down in [`model`] as
//! functions of the syntax tree, and the generator is proved to compute those
//! functions. On top of that stand the proofs of what holds of every function
//! that is compiled: [`tidiness`] for any unit, [`soundness`] and
//! [`labelling`] for units that name no register by its number, and the laws
//! in [`laws`] that relate one visit to another.

pub mod opcodes;
pub mod types;
pub mod symbol_table;
pub mod resource_allocator;
pub mod labels;
pub mod model;
pub mod wellformed;
pub mod invariants;
pub mod soundness;
pub mod soundness_stat;
pub mod laws;
pub mod laws_stat;
pub mod labelling;
pub mod labelling_stat;
pub mod tidiness;
pub mod tidiness_stat;
pub mod framing;
pub mod framing_stat;
mod emit;
mod expressions;
mod calls;
mod statements;
mod functions;

use self::model::{m_compile, Code, GenView};
use self::soundness::lemma_compile;
use self::tidiness::tidy_compile;
use self::wellformed::{tidy, well_formed};
use self::opcodes::{Label, OpMode};
use self::resource_allocator::{chain_view, propagate_upvalue, AllocView, ResourceAlloc};
use self::symbol_table::{ScopedSymbolTableBuilder, SymbolScope};
use self::types::{ChunkView, CompileError, ConstType, ConstView, FunctionChunk, Usize};
use crate::parser::types::{plain_node, Name, Node};
use vstd::prelude::*;

verus! {

/// The code generator: a symbol table, the pools of the functions that are
/// being compiled, and the root function of the last unit compiled.
pub struct CodeGen {
    symbol_table: ScopedSymbolTableBuilder,
    allocs: Vec<ResourceAlloc>,
    root_function: FunctionChunk,
}

impl View for CodeGen {
    type V = GenView;

    closed spec fn view(&self) -> GenView {
        GenView { table: self.symbol_table@, chain: chain_view(self.allocs@) }
    }
}

/// A step that changes the generator and gives a value does what its model
/// says, and leaves the root function alone.
pub open spec fn steps<T>(
    model: Result<(GenView, T), CompileError>,
    before: CodeGen,
    after: CodeGen,
    result: Result<T, CompileError>,
) -> bool {
    &&& after.root() == before.root()
    &&& match model {
        Ok((s, value)) => result == Ok::<T, CompileError>(value) && after@ == s,
        Err(e) => result == Err::<T, CompileError>(e),
    }
}

/// A visit that appends to a stream and gives a value does what its model
/// says, and leaves the root function alone.
pub open spec fn emits<T>(
    model: Result<(GenView, Code, T), CompileError>,
    before: CodeGen,
    after: CodeGen,
    stream_before: Seq<OpMode>,
    stream_after: Seq<OpMode>,
    result: Result<T, CompileError>,
) -> bool {
    &&& after.root() == before.root()
    &&& match model {
        Ok((s, code, value)) => result == Ok::<T, CompileError>(value) && after@ == s
            && stream_after =~= stream_before + code,
        Err(e) => result == Err::<T, CompileError>(e),
    }
}

/// A visit that appends to a stream and gives nothing else does what its
/// model says, and leaves the root function alone.
pub open spec fn appends(
    model: Result<(GenView, Code), CompileError>,
    before: CodeGen,
    after: CodeGen,
    stream_before: Seq<OpMode>,
    stream_after: Seq<OpMode>,
    result: Result<(), CompileError>,
) -> bool {
    &&& after.root() == before.root()
    &&& match model {
        Ok((s, code)) => result is Ok && after@ == s && stream_after =~= stream_before + code,
        Err(e) => result == Err::<(), CompileError>(e),
    }
}

impl CodeGen {
    /// The root function of the last unit that was compiled; a function with
    /// no code before that.
    pub closed spec fn root(&self) -> ChunkView {
        self.root_function@
    }

    /// A generator that has compiled nothing: its symbol table has the block
    /// of the root function open and nothing bound, no function is being
    /// compiled, and its root function has no code.
    pub fn new() -> (g: CodeGen)
        ensures
            g@ == GenView::fresh(),
            g.root() == ChunkView::empty(),
    {
        let g = CodeGen {
            symbol_table: ScopedSymbolTableBuilder::new(),
            allocs: Vec::new(),
            root_function: FunctionChunk::new(),
        };
        assert(g@.chain =~= GenView::fresh().chain);
        g
    }

    /// The root function of the last unit that was compiled.
    pub fn root_function(&self) -> (chunk: &FunctionChunk)
        ensures
            chunk@ == self.root(),
    {
        &self.root_function
    }

    /// Gives up the generator for the root function of the last unit that
    /// was compiled.
    pub fn into_root_function(self) -> (chunk: FunctionChunk)
        ensures
            chunk@ == self.root(),
    {
        self.root_function
    }
}

// the steps that the visitors are made of
impl CodeGen {
    /// Takes the next register of the current function.
    pub(crate) fn fresh_reg(&mut self, name: Option<&Name>) -> (r: Result<Usize, CompileError>)
        ensures
            steps(
                old(self)@.fresh_reg(
                    match name {
                        Some(n) => Some(n@),
                        None => None,
                    },
                ),
                *old(self),
                *final(self),
                r,
            ),
    {
        proof {
            reveal(GenView::fresh_reg);
        }
        let n = self.allocs.len();
        if n == 0 {
            return Err(CompileError::SyntaxError);
        }
        let ghost before = self@;
        match self.allocs[n - 1].reg_alloc.push(name) {
            Some(reg) => {
                assert(self@.chain =~= before.chain.update(
                    n - 1,
                    AllocView { regs: self.allocs@[n - 1].reg_alloc@, ..before.current() },
                ));
                Ok(reg)
            },
            None => Err(CompileError::SyntaxError),
        }
    }

    /// Takes the next `count` registers of the current function and gives the
    /// first of them.
    pub(crate) fn fresh_regs(&mut self, count: usize) -> (r: Result<Usize, CompileError>)
        ensures
            steps(old(self)@.fresh_regs(count as nat), *old(self), *final(self), r),
            r matches Ok(first) ==> first + count <= Usize::MAX,
    {
        proof {
            reveal(GenView::fresh_regs);
        }
        let n = self.allocs.len();
        if n == 0 {
            return Err(CompileError::SyntaxError);
        }
        let first = self.allocs[n - 1].reg_alloc.size();
        let mut taken: usize = 0;
        assert(self@.chain =~= old(self)@.fresh_regs(0)->Ok_0.0.chain);
        while taken < count
            invariant
                taken <= count,
                n > 0,
                n == self.allocs.len(),
                n == old(self).allocs.len(),
                self.root() == old(self).root(),
                first == old(self)@.stack_size(),
                first + taken <= Usize::MAX,
                self@.stack_size() == first + taken,
                self@ == old(self)@.fresh_regs(taken as nat)->Ok_0.0,
                old(self)@.fresh_regs(taken as nat) is Ok,
            decreases count - taken,
        {
            proof {
                reveal(GenView::fresh_regs);
            }
            let ghost before = self@;
            match self.allocs[n - 1].reg_alloc.push(None) {
                Some(_) => {
                    assert(self@.chain =~= before.chain.update(
                        n - 1,
                        AllocView { regs: self.allocs@[n - 1].reg_alloc@, ..before.current() },
                    ));
                    assert(self@.chain =~= old(self)@.fresh_regs((taken + 1) as nat)->Ok_0.0.chain);
                },
                None => {
                    return Err(CompileError::SyntaxError);
                },
            }
            taken += 1;
        }
        Ok(first)
    }

    /// Takes registers until `reg` is among those in use.
    pub(crate) fn reserve(&mut self, reg: Usize) -> (r: Result<(), CompileError>)
        ensures
            final(self).root() == old(self).root(),
            match old(self)@.reserve(reg) {
                Ok(s) => r is Ok && final(self)@ == s,
                Err(e) => r == Err::<(), CompileError>(e),
            },
    {
        proof {
            reveal(GenView::reserve);
            reveal(GenView::fresh_regs);
        }
        let n = self.allocs.len();
        if n == 0 {
            return Err(CompileError::SyntaxError);
        }
        let size = self.allocs[n - 1].reg_alloc.size();
        if reg < size {
            Ok(())
        } else if reg == Usize::MAX {
            Err(CompileError::SyntaxError)
        } else {
            self.fresh_regs((reg - size + 1) as usize)?;
            Ok(())
        }
    }

    /// The register that a value goes to: the one asked for, else the next
    /// free one.
    pub(crate) fn dest_reg(&mut self, want: Option<Usize>) -> (r: Result<Usize, CompileError>)
        ensures
            steps(old(self)@.dest_reg(want), *old(self), *final(self), r),
    {
        proof {
            reveal(GenView::dest_reg);
        }
        match want {
            Some(reg) => Ok(reg),
            None => self.fresh_reg(None),
        }
    }

    /// Names a register of the current function.
    pub(crate) fn name_reg(&mut self, name: &Name, reg: Usize)
        ensures
            final(self)@ == old(self)@.name_reg(name@, reg),
            final(self).root() == old(self).root(),
    {
        proof {
            reveal(GenView::name_reg);
        }
        let n = self.allocs.len();
        if n > 0 {
            let ghost before = self@;
            self.allocs[n - 1].reg_alloc.push_set(name, reg);
            assert(self@.chain =~= before.chain.update(
                n - 1,
                AllocView { regs: self.allocs@[n - 1].reg_alloc@, ..before.current() },
            ));
        }
    }

    /// The index of a constant in the current function's pool.
    pub(crate) fn add_const(&mut self, value: ConstType) -> (r: Result<Usize, CompileError>)
        ensures
            steps(old(self)@.add_const(value@), *old(self), *final(self), r),
    {
        proof {
            reveal(GenView::add_const);
        }
        let n = self.allocs.len();
        if n == 0 {
            return Err(CompileError::SyntaxError);
        }
        let ghost before = self@;
        match self.allocs[n - 1].const_alloc.push(value) {
            Some(index) => {
                assert(self@.chain =~= before.chain.update(
                    n - 1,
                    AllocView { consts: self.allocs@[n - 1].const_alloc@, ..before.current() },
                ));
                Ok(index)
            },
            None => Err(CompileError::SyntaxError),
        }
    }

    /// A label that the current function has not used.
    pub(crate) fn new_label(&mut self) -> (r: Result<Label, CompileError>)
        ensures
            steps(old(self)@.new_label(), *old(self), *final(self), r),
    {
        proof {
            reveal(GenView::new_label);
        }
        let n = self.allocs.len();
        if n == 0 {
            return Err(CompileError::SyntaxError);
        }
        let ghost before = self@;
        match self.allocs[n - 1].label_alloc.new_label() {
            Some(label) => {
                assert(self@.chain =~= before.chain.update(
                    n - 1,
                    AllocView { labels: self.allocs@[n - 1].label_alloc@, ..before.current() },
                ));
                Ok(label)
            },
            None => Err(CompileError::SyntaxError),
        }
    }

    /// Adds a nested function to the current function.
    pub(crate) fn add_proto(&mut self, chunk: FunctionChunk) -> (r: Result<Usize, CompileError>)
        ensures
            steps(old(self)@.add_proto(chunk@), *old(self), *final(self), r),
    {
        proof {
            reveal(GenView::add_proto);
        }
        let n = self.allocs.len();
        if n == 0 {
            return Err(CompileError::SyntaxError);
        }
        let ghost before = self@;
        match self.allocs[n - 1].function_alloc.push(chunk) {
            Some(index) => {
                assert(self@.chain =~= before.chain.update(
                    n - 1,
                    AllocView { protos: self.allocs@[n - 1].function_alloc@, ..before.current() },
                ));
                Ok(index)
            },
            None => Err(CompileError::SyntaxError),
        }
    }

    /// Makes the current function capture a name bound `depth` functions out.
    pub(crate) fn capture(&mut self, name: &Name, origin_reg: Usize, depth: usize) -> (r: Result<
        Usize,
        CompileError,
    >)
        ensures
            steps(
                old(self)@.capture(name@, origin_reg, depth as nat),
                *old(self),
                *final(self),
                r,
            ),
    {
        proof {
            reveal(GenView::capture);
        }
        propagate_upvalue(&mut self.allocs, name, origin_reg, depth)
    }

    /// Adds the name to the constants and records it as a global.
    pub(crate) fn prepare_global_value(&mut self, name: &Name) -> (r: Result<Usize, CompileError>)
        ensures
            steps(
                match old(self)@.add_const(ConstView::Str(name@)) {
                    Ok((s, k)) => Ok((s.with_table(s.table.define_global(name@)), k)),
                    Err(e) => Err(e),
                },
                *old(self),
                *final(self),
                r,
            ),
    {
        let pos = self.add_const(ConstType::Str(name.clone()))?;
        self.symbol_table.define_global(name);
        Ok(pos)
    }

    /// Resolves a name in the symbol table.
    pub(crate) fn lookup(&self, name: &Name) -> (r: Option<(SymbolScope, Usize)>)
        ensures
            r == self@.table.lookup(name@),
    {
        self.symbol_table.lookup(name)
    }

    /// Binds a name to a register in the innermost block.
    pub(crate) fn define_local(&mut self, name: &Name, reg: Usize)
        ensures
            final(self)@ == old(self)@.with_table(old(self)@.table.define_local(name@, reg)),
            final(self).root() == old(self).root(),
    {
        self.symbol_table.define_local(name, reg);
    }

    /// Opens the first block of a nested function.
    pub(crate) fn initialize_scope(&mut self)
        ensures
            final(self)@ == old(self)@.with_table(old(self)@.table.initialize_scope()),
            final(self).root() == old(self).root(),
    {
        self.symbol_table.initialize_scope();
    }

    /// Closes the blocks of the function that has been compiled.
    pub(crate) fn finalize_scope(&mut self)
        ensures
            final(self)@ == old(self)@.with_table(old(self)@.table.finalize_scope()),
            final(self).root() == old(self).root(),
    {
        self.symbol_table.finalize_scope();
    }

    /// The number of functions that are being compiled.
    pub(crate) fn depth(&self) -> (n: usize)
        ensures
            n == self@.chain.len(),
    {
        self.allocs.len()
    }

    /// Opens fresh pools for a nested function.
    pub(crate) fn enter_function(&mut self)
        ensures
            final(self)@ == (GenView {
                chain: old(self)@.chain.push(AllocView::empty()),
                ..old(self)@
            }),
            final(self).root() == old(self).root(),
    {
        self.allocs.push(ResourceAlloc::new());
        assert(self@.chain =~= old(self)@.chain.push(AllocView::empty()));
    }

    /// Closes the pools of the current function and hands them out.
    pub(crate) fn leave_function(&mut self) -> (r: Option<ResourceAlloc>)
        ensures
            final(self).root() == old(self).root(),
            old(self)@.chain.len() == 0 ==> r is None && final(self)@ == old(self)@,
            old(self)@.chain.len() > 0 ==> (r matches Some(pools) && pools@
                == old(self)@.current() && final(self)@ == (GenView {
                chain: old(self)@.chain.drop_last(),
                ..old(self)@
            })),
    {
        let r = self.allocs.pop();
        if r.is_some() {
            assert(self@.chain =~= old(self)@.chain.drop_last());
        }
        r
    }
}

impl CodeGen {
    /// Compiles a unit as the root function, in a symbol table of its own.
    ///
    /// A block is compiled as the body of a vararg function without
    /// parameters; on success that function is the new root function. Any
    /// other unit cannot be lowered. On an error the root function stays as
    /// it was.
    ///
    /// The root function that is compiled is tidy, and so is every function
    /// nested in it: each ends in a `RETURN`, jumps only to its own
    /// instructions, and holds no constant twice. If the unit names no
    /// register by its number, they are well formed as well: every
    /// instruction names only registers, constants, upvalues and nested
    /// functions that its function has, and every `CLOSURE` is followed by
    /// the bindings of the closure's upvalues. Such a unit never fails for
    /// an undefined symbol.
    pub fn compile(&mut self, ast: &Node) -> (r: Result<(), CompileError>)
        ensures
            match m_compile(*ast) {
                Ok(chunk) => r is Ok && final(self).root() == chunk,
                Err(e) => r == Err::<(), CompileError>(e) && final(self).root() == old(self).root(),
            },
            r is Ok ==> tidy(final(self).root()),
            r is Ok && plain_node(*ast) ==> well_formed(final(self).root()),
            plain_node(*ast) ==> !(r matches Err(CompileError::UndefinedSymbol)),
    {
        proof {
            reveal(m_compile);
            tidy_compile(*ast);
            if plain_node(*ast) {
                lemma_compile(*ast);
            }
        }
        self.symbol_table = ScopedSymbolTableBuilder::new();
        self.allocs = Vec::new();
        assert(self@.chain =~= GenView::fresh().chain);
        match ast {
            Node::Block(block) => {
                let paras: Vec<Name> = Vec::new();
                let function_prototype = self.visit_function(block, &paras, true)?;
                self.root_function = function_prototype.prototype;
                Ok(())
            },
            Node::Expr(_) => Err(CompileError::SyntaxError),
        }
    }
}


} // verus!
