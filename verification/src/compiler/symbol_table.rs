//! The scoped symbol table: which register a name is bound to, and how far
//! out the binding lies.

use crate::compiler::types::Usize;
use crate::parser::types::Name;
use vstd::prelude::*;

verus! {

/// Where a name was found.
#[derive(Clone, Copy, Debug, PartialEq, Eq, Structural)]
pub enum SymbolScope {
    /// In no open scope.
    Global,
    /// In the current function.
    Local,
    /// In the function that many function boundaries out (1 is the directly
    /// enclosing function).
    UpValue(usize),
}

/// A name bound to a register.
pub struct Binding {
    name: Name,
    reg: Usize,
}

/// One lexical block. The first block of a function is marked as such.
pub struct Scope {
    opens_function: bool,
    bindings: Vec<Binding>,
}

/// What a block holds: its bindings in the order they were made.
pub ghost struct ScopeView {
    pub opens_function: bool,
    pub bindings: Seq<(Seq<char>, Usize)>,
}

/// What a table holds: its open blocks from the outermost to the innermost,
/// and the names known to be globals.
pub ghost struct TableView {
    pub scopes: Seq<ScopeView>,
    pub globals: Seq<Seq<char>>,
}

/// The stack of open blocks, with the globals seen so far.
pub struct ScopedSymbolTableBuilder {
    scopes: Vec<Scope>,
    globals: Vec<Name>,
}

/// The register of the latest binding of `name` among the first `upto`
/// bindings.
pub open spec fn find_binding(bindings: Seq<(Seq<char>, Usize)>, upto: int, name: Seq<char>)
    -> Option<Usize>
    decreases upto,
{
    if upto <= 0 || upto > bindings.len() {
        None
    } else if bindings[upto - 1].0 == name {
        Some(bindings[upto - 1].1)
    } else {
        find_binding(bindings, upto - 1, name)
    }
}

/// Resolves `name` among the outermost `upto` blocks: searches block
/// `upto - 1` first and goes outward, `depth` function boundaries having been
/// crossed before that block.
pub open spec fn resolve_name(scopes: Seq<ScopeView>, upto: int, name: Seq<char>, depth: nat)
    -> (SymbolScope, Usize)
    decreases upto,
{
    if upto <= 0 || upto > scopes.len() {
        (SymbolScope::Global, 0)
    } else {
        let scope = scopes[upto - 1];
        match find_binding(scope.bindings, scope.bindings.len() as int, name) {
            Some(reg) => (
                if depth == 0 {
                    SymbolScope::Local
                } else {
                    SymbolScope::UpValue(depth as usize)
                },
                reg,
            ),
            None => resolve_name(
                scopes,
                upto - 1,
                name,
                if scope.opens_function {
                    depth + 1
                } else {
                    depth
                },
            ),
        }
    }
}

/// How many blocks remain when the innermost function is closed: everything
/// below that function's first block.
pub open spec fn frame_start(scopes: Seq<ScopeView>, upto: int) -> int
    decreases upto,
{
    if upto <= 0 || upto > scopes.len() {
        0
    } else if scopes[upto - 1].opens_function {
        upto - 1
    } else {
        frame_start(scopes, upto - 1)
    }
}

impl TableView {
    /// A table with the root function's first block open and nothing bound.
    pub open spec fn fresh() -> TableView {
        TableView {
            scopes: seq![ScopeView { opens_function: true, bindings: Seq::empty() }],
            globals: Seq::empty(),
        }
    }

    /// Opens the first block of a nested function.
    pub open spec fn initialize_scope(self) -> TableView {
        TableView {
            scopes: self.scopes.push(ScopeView { opens_function: true, bindings: Seq::empty() }),
            ..self
        }
    }

    /// Closes every block of the innermost function.
    pub open spec fn finalize_scope(self) -> TableView {
        TableView {
            scopes: self.scopes.take(frame_start(self.scopes, self.scopes.len() as int)),
            ..self
        }
    }

    /// Opens a block inside the current function.
    pub open spec fn enter_block(self) -> TableView {
        TableView {
            scopes: self.scopes.push(ScopeView { opens_function: false, bindings: Seq::empty() }),
            ..self
        }
    }

    /// Closes the innermost block unless it is the first block of its
    /// function.
    pub open spec fn leave_block(self) -> TableView {
        if self.scopes.len() > 0 && !self.scopes.last().opens_function {
            TableView { scopes: self.scopes.drop_last(), ..self }
        } else {
            self
        }
    }

    /// Binds `name` to `reg` in the innermost block; with no block open the
    /// table stays as it is.
    pub open spec fn define_local(self, name: Seq<char>, reg: Usize) -> TableView {
        if self.scopes.len() > 0 {
            let top = self.scopes.last();
            TableView {
                scopes: self.scopes.update(
                    self.scopes.len() - 1,
                    ScopeView { bindings: top.bindings.push((name, reg)), ..top },
                ),
                ..self
            }
        } else {
            self
        }
    }

    /// Whether `name` has been recorded as a global.
    pub open spec fn knows_global(self, name: Seq<char>) -> bool {
        self.globals.contains(name)
    }

    /// Records `name` as a global, once.
    pub open spec fn define_global(self, name: Seq<char>) -> TableView {
        if self.knows_global(name) {
            self
        } else {
            TableView { globals: self.globals.push(name), ..self }
        }
    }

    /// Resolves `name` from the innermost block outward. Nothing is resolved
    /// while no block is open; a name bound nowhere is a global.
    pub open spec fn lookup(self, name: Seq<char>) -> Option<(SymbolScope, Usize)> {
        if self.scopes.len() == 0 {
            None
        } else {
            Some(resolve_name(self.scopes, self.scopes.len() as int, name, 0))
        }
    }
}

impl View for Binding {
    type V = (Seq<char>, Usize);

    closed spec fn view(&self) -> (Seq<char>, Usize) {
        (self.name@, self.reg)
    }
}

impl View for Scope {
    type V = ScopeView;

    closed spec fn view(&self) -> ScopeView {
        ScopeView {
            opens_function: self.opens_function,
            bindings: self.bindings@.map_values(|b: Binding| b@),
        }
    }
}

impl View for ScopedSymbolTableBuilder {
    type V = TableView;

    closed spec fn view(&self) -> TableView {
        TableView {
            scopes: self.scopes@.map_values(|s: Scope| s@),
            globals: self.globals@.map_values(|n: Name| n@),
        }
    }
}

impl Scope {
    /// A block without bindings.
    fn new(opens_function: bool) -> (s: Scope)
        ensures
            s@ == (ScopeView { opens_function, bindings: Seq::empty() }),
    {
        let s = Scope { opens_function, bindings: Vec::new() };
        assert(s@.bindings =~= Seq::empty());
        s
    }

    /// The register of the latest binding of `name` in the block.
    fn find(&self, name: &Name) -> (r: Option<Usize>)
        ensures
            r == find_binding(self@.bindings, self@.bindings.len() as int, name@),
    {
        let mut i: usize = self.bindings.len();
        while i > 0
            invariant
                i <= self.bindings.len(),
                find_binding(self@.bindings, self@.bindings.len() as int, name@) == find_binding(
                    self@.bindings,
                    i as int,
                    name@,
                ),
            decreases i,
        {
            i -= 1;
            if self.bindings[i].name.eq(name) {
                return Some(self.bindings[i].reg);
            }
        }
        None
    }
}

impl ScopedSymbolTableBuilder {
    /// A table with the root function's first block open.
    pub fn new() -> (t: ScopedSymbolTableBuilder)
        ensures
            t@ == TableView::fresh(),
    {
        let mut scopes: Vec<Scope> = Vec::new();
        scopes.push(Scope::new(true));
        let t = ScopedSymbolTableBuilder { scopes, globals: Vec::new() };
        assert(t@.scopes =~= TableView::fresh().scopes);
        assert(t@.globals =~= TableView::fresh().globals);
        t
    }

    /// Opens the first block of a nested function.
    pub fn initialize_scope(&mut self)
        ensures
            final(self)@ == old(self)@.initialize_scope(),
    {
        self.scopes.push(Scope::new(true));
        assert(self@.scopes =~= old(self)@.initialize_scope().scopes);
    }

    /// Closes every block of the innermost function.
    pub fn finalize_scope(&mut self)
        ensures
            final(self)@ == old(self)@.finalize_scope(),
    {
        let ghost all = self@.scopes;
        let mut done = false;
        while !done && self.scopes.len() > 0
            invariant
                self.globals == old(self).globals,
                self.scopes@.len() <= all.len(),
                self@.scopes == all.take(self.scopes@.len() as int),
                all == old(self)@.scopes,
                !done ==> frame_start(all, all.len() as int) == frame_start(
                    all,
                    self.scopes@.len() as int,
                ),
                done ==> frame_start(all, all.len() as int) == self.scopes@.len(),
            decreases self.scopes.len() + if done { 0int } else { 1int },
        {
            let ghost before = self@.scopes;
            let top = self.scopes.pop().unwrap();
            assert(top@ == before[before.len() - 1]);
            assert(self@.scopes =~= all.take(self.scopes@.len() as int));
            if top.opens_function {
                done = true;
            }
        }
    }

    /// Opens a block inside the current function.
    pub fn enter_block(&mut self)
        ensures
            final(self)@ == old(self)@.enter_block(),
    {
        self.scopes.push(Scope::new(false));
        assert(self@.scopes =~= old(self)@.enter_block().scopes);
    }

    /// Closes the innermost block unless it is the first block of its
    /// function.
    pub fn leave_block(&mut self)
        ensures
            final(self)@ == old(self)@.leave_block(),
    {
        let n = self.scopes.len();
        if n > 0 && !self.scopes[n - 1].opens_function {
            self.scopes.pop();
            assert(self@.scopes =~= old(self)@.scopes.drop_last());
        }
    }

    /// Binds `name` to `reg` in the innermost block, in front of any earlier
    /// binding of the name.
    pub fn define_local(&mut self, name: &Name, reg: Usize)
        ensures
            final(self)@ == old(self)@.define_local(name@, reg),
    {
        let n = self.scopes.len();
        if n > 0 {
            self.scopes[n - 1].bindings.push(Binding { name: name.clone(), reg });
            assert(self.scopes@[n - 1]@.bindings =~= old(self).scopes@[n - 1]@.bindings.push(
                (name@, reg),
            ));
            assert(self@.scopes =~= old(self)@.define_local(name@, reg).scopes);
        }
    }

    /// Whether `name` has been recorded as a global.
    pub fn knows_global(&self, name: &Name) -> (r: bool)
        ensures
            r == self@.knows_global(name@),
    {
        let mut i: usize = 0;
        while i < self.globals.len()
            invariant
                i <= self.globals.len(),
                forall|j: int| 0 <= j < i ==> self@.globals[j] != name@,
            decreases self.globals.len() - i,
        {
            if self.globals[i].eq(name) {
                assert(self@.globals[i as int] == name@);
                return true;
            }
            i += 1;
        }
        false
    }

    /// Records `name` as a global, once.
    pub fn define_global(&mut self, name: &Name)
        ensures
            final(self)@ == old(self)@.define_global(name@),
    {
        if !self.knows_global(name) {
            self.globals.push(name.clone());
            assert(self@.globals =~= old(self)@.globals.push(name@));
        }
    }

    /// Resolves `name` from the innermost block outward.
    pub fn lookup(&self, name: &Name) -> (r: Option<(SymbolScope, Usize)>)
        ensures
            r == self@.lookup(name@),
    {
        let n = self.scopes.len();
        if n == 0 {
            return None;
        }
        let mut i: usize = n;
        let mut depth: usize = 0;
        while i > 0
            invariant
                i <= n,
                n == self.scopes.len(),
                depth <= n - i,
                resolve_name(self@.scopes, n as int, name@, 0) == resolve_name(
                    self@.scopes,
                    i as int,
                    name@,
                    depth as nat,
                ),
            decreases i,
        {
            i -= 1;
            match self.scopes[i].find(name) {
                Some(reg) => {
                    let scope = if depth == 0 {
                        SymbolScope::Local
                    } else {
                        SymbolScope::UpValue(depth)
                    };
                    return Some((scope, reg));
                },
                None => {
                    if self.scopes[i].opens_function {
                        depth += 1;
                    }
                },
            }
        }
        Some((SymbolScope::Global, 0))
    }
}

} // verus!
