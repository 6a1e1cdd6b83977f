//! The pools that one function draws from while it is compiled: registers,
//! constants, nested functions, labels and upvalues.

use crate::compiler::opcodes::Label;
use crate::compiler::types::{
    chunks_view, consts_view, ChunkView, CompileError, ConstType, ConstView, FunctionChunk,
    UpvalueDescriptor, Usize,
};
use crate::parser::types::Name;
use vstd::prelude::*;

verus! {

/// A register that has been given a name.
pub struct NamedRegister {
    reg: Usize,
    name: Name,
}

/// Hands out registers in increasing order and never takes one back.
pub struct RegisterAlloc {
    size: Usize,
    names: Vec<NamedRegister>,
}

/// What a register allocator holds: the number of registers handed out, and
/// the names given to registers, in the order they were given.
pub ghost struct RegView {
    pub size: Usize,
    pub names: Seq<(Usize, Seq<char>)>,
}

impl RegView {
    /// Nothing handed out.
    pub open spec fn empty() -> RegView {
        RegView { size: 0, names: Seq::empty() }
    }

    /// Hands out the next register, named or not. Fails when the registers
    /// are used up.
    pub open spec fn push(self, name: Option<Seq<char>>) -> Option<(RegView, Usize)> {
        if self.size == Usize::MAX {
            None
        } else {
            Some(
                (
                    RegView {
                        size: (self.size + 1) as Usize,
                        names: match name {
                            Some(n) => self.names.push((self.size, n)),
                            None => self.names,
                        },
                    },
                    self.size,
                ),
            )
        }
    }

    /// Names a register that has been handed out; any other index is left
    /// alone.
    pub open spec fn push_set(self, name: Seq<char>, reg: Usize) -> RegView {
        if reg < self.size {
            RegView { names: self.names.push((reg, name)), ..self }
        } else {
            self
        }
    }

    /// The name last given to `reg` among the first `upto` namings.
    pub open spec fn name_of(self, reg: Usize, upto: int) -> Option<Seq<char>>
        decreases upto,
    {
        if upto <= 0 || upto > self.names.len() {
            None
        } else if self.names[upto - 1].0 == reg {
            Some(self.names[upto - 1].1)
        } else {
            self.name_of(reg, upto - 1)
        }
    }
}

impl View for RegisterAlloc {
    type V = RegView;

    closed spec fn view(&self) -> RegView {
        RegView { size: self.size, names: self.names@.map_values(|n: NamedRegister| (n.reg, n.name@)) }
    }
}

impl RegisterAlloc {
    /// An allocator that has handed out nothing.
    pub fn new() -> (r: RegisterAlloc)
        ensures
            r@ == RegView::empty(),
    {
        let r = RegisterAlloc { size: 0, names: Vec::new() };
        assert(r@.names =~= Seq::empty());
        r
    }

    /// Hands out the next register and grows the stack by one; `None` when
    /// every register index is taken.
    pub fn push(&mut self, name: Option<&Name>) -> (r: Option<Usize>)
        ensures
            match old(self)@.push(
                match name {
                    Some(n) => Some(n@),
                    None => None,
                },
            ) {
                Some((after, reg)) => r == Some(reg) && final(self)@ == after,
                None => r is None && final(self)@ == old(self)@,
            },
    {
        if self.size == Usize::MAX {
            return None;
        }
        let reg = self.size;
        self.size = reg + 1;
        if let Some(n) = name {
            self.names.push(NamedRegister { reg, name: n.clone() });
            assert(self@.names =~= old(self)@.names.push((reg, n@)));
        } else {
            assert(self@.names =~= old(self)@.names);
        }
        Some(reg)
    }

    /// Gives a register that is in use a new name, without growing the stack.
    pub fn push_set(&mut self, name: &Name, reg: Usize)
        ensures
            final(self)@ == old(self)@.push_set(name@, reg),
    {
        if reg < self.size {
            self.names.push(NamedRegister { reg, name: name.clone() });
            assert(self@.names =~= old(self)@.names.push((reg, name@)));
        }
    }

    /// The number of registers handed out: the high-water mark of the stack.
    pub fn size(&self) -> (n: Usize)
        ensures
            n == self@.size,
    {
        self.size
    }

    /// The name that `reg` goes by now, if it was ever given one.
    pub fn name_of(&self, reg: Usize) -> (r: Option<&Name>)
        ensures
            match self@.name_of(reg, self@.names.len() as int) {
                Some(n) => r matches Some(found) && found@ == n,
                None => r is None,
            },
    {
        let mut i: usize = self.names.len();
        while i > 0
            invariant
                i <= self.names.len(),
                self@.name_of(reg, self@.names.len() as int) == self@.name_of(reg, i as int),
            decreases i,
        {
            i -= 1;
            if self.names[i].reg == reg {
                return Some(&self.names[i].name);
            }
        }
        None
    }
}

/// The first position at or after `from` at which `pool` holds `value`.
pub open spec fn const_position(pool: Seq<ConstView>, value: ConstView, from: int) -> Option<int>
    decreases pool.len() - from,
{
    if from < 0 || from >= pool.len() {
        None
    } else if pool[from] == value {
        Some(from)
    } else {
        const_position(pool, value, from + 1)
    }
}

/// Adds `value` to a pool unless the pool holds it, and gives its index.
/// Fails when the index cannot be numbered.
pub open spec fn const_push(pool: Seq<ConstView>, value: ConstView) -> Option<
    (Seq<ConstView>, Usize),
> {
    match const_position(pool, value, 0) {
        Some(i) => if i <= Usize::MAX {
            Some((pool, i as Usize))
        } else {
            None
        },
        None => if pool.len() < Usize::MAX {
            Some((pool.push(value), pool.len() as Usize))
        } else {
            None
        },
    }
}

/// The pool of constants of one function, each value held once.
pub struct ConstAlloc {
    pool: Vec<ConstType>,
}

impl View for ConstAlloc {
    type V = Seq<ConstView>;

    closed spec fn view(&self) -> Seq<ConstView> {
        consts_view(self.pool@)
    }
}

/// A position that `const_position` reports holds the value, and no earlier
/// position from `from` on does.
pub proof fn lemma_const_position(pool: Seq<ConstView>, value: ConstView, from: int)
    requires
        0 <= from,
    ensures
        match const_position(pool, value, from) {
            Some(i) => from <= i < pool.len() && pool[i] == value && forall|j: int|
                from <= j < i ==> pool[j] != value,
            None => forall|j: int| from <= j < pool.len() ==> pool[j] != value,
        },
    decreases pool.len() - from,
{
    if from < pool.len() && pool[from] != value {
        lemma_const_position(pool, value, from + 1);
    }
}

/// Adding to a pool that holds no value twice gives such a pool again, keeps
/// every constant at its index, and the index given holds the value.
pub proof fn lemma_const_push(pool: Seq<ConstView>, value: ConstView)
    requires
        pool.no_duplicates(),
    ensures
        match const_push(pool, value) {
            Some((after, index)) => {
                &&& after.no_duplicates()
                &&& pool.len() <= after.len() <= pool.len() + 1
                &&& forall|j: int| 0 <= j < pool.len() ==> after[j] == pool[j]
                &&& index < after.len()
                &&& after[index as int] == value
            },
            None => true,
        },
{
    lemma_const_position(pool, value, 0);
}

/// Deduplication: a value that has been added is found again at the index
/// it was given, and the pool stays as it is.
pub proof fn lemma_const_push_again(pool: Seq<ConstView>, value: ConstView)
    ensures
        const_push(pool, value) matches Some((after, index)) ==> const_push(after, value) == Some(
            (after, index),
        ),
{
    lemma_const_position(pool, value, 0);
    if let Some((after, index)) = const_push(pool, value) {
        lemma_const_position(after, value, 0);
        if const_position(pool, value, 0) is None {
            assert(after[pool.len() as int] == value);
            assert forall|j: int| 0 <= j < pool.len() implies after[j] != value by {
                assert(after[j] == pool[j]);
            }
        }
    }
}

impl ConstAlloc {
    /// An empty pool.
    pub fn new() -> (r: ConstAlloc)
        ensures
            r@ == Seq::<ConstView>::empty(),
    {
        let r = ConstAlloc { pool: Vec::new() };
        assert(r@ =~= Seq::empty());
        r
    }

    /// The index of `value` in the pool, adding it at the end if the pool
    /// does not hold it yet; `None` when the index cannot be numbered.
    pub fn push(&mut self, value: ConstType) -> (r: Option<Usize>)
        ensures
            match const_push(old(self)@, value@) {
                Some((after, index)) => r == Some(index) && final(self)@ == after,
                None => r is None && final(self)@ == old(self)@,
            },
            r matches Some(index) ==> index < final(self)@.len() && final(self)@[index as int]
                == value@ && forall|j: int| 0 <= j < index ==> final(self)@[j] != value@,
            old(self)@.contains(value@) ==> final(self)@ == old(self)@,
            !old(self)@.contains(value@) && r is Some ==> final(self)@ == old(self)@.push(value@),
            old(self)@.len() < Usize::MAX ==> r is Some,
    {
        proof {
            lemma_const_position(self@, value@, 0);
        }
        let mut i: usize = 0;
        while i < self.pool.len()
            invariant
                i <= self.pool.len(),
                self.pool == old(self).pool,
                const_position(self@, value@, 0) == const_position(self@, value@, i as int),
                forall|j: int| 0 <= j < i ==> self@[j] != value@,
            decreases self.pool.len() - i,
        {
            if self.pool[i].same(&value) {
                assert(self@[i as int] == value@);
                if i <= Usize::MAX as usize {
                    return Some(i as Usize);
                } else {
                    return None;
                }
            }
            assert(self@[i as int] != value@);
            i += 1;
        }
        if i < Usize::MAX as usize {
            self.pool.push(value);
            assert(self@ =~= old(self)@.push(value@));
            Some(i as Usize)
        } else {
            None
        }
    }

    /// The constants in the order they were first used.
    pub fn dump(self) -> (r: Vec<ConstType>)
        ensures
            consts_view(r@) == self@,
    {
        self.pool
    }
}

/// The nested functions of one function, in source order.
pub struct FunctionAlloc {
    protos: Vec<FunctionChunk>,
}

impl View for FunctionAlloc {
    type V = Seq<ChunkView>;

    closed spec fn view(&self) -> Seq<ChunkView> {
        chunks_view(self.protos@)
    }
}

/// Adds a compiled function to a list and gives its index. Fails when the
/// index cannot be numbered.
pub open spec fn proto_push(protos: Seq<ChunkView>, chunk: ChunkView) -> Option<
    (Seq<ChunkView>, Usize),
> {
    if protos.len() < Usize::MAX {
        Some((protos.push(chunk), protos.len() as Usize))
    } else {
        None
    }
}

impl FunctionAlloc {
    /// No nested functions.
    pub fn new() -> (r: FunctionAlloc)
        ensures
            r@ == Seq::<ChunkView>::empty(),
    {
        let r = FunctionAlloc { protos: Vec::new() };
        assert(r@ =~= Seq::empty());
        r
    }

    /// Adds a nested function and gives its index; `None` when the index
    /// cannot be numbered.
    pub fn push(&mut self, chunk: FunctionChunk) -> (r: Option<Usize>)
        ensures
            match proto_push(old(self)@, chunk@) {
                Some((after, index)) => r == Some(index) && final(self)@ == after,
                None => r is None && final(self)@ == old(self)@,
            },
    {
        let n = self.protos.len();
        if n < Usize::MAX as usize {
            self.protos.push(chunk);
            assert(self@ =~= old(self)@.push(chunk@));
            Some(n as Usize)
        } else {
            None
        }
    }

    /// The number of nested functions.
    pub fn size(&self) -> (n: usize)
        ensures
            n == self@.len(),
    {
        self.protos.len()
    }

    /// The nested functions, in the order they were added.
    pub fn get_function_prototypes(self) -> (r: Vec<FunctionChunk>)
        ensures
            chunks_view(r@) == self@,
    {
        self.protos
    }
}

/// Hands out labels, each one once.
pub struct LabelAlloc {
    next: Label,
}

impl View for LabelAlloc {
    type V = Label;

    closed spec fn view(&self) -> Label {
        self.next
    }
}

/// The next label, and the labels that are left. Fails when the labels are
/// used up.
pub open spec fn label_next(next: Label) -> Option<(Label, Label)> {
    if next < Label::MAX {
        Some(((next + 1) as Label, next))
    } else {
        None
    }
}

impl LabelAlloc {
    /// An allocator whose first label is 0.
    pub fn new() -> (r: LabelAlloc)
        ensures
            r@ == 0,
    {
        LabelAlloc { next: 0 }
    }

    /// A label that this allocator has not handed out before; `None` when
    /// the labels are used up.
    pub fn new_label(&mut self) -> (r: Option<Label>)
        ensures
            match label_next(old(self)@) {
                Some((after, label)) => r == Some(label) && final(self)@ == after,
                None => r is None && final(self)@ == old(self)@,
            },
    {
        if self.next < Label::MAX {
            let label = self.next;
            self.next = label + 1;
            Some(label)
        } else {
            None
        }
    }
}

/// One upvalue of a function.
pub struct Upvalue {
    name: Name,
    descriptor: UpvalueDescriptor,
}

/// What is known of one upvalue: the captured name and how it is bound.
pub ghost struct UpvalueView {
    pub name: Seq<char>,
    pub descriptor: UpvalueDescriptor,
}

/// The upvalues of one function, in the order of first capture.
pub struct UpvalueAlloc {
    entries: Vec<Upvalue>,
}

impl View for Upvalue {
    type V = UpvalueView;

    closed spec fn view(&self) -> UpvalueView {
        UpvalueView { name: self.name@, descriptor: self.descriptor }
    }
}

impl View for UpvalueAlloc {
    type V = Seq<UpvalueView>;

    closed spec fn view(&self) -> Seq<UpvalueView> {
        self.entries@.map_values(|u: Upvalue| u@)
    }
}

/// The first position at or after `from` at which `name` is captured.
pub open spec fn upvalue_position(entries: Seq<UpvalueView>, name: Seq<char>, from: int) -> Option<
    int,
>
    decreases entries.len() - from,
{
    if from < 0 || from >= entries.len() {
        None
    } else if entries[from].name == name {
        Some(from)
    } else {
        upvalue_position(entries, name, from + 1)
    }
}

/// The slot of `name` among the upvalues, a new one at the end if the name is
/// not captured yet. A name that is captured keeps the descriptor it has.
/// Fails when the slot cannot be numbered.
pub open spec fn upvalue_add(
    entries: Seq<UpvalueView>,
    name: Seq<char>,
    is_immediate: bool,
    source_slot: Usize,
) -> Option<(Seq<UpvalueView>, Usize)> {
    match upvalue_position(entries, name, 0) {
        Some(i) => Some((entries, entries[i].descriptor.slot_in_closure)),
        None => if entries.len() < Usize::MAX {
            let slot = entries.len() as Usize;
            Some(
                (
                    entries.push(
                        UpvalueView {
                            name,
                            descriptor: UpvalueDescriptor {
                                is_immediate,
                                slot_in_enclosing: source_slot,
                                slot_in_closure: slot,
                            },
                        },
                    ),
                    slot,
                ),
            )
        } else {
            None
        },
    }
}

/// The descriptors of a run of upvalues.
pub open spec fn descriptors(entries: Seq<UpvalueView>) -> Seq<UpvalueDescriptor> {
    entries.map_values(|u: UpvalueView| u.descriptor)
}

/// No name is captured twice, and every upvalue sits in the slot that its
/// descriptor names.
pub open spec fn upvalues_in_order(entries: Seq<UpvalueView>) -> bool {
    &&& entries.len() <= Usize::MAX
    &&& forall|i: int, j: int|
        0 <= i < j < entries.len() ==> entries[i].name != entries[j].name
    &&& forall|i: int| 0 <= i < entries.len() ==> #[trigger] entries[i].descriptor.slot_in_closure == i
}

/// A position that `upvalue_position` reports captures the name, and no
/// earlier position from `from` on does.
pub proof fn lemma_upvalue_position(entries: Seq<UpvalueView>, name: Seq<char>, from: int)
    requires
        0 <= from,
    ensures
        match upvalue_position(entries, name, from) {
            Some(i) => from <= i < entries.len() && entries[i].name == name,
            None => forall|j: int| from <= j < entries.len() ==> entries[j].name != name,
        },
    decreases entries.len() - from,
{
    if from < entries.len() && entries[from].name != name {
        lemma_upvalue_position(entries, name, from + 1);
    }
}

/// Capturing a name keeps the upvalues in order, keeps every upvalue that
/// was there, and the slot given is that of the name.
pub proof fn lemma_upvalue_add(
    entries: Seq<UpvalueView>,
    name: Seq<char>,
    is_immediate: bool,
    source_slot: Usize,
)
    requires
        upvalues_in_order(entries),
    ensures
        match upvalue_add(entries, name, is_immediate, source_slot) {
            Some((after, slot)) => {
                &&& upvalues_in_order(after)
                &&& entries.len() <= after.len() <= entries.len() + 1
                &&& forall|j: int| 0 <= j < entries.len() ==> after[j] == entries[j]
                &&& slot < after.len()
                &&& after[slot as int].name == name
                &&& after.len() == entries.len() + 1 ==> after[slot as int].descriptor == (
                    UpvalueDescriptor {
                        is_immediate,
                        slot_in_enclosing: source_slot,
                        slot_in_closure: slot,
                    }
                )
            },
            None => true,
        },
{
    lemma_upvalue_position(entries, name, 0);
}

/// A name that has been captured keeps its slot: asking for it again gives
/// the same slot and leaves the upvalues as they are, whatever binding is
/// offered.
pub proof fn lemma_upvalue_add_again(
    entries: Seq<UpvalueView>,
    name: Seq<char>,
    is_immediate: bool,
    source_slot: Usize,
    other_immediate: bool,
    other_slot: Usize,
)
    requires
        upvalues_in_order(entries),
    ensures
        upvalue_add(entries, name, is_immediate, source_slot) matches Some((after, slot))
            ==> upvalue_add(after, name, other_immediate, other_slot) == Some((after, slot)),
{
    lemma_upvalue_position(entries, name, 0);
    if let Some((after, slot)) = upvalue_add(entries, name, is_immediate, source_slot) {
        lemma_upvalue_add(entries, name, is_immediate, source_slot);
        lemma_upvalue_position(after, name, 0);
    }
}

impl UpvalueAlloc {
    /// No upvalues.
    pub fn new() -> (r: UpvalueAlloc)
        ensures
            r@ == Seq::<UpvalueView>::empty(),
    {
        let r = UpvalueAlloc { entries: Vec::new() };
        assert(r@ =~= Seq::empty());
        r
    }

    /// The slot of `name`: the one it has if it is captured already, else a
    /// new one at the end, bound as the arguments say. `None` when the slot
    /// cannot be numbered.
    pub fn lookup_or_add(&mut self, name: &Name, is_immediate: bool, source_slot: Usize) -> (r:
        Option<Usize>)
        ensures
            match upvalue_add(old(self)@, name@, is_immediate, source_slot) {
                Some((after, slot)) => r == Some(slot) && final(self)@ == after,
                None => r is None && final(self)@ == old(self)@,
            },
            old(self)@.len() < Usize::MAX ==> r is Some,
    {
        proof {
            lemma_upvalue_position(self@, name@, 0);
        }
        let mut i: usize = 0;
        while i < self.entries.len()
            invariant
                i <= self.entries.len(),
                self.entries == old(self).entries,
                upvalue_position(self@, name@, 0) == upvalue_position(self@, name@, i as int),
            decreases self.entries.len() - i,
        {
            if self.entries[i].name.eq(name) {
                assert(self@[i as int].name == name@);
                return Some(self.entries[i].descriptor.slot_in_closure);
            }
            assert(self@[i as int].name != name@);
            i += 1;
        }
        if i < Usize::MAX as usize {
            let slot = i as Usize;
            let descriptor = UpvalueDescriptor {
                is_immediate,
                slot_in_enclosing: source_slot,
                slot_in_closure: slot,
            };
            self.entries.push(Upvalue { name: name.clone(), descriptor });
            assert(self@ =~= old(self)@.push(UpvalueView { name: name@, descriptor }));
            Some(slot)
        } else {
            None
        }
    }

    /// The number of upvalues.
    pub fn size(&self) -> (n: usize)
        ensures
            n == self@.len(),
    {
        self.entries.len()
    }

    /// The descriptors of the upvalues, slot by slot.
    pub fn into_list(self) -> (r: Vec<UpvalueDescriptor>)
        ensures
            r@ == descriptors(self@),
    {
        let mut list: Vec<UpvalueDescriptor> = Vec::new();
        let mut i: usize = 0;
        while i < self.entries.len()
            invariant
                i <= self.entries.len(),
                list@ == descriptors(self@.take(i as int)),
            decreases self.entries.len() - i,
        {
            list.push(self.entries[i].descriptor);
            assert(self@.take(i + 1) =~= self@.take(i as int).push(self@[i as int]));
            assert(list@ =~= descriptors(self@.take(i + 1)));
            i += 1;
        }
        assert(self@.take(i as int) =~= self@);
        list
    }
}

/// The pools of one function.
pub struct ResourceAlloc {
    pub reg_alloc: RegisterAlloc,
    pub const_alloc: ConstAlloc,
    pub function_alloc: FunctionAlloc,
    pub label_alloc: LabelAlloc,
    pub upvalue_alloc: UpvalueAlloc,
}

/// What the pools of one function hold.
pub ghost struct AllocView {
    pub regs: RegView,
    pub consts: Seq<ConstView>,
    pub protos: Seq<ChunkView>,
    pub labels: Label,
    pub upvalues: Seq<UpvalueView>,
}

impl AllocView {
    /// Pools that nothing has been drawn from.
    pub open spec fn empty() -> AllocView {
        AllocView {
            regs: RegView::empty(),
            consts: Seq::empty(),
            protos: Seq::empty(),
            labels: 0,
            upvalues: Seq::empty(),
        }
    }
}

impl View for ResourceAlloc {
    type V = AllocView;

    open spec fn view(&self) -> AllocView {
        AllocView {
            regs: self.reg_alloc@,
            consts: self.const_alloc@,
            protos: self.function_alloc@,
            labels: self.label_alloc@,
            upvalues: self.upvalue_alloc@,
        }
    }
}

impl ResourceAlloc {
    /// Fresh pools for a function about to be compiled.
    pub fn new() -> (r: ResourceAlloc)
        ensures
            r@ == AllocView::empty(),
    {
        ResourceAlloc {
            reg_alloc: RegisterAlloc::new(),
            const_alloc: ConstAlloc::new(),
            function_alloc: FunctionAlloc::new(),
            label_alloc: LabelAlloc::new(),
            upvalue_alloc: UpvalueAlloc::new(),
        }
    }
}

/// The views of a chain of pools, outermost function first.
pub open spec fn chain_view(chain: Seq<ResourceAlloc>) -> Seq<AllocView> {
    chain.map_values(|a: ResourceAlloc| a@)
}

/// Makes the function at `level` of a chain capture `name`, which is bound to
/// register `origin_reg` of the function `depth` levels further out. Every
/// function in between captures it too: the one directly inside the owner
/// from the owner's register, each further one from the upvalue slot of the
/// function around it. Gives the chain afterwards and the slot at `level`.
///
/// There is nothing to capture from when `depth` is 0 or reaches past the
/// outermost function; a slot that cannot be numbered cannot be lowered.
pub open spec fn propagate(
    chain: Seq<AllocView>,
    level: int,
    name: Seq<char>,
    origin_reg: Usize,
    depth: nat,
) -> Result<(Seq<AllocView>, Usize), CompileError>
    decreases depth,
{
    if depth == 0 || level < depth || level >= chain.len() {
        Err(CompileError::UndefinedSymbol)
    } else {
        let outer = if depth == 1 {
            Ok((chain, origin_reg))
        } else {
            propagate(chain, level - 1, name, origin_reg, (depth - 1) as nat)
        };
        match outer {
            Err(e) => Err(e),
            Ok((chain1, source)) => match upvalue_add(
                chain1[level].upvalues,
                name,
                depth == 1,
                source,
            ) {
                None => Err(CompileError::SyntaxError),
                Some((upvalues, slot)) => Ok(
                    (chain1.update(level, AllocView { upvalues, ..chain1[level] }), slot),
                ),
            },
        }
    }
}

/// Propagation changes neither the number of functions in the chain nor
/// anything but their upvalues.
pub proof fn lemma_propagate_frame(
    chain: Seq<AllocView>,
    level: int,
    name: Seq<char>,
    origin_reg: Usize,
    depth: nat,
)
    ensures
        match propagate(chain, level, name, origin_reg, depth) {
            Ok((after, _)) => {
                &&& after.len() == chain.len()
                &&& forall|k: int|
                    0 <= k < chain.len() ==> (#[trigger] after[k]) == (AllocView {
                        upvalues: after[k].upvalues,
                        ..chain[k]
                    })
                &&& forall|k: int|
                    0 <= k < chain.len() && !(level - depth < k <= level) ==> after[k] == chain[k]
            },
            Err(_) => true,
        },
    decreases depth,
{
    if depth > 1 && level >= depth && level < chain.len() {
        lemma_propagate_frame(chain, level - 1, name, origin_reg, (depth - 1) as nat);
    }
}

/// Propagation for the function at `level` of the chain: see [`propagate`].
fn propagate_at(
    chain: &mut Vec<ResourceAlloc>,
    level: usize,
    name: &Name,
    origin_reg: Usize,
    depth: usize,
) -> (r: Result<Usize, CompileError>)
    ensures
        match propagate(chain_view(old(chain)@), level as int, name@, origin_reg, depth as nat) {
            Ok((after, slot)) => r == Ok::<Usize, CompileError>(slot) && chain_view(final(chain)@)
                == after,
            Err(e) => r == Err::<Usize, CompileError>(e),
        },
        final(chain)@.len() == old(chain)@.len(),
    decreases depth,
{
    if depth == 0 || level < depth || level >= chain.len() {
        return Err(CompileError::UndefinedSymbol);
    }
    let source = if depth == 1 {
        origin_reg
    } else {
        propagate_at(chain, level - 1, name, origin_reg, depth - 1)?
    };
    proof {
        lemma_propagate_frame(
            chain_view(old(chain)@),
            level - 1,
            name@,
            origin_reg,
            (depth - 1) as nat,
        );
    }
    let ghost before = chain_view(chain@);
    match chain[level].upvalue_alloc.lookup_or_add(name, depth == 1, source) {
        None => Err(CompileError::SyntaxError),
        Some(slot) => {
            assert(chain_view(chain@) =~= before.update(
                level as int,
                AllocView { upvalues: chain@[level as int].upvalue_alloc@, ..before[level as int] },
            ));
            Ok(slot)
        },
    }
}

/// Makes the innermost function of `chain` capture `name`, bound to register
/// `origin_reg` of the function `depth` levels out, and gives the slot that
/// the innermost function reads it from.
pub fn propagate_upvalue(
    chain: &mut Vec<ResourceAlloc>,
    name: &Name,
    origin_reg: Usize,
    depth: usize,
) -> (r: Result<Usize, CompileError>)
    ensures
        match propagate(
            chain_view(old(chain)@),
            old(chain)@.len() - 1,
            name@,
            origin_reg,
            depth as nat,
        ) {
            Ok((after, slot)) => r == Ok::<Usize, CompileError>(slot) && chain_view(final(chain)@)
                == after,
            Err(e) => r == Err::<Usize, CompileError>(e),
        },
        final(chain)@.len() == old(chain)@.len(),
{
    if chain.len() == 0 {
        return Err(CompileError::UndefinedSymbol);
    }
    let level = chain.len() - 1;
    propagate_at(chain, level, name, origin_reg, depth)
}

} // verus!
