//! What holds of the generator's state between any two visits, and that each
//! step of the generator keeps it.

use crate::compiler::model::GenView;
use crate::compiler::resource_allocator::{
    const_push, descriptors, label_next, lemma_const_push, lemma_upvalue_add, propagate,
    proto_push, upvalue_add, upvalues_in_order, AllocView,
};
use crate::compiler::symbol_table::{find_binding, resolve_name, ScopeView, SymbolScope};
use crate::compiler::types::{ChunkView, CompileError, ConstView, Usize};
use crate::compiler::wellformed::{descriptors_ok, frame_le, frame_of, well_formed};
use vstd::prelude::*;

verus! {

/// Every binding of a block names a register that the function has.
pub open spec fn bindings_bounded(scope: ScopeView, pools: AllocView) -> bool {
    forall|j: int|
        0 <= j < scope.bindings.len() ==> (#[trigger] scope.bindings[j]).1 < pools.regs.size
}

/// The upvalues of the function at level `i` of a chain are in order, and
/// each is bound from a register or an upvalue that the function around it
/// has.
pub open spec fn upvalues_bound(chain: Seq<AllocView>, i: int) -> bool {
    &&& upvalues_in_order(chain[i].upvalues)
    &&& i > 0 ==> descriptors_ok(descriptors(chain[i].upvalues), frame_of(chain[i - 1]))
}

/// The pools of a function hold no constant twice and only well-formed
/// nested functions.
pub open spec fn pools_sound(pools: AllocView) -> bool {
    &&& pools.consts.no_duplicates()
    &&& forall|f: int| 0 <= f < pools.protos.len() ==> well_formed(#[trigger] pools.protos[f])
}

/// Level `i` of a state: block `i` of the table is the one block of the
/// function whose pools are at level `i` of the chain.
pub open spec fn level_ok(s: GenView, i: int) -> bool {
    &&& s.table.scopes[i].opens_function
    &&& bindings_bounded(s.table.scopes[i], s.chain[i])
    &&& upvalues_bound(s.chain, i)
    &&& pools_sound(s.chain[i])
}

/// The state between two visits inside a function: there is one block in the
/// table for each function that is being compiled, and every level is sound.
pub open spec fn consistent(s: GenView) -> bool {
    &&& 0 < s.chain.len() <= usize::MAX
    &&& s.table.scopes.len() == s.chain.len()
    &&& forall|i: int| 0 <= i < s.chain.len() ==> level_ok(s, i)
}

/// The second pools hold all that the first hold, at the same places.
pub open spec fn pools_extend(p: AllocView, q: AllocView) -> bool {
    &&& p.regs.size <= q.regs.size
    &&& p.labels <= q.labels
    &&& p.consts.len() <= q.consts.len()
    &&& p.upvalues.len() <= q.upvalues.len()
    &&& forall|j: int| 0 <= j < p.upvalues.len() ==> q.upvalues[j] == p.upvalues[j]
    &&& p.protos.len() <= q.protos.len()
    &&& forall|f: int| 0 <= f < p.protos.len() ==> q.protos[f] == p.protos[f]
}

/// The second state compiles the same functions as the first, each with
/// pools that extend those it had.
pub open spec fn extends(a: GenView, b: GenView) -> bool {
    &&& a.chain.len() == b.chain.len()
    &&& forall|i: int| 0 <= i < a.chain.len() ==> pools_extend(#[trigger] a.chain[i], b.chain[i])
}

/// Pools that extend others offer all that the others offer.
pub proof fn lemma_pools_extend_frame(p: AllocView, q: AllocView)
    requires
        pools_extend(p, q),
    ensures
        frame_le(frame_of(p), frame_of(q)),
{
}

/// Extension is reflexive.
pub proof fn lemma_extends_refl(s: GenView)
    ensures
        extends(s, s),
{
}

/// Extension is transitive.
pub proof fn lemma_extends_trans(a: GenView, b: GenView, c: GenView)
    requires
        extends(a, b),
        extends(b, c),
    ensures
        extends(a, c),
{
    assert forall|i: int| 0 <= i < a.chain.len() implies pools_extend(
        #[trigger] a.chain[i],
        c.chain[i],
    ) by {
        assert(pools_extend(a.chain[i], b.chain[i]));
        assert(pools_extend(b.chain[i], c.chain[i]));
    }
}

/// What grows in the current function keeps the state consistent: more
/// registers, more constants without a value twice, more well-formed nested
/// functions.
pub proof fn lemma_with_current(s: GenView, q: AllocView)
    requires
        consistent(s),
        pools_extend(s.current(), q),
        q.upvalues == s.current().upvalues,
        pools_sound(q),
    ensures
        consistent(s.with_current(q)),
        extends(s, s.with_current(q)),
        s.with_current(q).current() == q,
        s.with_current(q).table == s.table,
{
    let s1 = s.with_current(q);
    let top = s.chain.len() - 1;
    assert forall|i: int| 0 <= i < s1.chain.len() implies level_ok(s1, i) by {
        assert(level_ok(s, i));
        if i < top {
            assert(s1.chain[i] == s.chain[i]);
            if i > 0 {
                assert(s1.chain[i - 1] == s.chain[i - 1]);
            }
        } else {
            if i > 0 {
                assert(s1.chain[i - 1] == s.chain[i - 1]);
            }
        }
    }
    assert forall|i: int| 0 <= i < s.chain.len() implies pools_extend(
        #[trigger] s.chain[i],
        s1.chain[i],
    ) by {}
}

/// Taking a register keeps the state consistent, and the register is in use
/// afterwards.
pub proof fn lemma_fresh_reg(s: GenView, name: Option<Seq<char>>)
    requires
        consistent(s),
    ensures
        s.fresh_reg(name) matches Err(e) ==> e == CompileError::SyntaxError,
        s.fresh_reg(name) matches Ok((s1, reg)) ==> {
            &&& consistent(s1)
            &&& extends(s, s1)
            &&& s1.table == s.table
            &&& reg == s.stack_size()
            &&& s1.stack_size() == reg + 1
        },
{
    reveal(GenView::fresh_reg);
    assert(level_ok(s, s.chain.len() - 1));
    if let Some((regs, reg)) = s.current().regs.push(name) {
        lemma_with_current(s, AllocView { regs, ..s.current() });
    }
}

/// Taking registers keeps the state consistent, and the registers are in use
/// afterwards.
pub proof fn lemma_fresh_regs(s: GenView, count: nat)
    requires
        consistent(s),
    ensures
        s.fresh_regs(count) matches Err(e) ==> e == CompileError::SyntaxError,
        s.fresh_regs(count) matches Ok((s1, first)) ==> {
            &&& consistent(s1)
            &&& extends(s, s1)
            &&& s1.table == s.table
            &&& first == s.stack_size()
            &&& s1.stack_size() == first + count
        },
{
    reveal(GenView::fresh_regs);
    assert(level_ok(s, s.chain.len() - 1));
    if s.stack_size() + count <= Usize::MAX {
        let regs = crate::compiler::resource_allocator::RegView {
            size: (s.stack_size() + count) as Usize,
            ..s.current().regs
        };
        lemma_with_current(s, AllocView { regs, ..s.current() });
    }
}

/// Reserving a register keeps the state consistent, and the register is in
/// use afterwards.
pub proof fn lemma_reserve(s: GenView, reg: Usize)
    requires
        consistent(s),
    ensures
        s.reserve(reg) matches Err(e) ==> e == CompileError::SyntaxError,
        s.reserve(reg) matches Ok(s1) ==> {
            &&& consistent(s1)
            &&& extends(s, s1)
            &&& s1.table == s.table
            &&& reg < s1.stack_size()
        },
{
    reveal(GenView::reserve);
    if reg >= s.stack_size() {
        lemma_fresh_regs(s, (reg + 1 - s.stack_size()) as nat);
    }
}

/// Choosing the register of a value keeps the state consistent, and the
/// register is in use afterwards if the one asked for was.
pub proof fn lemma_dest_reg(s: GenView, want: Option<Usize>)
    requires
        consistent(s),
        want matches Some(reg) ==> reg < s.stack_size(),
    ensures
        s.dest_reg(want) matches Err(e) ==> e == CompileError::SyntaxError,
        s.dest_reg(want) matches Ok((s1, reg)) ==> {
            &&& consistent(s1)
            &&& extends(s, s1)
            &&& s1.table == s.table
            &&& reg < s1.stack_size()
            &&& want is Some ==> s1 == s
        },
{
    reveal(GenView::dest_reg);
    if want is None {
        lemma_fresh_reg(s, None);
    }
}

/// Naming a register keeps the state consistent.
pub proof fn lemma_name_reg(s: GenView, name: Seq<char>, reg: Usize)
    requires
        consistent(s),
    ensures
        consistent(s.name_reg(name, reg)),
        extends(s, s.name_reg(name, reg)),
        s.name_reg(name, reg).table == s.table,
        s.name_reg(name, reg).stack_size() == s.stack_size(),
{
    reveal(GenView::name_reg);
    assert(level_ok(s, s.chain.len() - 1));
    lemma_with_current(
        s,
        AllocView { regs: s.current().regs.push_set(name, reg), ..s.current() },
    );
}

/// Adding a constant keeps the state consistent, and the index given is one
/// of the pool.
pub proof fn lemma_add_const(s: GenView, value: ConstView)
    requires
        consistent(s),
    ensures
        s.add_const(value) matches Err(e) ==> e == CompileError::SyntaxError,
        s.add_const(value) matches Ok((s1, index)) ==> {
            &&& consistent(s1)
            &&& extends(s, s1)
            &&& s1.table == s.table
            &&& s1.stack_size() == s.stack_size()
            &&& index < s1.current().consts.len()
        },
{
    reveal(GenView::add_const);
    assert(level_ok(s, s.chain.len() - 1));
    lemma_const_push(s.current().consts, value);
    if let Some((consts, index)) = const_push(s.current().consts, value) {
        lemma_with_current(s, AllocView { consts, ..s.current() });
    }
}

/// Taking a label keeps the state consistent.
pub proof fn lemma_new_label(s: GenView)
    requires
        consistent(s),
    ensures
        s.new_label() matches Err(e) ==> e == CompileError::SyntaxError,
        s.new_label() matches Ok((s1, label)) ==> {
            &&& consistent(s1)
            &&& extends(s, s1)
            &&& s1.table == s.table
            &&& s1.stack_size() == s.stack_size()
            &&& label == s.current().labels
            &&& s1.current().labels == label + 1
        },
{
    reveal(GenView::new_label);
    assert(level_ok(s, s.chain.len() - 1));
    if let Some((labels, _)) = label_next(s.current().labels) {
        lemma_with_current(s, AllocView { labels, ..s.current() });
    }
}

/// Adding a well-formed nested function keeps the state consistent, and the
/// index given is that of the function.
pub proof fn lemma_add_proto(s: GenView, chunk: ChunkView)
    requires
        consistent(s),
        well_formed(chunk),
    ensures
        s.add_proto(chunk) matches Err(e) ==> e == CompileError::SyntaxError,
        s.add_proto(chunk) matches Ok((s1, index)) ==> {
            &&& consistent(s1)
            &&& extends(s, s1)
            &&& s1.table == s.table
            &&& s1.stack_size() == s.stack_size()
            &&& index < s1.current().protos.len()
            &&& s1.current().protos[index as int] == chunk
            &&& s1.current().upvalues == s.current().upvalues
        },
{
    reveal(GenView::add_proto);
    assert(level_ok(s, s.chain.len() - 1));
    if let Some((protos, index)) = proto_push(s.current().protos, chunk) {
        lemma_with_current(s, AllocView { protos, ..s.current() });
    }
}

/// Binding a name to a register in use keeps the state consistent.
pub proof fn lemma_define_local(s: GenView, name: Seq<char>, reg: Usize)
    requires
        consistent(s),
        reg < s.stack_size(),
    ensures
        consistent(s.with_table(s.table.define_local(name, reg))),
        extends(s, s.with_table(s.table.define_local(name, reg))),
{
    let s1 = s.with_table(s.table.define_local(name, reg));
    assert forall|i: int| 0 <= i < s1.chain.len() implies level_ok(s1, i) by {
        assert(level_ok(s, i));
    }
}

/// Recording a global keeps the state consistent.
pub proof fn lemma_define_global(s: GenView, name: Seq<char>)
    requires
        consistent(s),
    ensures
        consistent(s.with_table(s.table.define_global(name))),
        extends(s, s.with_table(s.table.define_global(name))),
{
    let s1 = s.with_table(s.table.define_global(name));
    assert forall|i: int| 0 <= i < s1.chain.len() implies level_ok(s1, i) by {
        assert(level_ok(s, i));
    }
}

/// A binding that is found names a register below the bound of its block.
pub proof fn lemma_find_binding(
    bindings: Seq<(Seq<char>, Usize)>,
    upto: int,
    name: Seq<char>,
    limit: int,
)
    requires
        forall|j: int| 0 <= j < bindings.len() ==> (#[trigger] bindings[j]).1 < limit,
    ensures
        find_binding(bindings, upto, name) matches Some(reg) ==> reg < limit,
    decreases upto,
{
    if 0 < upto <= bindings.len() && bindings[upto - 1].0 != name {
        lemma_find_binding(bindings, upto - 1, name, limit);
    }
}

/// What a lookup finds in a consistent state: a local is bound to a register
/// of the current function, an upvalue to a register of the function that
/// many levels out.
pub proof fn lemma_resolve_name(s: GenView, upto: int, name: Seq<char>, depth: nat)
    requires
        consistent(s),
        0 <= upto <= s.chain.len(),
        depth + upto == s.chain.len(),
    ensures
        match resolve_name(s.table.scopes, upto, name, depth) {
            (SymbolScope::Local, reg) => depth == 0 && reg < s.stack_size(),
            (SymbolScope::UpValue(d), reg) => 0 < d < s.chain.len() && reg < s.chain[s.chain.len()
                - 1 - d].regs.size,
            (SymbolScope::Global, _) => true,
        },
    decreases upto,
{
    if upto > 0 {
        let scope = s.table.scopes[upto - 1];
        assert(level_ok(s, upto - 1));
        lemma_find_binding(
            scope.bindings,
            scope.bindings.len() as int,
            name,
            s.chain[upto - 1].regs.size as int,
        );
        if find_binding(scope.bindings, scope.bindings.len() as int, name) is None {
            lemma_resolve_name(s, upto - 1, name, depth + 1);
        }
    }
}

/// Capturing keeps the upvalues of every function bound, changes nothing
/// else, and gives a slot of the function that captures.
pub proof fn lemma_propagate(
    chain: Seq<AllocView>,
    level: int,
    name: Seq<char>,
    origin_reg: Usize,
    depth: nat,
)
    requires
        0 <= level < chain.len(),
        forall|i: int| 0 <= i <= level ==> upvalues_bound(chain, i),
        0 < depth <= level ==> origin_reg < chain[level - depth].regs.size,
    ensures
        0 < depth <= level ==> (propagate(chain, level, name, origin_reg, depth) matches Err(e)
            ==> e == CompileError::SyntaxError),
        propagate(chain, level, name, origin_reg, depth) matches Ok((after, slot)) ==> {
            &&& after.len() == chain.len()
            &&& forall|i: int| 0 <= i <= level ==> upvalues_bound(after, i)
            &&& forall|i: int|
                0 <= i < chain.len() ==> pools_extend(chain[i], #[trigger] after[i]) && after[i]
                    == (AllocView { upvalues: after[i].upvalues, ..chain[i] })
            &&& forall|i: int| level < i < chain.len() ==> after[i] == chain[i]
            &&& slot < after[level].upvalues.len()
        },
    decreases depth,
{
    if depth == 0 || level < depth {
    } else {
        let outer = if depth == 1 {
            Ok((chain, origin_reg))
        } else {
            propagate(chain, level - 1, name, origin_reg, (depth - 1) as nat)
        };
        if depth > 1 {
            lemma_propagate(chain, level - 1, name, origin_reg, (depth - 1) as nat);
        }
        if let Ok((chain1, source)) = outer {
            assert(chain1[level] == chain[level]);
            assert(upvalues_bound(chain, level));
            lemma_upvalue_add(chain1[level].upvalues, name, depth == 1, source);
            if let Some((upvalues, slot)) = upvalue_add(
                chain1[level].upvalues,
                name,
                depth == 1,
                source,
            ) {
                let after = chain1.update(level, AllocView { upvalues, ..chain1[level] });
                assert forall|i: int| 0 <= i <= level implies upvalues_bound(after, i) by {
                    if i < level {
                        assert(upvalues_bound(chain1, i));
                        assert(after[i] == chain1[i]);
                        if i > 0 {
                            assert(after[i - 1] == chain1[i - 1]);
                        }
                    } else {
                        assert(after[level - 1] == chain1[level - 1]);
                        assert(pools_extend(chain[level - 1], chain1[level - 1]));
                        let list = descriptors(upvalues);
                        let frame = frame_of(after[level - 1]);
                        assert forall|j: int| 0 <= j < list.len() implies {
                            &&& (#[trigger] list[j]).slot_in_closure == j
                            &&& list[j].is_immediate ==> list[j].slot_in_enclosing < frame.registers
                            &&& !list[j].is_immediate ==> list[j].slot_in_enclosing
                                < frame.upvalues
                        } by {
                            if j < chain[level].upvalues.len() {
                                assert(upvalues[j] == chain[level].upvalues[j]);
                                assert(descriptors(chain[level].upvalues)[j]
                                    == chain[level].upvalues[j].descriptor);
                            }
                        }
                    }
                }
                assert forall|i: int| 0 <= i < chain.len() implies pools_extend(
                    chain[i],
                    #[trigger] after[i],
                ) && after[i] == (AllocView { upvalues: after[i].upvalues, ..chain[i] }) by {
                    assert(pools_extend(chain[i], chain1[i]));
                }
            }
        }
    }
}

/// Capturing keeps the state consistent, and the slot given is one of the
/// current function.
pub proof fn lemma_capture(s: GenView, name: Seq<char>, origin_reg: Usize, depth: nat)
    requires
        consistent(s),
        0 < depth < s.chain.len(),
        origin_reg < s.chain[s.chain.len() - 1 - depth].regs.size,
    ensures
        s.capture(name, origin_reg, depth) matches Err(e) ==> e == CompileError::SyntaxError,
        s.capture(name, origin_reg, depth) matches Ok((s1, slot)) ==> {
            &&& consistent(s1)
            &&& extends(s, s1)
            &&& s1.table == s.table
            &&& s1.stack_size() == s.stack_size()
            &&& slot < s1.current().upvalues.len()
        },
{
    reveal(GenView::capture);
    let level = s.chain.len() - 1;
    assert forall|i: int| 0 <= i <= level implies upvalues_bound(s.chain, i) by {
        assert(level_ok(s, i));
    }
    lemma_propagate(s.chain, level, name, origin_reg, depth);
    if let Ok((chain, slot)) = propagate(s.chain, level, name, origin_reg, depth) {
        let s1 = GenView { chain, ..s };
        assert forall|i: int| 0 <= i < s1.chain.len() implies level_ok(s1, i) by {
            assert(level_ok(s, i));
            assert(pools_extend(s.chain[i], chain[i]));
            assert(upvalues_bound(chain, i));
        }
        assert forall|i: int| 0 <= i < s.chain.len() implies pools_extend(
            #[trigger] s.chain[i],
            s1.chain[i],
        ) by {
            assert(pools_extend(s.chain[i], chain[i]));
        }
    }
}

} // verus!
