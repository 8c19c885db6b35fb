//! Laws of the scope tree and of lowering, proved of the models that the
//! contracts of the library speak of.

use vstd::prelude::*;
use crate::lowering::{GenState, lower, statement_kind};
use crate::symbol_table::{
    MAX_ORDINAL, MIN_ORDINAL, ScopeTreeModel, SymbolTableModel, WORD_SIZE, bind_in,
    lemma_position, lookup_in, owner_of, position, push_child_in, table_contains, table_insert,
    tree_wf,
};
use crate::syntax::NodeModel;

verus! {

/// Shadowing. Where a frame declares `x` as `int` and a block inside it
/// declares `x` again as `bool`, `x` denotes the `bool` symbol when seen from
/// the block and the `int` symbol when seen from the frame around it.
pub proof fn law_scope_shadowing(t: ScopeTreeModel, outer: nat, x: Seq<char>)
    requires
        tree_wf(t),
        outer < t.frames.len(),
        !table_contains(t.frames[outer as int].table, x),
    ensures
        ({
            let declared = bind_in(t, outer, x, "int"@, false);
            let inner = t.frames.len();
            let entered = push_child_in(declared, outer, declared.frames[outer as int].table.ordinal);
            let redeclared = bind_in(entered, inner, x, "bool"@, false);
            &&& match lookup_in(redeclared, inner, x) {
                Some(symbol) => symbol.primitive == "bool"@,
                None => false,
            }
            &&& match lookup_in(redeclared, outer, x) {
                Some(symbol) => symbol.primitive == "int"@,
                None => false,
            }
        }),
{
    let declared = bind_in(t, outer, x, "int"@, false);
    let inner = t.frames.len();
    let entered = push_child_in(declared, outer, declared.frames[outer as int].table.ordinal);
    let redeclared = bind_in(entered, inner, x, "bool"@, false);
    let outer_entries = redeclared.frames[outer as int].table.entries;
    let inner_entries = redeclared.frames[inner as int].table.entries;
    let last = t.frames[outer as int].table.entries.len() as int;
    lemma_position(t.frames[outer as int].table.entries, x, 0);
    lemma_position(outer_entries, x, 0);
    lemma_position(inner_entries, x, 0);
    assert(outer_entries[last].name == x);
    assert forall|k: int| 0 <= k < last implies (#[trigger] outer_entries[k]).name != x by {
        assert(outer_entries[k] == t.frames[outer as int].table.entries[k]);
    }
    assert(position(outer_entries, x, 0) == Some(last as nat));
    assert(inner_entries[0].name == x);
    assert(position(inner_entries, x, 0) == Some(0nat));
    assert(owner_of(redeclared, inner, x) == Some(inner));
    assert(owner_of(redeclared, outer, x) == Some(outer));
}

/// The table after the names of `names` have been declared as locals of
/// type `prim`, one after the other, from the index `i` on.
pub open spec fn declared_from(
    t: SymbolTableModel,
    names: Seq<Seq<char>>,
    prim: Seq<char>,
    i: nat,
) -> SymbolTableModel
    decreases names.len() - i,
{
    if i >= names.len() {
        t
    } else {
        declared_from(table_insert(t, names[i as int], prim, false), names, prim, i + 1)
    }
}

/// Offsets. A run of declarations in one frame gives the declaration number
/// `k` of the run the offset of the word size times the ordinal at which the
/// run started plus `k`; so the offsets grow strictly, one word at a time.
pub proof fn law_offsets(t: SymbolTableModel, names: Seq<Seq<char>>, prim: Seq<char>)
    requires
        MIN_ORDINAL <= t.ordinal,
        t.ordinal + names.len() <= MAX_ORDINAL + 1,
    ensures
        ({
            let r = declared_from(t, names, prim, 0);
            &&& r.entries.len() == t.entries.len() + names.len()
            &&& r.ordinal == t.ordinal + names.len()
            &&& forall|k: int|
                0 <= k < names.len() ==> (#[trigger] r.entries[t.entries.len() + k]).name
                    == names[k] && r.entries[t.entries.len() + k].symbol.addr == WORD_SIZE * (
                t.ordinal + k)
            &&& forall|j: int, k: int|
                0 <= j < k < names.len() ==> (#[trigger] r.entries[t.entries.len() + j]).symbol.addr
                    < (#[trigger] r.entries[t.entries.len() + k]).symbol.addr
        }),
{
    lemma_declared_from(t, names, prim, 0);
}

/// What `declared_from` appends, entry by entry.
proof fn lemma_declared_from(t: SymbolTableModel, names: Seq<Seq<char>>, prim: Seq<char>, i: nat)
    requires
        i <= names.len(),
        MIN_ORDINAL <= t.ordinal,
        t.ordinal + (names.len() - i) <= MAX_ORDINAL + 1,
    ensures
        ({
            let r = declared_from(t, names, prim, i);
            &&& r.entries.len() == t.entries.len() + (names.len() - i)
            &&& r.ordinal == t.ordinal + (names.len() - i)
            &&& forall|k: int| 0 <= k < t.entries.len() ==> #[trigger] r.entries[k] == t.entries[k]
            &&& forall|k: int|
                0 <= k < names.len() - i ==> (#[trigger] r.entries[t.entries.len() + k]).name
                    == names[i + k] && r.entries[t.entries.len() + k].symbol.addr == WORD_SIZE * (
                t.ordinal + k)
        }),
    decreases names.len() - i,
{
    if i < names.len() {
        let next = table_insert(t, names[i as int], prim, false);
        lemma_declared_from(next, names, prim, i + 1);
        let r = declared_from(t, names, prim, i);
        assert forall|k: int| 0 <= k < names.len() - i implies (#[trigger] r.entries[t.entries.len()
            + k]).name == names[i + k] && r.entries[t.entries.len() + k].symbol.addr == WORD_SIZE
            * (t.ordinal + k) by {
            if k == 0 {
                assert(r.entries[t.entries.len() as int] == next.entries[t.entries.len() as int]);
            } else {
                assert(r.entries[next.entries.len() + (k - 1)].name == names[i + 1 + (k - 1)]);
            }
        }
    }
}

/// A block goes on counting where the frame around it stands: the first
/// local of a frame entered at the running ordinal of its parent receives
/// the offset that the parent's next local would have received.
pub proof fn law_nested_offsets(t: ScopeTreeModel, frame: nat, x: Seq<char>, prim: Seq<char>)
    requires
        tree_wf(t),
        frame < t.frames.len(),
        MIN_ORDINAL <= t.frames[frame as int].table.ordinal <= MAX_ORDINAL,
    ensures
        ({
            let child = t.frames.len();
            let entered = push_child_in(t, frame, t.frames[frame as int].table.ordinal);
            let declared = bind_in(entered, child, x, prim, false);
            match lookup_in(declared, child, x) {
                Some(symbol) => symbol.addr == WORD_SIZE * t.frames[frame as int].table.ordinal,
                None => false,
            }
        }),
{
    let child = t.frames.len();
    let entered = push_child_in(t, frame, t.frames[frame as int].table.ordinal);
    let declared = bind_in(entered, child, x, prim, false);
    let entries = declared.frames[child as int].table.entries;
    lemma_position(entries, x, 0);
    assert(entries[0].name == x);
    assert(position(entries, x, 0) == Some(0nat));
    assert(owner_of(declared, child, x) == Some(child));
}

/// A statement hands no register on to its parent: where its lowering
/// succeeds, it yields none. Together with the balance that every generating
/// function keeps, this says that a finished statement has given back every
/// register that was taken for it.
pub proof fn law_statements_yield_nothing(
    node: NodeModel,
    st: GenState,
    frame: nat,
    prev: Option<u32>,
    end_label: Option<u32>,
)
    requires
        statement_kind(node.kind),
    ensures
        match lower(node, st, frame, prev, end_label) {
            Ok((s, r)) => r is None,
            Err(_) => true,
        },
{
}

} // verus!
