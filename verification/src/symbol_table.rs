//! The scope tree: lexical symbol frames with parent links.
//!
//! Frames live in one flat arena and refer to each other by index. A frame's
//! parent always has a smaller index, so an upward search ends at the root.

use vstd::prelude::*;
use crate::views::{views, lemma_views_push, lemma_views_prefix, lemma_views_update};

verus! {

/// Bytes taken by one stack slot.
pub const WORD_SIZE: i32 = 8;

/// The largest ordinal whose stack offset still fits the offset type.
pub const MAX_ORDINAL: i32 = 268435455;

/// The smallest ordinal whose stack offset still fits the offset type.
pub const MIN_ORDINAL: i32 = -268435455;

/// What is known of one declared name.
///
/// `addr` is the distance of the slot from the frame pointer in bytes. The
/// slot of a local lies below the frame pointer, that of an argument above
/// it; `argument` tells which. `register` is the index of the register that
/// last held the value, or `-1`.
#[derive(Clone, Debug)]
pub struct Symbol {
    pub primitive: String,
    pub addr: i32,
    pub size: u32,
    pub register: i32,
    pub func: bool,
    pub argument: bool,
}

/// The mathematical value of a [`Symbol`].
pub struct SymbolModel {
    pub primitive: Seq<char>,
    pub addr: i32,
    pub size: u32,
    pub register: i32,
    pub func: bool,
    pub argument: bool,
}

impl View for Symbol {
    type V = SymbolModel;

    open spec fn view(&self) -> SymbolModel {
        SymbolModel {
            primitive: self.primitive@,
            addr: self.addr,
            size: self.size,
            register: self.register,
            func: self.func,
            argument: self.argument,
        }
    }
}

impl Symbol {
    /// A copy with the same value.
    pub fn duplicate(&self) -> (s: Symbol)
        ensures
            s@ == self@,
    {
        Symbol {
            primitive: self.primitive.clone(),
            addr: self.addr,
            size: self.size,
            register: self.register,
            func: self.func,
            argument: self.argument,
        }
    }
}

/// One declaration: a name and its symbol.
#[derive(Clone, Debug)]
pub struct Binding {
    pub name: String,
    pub symbol: Symbol,
}

/// The mathematical value of a [`Binding`].
pub struct BindingModel {
    pub name: Seq<char>,
    pub symbol: SymbolModel,
}

impl View for Binding {
    type V = BindingModel;

    open spec fn view(&self) -> BindingModel {
        BindingModel { name: self.name@, symbol: self.symbol@ }
    }
}

/// The declarations of one frame, in declaration order, and the ordinal that
/// the next local declaration receives.
pub struct SymbolTable {
    pub symbol_table: Vec<Binding>,
    pub ordinal: i32,
}

/// The mathematical value of a [`SymbolTable`].
pub struct SymbolTableModel {
    pub entries: Seq<BindingModel>,
    pub ordinal: i32,
}

impl View for SymbolTable {
    type V = SymbolTableModel;

    open spec fn view(&self) -> SymbolTableModel {
        SymbolTableModel { entries: views(self.symbol_table@), ordinal: self.ordinal }
    }
}

/// The first index at or after `from` whose entry is named `name`.
pub open spec fn position(entries: Seq<BindingModel>, name: Seq<char>, from: nat) -> Option<nat>
    decreases entries.len() - from,
{
    if from >= entries.len() {
        None
    } else if entries[from as int].name == name {
        Some(from)
    } else {
        position(entries, name, from + 1)
    }
}

/// Whether the table declares `name`.
pub open spec fn table_contains(t: SymbolTableModel, name: Seq<char>) -> bool {
    position(t.entries, name, 0) is Some
}

/// The symbol that the table holds for `name`, if any.
pub open spec fn table_lookup(t: SymbolTableModel, name: Seq<char>) -> Option<SymbolModel> {
    match position(t.entries, name, 0) {
        Some(i) => Some(t.entries[i as int].symbol),
        None => None,
    }
}

/// No name is declared twice, and the offset of every local is smaller than
/// the one that the next local receives.
pub open spec fn table_wf(t: SymbolTableModel) -> bool {
    &&& forall|i: int, j: int|
        0 <= i < j < t.entries.len() ==> (#[trigger] t.entries[i]).name != (
        #[trigger] t.entries[j]).name
    &&& forall|i: int|
        0 <= i < t.entries.len() && !(#[trigger] t.entries[i]).symbol.argument
            ==> t.entries[i].symbol.addr < WORD_SIZE * t.ordinal
}

/// Whether `name` can be declared as a local: it is new to the table and the
/// next ordinal still has a representable offset.
pub open spec fn can_insert(t: SymbolTableModel, name: Seq<char>) -> bool {
    &&& !table_contains(t, name)
    &&& MIN_ORDINAL <= t.ordinal <= MAX_ORDINAL
}

/// The symbol that a local declaration of type `prim` receives at `ordinal`.
pub open spec fn local_symbol(prim: Seq<char>, ordinal: i32, func: bool) -> SymbolModel {
    SymbolModel {
        primitive: prim,
        addr: (WORD_SIZE * ordinal) as i32,
        size: 8,
        register: -1i32,
        func: func,
        argument: false,
    }
}

/// The table after a local declaration of `name`.
pub open spec fn table_insert(
    t: SymbolTableModel,
    name: Seq<char>,
    prim: Seq<char>,
    func: bool,
) -> SymbolTableModel {
    SymbolTableModel {
        entries: t.entries.push(
            BindingModel { name: name, symbol: local_symbol(prim, t.ordinal, func) },
        ),
        ordinal: (t.ordinal + 1) as i32,
    }
}

/// The symbol that the argument number `arg_ordinal` of type `prim` receives.
pub open spec fn argument_symbol(prim: Seq<char>, arg_ordinal: i32) -> SymbolModel {
    SymbolModel {
        primitive: prim,
        addr: (WORD_SIZE * arg_ordinal) as i32,
        size: 8,
        register: -1i32,
        func: false,
        argument: true,
    }
}

/// The table after the declaration of an argument: the running ordinal of
/// the locals stays as it is.
pub open spec fn table_insert_argument(
    t: SymbolTableModel,
    name: Seq<char>,
    prim: Seq<char>,
    arg_ordinal: i32,
) -> SymbolTableModel {
    SymbolTableModel {
        entries: t.entries.push(
            BindingModel { name: name, symbol: argument_symbol(prim, arg_ordinal) },
        ),
        ordinal: t.ordinal,
    }
}

/// The table after `register` has been recorded for `name`; unchanged where
/// the table does not declare `name`.
pub open spec fn table_set_register(
    t: SymbolTableModel,
    name: Seq<char>,
    register: i32,
) -> SymbolTableModel {
    match position(t.entries, name, 0) {
        Some(i) => SymbolTableModel {
            entries: t.entries.update(
                i as int,
                BindingModel {
                    name: t.entries[i as int].name,
                    symbol: SymbolModel { register: register, ..t.entries[i as int].symbol },
                },
            ),
            ordinal: t.ordinal,
        },
        None => t,
    }
}

/// What `position` finds is in range, carries the name, and is the first
/// such entry; where it finds nothing, no entry carries the name.
pub proof fn lemma_position(entries: Seq<BindingModel>, name: Seq<char>, from: nat)
    ensures
        match position(entries, name, from) {
            Some(i) => {
                &&& from <= i < entries.len()
                &&& entries[i as int].name == name
                &&& forall|k: int| from <= k < i ==> (#[trigger] entries[k]).name != name
            },
            None => forall|k: int|
                from <= k < entries.len() ==> (#[trigger] entries[k]).name != name,
        },
    decreases entries.len() - from,
{
    if from < entries.len() && entries[from as int].name != name {
        lemma_position(entries, name, from + 1);
    }
}

impl SymbolTable {
    /// No name is declared twice, and the offset of every local is smaller
    /// than the one that the next local receives.
    pub open spec fn wf(&self) -> bool {
        table_wf(self@)
    }

    /// An empty table whose first local receives `ordinal`.
    pub fn new(ordinal: i32) -> (t: SymbolTable)
        ensures
            t@ == (SymbolTableModel { entries: Seq::empty(), ordinal: ordinal }),
            t.wf(),
    {
        let t = SymbolTable { symbol_table: Vec::new(), ordinal: ordinal };
        assert(t@.entries =~= Seq::empty());
        t
    }

    /// The index of the declaration of `identifier`.
    pub fn find(&self, identifier: &String) -> (r: Option<usize>)
        ensures
            match r {
                Some(i) => position(self@.entries, identifier@, 0) == Some(i as nat),
                None => position(self@.entries, identifier@, 0) is None,
            },
    {
        let mut i: usize = 0;
        while i < self.symbol_table.len()
            invariant
                i <= self.symbol_table.len(),
                position(self@.entries, identifier@, 0) == position(
                    self@.entries,
                    identifier@,
                    i as nat,
                ),
            decreases self.symbol_table.len() - i,
        {
            if self.symbol_table[i].name == *identifier {
                return Some(i);
            }
            i += 1;
        }
        None
    }

    /// Whether the table can take a local declaration of `identifier`.
    pub fn accepts(&self, identifier: &String) -> (r: bool)
        ensures
            r == can_insert(self@, identifier@),
    {
        self.find(identifier).is_none() && MIN_ORDINAL <= self.ordinal && self.ordinal
            <= MAX_ORDINAL
    }

    /// Declares the local `identifier` of type `prim` at the running ordinal,
    /// which it then advances by one. The offset of the new symbol is the
    /// word size times that ordinal, and so greater than the offset of every
    /// local that the table held before.
    pub fn insert(&mut self, identifier: &String, prim: &String, func: bool)
        requires
            old(self).wf(),
            can_insert(old(self)@, identifier@),
        ensures
            final(self)@ == table_insert(old(self)@, identifier@, prim@, func),
            final(self).wf(),
            table_lookup(final(self)@, identifier@) == Some(
                local_symbol(prim@, old(self).ordinal, func),
            ),
            final(self).ordinal == old(self).ordinal + 1,
            forall|k: int|
                0 <= k < old(self)@.entries.len() && !(#[trigger] old(
                    self,
                )@.entries[k]).symbol.argument ==> old(self)@.entries[k].symbol.addr < WORD_SIZE
                    * old(self).ordinal,
    {
        let symbol = Symbol {
            primitive: prim.clone(),
            addr: WORD_SIZE * self.ordinal,
            size: 8,
            register: -1i32,
            func: func,
            argument: false,
        };
        proof {
            lemma_views_push(self.symbol_table@, Binding { name: *identifier, symbol: symbol });
            lemma_position(self@.entries, identifier@, 0);
        }
        self.symbol_table.push(Binding { name: identifier.clone(), symbol: symbol });
        self.ordinal = self.ordinal + 1;
        proof {
            let grown = self@.entries;
            let last = old(self)@.entries.len() as int;
            lemma_position(grown, identifier@, 0);
            assert(grown[last].name == identifier@);
            assert forall|k: int| 0 <= k < last implies (#[trigger] grown[k]).name
                != identifier@ by {
                assert(grown[k] == old(self)@.entries[k]);
            }
            assert(position(grown, identifier@, 0) == Some(last as nat));
        }
    }

    /// Declares the argument `identifier` of type `prim`. Its offset is the
    /// word size times `arg_ordinal`, counted upwards from the frame pointer;
    /// the running ordinal of the locals stays as it is.
    pub fn insert_argument(&mut self, identifier: &String, prim: &String, arg_ordinal: i32)
        requires
            old(self).wf(),
            !table_contains(old(self)@, identifier@),
            MIN_ORDINAL <= arg_ordinal <= MAX_ORDINAL,
        ensures
            final(self)@ == table_insert_argument(old(self)@, identifier@, prim@, arg_ordinal),
            final(self).wf(),
    {
        let symbol = Symbol {
            primitive: prim.clone(),
            addr: WORD_SIZE * arg_ordinal,
            size: 8,
            register: -1i32,
            func: false,
            argument: true,
        };
        proof {
            lemma_views_push(self.symbol_table@, Binding { name: *identifier, symbol: symbol });
            lemma_position(self@.entries, identifier@, 0);
        }
        self.symbol_table.push(Binding { name: identifier.clone(), symbol: symbol });
    }

    /// The symbol declared for `identifier`, if any.
    pub fn query(&self, identifier: &String) -> (r: Option<&Symbol>)
        ensures
            match r {
                Some(s) => table_lookup(self@, identifier@) == Some(s@),
                None => table_lookup(self@, identifier@) is None,
            },
    {
        match self.find(identifier) {
            Some(i) => {
                proof {
                    lemma_position(self@.entries, identifier@, 0);
                }
                Some(&self.symbol_table[i].symbol)
            },
            None => None,
        }
    }

    /// Records `register` as the register that holds `identifier`.
    pub fn modify_register(&mut self, identifier: &String, register: i32)
        requires
            old(self).wf(),
            table_contains(old(self)@, identifier@),
        ensures
            final(self)@ == table_set_register(old(self)@, identifier@, register),
            final(self).wf(),
    {
        match self.find(identifier) {
            Some(i) => {
                proof {
                    lemma_position(self@.entries, identifier@, 0);
                }
                let ghost before = self.symbol_table@;
                self.symbol_table[i].symbol.register = register;
                proof {
                    assert(self.symbol_table@ =~= before.update(i as int, self.symbol_table@[i as int]));
                    lemma_views_update(before, i as int, self.symbol_table@[i as int]);
                    assert(self@.entries =~= table_set_register(
                        old(self)@,
                        identifier@,
                        register,
                    ).entries);
                }
            },
            None => {},
        }
    }
}

/// One frame of the scope tree.
///
/// `scope_index` counts how many of `children` a later walk has already
/// visited. `parent` and `children` are indices into the arena.
pub struct STNode {
    pub scope_index: usize,
    pub table: SymbolTable,
    pub parent: Option<usize>,
    pub children: Vec<usize>,
}

/// The mathematical value of an [`STNode`].
pub struct FrameModel {
    pub scope_index: usize,
    pub table: SymbolTableModel,
    pub parent: Option<usize>,
    pub children: Seq<usize>,
}

impl View for STNode {
    type V = FrameModel;

    open spec fn view(&self) -> FrameModel {
        FrameModel {
            scope_index: self.scope_index,
            table: self.table@,
            parent: self.parent,
            children: self.children@,
        }
    }
}

/// A frame without parent or children, whose first local receives `ordinal`.
pub open spec fn fresh_frame(ordinal: i32, parent: Option<usize>) -> FrameModel {
    FrameModel {
        scope_index: 0,
        table: SymbolTableModel { entries: Seq::empty(), ordinal: ordinal },
        parent: parent,
        children: Seq::empty(),
    }
}

/// Creates a detached frame whose first local receives `ordinal`.
pub fn create_new_stnode(ordinal: i32) -> (node: STNode)
    ensures
        node@ == fresh_frame(ordinal, None),
{
    STNode {
        scope_index: 0,
        table: SymbolTable::new(ordinal),
        parent: None,
        children: Vec::new(),
    }
}

/// All frames of one compilation, the root first.
pub struct ScopeTree {
    pub nodes: Vec<STNode>,
}

/// The mathematical value of a [`ScopeTree`].
pub struct ScopeTreeModel {
    pub frames: Seq<FrameModel>,
}

impl View for ScopeTree {
    type V = ScopeTreeModel;

    open spec fn view(&self) -> ScopeTreeModel {
        ScopeTreeModel { frames: views(self.nodes@) }
    }
}

/// Frame `i` declares no name twice, its parent lies before it and its
/// children lie behind it, inside the arena.
pub open spec fn frame_wf(t: ScopeTreeModel, i: int) -> bool {
    &&& table_wf(t.frames[i].table)
    &&& match t.frames[i].parent {
        Some(p) => p < i,
        None => true,
    }
    &&& forall|k: int|
        0 <= k < t.frames[i].children.len() ==> i < (#[trigger] t.frames[i].children[k])
            < t.frames.len()
}

/// Every frame is well formed.
pub open spec fn tree_wf(t: ScopeTreeModel) -> bool {
    forall|i: int| 0 <= i < t.frames.len() ==> #[trigger] frame_wf(t, i)
}

/// The nearest frame, from `frame` upward, that declares `name`.
pub open spec fn owner_of(t: ScopeTreeModel, frame: nat, name: Seq<char>) -> Option<nat>
    decreases frame,
{
    if frame >= t.frames.len() {
        None
    } else if table_contains(t.frames[frame as int].table, name) {
        Some(frame)
    } else {
        match t.frames[frame as int].parent {
            Some(p) => if p < frame {
                owner_of(t, p as nat, name)
            } else {
                None
            },
            None => None,
        }
    }
}

/// The symbol that `name` denotes when seen from `frame`: that of the nearest
/// enclosing declaration.
pub open spec fn lookup_in(t: ScopeTreeModel, frame: nat, name: Seq<char>) -> Option<SymbolModel> {
    match owner_of(t, frame, name) {
        Some(f) => table_lookup(t.frames[f as int].table, name),
        None => None,
    }
}

/// The tree with the table of `frame` replaced.
pub open spec fn with_table(t: ScopeTreeModel, frame: nat, table: SymbolTableModel) -> ScopeTreeModel {
    ScopeTreeModel {
        frames: t.frames.update(
            frame as int,
            FrameModel { table: table, ..t.frames[frame as int] },
        ),
    }
}

/// The tree after `name` has been declared as a local of `frame`.
pub open spec fn bind_in(
    t: ScopeTreeModel,
    frame: nat,
    name: Seq<char>,
    prim: Seq<char>,
    func: bool,
) -> ScopeTreeModel {
    with_table(t, frame, table_insert(t.frames[frame as int].table, name, prim, func))
}

/// The tree after `name` has been declared as an argument of `frame`.
pub open spec fn bind_arg_in(
    t: ScopeTreeModel,
    frame: nat,
    name: Seq<char>,
    prim: Seq<char>,
    arg_ordinal: i32,
) -> ScopeTreeModel {
    with_table(
        t,
        frame,
        table_insert_argument(t.frames[frame as int].table, name, prim, arg_ordinal),
    )
}

/// The tree after a new, empty frame has been appended as the last child of
/// `frame`. The new frame has the index `t.frames.len()`.
pub open spec fn push_child_in(t: ScopeTreeModel, frame: nat, ordinal: i32) -> ScopeTreeModel {
    ScopeTreeModel {
        frames: t.frames.update(
            frame as int,
            FrameModel {
                children: t.frames[frame as int].children.push(t.frames.len() as usize),
                ..t.frames[frame as int]
            },
        ).push(fresh_frame(ordinal, Some(frame as usize))),
    }
}

/// The tree after `register` has been recorded for `name` in the nearest
/// frame, from `frame` upward, that declares it; unchanged where none does.
pub open spec fn set_register_in(
    t: ScopeTreeModel,
    frame: nat,
    name: Seq<char>,
    register: i32,
) -> ScopeTreeModel {
    match owner_of(t, frame, name) {
        Some(f) => with_table(t, f, table_set_register(t.frames[f as int].table, name, register)),
        None => t,
    }
}

/// The tree after the walk over the children of `frame` has moved on by one.
pub open spec fn advance_in(t: ScopeTreeModel, frame: nat) -> ScopeTreeModel {
    ScopeTreeModel {
        frames: t.frames.update(
            frame as int,
            FrameModel {
                scope_index: (t.frames[frame as int].scope_index + 1) as usize,
                ..t.frames[frame as int]
            },
        ),
    }
}

/// The child of `frame` that the walk visits next, if one is left.
pub open spec fn next_child_in(t: ScopeTreeModel, frame: nat) -> Option<usize> {
    if frame < t.frames.len() && t.frames[frame as int].scope_index
        < t.frames[frame as int].children.len() {
        Some(t.frames[frame as int].children[t.frames[frame as int].scope_index as int])
    } else {
        None
    }
}

/// `a` is the beginning of `b`.
pub open spec fn starts<T>(a: Seq<T>, b: Seq<T>) -> bool {
    &&& a.len() <= b.len()
    &&& forall|k: int| 0 <= k < a.len() ==> a[k] == b[k]
}

/// `after` arose from `before` by declarations in `frame` and by new frames:
/// every other old frame is as it was, and `frame` kept its parent, its walk
/// position and, at their beginning, its declarations and its children.
pub open spec fn extends(before: ScopeTreeModel, frame: nat, after: ScopeTreeModel) -> bool {
    &&& frame < before.frames.len() <= after.frames.len()
    &&& forall|i: int|
        0 <= i < before.frames.len() && i != frame ==> #[trigger] after.frames[i]
            == before.frames[i]
    &&& after.frames[frame as int].parent == before.frames[frame as int].parent
    &&& after.frames[frame as int].scope_index == before.frames[frame as int].scope_index
    &&& starts(
        before.frames[frame as int].table.entries,
        after.frames[frame as int].table.entries,
    )
    &&& starts(before.frames[frame as int].children, after.frames[frame as int].children)
}

/// A tree extends itself.
pub proof fn lemma_extends_refl(t: ScopeTreeModel, frame: nat)
    requires
        frame < t.frames.len(),
    ensures
        extends(t, frame, t),
{
}

/// Extensions compose, where the second one works on the same frame or on a
/// frame that the first one's starting point did not have yet.
pub proof fn lemma_extends_trans(
    a: ScopeTreeModel,
    frame: nat,
    b: ScopeTreeModel,
    inner: nat,
    c: ScopeTreeModel,
)
    requires
        extends(a, frame, b),
        extends(b, inner, c),
        inner == frame || inner >= a.frames.len(),
    ensures
        extends(a, frame, c),
{
    assert forall|i: int| 0 <= i < a.frames.len() && i != frame implies #[trigger] c.frames[i]
        == a.frames[i] by {
        assert(b.frames[i] == a.frames[i]);
    }
    if inner != frame {
        assert(c.frames[frame as int] == b.frames[frame as int]);
    }
}

/// A record of how far a tree had grown, from which [`ScopeTree::rollback`]
/// can cut it back.
pub struct ScopeMark {
    pub frames: usize,
    pub entries: usize,
    pub children: usize,
    pub ordinal: i32,
    pub before: Ghost<ScopeTreeModel>,
}

impl ScopeMark {
    /// The mark records the extent of `frame` in the tree it was taken of.
    pub open spec fn taken_at(&self, frame: nat) -> bool {
        &&& frame < self.before@.frames.len()
        &&& self.frames == self.before@.frames.len()
        &&& self.entries == self.before@.frames[frame as int].table.entries.len()
        &&& self.children == self.before@.frames[frame as int].children.len()
        &&& self.ordinal == self.before@.frames[frame as int].table.ordinal
    }
}

/// The operations of the scope tree, each on the frame whose index it is
/// given.
pub trait TreeMethods: Sized {
    /// The mathematical value of the tree.
    spec fn model(&self) -> ScopeTreeModel;

    /// The tree's invariant.
    spec fn valid(&self) -> bool;

    /// Appends an empty frame as the last child of `frame` and returns its
    /// index. The first local of the new frame receives `ordinal`: a block
    /// that is entered at the running ordinal of `frame` goes on counting
    /// where `frame` stands. The new frame has no declarations and no
    /// children; the declarations and the ordinal of `frame` and the children
    /// it had stay as they are.
    fn push_child(&mut self, frame: usize, ordinal: i32) -> (child: usize)
        requires
            old(self).valid(),
            frame < old(self).model().frames.len() < usize::MAX,
        ensures
            final(self).valid(),
            final(self).model() == push_child_in(old(self).model(), frame as nat, ordinal),
            child == old(self).model().frames.len(),
            extends(old(self).model(), frame as nat, final(self).model()),
            final(self).model().frames.len() == old(self).model().frames.len() + 1,
            final(self).model().frames[child as int] == fresh_frame(ordinal, Some(frame)),
            final(self).model().frames[frame as int].table == old(self).model().frames[frame
                as int].table,
            final(self).model().frames[frame as int].children == old(
                self,
            ).model().frames[frame as int].children.push(child),
    ;

    /// The table of `frame`.
    fn get_table(&self, frame: usize) -> (table: &SymbolTable)
        requires
            frame < self.model().frames.len(),
        ensures
            table@ == self.model().frames[frame as int].table,
    ;

    /// The symbol that `identifier` denotes when seen from `frame`: the one
    /// of the nearest enclosing frame that declares it.
    fn scope_lookup(&self, frame: usize, identifier: &String) -> (r: Option<Symbol>)
        requires
            self.valid(),
            frame < self.model().frames.len(),
        ensures
            match r {
                Some(s) => lookup_in(self.model(), frame as nat, identifier@) == Some(s@),
                None => lookup_in(self.model(), frame as nat, identifier@) is None,
            },
    ;

    /// Declares the local `identifier` in `frame`.
    fn bind(&mut self, frame: usize, identifier: &String, prim: &String, func: bool)
        requires
            old(self).valid(),
            frame < old(self).model().frames.len(),
            can_insert(old(self).model().frames[frame as int].table, identifier@),
        ensures
            final(self).valid(),
            final(self).model() == bind_in(
                old(self).model(),
                frame as nat,
                identifier@,
                prim@,
                func,
            ),
            extends(old(self).model(), frame as nat, final(self).model()),
    ;

    /// Declares the argument `identifier` in `frame`.
    fn bind_arg(&mut self, frame: usize, identifier: &String, prim: &String, arg_ordinal: i32)
        requires
            old(self).valid(),
            frame < old(self).model().frames.len(),
            !table_contains(old(self).model().frames[frame as int].table, identifier@),
            MIN_ORDINAL <= arg_ordinal <= MAX_ORDINAL,
        ensures
            final(self).valid(),
            final(self).model() == bind_arg_in(
                old(self).model(),
                frame as nat,
                identifier@,
                prim@,
                arg_ordinal,
            ),
            extends(old(self).model(), frame as nat, final(self).model()),
    ;

    /// Records `register` for `identifier` in the nearest frame, from `frame`
    /// upward, that declares it. Where none does, nothing changes.
    fn modify_register(&mut self, frame: usize, identifier: &String, register: i32)
        requires
            old(self).valid(),
            frame < old(self).model().frames.len(),
        ensures
            final(self).valid(),
            final(self).model() == set_register_in(
                old(self).model(),
                frame as nat,
                identifier@,
                register,
            ),
            final(self).model().frames.len() == old(self).model().frames.len(),
    ;

    /// The ordinal that the next local of `frame` receives.
    fn get_ordinal(&self, frame: usize) -> (ordinal: i32)
        requires
            frame < self.model().frames.len(),
        ensures
            ordinal == self.model().frames[frame as int].table.ordinal,
    ;

    /// Whether `frame` itself declares `identifier`.
    fn in_table(&self, frame: usize, identifier: &String) -> (r: bool)
        requires
            frame < self.model().frames.len(),
        ensures
            r == table_contains(self.model().frames[frame as int].table, identifier@),
    ;
}

impl ScopeTree {
    /// Every frame is well formed.
    pub open spec fn wf(&self) -> bool {
        tree_wf(self@)
    }

    /// A tree of one root frame, whose first local receives `ordinal`.
    pub fn new(ordinal: i32) -> (tree: ScopeTree)
        ensures
            tree@.frames == seq![fresh_frame(ordinal, None)],
            tree.wf(),
    {
        let mut nodes: Vec<STNode> = Vec::new();
        nodes.push(create_new_stnode(ordinal));
        let tree = ScopeTree { nodes: nodes };
        assert(tree@.frames =~= seq![fresh_frame(ordinal, None)]);
        assert(frame_wf(tree@, 0));
        tree
    }

    /// The number of frames.
    pub fn len(&self) -> (n: usize)
        ensures
            n == self@.frames.len(),
    {
        self.nodes.len()
    }

    /// The nearest frame, from `frame` upward, that declares `identifier`.
    pub fn owner(&self, frame: usize, identifier: &String) -> (r: Option<usize>)
        requires
            self.wf(),
            frame < self@.frames.len(),
        ensures
            match r {
                Some(f) => {
                    &&& owner_of(self@, frame as nat, identifier@) == Some(f as nat)
                    &&& f <= frame
                    &&& table_contains(self@.frames[f as int].table, identifier@)
                },
                None => owner_of(self@, frame as nat, identifier@) is None,
            },
    {
        let mut current: usize = frame;
        loop
            invariant
                self.wf(),
                current <= frame < self@.frames.len(),
                owner_of(self@, frame as nat, identifier@) == owner_of(
                    self@,
                    current as nat,
                    identifier@,
                ),
            decreases current,
        {
            if self.nodes[current].table.find(identifier).is_some() {
                return Some(current);
            }
            assert(frame_wf(self@, current as int));
            match self.nodes[current].parent {
                Some(p) => {
                    current = p;
                },
                None => {
                    return None;
                },
            }
        }
    }

    /// The child of `frame` that a walk visits next, if one is left.
    pub fn next_child(&self, frame: usize) -> (r: Option<usize>)
        requires
            frame < self@.frames.len(),
        ensures
            r == next_child_in(self@, frame as nat),
    {
        let node = &self.nodes[frame];
        if node.scope_index < node.children.len() {
            Some(node.children[node.scope_index])
        } else {
            None
        }
    }

    /// Moves the walk over the children of `frame` on by one.
    pub fn advance(&mut self, frame: usize)
        requires
            old(self).wf(),
            next_child_in(old(self)@, frame as nat) is Some,
        ensures
            final(self).wf(),
            final(self)@ == advance_in(old(self)@, frame as nat),
    {
        let ghost before = self.nodes@;
        assert(self@.frames[frame as int].scope_index == self.nodes[frame as int].scope_index);
        assert(self@.frames[frame as int].children == self.nodes[frame as int].children@);
        let count = self.nodes[frame].children.len();
        let index = self.nodes[frame].scope_index;
        assert(index < count);
        self.nodes[frame].scope_index = index + 1;
        proof {
            assert(self.nodes@ =~= before.update(frame as int, self.nodes@[frame as int]));
            lemma_views_update(before, frame as int, self.nodes@[frame as int]);
            assert(self@.frames =~= advance_in(old(self)@, frame as nat).frames);
            assert forall|i: int| 0 <= i < self@.frames.len() implies #[trigger] frame_wf(
                self@,
                i,
            ) by {
                assert(frame_wf(old(self)@, i));
            }
        }
    }

    /// Records how far the tree, and in it `frame`, has grown.
    pub fn mark(&self, frame: usize) -> (m: ScopeMark)
        requires
            frame < self@.frames.len(),
        ensures
            m.before@ == self@,
            m.taken_at(frame as nat),
    {
        ScopeMark {
            frames: self.nodes.len(),
            entries: self.nodes[frame].table.symbol_table.len(),
            children: self.nodes[frame].children.len(),
            ordinal: self.nodes[frame].table.ordinal,
            before: Ghost(self@),
        }
    }

    /// Cuts the tree back to what it was when `m` was taken, given that it
    /// has since only grown by declarations in `frame` and by new frames.
    pub fn rollback(&mut self, frame: usize, m: &ScopeMark)
        requires
            m.taken_at(frame as nat),
            extends(m.before@, frame as nat, old(self)@),
        ensures
            final(self)@ == m.before@,
    {
        let ghost grown = self.nodes@;
        self.nodes.truncate(m.frames);
        let ghost cut = self.nodes@;
        proof {
            lemma_views_prefix(grown, m.frames as int);
        }
        self.nodes[frame].table.symbol_table.truncate(m.entries);
        self.nodes[frame].table.ordinal = m.ordinal;
        self.nodes[frame].children.truncate(m.children);
        proof {
            let node = self.nodes@[frame as int];
            assert(self.nodes@ =~= cut.update(frame as int, node));
            lemma_views_update(cut, frame as int, node);
            lemma_views_prefix(grown[frame as int].table.symbol_table@, m.entries as int);
            assert(node@.table.entries =~= m.before@.frames[frame as int].table.entries);
            assert(node@.children =~= m.before@.frames[frame as int].children);
            assert(node@ == m.before@.frames[frame as int]);
            assert(self@.frames =~= m.before@.frames);
        }
    }
}

impl TreeMethods for ScopeTree {
    open spec fn model(&self) -> ScopeTreeModel {
        self@
    }

    open spec fn valid(&self) -> bool {
        self.wf()
    }

    fn push_child(&mut self, frame: usize, ordinal: i32) -> (child: usize) {
        let child = self.nodes.len();
        let ghost before = self.nodes@;
        self.nodes[frame].children.push(child);
        let ghost mid = self.nodes@;
        let node = STNode {
            scope_index: 0,
            table: SymbolTable::new(ordinal),
            parent: Some(frame),
            children: Vec::new(),
        };
        proof {
            assert(mid =~= before.update(frame as int, mid[frame as int]));
            lemma_views_update(before, frame as int, mid[frame as int]);
            lemma_views_push(mid, node);
        }
        self.nodes.push(node);
        proof {
            let goal = push_child_in(old(self)@, frame as nat, ordinal);
            assert(self@.frames =~= goal.frames);
            assert forall|i: int| 0 <= i < self@.frames.len() implies #[trigger] frame_wf(
                self@,
                i,
            ) by {
                if i < old(self)@.frames.len() {
                    assert(frame_wf(old(self)@, i));
                }
            }
        }
        child
    }

    fn get_table(&self, frame: usize) -> (table: &SymbolTable) {
        &self.nodes[frame].table
    }

    fn scope_lookup(&self, frame: usize, identifier: &String) -> (r: Option<Symbol>) {
        match self.owner(frame, identifier) {
            Some(f) => {
                match self.nodes[f].table.query(identifier) {
                    Some(s) => Some(s.duplicate()),
                    None => None,
                }
            },
            None => None,
        }
    }

    fn bind(&mut self, frame: usize, identifier: &String, prim: &String, func: bool) {
        let ghost before = self.nodes@;
        assert(frame_wf(self@, frame as int));
        self.nodes[frame].table.insert(identifier, prim, func);
        proof {
            assert(self.nodes@ =~= before.update(frame as int, self.nodes@[frame as int]));
            lemma_views_update(before, frame as int, self.nodes@[frame as int]);
            let goal = bind_in(old(self)@, frame as nat, identifier@, prim@, func);
            assert(self@.frames =~= goal.frames);
            assert forall|i: int| 0 <= i < self@.frames.len() implies #[trigger] frame_wf(
                self@,
                i,
            ) by {
                assert(frame_wf(old(self)@, i));
            }
        }
    }

    fn bind_arg(&mut self, frame: usize, identifier: &String, prim: &String, arg_ordinal: i32) {
        let ghost before = self.nodes@;
        assert(frame_wf(self@, frame as int));
        self.nodes[frame].table.insert_argument(identifier, prim, arg_ordinal);
        proof {
            assert(self.nodes@ =~= before.update(frame as int, self.nodes@[frame as int]));
            lemma_views_update(before, frame as int, self.nodes@[frame as int]);
            let goal = bind_arg_in(old(self)@, frame as nat, identifier@, prim@, arg_ordinal);
            assert(self@.frames =~= goal.frames);
            assert forall|i: int| 0 <= i < self@.frames.len() implies #[trigger] frame_wf(
                self@,
                i,
            ) by {
                assert(frame_wf(old(self)@, i));
            }
        }
    }

    fn modify_register(&mut self, frame: usize, identifier: &String, register: i32) {
        match self.owner(frame, identifier) {
            Some(f) => {
                let ghost before = self.nodes@;
                assert(frame_wf(self@, f as int));
                self.nodes[f].table.modify_register(identifier, register);
                proof {
                    assert(self.nodes@ =~= before.update(f as int, self.nodes@[f as int]));
                    lemma_views_update(before, f as int, self.nodes@[f as int]);
                    let goal = set_register_in(old(self)@, frame as nat, identifier@, register);
                    assert(self@.frames =~= goal.frames);
                    assert forall|i: int| 0 <= i < self@.frames.len() implies #[trigger] frame_wf(
                        self@,
                        i,
                    ) by {
                        assert(frame_wf(old(self)@, i));
                    }
                }
            },
            None => {},
        }
    }

    fn get_ordinal(&self, frame: usize) -> (ordinal: i32) {
        self.nodes[frame].table.ordinal
    }

    fn in_table(&self, frame: usize, identifier: &String) -> (r: bool) {
        self.nodes[frame].table.find(identifier).is_some()
    }
}

} // verus!
