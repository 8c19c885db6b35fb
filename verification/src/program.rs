//! The code of a whole program, from its syntax tree to the lines of text.

use vstd::prelude::*;
use crate::generation::Codegen;
use crate::instruction::{Instruction, InstructionModel};
use crate::lowering::{CodegenError, GenState, emitted_all, exports, lower, same_labels};
use crate::registers::fresh_pool;
use crate::render::{render_all, rendered_all};
use crate::symbol_table::{ScopeTree, ScopeTreeModel};
use crate::syntax::{Node, NodeModel};
use crate::views::views;
use crate::walk::generate;

verus! {

/// Emits one `global` line for each function that `frame` declares, in the
/// order of declaration.
pub fn generate_start_stub(gen: &mut Codegen, frame: usize)
    requires
        frame < old(gen)@.scopes.frames.len(),
    ensures
        final(gen)@ == emitted_all(
            old(gen)@,
            exports(old(gen)@.scopes.frames[frame as int].table.entries, 0),
        ),
        same_labels(old(gen)@, final(gen)@),
{
    let mut i: usize = 0;
    let ghost entries = gen@.scopes.frames[frame as int].table.entries;
    assert(gen@.code + Seq::<InstructionModel>::empty() =~= gen@.code);
    while i < gen.scopes.nodes[frame].table.symbol_table.len()
        invariant
            frame < gen@.scopes.frames.len(),
            gen@.scopes == old(gen)@.scopes,
            gen@.pool == old(gen)@.pool,
            gen@.labels == old(gen)@.labels,
            same_labels(old(gen)@, gen@),
            entries == gen@.scopes.frames[frame as int].table.entries,
            0 <= i <= entries.len(),
            entries.len() == gen.scopes.nodes@[frame as int].table.symbol_table@.len(),
            old(gen)@.code + exports(entries, 0) == gen@.code + exports(entries, i as nat),
        decreases entries.len() - i,
    {
        let ghost before = gen@.code;
        assert(entries[i as int] == gen.scopes.nodes@[frame as int].table.symbol_table@[i as int]@);
        if gen.scopes.nodes[frame].table.symbol_table[i].symbol.func {
            let name = gen.scopes.nodes[frame].table.symbol_table[i].name.clone();
            gen.emit(Instruction::Global(name));
            assert(before + (seq![Instruction::<Seq<char>>::Global(entries[i as int].name)]
                + exports(entries, i as nat + 1)) =~= gen@.code + exports(entries, i as nat + 1));
        }
        i = i + 1;
    }
    assert(gen@.code + Seq::<InstructionModel>::empty() =~= gen@.code);
}

/// The code of the program with the syntax tree `node` and the scope tree
/// `scopes`: the exports of the functions that the root frame declares, then
/// the lowering of the tree against the root frame, from a fresh register
/// pool and the label counter at zero.
pub open spec fn program(node: NodeModel, scopes: ScopeTreeModel) -> Result<
    Seq<InstructionModel>,
    CodegenError,
> {
    let start = GenState {
        code: exports(scopes.frames[0].table.entries, 0),
        scopes: scopes,
        pool: fresh_pool(),
        labels: 0,
    };
    match lower(node, start, 0, None, None) {
        Ok((s, r)) => Ok(s.code),
        Err(e) => Err(e),
    }
}

/// Generates the code of a program and renders it as lines of text.
pub fn generate_code(current_node: &Node, symbol_table: ScopeTree) -> (lines: Result<
    Vec<String>,
    CodegenError,
>)
    requires
        symbol_table.wf(),
        symbol_table@.frames.len() > 0,
    ensures
        match program(current_node@, symbol_table@) {
            Ok(code) => match lines {
                Ok(text) => views(text@) == rendered_all(code),
                Err(_) => false,
            },
            Err(e) => lines == Err::<Vec<String>, CodegenError>(e),
        },
{
    let mut gen = Codegen::new(symbol_table);
    generate_start_stub(&mut gen, 0);
    assert(gen@.code =~= exports(symbol_table@.frames[0].table.entries, 0));
    match generate(&mut gen, current_node, 0, None, None) {
        Ok(_) => Ok(render_all(&gen.code)),
        Err(e) => Err(e),
    }
}

} // verus!
