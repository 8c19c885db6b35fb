//! The code generator: one walk over the syntax tree that allocates
//! registers, lays out labels and emits instructions.

use vstd::prelude::*;
use crate::instruction::{
    Instruction, InstructionModel, JumpKind, defines, definitions, jump_command,
    lemma_counts_concat, lemma_counts_push, one_if, references, refers, to_operator,
};
use crate::lowering::{
    CodegenError, GenState, Lowered, Progress, combined, compares, emitted, emitted_all,
    epilogue, equality_block, label_frame, labelled, labels_wf, left_child, next_two, once_each,
    prologue, recorded, relational_block, released, same_labels, scaling_block, settled,
    short_circuit_block, taken, tested, with_two_labels,
};
use crate::registers::{
    POOL_SIZE, Reg, RegisterManager, balanced, fresh_pool, lemma_first_free, pool_reg,
    pool_register, pool_wf,
};
use crate::symbol_table::{ScopeTree, TreeMethods, frame_wf, tree_wf};
use crate::syntax::NodeType;
use crate::text::text_is;
use crate::views::{views, lemma_views_push};

verus! {

/// The state of code generation: the code emitted so far, the scope tree,
/// the register pool and the label counter.
pub struct Codegen {
    pub code: Vec<Instruction<String>>,
    pub scopes: ScopeTree,
    pub registers: RegisterManager,
    pub label_index: u32,
}

impl View for Codegen {
    type V = GenState;

    open spec fn view(&self) -> GenState {
        GenState {
            code: views(self.code@),
            scopes: self.scopes@,
            pool: self.registers@,
            labels: self.label_index,
        }
    }
}

/// The scope tree and the register pool are well formed, and the labels
/// are in order.
pub open spec fn state_wf(st: GenState) -> bool {
    tree_wf(st.scopes) && pool_wf(st.pool) && labels_wf(st)
}

/// What generation keeps whether it succeeds or fails: the state stays well
/// formed and no frame is added or lost.
pub open spec fn sound(before: GenState, after: GenState) -> bool {
    &&& state_wf(after)
    &&& after.scopes.frames.len() == before.scopes.frames.len()
}

/// What every piece of generated code keeps where it succeeds: the state is
/// sound, and the pool is balanced around the register that is handed on.
pub open spec fn kept(before: GenState, after: GenState, r: Option<u32>) -> bool {
    &&& sound(before, after)
    &&& balanced(before.pool, after.pool, r)
}

/// How the lowering of a node shows in what a generating function leaves
/// behind and returns.
pub open spec fn generated(
    lowered: Lowered,
    before: GenState,
    after: GenState,
    result: Result<Option<u32>, CodegenError>,
) -> bool {
    &&& sound(before, after)
    &&& match lowered {
        Ok((s, r)) => result == Ok::<Option<u32>, CodegenError>(r) && after == s && balanced(
            before.pool,
            after.pool,
            r,
        ),
        Err(e) => result == Err::<Option<u32>, CodegenError>(e),
    }
}

/// As [`generated`], for a part that hands no register on.
pub open spec fn progressed(
    progress: Progress,
    before: GenState,
    after: GenState,
    result: Result<(), CodegenError>,
) -> bool {
    &&& sound(before, after)
    &&& match progress {
        Ok(s) => result is Ok && after == s && balanced(before.pool, after.pool, None),
        Err(e) => result == Err::<(), CodegenError>(e),
    }
}

/// As [`generated`], for a part that always hands a register on.
pub open spec fn valued(
    value: Result<(GenState, u32), CodegenError>,
    before: GenState,
    after: GenState,
    result: Result<u32, CodegenError>,
) -> bool {
    &&& sound(before, after)
    &&& match value {
        Ok((s, r)) => result == Ok::<u32, CodegenError>(r) && after == s && balanced(
            before.pool,
            after.pool,
            Some(r),
        ),
        Err(e) => result == Err::<u32, CodegenError>(e),
    }
}

impl Codegen {
    /// The scope tree and the register pool are well formed, and the
    /// labels are in order.
    pub open spec fn wf(&self) -> bool {
        state_wf(self@)
    }

    /// A generator over `scopes` that has emitted nothing, with a fresh
    /// register pool and the label counter at zero.
    pub fn new(scopes: ScopeTree) -> (gen: Codegen)
        requires
            scopes.wf(),
        ensures
            gen.wf(),
            gen@ == (GenState {
                code: Seq::empty(),
                scopes: scopes@,
                pool: fresh_pool(),
                labels: 0,
            }),
    {
        let gen = Codegen {
            code: Vec::new(),
            scopes: scopes,
            registers: RegisterManager::new(),
            label_index: 0,
        };
        assert(gen@.code =~= Seq::empty());
        gen
    }

    /// Appends `instruction` to the code.
    pub fn emit(&mut self, instruction: Instruction<String>)
        ensures
            final(self)@ == emitted(old(self)@, instruction@),
            forall|l: u32| #[trigger]
                definitions(final(self)@.code, l) == definitions(old(self)@.code, l) + one_if(
                    defines(instruction@, l),
                ),
            forall|l: u32| #[trigger]
                references(final(self)@.code, l) == references(old(self)@.code, l) + one_if(
                    refers(instruction@, l),
                ),
    {
        proof {
            lemma_views_push(self.code@, instruction);
            lemma_counts_push(self@.code, instruction@);
        }
        self.code.push(instruction);
    }

    /// Takes the first free register of the pool.
    pub fn take(&mut self) -> (r: Result<u32, CodegenError>)
        requires
            old(self).wf(),
        ensures
            valued(taken(old(self)@), old(self)@, final(self)@, r),
            r is Err ==> final(self)@ == old(self)@,
    {
        proof {
            lemma_first_free(self@.pool.entries, 0);
        }
        match self.registers.register_alloc(0) {
            Some(r) => Ok(r),
            None => Err(CodegenError::OutOfRegisters),
        }
    }

    /// Gives the register `r` back.
    pub fn release(&mut self, r: u32)
        requires
            old(self).wf(),
            r < POOL_SIZE,
        ensures
            final(self)@ == released(old(self)@, r),
            final(self).wf(),
    {
        self.registers.register_free(r);
        assert(self@.code == old(self)@.code);
    }

    /// Gives the register of a finished child back, if it yielded one.
    pub fn settle(&mut self, r: Option<u32>)
        requires
            old(self).wf(),
            match r {
                Some(i) => i < POOL_SIZE,
                None => true,
            },
        ensures
            final(self)@ == settled(old(self)@, r),
            final(self).wf(),
    {
        match r {
            Some(i) => self.release(i),
            None => {},
        }
    }

    /// Notes `register` as the register that holds `name`.
    pub fn record(&mut self, frame: usize, name: &String, register: u32)
        requires
            old(self).wf(),
            frame < old(self)@.scopes.frames.len(),
            register < POOL_SIZE,
        ensures
            final(self)@ == recorded(old(self)@, frame as nat, name@, register),
            final(self).wf(),
            final(self)@.scopes.frames.len() == old(self)@.scopes.frames.len(),
    {
        self.scopes.modify_register(frame, name, register as i32);
        assert(self@.code == old(self)@.code);
    }

    /// Leaves the child frame of `frame` that was visited last.
    pub fn leave_child(&mut self, frame: usize) -> (r: Result<(), CodegenError>)
        requires
            old(self).wf(),
            frame < old(self)@.scopes.frames.len(),
        ensures
            progressed(left_child(old(self)@, frame as nat), old(self)@, final(self)@, r),
            final(self)@.code == old(self)@.code,
            final(self)@.labels == old(self)@.labels,
    {
        if self.scopes.next_child(frame).is_some() {
            self.scopes.advance(frame);
            assert(self@.code == old(self)@.code);
            Ok(())
        } else {
            Err(CodegenError::ScopeMismatch)
        }
    }

    /// The child frame of `frame` that is visited next.
    pub fn child_of(&self, frame: usize) -> (r: Result<usize, CodegenError>)
        requires
            self.wf(),
            frame < self@.scopes.frames.len(),
        ensures
            match crate::symbol_table::next_child_in(self@.scopes, frame as nat) {
                Some(child) => r == Ok::<usize, CodegenError>(child) && child
                    < self@.scopes.frames.len(),
                None => r == Err::<usize, CodegenError>(CodegenError::ScopeMismatch),
            },
    {
        match self.scopes.next_child(frame) {
            Some(child) => {
                proof {
                    assert(frame_wf(self@.scopes, frame as int));
                    let f = self@.scopes.frames[frame as int];
                    assert(f.children[f.scope_index as int] < self@.scopes.frames.len());
                }
                Ok(child)
            },
            None => Err(CodegenError::ScopeMismatch),
        }
    }

    /// Emits the entry of the function `name` with `bytes` bytes of locals.
    pub fn emit_prologue(&mut self, name: String, bytes: u64)
        ensures
            final(self)@ == emitted_all(old(self)@, prologue(name@, bytes)),
            same_labels(old(self)@, final(self)@),
    {
        self.emit(Instruction::FunctionLabel(name));
        self.emit(Instruction::Push(Reg::Rbp));
        self.emit(Instruction::Move { dst: Reg::Rbp, src: Reg::Rsp });
        self.emit(Instruction::Reserve(bytes));
        self.emit(Instruction::Push(Reg::Rbx));
        self.emit(Instruction::Push(Reg::R12));
        self.emit(Instruction::Push(Reg::R13));
        self.emit(Instruction::Push(Reg::R14));
        self.emit(Instruction::Push(Reg::R15));
        assert(self@.code =~= old(self)@.code + prologue(name@, bytes));
    }

    /// Emits the exit of a function.
    pub fn emit_epilogue(&mut self)
        ensures
            final(self)@ == emitted_all(old(self)@, epilogue()),
            same_labels(old(self)@, final(self)@),
    {
        self.emit(Instruction::Pop(Reg::R15));
        self.emit(Instruction::Pop(Reg::R14));
        self.emit(Instruction::Pop(Reg::R13));
        self.emit(Instruction::Pop(Reg::R12));
        self.emit(Instruction::Pop(Reg::Rbx));
        self.emit(Instruction::Move { dst: Reg::Rsp, src: Reg::Rbp });
        self.emit(Instruction::Pop(Reg::Rbp));
        self.emit(Instruction::Return);
        assert(self@.code =~= old(self)@.code + epilogue());
    }

    /// Emits the test of a condition in `r`, a comparison with zero and,
    /// directly behind it, a jump to `target` where they are equal, and gives
    /// `r` back. That is one more jump to `target`.
    pub fn emit_test(&mut self, r: u32, target: u32)
        requires
            old(self).wf(),
            r < POOL_SIZE,
            target <= old(self).label_index,
        ensures
            final(self)@ == tested(old(self)@, r, target),
            final(self).wf(),
            label_frame(old(self)@, final(self)@, Some(target)),
            forall|l: u32| #[trigger]
                definitions(final(self)@.code, l) == definitions(old(self)@.code, l),
            references(final(self)@.code, target) == references(old(self)@.code, target) + 1,
    {
        self.emit(Instruction::CompareNumber { left: pool_reg(r), value: 0 });
        self.emit(Instruction::Jump { kind: JumpKind::Equal, label: target });
        self.release(r);
    }
}

/// Creates the next label.
pub fn label_create(gen: &mut Codegen) -> (label: Result<u32, CodegenError>)
    ensures
        match labelled(old(gen)@) {
            Ok((s, l)) => label == Ok::<u32, CodegenError>(l) && final(gen)@ == s && l > old(
                gen,
            ).label_index,
            Err(e) => label == Err::<u32, CodegenError>(e) && final(gen)@ == old(gen)@,
        },
{
    if gen.label_index == u32::MAX {
        Err(CodegenError::OutOfLabels)
    } else {
        gen.label_index = gen.label_index + 1;
        Ok(gen.label_index)
    }
}

/// Emits the code of `prev_reg || next_reg` or `prev_reg && next_reg`, with
/// the result in `prev_reg`.
///
/// Both labels of the block are new. In the block, and so in all the code
/// emitted up to here, each is defined once and the target of one jump. What
/// is generated later leaves these counts as they are: see [`label_frame`].
pub fn and_or_generator(gen: &mut Codegen, operator: &str, prev_reg: u32, next_reg: u32) -> (r:
    Result<(u32, u32), CodegenError>)
    requires
        labels_wf(old(gen)@),
    ensures
        match with_two_labels(
            old(gen)@,
            |decided: u32, done: u32|
                short_circuit_block(
                    operator@,
                    pool_register(prev_reg as nat),
                    pool_register(next_reg as nat),
                    decided,
                    done,
                ),
        ) {
            Ok(s) => r is Ok && final(gen)@ == s,
            Err(e) => r == Err::<(u32, u32), CodegenError>(e),
        },
        final(gen)@.scopes == old(gen)@.scopes,
        final(gen)@.pool == old(gen)@.pool,
        match r {
            Ok((decided, done)) => {
                let block = short_circuit_block(
                    operator@,
                    pool_register(prev_reg as nat),
                    pool_register(next_reg as nat),
                    decided,
                    done,
                );
                &&& final(gen)@.code == old(gen)@.code + block
                &&& decided == old(gen).label_index + 1
                &&& done == old(gen).label_index + 2
                &&& final(gen).label_index == done
                &&& definitions(block, decided) == 1
                &&& definitions(block, done) == 1
                &&& references(block, decided) == 1
                &&& references(block, done) == 1
                &&& definitions(final(gen)@.code, decided) == 1
                &&& definitions(final(gen)@.code, done) == 1
                &&& references(final(gen)@.code, decided) == 1
                &&& references(final(gen)@.code, done) == 1
            },
            Err(_) => true,
        },
        labels_wf(final(gen)@),
        label_frame(old(gen)@, final(gen)@, None),
{
    let decided = match label_create(gen) {
        Ok(l) => l,
        Err(e) => {
            return Err(e);
        },
    };
    let done = match label_create(gen) {
        Ok(l) => l,
        Err(e) => {
            return Err(e);
        },
    };
    let early: u8 = if text_is(operator, "||") {
        1
    } else {
        0
    };
    let acc = pool_reg(prev_reg);
    let other = pool_reg(next_reg);
    let ghost start = gen@;
    gen.emit(Instruction::CompareNumber { left: acc, value: early });
    gen.emit(Instruction::Jump { kind: JumpKind::Equal, label: decided });
    gen.emit(Instruction::CompareNumber { left: other, value: early });
    gen.emit(Instruction::MoveNumber { dst: acc, value: 1 - early });
    gen.emit(Instruction::Jump { kind: JumpKind::NotEqual, label: done });
    gen.emit(Instruction::Label(decided));
    gen.emit(Instruction::MoveNumber { dst: acc, value: early });
    gen.emit(Instruction::Label(done));
    proof {
        let block = short_circuit_block(operator@, acc, other, decided, done);
        assert(gen@.code =~= start.code + block);
        lemma_counts_concat(start.code, block);
        reveal_with_fuel(count_of, 9);
        lemma_count_eight(block, decided);
        lemma_count_eight(block, done);
    }
    Ok((decided, done))
}

/// Emits the code of `prev_reg == next_reg` or `prev_reg != next_reg`, with
/// the result, `0` or `1`, in `prev_reg`.
///
/// Both labels of the block are new. In the block, and so in all the code
/// emitted up to here, each is defined once and the target of one jump. What
/// is generated later leaves these counts as they are: see [`label_frame`].
pub fn equality_generator(gen: &mut Codegen, operator: &str, prev_reg: u32, next_reg: u32) -> (r:
    Result<(u32, u32), CodegenError>)
    requires
        labels_wf(old(gen)@),
    ensures
        match with_two_labels(
            old(gen)@,
            |equal: u32, done: u32|
                equality_block(
                    operator@,
                    pool_register(prev_reg as nat),
                    pool_register(next_reg as nat),
                    equal,
                    done,
                ),
        ) {
            Ok(s) => r is Ok && final(gen)@ == s,
            Err(e) => r == Err::<(u32, u32), CodegenError>(e),
        },
        final(gen)@.scopes == old(gen)@.scopes,
        final(gen)@.pool == old(gen)@.pool,
        match r {
            Ok((equal, done)) => {
                let block = equality_block(
                    operator@,
                    pool_register(prev_reg as nat),
                    pool_register(next_reg as nat),
                    equal,
                    done,
                );
                &&& final(gen)@.code == old(gen)@.code + block
                &&& equal == old(gen).label_index + 1
                &&& done == old(gen).label_index + 2
                &&& final(gen).label_index == done
                &&& definitions(block, equal) == 1
                &&& definitions(block, done) == 1
                &&& references(block, equal) == 1
                &&& references(block, done) == 1
                &&& definitions(final(gen)@.code, equal) == 1
                &&& definitions(final(gen)@.code, done) == 1
                &&& references(final(gen)@.code, equal) == 1
                &&& references(final(gen)@.code, done) == 1
            },
            Err(_) => true,
        },
        labels_wf(final(gen)@),
        label_frame(old(gen)@, final(gen)@, None),
{
    let equal = match label_create(gen) {
        Ok(l) => l,
        Err(e) => {
            return Err(e);
        },
    };
    let done = match label_create(gen) {
        Ok(l) => l,
        Err(e) => {
            return Err(e);
        },
    };
    let same: u8 = if text_is(operator, "!=") {
        0
    } else {
        1
    };
    let acc = pool_reg(prev_reg);
    let other = pool_reg(next_reg);
    let ghost start = gen@;
    gen.emit(Instruction::Compare { left: acc, right: other });
    gen.emit(Instruction::Jump { kind: JumpKind::Equal, label: equal });
    gen.emit(Instruction::MoveNumber { dst: acc, value: 1 - same });
    gen.emit(Instruction::Jump { kind: JumpKind::Always, label: done });
    gen.emit(Instruction::Label(equal));
    gen.emit(Instruction::MoveNumber { dst: acc, value: same });
    gen.emit(Instruction::Label(done));
    proof {
        let block = equality_block(operator@, acc, other, equal, done);
        assert(gen@.code =~= start.code + block);
        lemma_counts_concat(start.code, block);
        reveal_with_fuel(count_of, 8);
        lemma_count_seven(block, equal);
        lemma_count_seven(block, done);
    }
    Ok((equal, done))
}

/// Emits the code of a relational comparison of `prev_reg` with `next_reg`,
/// with the result, `0` or `1`, in `prev_reg`: a comparison, a jump on
/// `kind` to the label where the relation holds, and the two results.
///
/// Both labels of the block are new. In the block, and so in all the code
/// emitted up to here, each is defined once and the target of one jump. What
/// is generated later leaves these counts as they are: see [`label_frame`].
pub fn relational_generator(gen: &mut Codegen, kind: JumpKind, prev_reg: u32, next_reg: u32) -> (r:
    Result<(u32, u32), CodegenError>)
    requires
        labels_wf(old(gen)@),
    ensures
        match with_two_labels(
            old(gen)@,
            |holds: u32, done: u32|
                relational_block(
                    kind,
                    pool_register(prev_reg as nat),
                    pool_register(next_reg as nat),
                    holds,
                    done,
                ),
        ) {
            Ok(s) => r is Ok && final(gen)@ == s,
            Err(e) => r == Err::<(u32, u32), CodegenError>(e),
        },
        final(gen)@.scopes == old(gen)@.scopes,
        final(gen)@.pool == old(gen)@.pool,
        match r {
            Ok((holds, done)) => {
                let block = relational_block(
                    kind,
                    pool_register(prev_reg as nat),
                    pool_register(next_reg as nat),
                    holds,
                    done,
                );
                &&& final(gen)@.code == old(gen)@.code + block
                &&& holds == old(gen).label_index + 1
                &&& done == old(gen).label_index + 2
                &&& final(gen).label_index == done
                &&& definitions(block, holds) == 1
                &&& definitions(block, done) == 1
                &&& references(block, holds) == 1
                &&& references(block, done) == 1
                &&& definitions(final(gen)@.code, holds) == 1
                &&& definitions(final(gen)@.code, done) == 1
                &&& references(final(gen)@.code, holds) == 1
                &&& references(final(gen)@.code, done) == 1
            },
            Err(_) => true,
        },
        labels_wf(final(gen)@),
        label_frame(old(gen)@, final(gen)@, None),
{
    let holds = match label_create(gen) {
        Ok(l) => l,
        Err(e) => {
            return Err(e);
        },
    };
    let done = match label_create(gen) {
        Ok(l) => l,
        Err(e) => {
            return Err(e);
        },
    };
    let acc = pool_reg(prev_reg);
    let other = pool_reg(next_reg);
    let ghost start = gen@;
    gen.emit(Instruction::Compare { left: acc, right: other });
    gen.emit(Instruction::Jump { kind: kind, label: holds });
    gen.emit(Instruction::MoveNumber { dst: acc, value: 0 });
    gen.emit(Instruction::Jump { kind: JumpKind::Always, label: done });
    gen.emit(Instruction::Label(holds));
    gen.emit(Instruction::MoveNumber { dst: acc, value: 1 });
    gen.emit(Instruction::Label(done));
    proof {
        let block = relational_block(kind, acc, other, holds, done);
        assert(gen@.code =~= start.code + block);
        lemma_counts_concat(start.code, block);
        reveal_with_fuel(count_of, 8);
        lemma_count_seven(block, holds);
        lemma_count_seven(block, done);
    }
    Ok((holds, done))
}

/// The counts of a label in a block of seven instructions are the sums over
/// its instructions.
pub proof fn lemma_count_seven(block: Seq<InstructionModel>, label: u32)
    requires
        block.len() == 7,
    ensures
        definitions(block, label) == count_of(block, label, true, 7),
        references(block, label) == count_of(block, label, false, 7),
{
    lemma_count(block, label, 7);
    assert(block.take(7) =~= block);
}

/// The counts of a label in a block of eight instructions are the sums over
/// its instructions.
pub proof fn lemma_count_eight(block: Seq<InstructionModel>, label: u32)
    requires
        block.len() == 8,
    ensures
        definitions(block, label) == count_of(block, label, true, 8),
        references(block, label) == count_of(block, label, false, 8),
{
    lemma_count(block, label, 8);
    assert(block.take(8) =~= block);
}

/// Among the first `n` instructions of `block`, how many define `label`
/// (`defining`) or jump to it (otherwise).
pub open spec fn count_of(block: Seq<InstructionModel>, label: u32, defining: bool, n: nat) -> nat
    decreases n,
{
    if n == 0 || n > block.len() {
        0
    } else {
        count_of(block, label, defining, (n - 1) as nat) + if (if defining {
            crate::instruction::defines(block[n - 1], label)
        } else {
            crate::instruction::refers(block[n - 1], label)
        }) {
            1nat
        } else {
            0nat
        }
    }
}

/// Counting over a prefix agrees with counting over the indices.
pub proof fn lemma_count(block: Seq<InstructionModel>, label: u32, n: nat)
    requires
        n <= block.len(),
    ensures
        definitions(block.take(n as int), label) == count_of(block, label, true, n),
        references(block.take(n as int), label) == count_of(block, label, false, n),
    decreases n,
{
    if n > 0 {
        lemma_count(block, label, (n - 1) as nat);
        assert(block.take(n as int).drop_last() =~= block.take(n - 1));
        assert(block.take(n as int).last() == block[n - 1]);
    }
}

/// Emits the code that combines the accumulator `acc` with the operand `r`
/// in the tail of type `kind`, for the operator `op`.
///
/// The block of `||`, `&&`, an equality or a relation uses the next two
/// labels, and each of them is defined once and the target of one jump in
/// all the code emitted up to here. A sum or a product uses no label.
pub fn combine(gen: &mut Codegen, kind: NodeType, op: &String, acc: u32, r: u32) -> (result: Result<
    (),
    CodegenError,
>)
    requires
        old(gen).wf(),
    ensures
        match combined(kind, op@, acc, r, old(gen)@) {
            Ok(s) => result is Ok && final(gen)@ == s,
            Err(e) => result == Err::<(), CodegenError>(e),
        },
        final(gen)@.scopes == old(gen)@.scopes,
        final(gen)@.pool == old(gen)@.pool,
        final(gen).wf(),
        label_frame(old(gen)@, final(gen)@, None),
        result is Ok && compares(kind) ==> {
            &&& final(gen).label_index == old(gen).label_index + 2
            &&& once_each(final(gen)@.code, next_two(old(gen).label_index))
        },
        result is Ok && !compares(kind) ==> final(gen).label_index == old(gen).label_index,
{
    let left = pool_reg(acc);
    let right = pool_reg(r);
    match kind {
        NodeType::Arith_Subexpr => match to_operator(op.as_str()) {
            Some(code) => {
                gen.emit(Instruction::Binary { op: code, dst: left, src: right });
                Ok(())
            },
            None => Err(CodegenError::UnknownOperator),
        },
        NodeType::Arith_Subterm => match to_operator(op.as_str()) {
            Some(code) => {
                let divides = text_is(op.as_str(), "/");
                let ghost start = gen@;
                if divides {
                    gen.emit(Instruction::MoveNumber { dst: Reg::Rdx, value: 0 });
                }
                gen.emit(Instruction::Move { dst: Reg::Rax, src: left });
                gen.emit(Instruction::Unary { op: code, src: right });
                gen.emit(Instruction::Move { dst: left, src: Reg::Rax });
                assert(gen@.code =~= start.code + scaling_block(divides, code, left, right));
                Ok(())
            },
            None => Err(CodegenError::UnknownOperator),
        },
        NodeType::Or_Subexpr | NodeType::And_Subexpr => {
            match and_or_generator(gen, op.as_str(), acc, r) {
                Ok(_) => Ok(()),
                Err(e) => Err(e),
            }
        },
        NodeType::Equality_Subexpr => {
            match equality_generator(gen, op.as_str(), acc, r) {
                Ok(_) => Ok(()),
                Err(e) => Err(e),
            }
        },
        NodeType::Relational_Subexpr => match jump_command(op.as_str()) {
            Some(jump) => {
                match relational_generator(gen, jump, acc, r) {
                    Ok(_) => Ok(()),
                    Err(e) => Err(e),
                }
            },
            None => Err(CodegenError::UnknownOperator),
        },
        _ => Err(CodegenError::MalformedTree),
    }
}

} // verus!
