//! The register pool: a fixed set of general-purpose registers that the
//! code generator takes from and gives back to. There is no spilling.

use vstd::prelude::*;
use crate::text::text_is;
use crate::views::views;

verus! {

/// The registers that instructions name.
#[derive(PartialEq, Eq, Structural, Clone, Copy, Debug)]
pub enum Reg {
    Rax,
    Rbx,
    Rdx,
    Rbp,
    Rsp,
    R10,
    R11,
    R12,
    R13,
    R14,
    R15,
}

/// The number of registers in the pool.
pub const POOL_SIZE: usize = 7;

/// The register that the pool holds at `index`; `rbx` for an index outside
/// the pool.
pub open spec fn pool_register(index: nat) -> Reg {
    if index == 1 {
        Reg::R10
    } else if index == 2 {
        Reg::R11
    } else if index == 3 {
        Reg::R12
    } else if index == 4 {
        Reg::R13
    } else if index == 5 {
        Reg::R14
    } else if index == 6 {
        Reg::R15
    } else {
        Reg::Rbx
    }
}

/// The register that the pool holds at `index`.
pub fn pool_reg(index: u32) -> (reg: Reg)
    ensures
        reg == pool_register(index as nat),
{
    if index == 1 {
        Reg::R10
    } else if index == 2 {
        Reg::R11
    } else if index == 3 {
        Reg::R12
    } else if index == 4 {
        Reg::R13
    } else if index == 5 {
        Reg::R14
    } else if index == 6 {
        Reg::R15
    } else {
        Reg::Rbx
    }
}

/// The name of the register that the pool holds at `index`.
pub open spec fn pool_name(index: nat) -> Seq<char> {
    if index == 0 {
        "rbx"@
    } else if index == 1 {
        "r10"@
    } else if index == 2 {
        "r11"@
    } else if index == 3 {
        "r12"@
    } else if index == 4 {
        "r13"@
    } else if index == 5 {
        "r14"@
    } else {
        "r15"@
    }
}

/// The index at which the pool holds the register named `name`, or `-1`.
pub open spec fn pool_index(name: Seq<char>) -> i32 {
    if name == "rbx"@ {
        0
    } else if name == "r10"@ {
        1
    } else if name == "r11"@ {
        2
    } else if name == "r12"@ {
        3
    } else if name == "r13"@ {
        4
    } else if name == "r14"@ {
        5
    } else if name == "r15"@ {
        6
    } else {
        -1i32
    }
}

/// One register of the pool: its name, whether it is taken, and the address
/// of the value it was taken for.
#[derive(Clone, Debug)]
pub struct Register {
    pub name: String,
    pub in_use: bool,
    pub addr: u32,
}

/// The mathematical value of a [`Register`].
pub struct RegisterModel {
    pub name: Seq<char>,
    pub in_use: bool,
    pub addr: u32,
}

impl View for Register {
    type V = RegisterModel;

    open spec fn view(&self) -> RegisterModel {
        RegisterModel { name: self.name@, in_use: self.in_use, addr: self.addr }
    }
}

/// The pool, with a count of the registers ever taken and ever given back.
pub struct RegisterManager {
    pub register_list: Vec<Register>,
    pub allocs: Ghost<nat>,
    pub frees: Ghost<nat>,
}

/// The mathematical value of a [`RegisterManager`].
pub struct PoolModel {
    pub entries: Seq<RegisterModel>,
    pub allocs: nat,
    pub frees: nat,
}

impl View for RegisterManager {
    type V = PoolModel;

    open spec fn view(&self) -> PoolModel {
        PoolModel { entries: views(self.register_list@), allocs: self.allocs@, frees: self.frees@ }
    }
}

/// The pool holds its seven registers under their names.
pub open spec fn pool_wf(pool: PoolModel) -> bool {
    &&& pool.entries.len() == POOL_SIZE
    &&& forall|i: int| 0 <= i < POOL_SIZE ==> (#[trigger] pool.entries[i]).name == pool_name(i as nat)
}

/// A free register under the name of index `index`.
pub open spec fn free_entry(index: nat) -> RegisterModel {
    RegisterModel { name: pool_name(index), in_use: false, addr: 0 }
}

/// The pool with all registers free and nothing counted.
pub open spec fn fresh_pool() -> PoolModel {
    PoolModel { entries: Seq::new(POOL_SIZE as nat, |i: int| free_entry(i as nat)), allocs: 0, frees: 0 }
}

/// The first index at or after `from` whose register is free.
pub open spec fn first_free(entries: Seq<RegisterModel>, from: nat) -> Option<nat>
    decreases entries.len() - from,
{
    if from >= entries.len() {
        None
    } else if !entries[from as int].in_use {
        Some(from)
    } else {
        first_free(entries, from + 1)
    }
}

/// The register that an allocation hands out: the first free one.
pub open spec fn allocated(pool: PoolModel) -> Option<u32> {
    match first_free(pool.entries, 0) {
        Some(i) => Some(i as u32),
        None => None,
    }
}

/// The pool after an allocation for the address `addr`: the first free
/// register is taken and counted; a full pool stays as it is.
pub open spec fn after_alloc(pool: PoolModel, addr: u32) -> PoolModel {
    match first_free(pool.entries, 0) {
        Some(i) => PoolModel {
            entries: pool.entries.update(
                i as int,
                RegisterModel { name: pool.entries[i as int].name, in_use: true, addr: addr },
            ),
            allocs: pool.allocs + 1,
            frees: pool.frees,
        },
        None => pool,
    }
}

/// The pool after the register at `index` has been given back.
pub open spec fn after_free(pool: PoolModel, index: nat) -> PoolModel {
    PoolModel {
        entries: pool.entries.update(
            index as int,
            RegisterModel { name: pool.entries[index as int].name, in_use: false, addr: 0 },
        ),
        allocs: pool.allocs,
        frees: pool.frees + 1,
    }
}

/// What `first_free` finds is in range and free, and every register before
/// it is taken; where it finds nothing, every register is taken.
pub proof fn lemma_first_free(entries: Seq<RegisterModel>, from: nat)
    ensures
        match first_free(entries, from) {
            Some(i) => {
                &&& from <= i < entries.len()
                &&& !entries[i as int].in_use
                &&& forall|k: int| from <= k < i ==> (#[trigger] entries[k]).in_use
            },
            None => forall|k: int| from <= k < entries.len() ==> (#[trigger] entries[k]).in_use,
        },
    decreases entries.len() - from,
{
    if from < entries.len() && entries[from as int].in_use {
        lemma_first_free(entries, from + 1);
    }
}

impl RegisterManager {
    /// The pool holds its seven registers under their names.
    pub open spec fn wf(&self) -> bool {
        pool_wf(self@)
    }

    /// A pool with all registers free.
    pub fn new() -> (pool: RegisterManager)
        ensures
            pool@ == fresh_pool(),
            pool.wf(),
    {
        let mut pool = RegisterManager {
            register_list: Vec::new(),
            allocs: Ghost(0),
            frees: Ghost(0),
        };
        pool.initialize();
        pool
    }

    /// Resets the pool: all seven registers are free and nothing is counted.
    pub fn initialize(&mut self)
        ensures
            final(self)@ == fresh_pool(),
            final(self).wf(),
    {
        self.register_list.clear();
        self.register_list.push(Register { name: "rbx".to_owned(), in_use: false, addr: 0 });
        self.register_list.push(Register { name: "r10".to_owned(), in_use: false, addr: 0 });
        self.register_list.push(Register { name: "r11".to_owned(), in_use: false, addr: 0 });
        self.register_list.push(Register { name: "r12".to_owned(), in_use: false, addr: 0 });
        self.register_list.push(Register { name: "r13".to_owned(), in_use: false, addr: 0 });
        self.register_list.push(Register { name: "r14".to_owned(), in_use: false, addr: 0 });
        self.register_list.push(Register { name: "r15".to_owned(), in_use: false, addr: 0 });
        self.allocs = Ghost(0);
        self.frees = Ghost(0);
        proof {
            assert(self@.entries =~= fresh_pool().entries);
        }
    }

    /// Takes the first free register for the address `addr` and returns its
    /// index; `None` where every register is taken.
    pub fn register_alloc(&mut self, addr: u32) -> (r: Option<u32>)
        requires
            old(self).wf(),
        ensures
            final(self).wf(),
            r == allocated(old(self)@),
            final(self)@ == after_alloc(old(self)@, addr),
            match r {
                Some(i) => i < POOL_SIZE && !old(self)@.entries[i as int].in_use,
                None => true,
            },
    {
        let mut index: usize = 0;
        proof {
            lemma_first_free(self@.entries, 0);
        }
        while index < self.register_list.len()
            invariant
                self.wf(),
                *self == *old(self),
                0 <= index <= self.register_list@.len(),
                first_free(self@.entries, 0) == first_free(self@.entries, index as nat),
            decreases self.register_list@.len() - index,
        {
            if !self.register_list[index].in_use {
                let ghost before = self.register_list@;
                self.register_list[index].in_use = true;
                self.register_list[index].addr = addr;
                self.allocs = Ghost(self.allocs@ + 1);
                proof {
                    assert(self@.entries =~= after_alloc(old(self)@, addr).entries);
                }
                return Some(index as u32);
            }
            index += 1;
        }
        None
    }

    /// Gives the register at `reg_index` back.
    pub fn register_free(&mut self, reg_index: u32)
        requires
            old(self).wf(),
            reg_index < POOL_SIZE,
        ensures
            final(self).wf(),
            final(self)@ == after_free(old(self)@, reg_index as nat),
    {
        self.register_list[reg_index as usize].in_use = false;
        self.register_list[reg_index as usize].addr = 0;
        self.frees = Ghost(self.frees@ + 1);
        proof {
            assert(self@.entries =~= after_free(old(self)@, reg_index as nat).entries);
        }
    }

    /// The index at which the pool holds the register named `register_name`,
    /// or `-1` where it holds none of that name.
    pub fn register_index(&self, register_name: &String) -> (index: i32)
        ensures
            index == pool_index(register_name@),
    {
        let name = register_name.as_str();
        if text_is(name, "rbx") {
            0
        } else if text_is(name, "r10") {
            1
        } else if text_is(name, "r11") {
            2
        } else if text_is(name, "r12") {
            3
        } else if text_is(name, "r13") {
            4
        } else if text_is(name, "r14") {
            5
        } else if text_is(name, "r15") {
            6
        } else {
            -1
        }
    }

    /// The name of the register at `reg_index`.
    pub fn register_name(&self, reg_index: u32) -> (name: String)
        requires
            self.wf(),
            reg_index < POOL_SIZE,
        ensures
            name@ == pool_name(reg_index as nat),
    {
        assert(self@.entries[reg_index as int].name == pool_name(reg_index as nat));
        self.register_list[reg_index as usize].name.clone()
    }
}

/// How a piece of generated code leaves the pool, given the register it
/// hands to its parent, if any.
///
/// With a register: that register was free and is now taken, every other
/// register is as it was, and one more register was taken than given back.
/// Without one: every register is as it was, and as many were taken as given
/// back.
pub open spec fn balanced(before: PoolModel, after: PoolModel, result: Option<u32>) -> bool {
    &&& before.entries.len() == after.entries.len()
    &&& match result {
        Some(r) => {
            &&& r < before.entries.len()
            &&& !before.entries[r as int].in_use
            &&& after.entries[r as int].in_use
            &&& forall|j: int|
                0 <= j < before.entries.len() && j != r ==> (#[trigger] after.entries[j]).in_use
                    == before.entries[j].in_use
            &&& after.allocs - before.allocs == after.frees - before.frees + 1
        },
        None => {
            &&& forall|j: int|
                0 <= j < before.entries.len() ==> (#[trigger] after.entries[j]).in_use
                    == before.entries[j].in_use
            &&& after.allocs - before.allocs == after.frees - before.frees
        },
    }
}

} // verus!
