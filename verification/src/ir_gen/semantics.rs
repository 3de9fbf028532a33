//! What generated code does when it runs, as far as the generator's laws
//! speak of it: a machine that visits the entries of a function's code in
//! order and runs those that stand in the block where control is. For code
//! whose branches all lead forward, which is how update functions and the
//! rounds of a fixpoint loop are emitted, that is how the code runs.

use crate::ir_gen::ir::{BinaryOp, EmittedSpec, InstrSpec, Predicate};
use vstd::prelude::*;

verus! {

/// Where an object lives.
pub enum Region {
    /// The module state that the function's first parameter points to.
    State,
    /// The stack slot that the code entry of this number reserved.
    Stack(usize),
}

/// The place of a value in memory: an object and the indices of the fields
/// that lead to the value inside it.
pub struct Address {
    pub region: Region,
    pub path: Seq<int>,
}

/// What a value can be. Results of instructions that the laws do not speak
/// of are unknown.
pub enum Word {
    Int(u64),
    Pointer(Address),
    /// The pointer that points nowhere.
    Null,
    Unknown,
}

pub type Memory = Map<Address, Word>;

/// What lies outside the function that runs: its arguments, and what a call
/// of another function does to memory and gives back.
pub struct World {
    pub arguments: Seq<Word>,
    pub effect: spec_fn(usize, Seq<Word>, Memory) -> Memory,
    pub result: spec_fn(usize, Seq<Word>, Memory) -> Word,
}

/// Where control is.
pub enum Control {
    /// In the block that the code entry of this number appended.
    At(usize),
    /// The function has returned.
    Returned,
    /// An instruction met a value it cannot work on.
    Stuck,
}

/// A call that was made: the function and its arguments.
pub struct CallMade {
    pub callee: usize,
    pub arguments: Seq<Word>,
}

/// The state of a function that runs.
pub struct Machine {
    pub control: Control,
    /// The block that control was in before it came to this one.
    pub came_from: usize,
    /// The values of the code entries that have run.
    pub values: Map<usize, Word>,
    pub memory: Memory,
    /// The calls made so far, oldest first.
    pub calls: Seq<CallMade>,
}

impl Address {
    /// The address of the field at `index` of the struct at this address.
    pub open spec fn field(self, index: int) -> Address {
        Address { region: self.region, path: self.path.push(index) }
    }
}

/// The state of a module as a whole.
pub open spec fn state_address() -> Address {
    Address { region: Region::State, path: Seq::empty() }
}

impl Machine {
    /// The machine at the start of a function whose first block is the code
    /// entry `entry`.
    pub open spec fn start(entry: usize, memory: Memory) -> Machine {
        Machine {
            control: Control::At(entry),
            came_from: entry,
            values: Map::empty(),
            memory,
            calls: Seq::empty(),
        }
    }

    /// The value of the code entry `id`.
    pub open spec fn value(self, id: usize) -> Word {
        if self.values.contains_key(id) {
            self.values[id]
        } else {
            Word::Unknown
        }
    }

    /// The word at `address`.
    pub open spec fn load(self, address: Address) -> Word {
        if self.memory.contains_key(address) {
            self.memory[address]
        } else {
            Word::Unknown
        }
    }

    pub open spec fn set(self, id: usize, word: Word) -> Machine {
        Machine { values: self.values.insert(id, word), ..self }
    }

    pub open spec fn store(self, address: Address, word: Word) -> Machine {
        Machine { memory: self.memory.insert(address, word), ..self }
    }

    pub open spec fn stuck(self) -> Machine {
        Machine { control: Control::Stuck, ..self }
    }

    pub open spec fn jump(self, from: usize, target: usize) -> Machine {
        Machine { control: Control::At(target), came_from: from, ..self }
    }

    /// The values of the entries `ids`, in order.
    pub open spec fn values_of(self, ids: Seq<usize>) -> Seq<Word> {
        Seq::new(ids.len(), |k: int| self.value(ids[k]))
    }
}

/// The result of a two-operand instruction on two 64-bit integers.
pub open spec fn spec_binary_result(op: BinaryOp, lhs: u64, rhs: u64) -> u64 {
    match op {
        BinaryOp::And => lhs & rhs,
        BinaryOp::Or => lhs | rhs,
        BinaryOp::Add => ((lhs + rhs) % 0x1_0000_0000_0000_0000) as u64,
        BinaryOp::Mul => ((lhs * rhs) % 0x1_0000_0000_0000_0000) as u64,
    }
}

/// The result of a comparison that does not look at the sign.
pub open spec fn spec_compare_result(predicate: Predicate, lhs: u64, rhs: u64) -> Word {
    match predicate {
        Predicate::Equal => Word::Int(
            if lhs == rhs {
                1
            } else {
                0
            },
        ),
        Predicate::NotEqual => Word::Int(
            if lhs != rhs {
                1
            } else {
                0
            },
        ),
        Predicate::UnsignedLess => Word::Int(
            if lhs < rhs {
                1
            } else {
                0
            },
        ),
        Predicate::UnsignedGreater => Word::Int(
            if lhs > rhs {
                1
            } else {
                0
            },
        ),
        _ => Word::Unknown,
    }
}

/// What the instruction `instr`, which is the code entry `id` and stands in
/// the block `block` where control is, does to the machine.
pub open spec fn spec_run_placed(
    machine: Machine,
    world: World,
    instr: InstrSpec,
    id: usize,
    block: usize,
) -> Machine {
    match instr {
        InstrSpec::Alloca { .. } => machine.set(
            id,
            Word::Pointer(Address { region: Region::Stack(id), path: Seq::empty() }),
        ),
        InstrSpec::Load { ptr, .. } => match machine.value(ptr) {
            Word::Pointer(address) => machine.set(id, machine.load(address)),
            _ => machine.stuck(),
        },
        InstrSpec::Store { ptr, value } => match machine.value(ptr) {
            Word::Pointer(address) => machine.store(address, machine.value(value)),
            _ => machine.stuck(),
        },
        InstrSpec::StructGep { ptr, index, .. } => match machine.value(ptr) {
            Word::Pointer(address) => machine.set(id, Word::Pointer(address.field(index as int))),
            _ => machine.stuck(),
        },
        InstrSpec::Binary { op, lhs, rhs, .. } => match (machine.value(lhs), machine.value(rhs)) {
            (Word::Int(l), Word::Int(r)) => machine.set(id, Word::Int(spec_binary_result(op, l, r))),
            _ => machine.set(id, Word::Unknown),
        },
        InstrSpec::Compare { predicate, lhs, rhs, .. } => match (
            machine.value(lhs),
            machine.value(rhs),
        ) {
            (Word::Int(l), Word::Int(r)) => machine.set(id, spec_compare_result(predicate, l, r)),
            _ => machine.set(id, Word::Unknown),
        },
        InstrSpec::IntToPtr { address, .. } => machine.set(
            id,
            if machine.value(address) == Word::Int(0) {
                Word::Null
            } else {
                Word::Unknown
            },
        ),
        InstrSpec::Call { callee, args, .. } => {
            let arguments = machine.values_of(args);
            Machine {
                values: machine.values.insert(
                    id,
                    (world.result)(callee, arguments, machine.memory),
                ),
                memory: (world.effect)(callee, arguments, machine.memory),
                calls: machine.calls.push(CallMade { callee, arguments }),
                ..machine
            }
        },
        InstrSpec::Phi { incoming, .. } => machine.set(
            id,
            if exists|k: int| 0 <= k < incoming.len() && incoming[k].1 == machine.came_from {
                let k = choose|k: int| 0 <= k < incoming.len() && incoming[k].1 == machine.came_from;
                machine.value(incoming[k].0)
            } else {
                Word::Unknown
            },
        ),
        InstrSpec::Br { target } => machine.jump(block, target),
        InstrSpec::CondBr { condition, if_true, if_false } => match machine.value(condition) {
            Word::Int(c) => machine.jump(
                block,
                if c != 0 {
                    if_true
                } else {
                    if_false
                },
            ),
            _ => machine.stuck(),
        },
        InstrSpec::Ret => Machine { control: Control::Returned, ..machine },
        _ => machine.set(id, Word::Unknown),
    }
}

/// What the code entry `id` does to the machine: a block does nothing, a
/// parameter and a constant have their value wherever control is, and any
/// other instruction runs where control is in the block that it stands in.
pub open spec fn spec_step(machine: Machine, world: World, entry: EmittedSpec, id: usize)
    -> Machine {
    match entry.instr {
        InstrSpec::Block { .. } => machine,
        InstrSpec::Param { index } => machine.set(
            id,
            if index < world.arguments.len() {
                world.arguments[index as int]
            } else {
                Word::Unknown
            },
        ),
        InstrSpec::ConstInt { constant, .. } => machine.set(id, Word::Int(constant)),
        placed => match (machine.control, entry.at) {
            (Control::At(here), Some(block)) => if here == block {
                spec_run_placed(machine, world, placed, id, block)
            } else {
                machine
            },
            _ => machine,
        },
    }
}

/// The machine after the code entries from `from` up to, not including,
/// `to` were visited in order.
pub open spec fn spec_run(
    code: Seq<EmittedSpec>,
    world: World,
    machine: Machine,
    from: int,
    to: int,
) -> Machine
    decreases to - from,
{
    if to <= from || to > code.len() || from < 0 {
        machine
    } else {
        spec_step(spec_run(code, world, machine, from, to - 1), world, code[to - 1], (to - 1) as usize)
    }
}

/// A run does not depend on the entries behind its end.
pub proof fn lemma_run_prefix(
    code: Seq<EmittedSpec>,
    longer: Seq<EmittedSpec>,
    world: World,
    machine: Machine,
    from: int,
    to: int,
)
    requires
        to <= code.len() <= longer.len(),
        forall|i: int| 0 <= i < to ==> code[i] == longer[i],
    ensures
        spec_run(code, world, machine, from, to) == spec_run(longer, world, machine, from, to),
    decreases to - from,
{
    if to > from && from >= 0 {
        lemma_run_prefix(code, longer, world, machine, from, to - 1);
    }
}

/// A run in two parts is the run of the whole.
pub proof fn lemma_run_split(
    code: Seq<EmittedSpec>,
    world: World,
    machine: Machine,
    from: int,
    mid: int,
    to: int,
)
    requires
        0 <= from <= mid <= to <= code.len(),
    ensures
        spec_run(code, world, machine, from, to) == spec_run(
            code,
            world,
            spec_run(code, world, machine, from, mid),
            mid,
            to,
        ),
    decreases to - mid,
{
    if to > mid {
        lemma_run_split(code, world, machine, from, mid, to - 1);
    }
}

} // verus!
