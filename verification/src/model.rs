//! The execution machine as a mathematical object: its state and the
//! function from a state to the next one.

use vstd::prelude::*;
use crate::bracket::{balanced, is_resolved};
use crate::command::Command;
use crate::error::{Resource, RuntimeError};

verus! {

/// Optional bounds on a run. A bound that is not set is the largest value of
/// its counter.
#[derive(Debug, Clone, Copy, PartialEq, Eq, Structural)]
pub struct Limits {
    /// The largest number of instructions that may be executed.
    pub max_steps: Option<u64>,
    /// The largest number of tape cells that may come into existence.
    pub max_tape_len: Option<usize>,
}

/// Where a machine stands in its run.
#[derive(Debug, Clone, Copy, PartialEq, Eq, Structural)]
pub enum RunStatus {
    /// Ready to execute the next instruction.
    Running,
    /// The command pointer has left the program: the run is complete.
    Halted,
    /// An input instruction found no byte, and the input is still open.
    AwaitingInput,
    /// A fatal condition ended the run.
    Failed(RuntimeError),
    /// The run was stopped from outside.
    Cancelled,
}

/// The value of a cell after `+`.
pub open spec fn increment_cell(v: u8) -> u8 {
    ((v + 1) % 256) as u8
}

/// The value of a cell after `-`.
pub open spec fn decrement_cell(v: u8) -> u8 {
    ((v + 255) % 256) as u8
}

/// `len` cells that hold zero.
pub open spec fn zeros(len: nat) -> Seq<u8> {
    Seq::new(len, |i: int| 0u8)
}

impl Limits {
    /// The number of instructions that a run may execute.
    pub open spec fn step_limit(self) -> nat {
        match self.max_steps {
            Some(m) => m as nat,
            None => u64::MAX as nat,
        }
    }

    /// The number of cells that the tape may grow to.
    pub open spec fn tape_limit(self) -> nat {
        match self.max_tape_len {
            Some(m) => m as nat,
            None => usize::MAX as nat,
        }
    }
}

/// The state of a machine.
pub struct MachineModel {
    /// The instructions of the program.
    pub commands: Seq<Command>,
    /// The jump table of the program.
    pub jumps: Seq<usize>,
    /// The bounds of the run.
    pub limits: Limits,
    /// The cells that exist; every cell behind them holds zero.
    pub tape: Seq<u8>,
    /// The index of the current cell.
    pub pointer: nat,
    /// The index of the next instruction.
    pub command_pointer: nat,
    /// Where the run stands.
    pub status: RunStatus,
    /// The number of instructions executed so far.
    pub steps: nat,
    /// The input bytes that were supplied and not yet read.
    pub input: Seq<u8>,
    /// Whether the input has ended: no byte will follow those in `input`.
    pub input_closed: bool,
    /// The bytes emitted and not yet collected.
    pub output: Seq<u8>,
}

impl MachineModel {
    /// A machine in front of the first instruction, with an empty tape, no
    /// input and no output.
    pub open spec fn fresh(commands: Seq<Command>, jumps: Seq<usize>, limits: Limits) -> Self {
        MachineModel {
            commands,
            jumps,
            limits,
            tape: Seq::empty(),
            pointer: 0,
            command_pointer: 0,
            status: RunStatus::Running,
            steps: 0,
            input: Seq::empty(),
            input_closed: false,
            output: Seq::empty(),
        }
    }

    /// The invariant of a machine.
    pub open spec fn wf(self) -> bool {
        &&& balanced(self.commands)
        &&& is_resolved(self.commands, self.jumps)
        &&& self.command_pointer <= self.commands.len()
        &&& self.steps <= self.limits.step_limit()
        &&& self.tape.len() <= self.limits.tape_limit()
        &&& self.pointer <= usize::MAX
    }

    /// The value of cell `index`: zero where the cell does not exist yet.
    pub open spec fn cell_at(self, index: nat) -> u8 {
        if index < self.tape.len() {
            self.tape[index as int]
        } else {
            0
        }
    }

    /// The value of the current cell.
    pub open spec fn cell(self) -> u8 {
        self.cell_at(self.pointer)
    }

    /// The machine with the tape grown by zero cells until the current cell
    /// exists.
    pub open spec fn materialized(self) -> Self {
        if self.pointer < self.tape.len() {
            self
        } else {
            MachineModel {
                tape: self.tape + zeros((self.pointer + 1 - self.tape.len()) as nat),
                ..self
            }
        }
    }

    /// The machine with the current cell set to `v`; the cell exists.
    pub open spec fn with_cell(self, v: u8) -> Self {
        MachineModel { tape: self.tape.update(self.pointer as int, v), ..self }
    }

    /// The machine stopped by a fatal condition; nothing else changes.
    pub open spec fn failed(self, reason: RuntimeError) -> Self {
        MachineModel { status: RunStatus::Failed(reason), ..self }
    }

    /// The machine after one executed instruction that ends at `target`.
    pub open spec fn continued_at(self, target: nat) -> Self {
        MachineModel { command_pointer: target, steps: self.steps + 1, ..self }
    }

    /// The machine after one executed instruction that does not jump.
    pub open spec fn advanced(self) -> Self {
        self.continued_at(self.command_pointer + 1)
    }

    /// Whether an input instruction would find neither a byte nor the end of
    /// the input.
    pub open spec fn starved(self) -> bool {
        self.input.len() == 0 && !self.input_closed
    }

    /// The effect of an instruction that uses the current cell, which exists.
    /// At the end of the input, an input instruction leaves the cell as it is.
    pub open spec fn applied(self, c: Command) -> Self {
        let v = self.tape[self.pointer as int];
        let partner = self.jumps[self.command_pointer as int] as nat;
        match c {
            Command::Increment => self.with_cell(increment_cell(v)).advanced(),
            Command::Decrement => self.with_cell(decrement_cell(v)).advanced(),
            Command::Output => MachineModel { output: self.output.push(v), ..self }.advanced(),
            Command::Input => if self.input.len() > 0 {
                MachineModel { input: self.input.drop_first(), ..self }.with_cell(
                    self.input[0],
                ).advanced()
            } else {
                self.advanced()
            },
            Command::LoopStart => if v == 0 {
                self.continued_at(partner + 1)
            } else {
                self.advanced()
            },
            Command::LoopEnd => if v != 0 {
                self.continued_at(partner + 1)
            } else {
                self.advanced()
            },
            _ => self,
        }
    }

    /// The effect of executing instruction `c`.
    ///
    /// Moving the pointer creates no cell. Every other instruction first
    /// brings the current cell into existence, and fails where that would
    /// take the tape over its limit. An input instruction that finds no byte
    /// while the input is open suspends the machine and changes nothing else.
    pub open spec fn executed(self, c: Command) -> Self {
        match c {
            Command::IncrementPointer => if self.pointer >= usize::MAX {
                self.failed(RuntimeError::ResourceExhausted { steps_or_tape: Resource::Tape })
            } else {
                MachineModel { pointer: self.pointer + 1, ..self }.advanced()
            },
            Command::DecrementPointer => if self.pointer == 0 {
                self.failed(RuntimeError::PointerUnderflow)
            } else {
                MachineModel { pointer: (self.pointer - 1) as nat, ..self }.advanced()
            },
            _ => if self.pointer >= self.limits.tape_limit() {
                self.failed(RuntimeError::ResourceExhausted { steps_or_tape: Resource::Tape })
            } else if c == Command::Input && self.starved() {
                MachineModel { status: RunStatus::AwaitingInput, ..self }
            } else {
                self.materialized().applied(c)
            },
        }
    }

    /// One step of the machine. A machine that is not running stays as it
    /// is. A running machine whose command pointer has left the program
    /// halts. Otherwise the next instruction is executed, unless the step
    /// limit is used up.
    pub open spec fn step(self) -> Self {
        if self.status != RunStatus::Running {
            self
        } else if self.command_pointer >= self.commands.len() {
            MachineModel { status: RunStatus::Halted, ..self }
        } else if self.steps >= self.limits.step_limit() {
            self.failed(RuntimeError::ResourceExhausted { steps_or_tape: Resource::Steps })
        } else {
            self.executed(self.commands[self.command_pointer as int])
        }
    }

    /// The machine after at most `n` steps, stopping early once it is no
    /// longer running.
    pub open spec fn run_for(self, n: nat) -> Self
        decreases n,
    {
        if n == 0 || self.status != RunStatus::Running {
            self
        } else {
            self.step().run_for((n - 1) as nat)
        }
    }

    /// The number of instructions that the step limit still allows.
    pub open spec fn remaining_steps(self) -> nat {
        (self.limits.step_limit() - self.steps) as nat
    }

    /// The machine run until it is no longer running. One step more than the
    /// step limit allows instructions is always enough for that.
    pub open spec fn settled(self) -> Self {
        self.run_for(self.remaining_steps() + 1)
    }

    /// The machine with `bytes` added to its input. A machine that waited
    /// for input runs again.
    pub open spec fn fed(self, bytes: Seq<u8>) -> Self {
        MachineModel { input: self.input + bytes, status: self.woken_status(), ..self }
    }

    /// The machine with its input ended. A machine that waited for input
    /// runs again.
    pub open spec fn input_ended(self) -> Self {
        MachineModel { input_closed: true, status: self.woken_status(), ..self }
    }

    /// The status with a wait for input lifted.
    pub open spec fn woken_status(self) -> RunStatus {
        if self.status == RunStatus::AwaitingInput {
            RunStatus::Running
        } else {
            self.status
        }
    }

    /// Whether the run can still go on: the machine runs or waits for input.
    pub open spec fn live(self) -> bool {
        self.status == RunStatus::Running || self.status == RunStatus::AwaitingInput
    }

    /// The machine with a failure of its input source reported: a live
    /// machine fails, any other stays as it is.
    pub open spec fn input_failed(self) -> Self {
        if self.live() {
            self.failed(RuntimeError::InputSourceError)
        } else {
            self
        }
    }

    /// The machine stopped from outside: a live machine is cancelled, any
    /// other stays as it is.
    pub open spec fn cancelled(self) -> Self {
        if self.live() {
            MachineModel { status: RunStatus::Cancelled, ..self }
        } else {
            self
        }
    }
}

/// `-` undoes `+` and `+` undoes `-`, on every cell value; so the two are
/// different operations.
pub proof fn lemma_increment_decrement_inverse(v: u8)
    ensures
        decrement_cell(increment_cell(v)) == v,
        increment_cell(decrement_cell(v)) == v,
        increment_cell(v) != decrement_cell(v),
        increment_cell(v) == if v == 255 { 0u8 } else { (v + 1) as u8 },
        decrement_cell(v) == if v == 0 { 255u8 } else { (v - 1) as u8 },
{
}

/// A step keeps the invariant, the program and the limits. A machine that
/// still runs after it has executed exactly one instruction; one that left
/// the running state by failing has changed in nothing but its status.
pub proof fn lemma_step_wf(m: MachineModel)
    requires
        m.wf(),
    ensures
        m.step().wf(),
        m.step().commands == m.commands,
        m.step().jumps == m.jumps,
        m.step().limits == m.limits,
        m.step().input_closed == m.input_closed,
        m.status == RunStatus::Running && m.step().status == RunStatus::Running ==> m.step().steps
            == m.steps + 1,
        m.step().status is Failed ==> m.step() == (MachineModel {
            status: m.step().status,
            ..m
        }),
        m.step().status == RunStatus::AwaitingInput && m.status == RunStatus::Running
            ==> !m.input_closed,
        m.step().status is Cancelled ==> m.status is Cancelled,
{
    if m.status == RunStatus::Running && m.command_pointer < m.commands.len() && m.steps
        < m.limits.step_limit() {
        let c = m.commands[m.command_pointer as int];
        let partner = m.jumps[m.command_pointer as int];
        assert(c == Command::LoopStart ==> crate::bracket::paired(
            m.commands,
            m.command_pointer as int,
            partner as int,
        ));
        assert(c == Command::LoopEnd ==> crate::bracket::paired(
            m.commands,
            partner as int,
            m.command_pointer as int,
        ));
    }
}

/// The output of a machine only grows: a step keeps what was emitted and
/// adds at most one byte.
pub proof fn lemma_step_output(m: MachineModel)
    requires
        m.wf(),
    ensures
        m.step().output == m.output || m.step().output == m.output.push(m.cell()),
{
}

/// One step more than the step limit allows instructions brings every
/// machine out of the running state.
pub proof fn lemma_run_for_settles(m: MachineModel, n: nat)
    requires
        m.wf(),
        n > m.remaining_steps(),
    ensures
        m.run_for(n).status != RunStatus::Running,
        m.run_for(n).wf(),
    decreases n,
{
    if m.status == RunStatus::Running {
        lemma_step_wf(m);
        if m.step().status == RunStatus::Running {
            lemma_run_for_settles(m.step(), (n - 1) as nat);
        } else {
            assert(m.step().run_for((n - 1) as nat) == m.step());
        }
    }
}

/// Once a run has left the running state, more steps change nothing.
pub proof fn lemma_run_for_stable(m: MachineModel, n: nat, k: nat)
    requires
        m.run_for(n).status != RunStatus::Running,
        n <= k,
    ensures
        m.run_for(k) == m.run_for(n),
    decreases n,
{
    if n > 0 && m.status == RunStatus::Running {
        lemma_run_for_stable(m.step(), (n - 1) as nat, (k - 1) as nat);
    }
}

/// A run is determined by the machine it starts from: however many steps
/// two runs of one machine are given, if both have left the running state
/// they have ended in the same state, with the same output and status.
pub proof fn lemma_outcome_unique(m: MachineModel, n1: nat, n2: nat)
    requires
        m.run_for(n1).status != RunStatus::Running,
        m.run_for(n2).status != RunStatus::Running,
    ensures
        m.run_for(n1) == m.run_for(n2),
{
    if n1 <= n2 {
        lemma_run_for_stable(m, n1, n2);
    } else {
        lemma_run_for_stable(m, n2, n1);
    }
}

/// A settled machine is not running, and it is the state in which every
/// run of the machine that leaves the running state ends.
pub proof fn lemma_settled(m: MachineModel, n: nat)
    requires
        m.wf(),
    ensures
        m.settled().wf(),
        m.settled().status != RunStatus::Running,
        m.run_for(n).status != RunStatus::Running ==> m.run_for(n) == m.settled(),
        m.status != RunStatus::Running ==> m.settled() == m,
        m.status == RunStatus::Running ==> m.settled() == m.step().settled(),
{
    lemma_run_for_settles(m, m.remaining_steps() + 1);
    if m.run_for(n).status != RunStatus::Running {
        lemma_outcome_unique(m, n, m.remaining_steps() + 1);
    }
    if m.status == RunStatus::Running {
        lemma_step_wf(m);
        let next = m.step();
        lemma_run_for_settles(next, next.remaining_steps() + 1);
        assert(m.settled() == next.run_for(m.remaining_steps()));
        if next.status == RunStatus::Running {
            assert(next.remaining_steps() + 1 == m.remaining_steps());
        } else {
            assert(next.run_for(m.remaining_steps()) == next);
            assert(next.settled() == next);
        }
    }
}

/// A run whose input has ended, and which nobody cancels, ends halted or
/// failed: it never waits for input.
pub proof fn lemma_closed_run_ends(m: MachineModel, n: nat)
    requires
        m.wf(),
        m.input_closed,
        m.status is Running || m.status is Halted || m.status is Failed,
    ensures
        m.run_for(n).input_closed,
        m.run_for(n).status is Running || m.run_for(n).status is Halted || m.run_for(
            n,
        ).status is Failed,
    decreases n,
{
    if n > 0 && m.status == RunStatus::Running {
        lemma_step_wf(m);
        lemma_closed_run_ends(m.step(), (n - 1) as nat);
    }
}

/// The machine that a complete run of a program on `input` ends in: a fresh
/// machine is given the whole input, the input is ended, and the machine
/// runs until it stops.
pub open spec fn run_outcome(
    commands: Seq<Command>,
    jumps: Seq<usize>,
    input: Seq<u8>,
    limits: Limits,
) -> MachineModel {
    MachineModel::fresh(commands, jumps, limits).fed(input).input_ended().settled()
}

/// A complete run of a resolved program ends halted or failed.
pub proof fn lemma_run_outcome_final(
    commands: Seq<Command>,
    jumps: Seq<usize>,
    input: Seq<u8>,
    limits: Limits,
)
    requires
        balanced(commands),
        is_resolved(commands, jumps),
    ensures
        run_outcome(commands, jumps, input, limits).status is Halted || run_outcome(
            commands,
            jumps,
            input,
            limits,
        ).status is Failed,
{
    let start = MachineModel::fresh(commands, jumps, limits).fed(input).input_ended();
    lemma_settled(start, 0);
    lemma_closed_run_ends(start, start.remaining_steps() + 1);
}

} // verus!
