//! The execution machine: a tape, two pointers and a status, driven one
//! instruction at a time.

use vstd::prelude::*;
use crate::command::Command;
use crate::error::{Resource, RuntimeError};
use crate::model::{run_outcome, Limits, MachineModel, RunStatus};
use crate::program::ResolvedProgram;

verus! {

impl Limits {
    /// No bound on steps or tape beyond those of the machine's counters.
    pub fn unlimited() -> (r: Limits)
        ensures
            r == (Limits { max_steps: None, max_tape_len: None }),
    {
        Limits { max_steps: None, max_tape_len: None }
    }

    /// The number of instructions that a run may execute.
    pub fn step_bound(&self) -> (r: u64)
        ensures
            r == self.step_limit(),
    {
        match self.max_steps {
            Some(m) => m,
            None => u64::MAX,
        }
    }

    /// The number of cells that the tape may grow to.
    pub fn tape_bound(&self) -> (r: usize)
        ensures
            r == self.tape_limit(),
    {
        match self.max_tape_len {
            Some(m) => m,
            None => usize::MAX,
        }
    }
}

/// A machine that runs one resolved program.
#[derive(Debug)]
pub struct Machine {
    program: ResolvedProgram,
    limits: Limits,
    data: Vec<u8>,
    pointer: usize,
    command_pointer: usize,
    status: RunStatus,
    steps: u64,
    input: Vec<u8>,
    input_pos: usize,
    input_closed: bool,
    output: Vec<u8>,
}

impl View for Machine {
    type V = MachineModel;

    closed spec fn view(&self) -> MachineModel {
        MachineModel {
            commands: self.program.commands_spec(),
            jumps: self.program.jumps_spec(),
            limits: self.limits,
            tape: self.data@,
            pointer: self.pointer as nat,
            command_pointer: self.command_pointer as nat,
            status: self.status,
            steps: self.steps as nat,
            input: self.input@.skip(self.input_pos as int),
            input_closed: self.input_closed,
            output: self.output@,
        }
    }
}

impl Machine {
    /// The invariant of a machine: that of its model, and a read position
    /// inside the input buffer. `new` establishes it and every method keeps
    /// it.
    pub closed spec fn wf(&self) -> bool {
        &&& self@.wf()
        &&& self.input_pos <= self.input@.len()
    }

    /// A machine that meets its invariant has a model that meets its own.
    pub proof fn lemma_wf_model(&self)
        requires
            self.wf(),
        ensures
            self@.wf(),
    {
    }

    /// A fresh machine for `program`: in front of its first instruction, on
    /// an empty tape, with no input yet and the input still open.
    pub fn new(program: ResolvedProgram, limits: Limits) -> (r: Machine)
        ensures
            r@ == MachineModel::fresh(program.commands_spec(), program.jumps_spec(), limits),
            r.wf(),
    {
        proof {
            use_type_invariant(&program);
        }
        let machine = Machine {
            program,
            limits,
            data: Vec::new(),
            pointer: 0,
            command_pointer: 0,
            status: RunStatus::Running,
            steps: 0,
            input: Vec::new(),
            input_pos: 0,
            input_closed: false,
            output: Vec::new(),
        };
        assert(machine.input@.skip(0) =~= Seq::<u8>::empty());
        machine
    }

    /// Brings every cell up to the current one into existence, each new one
    /// holding zero. Does nothing where the current cell lies behind the
    /// tape limit.
    pub fn fill_to_pointer(&mut self)
        requires
            old(self).wf(),
        ensures
            final(self)@ == if old(self)@.pointer < old(self)@.limits.tape_limit() {
                old(self)@.materialized()
            } else {
                old(self)@
            },
            final(self).wf(),
    {
        let ghost before = *self;
        if self.pointer < self.limits.tape_bound() {
            while self.data.len() <= self.pointer
                invariant
                    before.pointer < before.limits.tape_limit(),
                    before.wf(),
                    self.data@.len() >= before.data@.len(),
                    self.data@.len() <= before.pointer + 1 || self.data@ == before.data@,
                    self.data@ == before.data@ + crate::model::zeros(
                        (self.data@.len() - before.data@.len()) as nat,
                    ),
                    *self == (Machine { data: self.data, ..before }),
                decreases self.pointer + 1 - self.data.len(),
            {
                self.data.push(0);
                assert(self.data@ =~= before.data@ + crate::model::zeros(
                    (self.data@.len() - before.data@.len()) as nat,
                ));
            }
            assert(self.data@ =~= before@.materialized().tape);
        }
    }

    /// Executes one step: the instruction at the command pointer, or the
    /// transition to `Halted` behind the last one. A machine that is not
    /// running is left as it is.
    pub fn execute_command(&mut self)
        requires
            old(self).wf(),
        ensures
            final(self)@ == old(self)@.step(),
            final(self).wf(),
    {
        let ghost before = *self;
        proof {
            crate::model::lemma_step_wf(before@);
        }
        match self.status {
            RunStatus::Running => {},
            _ => {
                return ;
            },
        }
        if self.command_pointer >= self.program.len() {
            self.status = RunStatus::Halted;
            return ;
        }
        if self.steps >= self.limits.step_bound() {
            self.status = RunStatus::Failed(
                RuntimeError::ResourceExhausted { steps_or_tape: Resource::Steps },
            );
            return ;
        }
        let command = self.program.command_at(self.command_pointer);
        match command {
            Command::IncrementPointer => {
                if self.pointer == usize::MAX {
                    self.status = RunStatus::Failed(
                        RuntimeError::ResourceExhausted { steps_or_tape: Resource::Tape },
                    );
                } else {
                    self.pointer = self.pointer + 1;
                    self.command_pointer = self.command_pointer + 1;
                    self.steps = self.steps + 1;
                }
            },
            Command::DecrementPointer => {
                if self.pointer == 0 {
                    self.status = RunStatus::Failed(RuntimeError::PointerUnderflow);
                } else {
                    self.pointer = self.pointer - 1;
                    self.command_pointer = self.command_pointer + 1;
                    self.steps = self.steps + 1;
                }
            },
            _ => {
                if self.pointer >= self.limits.tape_bound() {
                    self.status = RunStatus::Failed(
                        RuntimeError::ResourceExhausted { steps_or_tape: Resource::Tape },
                    );
                    return ;
                }
                let has_byte = self.input_pos < self.input.len();
                assert(has_byte <==> before@.input.len() > 0);
                if command == Command::Input && !has_byte && !self.input_closed {
                    self.status = RunStatus::AwaitingInput;
                    return ;
                }
                self.fill_to_pointer();
                let ghost filled = *self;
                let value = self.data[self.pointer];
                let partner = self.program.partner_at(self.command_pointer);
                let mut target = self.command_pointer + 1;
                match command {
                    Command::Increment => {
                        let next = if value == 255 {
                            0
                        } else {
                            value + 1
                        };
                        self.data.set(self.pointer, next);
                    },
                    Command::Decrement => {
                        let next = if value == 0 {
                            255
                        } else {
                            value - 1
                        };
                        self.data.set(self.pointer, next);
                    },
                    Command::Output => {
                        self.output.push(value);
                    },
                    Command::Input => {
                        assert(filled@.input.len() == self.input@.len() - self.input_pos);
                        if self.input_pos < self.input.len() {
                            assert(filled@.input[0] == self.input@[self.input_pos as int]);
                            let byte = self.input[self.input_pos];
                            self.data.set(self.pointer, byte);
                            self.input_pos = self.input_pos + 1;
                            assert(self.input@.skip(self.input_pos as int)
                                =~= filled@.input.drop_first());
                        }
                    },
                    Command::LoopStart => {
                        if value == 0 {
                            target = partner + 1;
                        }
                    },
                    Command::LoopEnd => {
                        if value != 0 {
                            target = partner + 1;
                        }
                    },
                    _ => {},
                }
                self.command_pointer = target;
                self.steps = self.steps + 1;
                assert(self@ == filled@.applied(command));
            },
        }
    }

    /// Runs until the machine is no longer running: it has halted, failed,
    /// been cancelled, or waits for input.
    pub fn run(&mut self)
        requires
            old(self).wf(),
        ensures
            final(self)@ == old(self)@.settled(),
            final(self)@.status != RunStatus::Running,
            final(self).wf(),
    {
        let ghost before = *self;
        proof {
            crate::model::lemma_settled(before@, 0);
        }
        while self.is_running()
            invariant
                self.wf(),
                self@.settled() == before@.settled(),
            decreases
                    if self@.status == RunStatus::Running {
                        self@.remaining_steps() + 1
                    } else {
                        0
                    },
        {
            proof {
                crate::model::lemma_settled(self@, 0);
                crate::model::lemma_step_wf(self@);
            }
            self.execute_command();
        }
        proof {
            crate::model::lemma_settled(self@, 0);
        }
    }

    /// Adds `bytes` to the input. A machine that waited for input is ready
    /// to run again.
    pub fn feed(&mut self, bytes: &[u8])
        requires
            old(self).wf(),
        ensures
            final(self)@ == old(self)@.fed(bytes@),
            final(self).wf(),
    {
        let ghost before = *self;
        let mut i: usize = 0;
        while i < bytes.len()
            invariant
                0 <= i <= bytes@.len(),
                before.wf(),
                self.input@ == before.input@ + bytes@.take(i as int),
                *self == (Machine { input: self.input, ..before }),
            decreases bytes.len() - i,
        {
            self.input.push(bytes[i]);
            i = i + 1;
            assert(self.input@ =~= before.input@ + bytes@.take(i as int));
        }
        assert(bytes@.take(i as int) =~= bytes@);
        assert(self.input@.skip(self.input_pos as int) =~= before@.input + bytes@);
        self.wake();
    }

    /// Declares the input ended: no byte will follow those already fed. A
    /// machine that waited for input is ready to run again.
    pub fn close_input(&mut self)
        requires
            old(self).wf(),
        ensures
            final(self)@ == old(self)@.input_ended(),
            final(self).wf(),
    {
        self.input_closed = true;
        self.wake();
    }

    /// Reports that the input source has failed: a machine that runs or
    /// waits for input fails with `InputSourceError`.
    pub fn fail_input(&mut self)
        requires
            old(self).wf(),
        ensures
            final(self)@ == old(self)@.input_failed(),
            final(self).wf(),
    {
        match self.status {
            RunStatus::Running | RunStatus::AwaitingInput => {
                self.status = RunStatus::Failed(RuntimeError::InputSourceError);
            },
            _ => {},
        }
    }

    /// Stops the run from outside: a machine that runs or waits for input
    /// becomes `Cancelled`.
    pub fn cancel(&mut self)
        requires
            old(self).wf(),
        ensures
            final(self)@ == old(self)@.cancelled(),
            final(self).wf(),
    {
        match self.status {
            RunStatus::Running | RunStatus::AwaitingInput => {
                self.status = RunStatus::Cancelled;
            },
            _ => {},
        }
    }

    /// Hands out the bytes emitted since the last collection, in the order
    /// in which they were emitted, and leaves none behind.
    pub fn take_output(&mut self) -> (r: Vec<u8>)
        requires
            old(self).wf(),
        ensures
            r@ == old(self)@.output,
            final(self)@ == (MachineModel { output: Seq::empty(), ..old(self)@ }),
            final(self).wf(),
    {
        let mut taken: Vec<u8> = Vec::new();
        core::mem::swap(&mut self.output, &mut taken);
        taken
    }

    fn wake(&mut self)
        ensures
            *final(self) == (Machine { status: old(self)@.woken_status(), ..*old(self) }),
    {
        match self.status {
            RunStatus::AwaitingInput => {
                self.status = RunStatus::Running;
            },
            _ => {},
        }
    }

    /// Whether the machine is ready to execute an instruction.
    pub fn is_running(&self) -> (r: bool)
        ensures
            r == (self@.status == RunStatus::Running),
    {
        match self.status {
            RunStatus::Running => true,
            _ => false,
        }
    }

    /// Where the run stands.
    pub fn status(&self) -> (r: RunStatus)
        ensures
            r == self@.status,
    {
        self.status
    }

    /// The index of the current cell.
    pub fn pointer(&self) -> (r: usize)
        ensures
            r == self@.pointer,
    {
        self.pointer
    }

    /// The index of the next instruction.
    pub fn command_pointer(&self) -> (r: usize)
        ensures
            r == self@.command_pointer,
    {
        self.command_pointer
    }

    /// The number of instructions executed so far.
    pub fn steps(&self) -> (r: u64)
        ensures
            r == self@.steps,
    {
        self.steps
    }

    /// The number of cells that exist.
    pub fn tape_len(&self) -> (r: usize)
        ensures
            r == self@.tape.len(),
    {
        self.data.len()
    }

    /// The value of cell `index`: zero where the cell does not exist yet.
    pub fn cell_at(&self, index: usize) -> (r: u8)
        ensures
            r == self@.cell_at(index as nat),
    {
        if index < self.data.len() {
            self.data[index]
        } else {
            0
        }
    }

    /// The value of the current cell: zero where it does not exist yet.
    pub fn output(&self) -> (r: u8)
        ensures
            r == self@.cell(),
    {
        if self.pointer < self.data.len() {
            self.data[self.pointer]
        } else {
            0
        }
    }
}

impl Default for Limits {
    fn default() -> (r: Limits)
        ensures
            r == (Limits { max_steps: None, max_tape_len: None }),
    {
        Limits::unlimited()
    }
}

impl Default for Machine {
    /// A fresh machine for the program without instructions, with no limits.
    fn default() -> (r: Machine)
        ensures
            r@ == MachineModel::fresh(
                Seq::empty(),
                Seq::empty(),
                Limits { max_steps: None, max_tape_len: None },
            ),
            r.wf(),
    {
        Machine::new(ResolvedProgram::empty(), Limits::unlimited())
    }
}

/// How a complete run ended, and what it emitted.
#[derive(Debug, Clone, PartialEq, Eq)]
pub struct RunResult {
    /// The status in which the machine stopped.
    pub final_status: RunStatus,
    /// The bytes emitted, in order; on failure, those emitted before it.
    pub output: Vec<u8>,
}

impl RunResult {
    /// Why the run failed, if it did.
    pub open spec fn failure_reason_spec(&self) -> Option<RuntimeError> {
        match self.final_status {
            RunStatus::Failed(reason) => Some(reason),
            _ => None,
        }
    }

    /// Why the run failed, if it did.
    pub fn failure_reason(&self) -> (r: Option<RuntimeError>)
        ensures
            r == self.failure_reason_spec(),
    {
        match self.final_status {
            RunStatus::Failed(reason) => Some(reason),
            _ => None,
        }
    }
}

/// Runs `program` to its end on a fresh machine, with `input` as the whole
/// input. The run ends halted or failed.
pub fn run(program: ResolvedProgram, input: &[u8], limits: Limits) -> (r: RunResult)
    ensures
        r.final_status == run_outcome(
            program.commands_spec(),
            program.jumps_spec(),
            input@,
            limits,
        ).status,
        r.output@ == run_outcome(
            program.commands_spec(),
            program.jumps_spec(),
            input@,
            limits,
        ).output,
        r.final_status is Halted || r.final_status is Failed,
{
    proof {
        use_type_invariant(&program);
        crate::model::lemma_run_outcome_final(
            program.commands_spec(),
            program.jumps_spec(),
            input@,
            limits,
        );
    }
    let mut machine = Machine::new(program, limits);
    machine.feed(input);
    machine.close_input();
    machine.run();
    let final_status = machine.status();
    let output = machine.take_output();
    RunResult { final_status, output }
}

} // verus!
