use vstd::prelude::*;

use crate::dispatch::{Dispatcher, OutputHandler};
use crate::state::{OutputEvent, State};

verus! {

/// Decodes and executes the instructions of the emulated architecture.
pub trait InstructionSet {
    type Instruction;

    /// The instruction encoded at `memory[offset]`, if the bytes there
    /// encode one. The default describes a set that encodes no instruction.
    open spec fn instruction_at(&self, memory: Seq<u8>, offset: int) -> Option<Self::Instruction> {
        None
    }

    /// Whether executing `instruction` takes the machine from `before` to
    /// `after` and resumes at `next`. The default claims nothing.
    open spec fn executes(&self, instruction: Self::Instruction, before: State, after: State, next: usize) -> bool {
        true
    }

    fn decode(&self, memory: &Vec<u8>, offset: usize) -> (r: Option<Self::Instruction>)
        requires
            offset < memory@.len(),
        ensures
            r == self.instruction_at(memory@, offset as int),
    ;

    /// Runs `instruction`, which was decoded at `state.pc`, and returns the
    /// address that execution resumes at. It is called after the cycle has
    /// committed `nc` to `pc` and before `nc` advances, so the two agree.
    /// Memory keeps its length, and the returned address lies in memory or
    /// just past its end.
    fn execute(&self, instruction: Self::Instruction, state: &mut State) -> (r: usize)
        requires
            old(state).pc < old(state).memory@.len(),
            old(state).nc == old(state).pc,
        ensures
            self.executes(instruction, *old(state), *final(state), r),
            final(state).memory@.len() == old(state).memory@.len(),
            r <= final(state).memory@.len(),
    ;
}

/// A request from outside to stop the run, polled once per iteration.
pub trait ExitSignal {
    fn should_exit(&self) -> bool;
}

/// The program image does not fit into the memory asked for.
#[derive(Clone, Copy, Debug, PartialEq, Eq, Structural)]
pub struct LoadError {
    pub size: usize,
    pub capacity: usize,
}

/// Why a run was abandoned.
#[derive(Clone, Copy, Debug, PartialEq, Eq, Structural)]
pub enum EngineError {
    /// The bytes at `address`, starting with `byte`, encode no instruction.
    Decode { address: usize, byte: u8 },
    /// An output event named a device without a handler.
    Dispatch { device: u8 },
}

/// How a run that raised no error ended.
#[derive(Clone, Copy, Debug, PartialEq, Eq, Structural)]
pub enum Stop {
    /// `pc` left memory, or an instruction jumped to itself.
    Halted,
    /// The exit signal was observed.
    ExitRequested,
    /// The run polled `u64::MAX` times without halting.
    LimitReached,
}

/// `s` with `pc` set to its `nc`: the state once a cycle has committed the
/// next address and before anything is decoded.
pub open spec fn committed(s: State) -> State {
    State { pc: s.nc, ..s }
}

/// `after` is `before` with `nc` set to `next` and its oldest pending
/// output event taken off the queue.
pub open spec fn taken(before: State, next: usize, after: State) -> bool {
    &&& after == (State { nc: next, output_queue: after.output_queue, ..before })
    &&& after.output_queue@ == before.output_queue@.drop_first()
}

/// What ends a cycle once the instruction returned `next`: `nc` becomes
/// `next`, and the oldest pending output event, if any, goes to the handler
/// of its device; the cycle fails where that device has none.
pub open spec fn finished<H: OutputHandler>(
    devices: &Dispatcher<H>,
    before: State,
    next: usize,
    after: State,
    r: Result<(), EngineError>,
) -> bool {
    if before.output_queue@.len() == 0 {
        r is Ok && after == (State { nc: next, ..before })
    } else {
        let event = before.output_queue@[0];
        &&& r is Err <==> !devices.handles(event.device)
        &&& r is Err ==> r == Err::<(), EngineError>(EngineError::Dispatch { device: event.device })
            && taken(before, next, after)
        &&& r is Ok ==> exists|mid: State| #[trigger]
            taken(before, next, mid) && devices.delivered(mid, event, after)
        &&& after.memory@.len() == before.memory@.len()
    }
}

/// One cycle from `before`: commit `nc` to `pc`; where that address lies in
/// memory, decode the instruction there (failing where there is none),
/// execute it, and finish as `finished` says.
pub open spec fn cycled<S: InstructionSet, H: OutputHandler>(
    isa: &S,
    devices: &Dispatcher<H>,
    before: State,
    after: State,
    r: Result<(), EngineError>,
) -> bool {
    let c = committed(before);
    if before.nc >= before.memory@.len() {
        r is Ok && after == c
    } else {
        match isa.instruction_at(before.memory@, before.nc as int) {
            None => r == Err::<(), EngineError>(
                EngineError::Decode { address: before.nc, byte: before.memory@[before.nc as int] },
            ) && after == c,
            Some(i) => exists|mid: State, next: usize| #[trigger]
                isa.executes(i, c, mid, next) && mid.memory@.len() == c.memory@.len() && next
                    <= mid.memory@.len() && finished(devices, mid, next, after, r),
        }
    }
}

/// `k` successful cycles lead from `start` to `end`.
pub open spec fn cycles<S: InstructionSet, H: OutputHandler>(
    isa: &S,
    devices: &Dispatcher<H>,
    start: State,
    end: State,
    k: nat,
) -> bool
    decreases k,
{
    if k == 0 {
        end == start
    } else {
        exists|mid: State|
            cycles(isa, devices, start, mid, (k - 1) as nat) && #[trigger] cycled(
                isa,
                devices,
                mid,
                end,
                Ok(()),
            )
    }
}

/// A successful cycle extends a run of `k` cycles to `k + 1`.
proof fn lemma_one_more_cycle<S: InstructionSet, H: OutputHandler>(
    isa: &S,
    devices: &Dispatcher<H>,
    start: State,
    mid: State,
    end: State,
    k: nat,
)
    requires
        cycles(isa, devices, start, mid, k),
        cycled(isa, devices, mid, end, Ok(())),
    ensures
        cycles(isa, devices, start, end, (k + 1) as nat),
{
    assert(((k + 1) as nat - 1) as nat == k);
}

/// Sets `nc` to `next`, the address the executed instruction returned, and
/// hands the oldest pending output event to its device.
pub fn finish_cycle<H: OutputHandler>(state: &mut State, next: usize, devices: &Dispatcher<H>) -> (r: Result<(), EngineError>)
    requires
        devices.wf(),
    ensures
        finished(devices, *old(state), next, *final(state), r),
{
    state.nc = next;
    match state.take_output() {
        Some(event) => {
            let ghost mid = *state;
            match devices.dispatch(state, event) {
                Ok(()) => {
                    assert(taken(*old(state), next, mid));
                    Ok(())
                },
                Err(e) => Err(EngineError::Dispatch { device: e.device }),
            }
        },
        None => Ok(()),
    }
}

/// The execution engine: the machine state and the handle of the exit signal.
pub struct CpuContext<X> {
    pub state: State,
    pub cpu_actor: X,
    /// Set until the first cycle: that cycle resumes at `pc`, the reset
    /// address, rather than at `nc`.
    pub reset_pending: bool,
}

impl<X: ExitSignal> CpuContext<X> {
    pub fn initialize(memory: Vec<u8>, cpu_actor: X) -> (r: CpuContext<X>)
        ensures
            r.state.is_initial_for(memory@),
            r.cpu_actor == cpu_actor,
            r.reset_pending,
    {
        CpuContext { state: State::new(memory), cpu_actor, reset_pending: true }
    }

    /// Builds an engine whose memory is `image`, the program as loaded.
    /// Fails when the image is larger than `mem_size`, the capacity of the
    /// emulated memory.
    pub fn load_program(image: Vec<u8>, mem_size: usize, cpu_actor: X) -> (r: Result<
        CpuContext<X>,
        LoadError,
    >)
        ensures
            r is Err <==> image@.len() > mem_size,
            r matches Err(e) ==> e.size == image@.len() && e.capacity == mem_size,
            r matches Ok(c) ==> c.state.is_initial_for(image@) && c.cpu_actor == cpu_actor
                && c.reset_pending,
    {
        if image.len() > mem_size {
            return Err(LoadError { size: image.len(), capacity: mem_size });
        }
        Ok(CpuContext::initialize(image, cpu_actor))
    }

    pub fn still_running(&self) -> (r: bool)
        ensures
            r == self.state.running(),
    {
        self.state.still_running()
    }

    /// The state the next cycle starts from: after a reset it resumes at `pc`.
    pub open spec fn resume_state(&self) -> State {
        if self.reset_pending {
            State { nc: self.state.pc, ..self.state }
        } else {
            self.state
        }
    }

    /// One cycle: commit `nc` to `pc`, decode and execute the instruction
    /// there, then hand the oldest pending output event to its device. Where
    /// `pc` has left memory nothing is decoded.
    pub fn cycle<S: InstructionSet, H: OutputHandler>(&mut self, isa: &S, devices: &Dispatcher<H>) -> (r: Result<(), EngineError>)
        requires
            devices.wf(),
        ensures
            final(self).cpu_actor == old(self).cpu_actor,
            final(self).reset_pending == old(self).reset_pending,
            cycled(isa, devices, old(self).state, final(self).state, r),
    {
        self.state.pc = self.state.nc;
        if self.state.pc >= self.state.memory.len() {
            return Ok(());
        }
        let ghost c = self.state;
        assert(c == committed(old(self).state));
        match isa.decode(&self.state.memory, self.state.pc) {
            Some(instruction) => {
                let ghost i = instruction;
                let next = isa.execute(instruction, &mut self.state);
                let ghost mid = self.state;
                let r = finish_cycle(&mut self.state, next, devices);
                assert(isa.executes(i, c, mid, next) && mid.memory@.len() == c.memory@.len() && next
                    <= mid.memory@.len() && finished(devices, mid, next, self.state, r));
                r
            },
            None => Err(
                EngineError::Decode { address: self.state.pc, byte: self.state.memory[self.state.pc] },
            ),
        }
    }

    /// What one iteration of `run` does once the exit signal has been polled
    /// with result `exit`: stop on an exit request; do nothing while the
    /// machine is stopped; otherwise perform one cycle (the first after a
    /// reset resumes at `pc`) and report a halt once the machine stops
    /// running.
    pub fn step<S: InstructionSet, H: OutputHandler>(&mut self, exit: bool, isa: &S, devices: &Dispatcher<H>) -> (r: Result<Option<Stop>, EngineError>)
        requires
            devices.wf(),
        ensures
            final(self).cpu_actor == old(self).cpu_actor,
            exit ==> r == Ok::<Option<Stop>, EngineError>(Some(Stop::ExitRequested))
                && final(self).state == old(self).state
                && final(self).reset_pending == old(self).reset_pending,
            !exit && old(self).state.stopped ==> r == Ok::<Option<Stop>, EngineError>(None)
                && final(self).state == old(self).state
                && final(self).reset_pending == old(self).reset_pending,
            !exit && !old(self).state.stopped ==> !final(self).reset_pending && match r {
                Ok(stop) => cycled(isa, devices, old(self).resume_state(), final(self).state, Ok(()))
                    && stop == (if final(self).state.running() {
                    None
                } else {
                    Some(Stop::Halted)
                }),
                Err(e) => cycled(isa, devices, old(self).resume_state(), final(self).state, Err(e)),
            },
    {
        if exit {
            return Ok(Some(Stop::ExitRequested));
        }
        if self.state.stopped {
            return Ok(None);
        }
        if self.reset_pending {
            self.state.nc = self.state.pc;
            self.reset_pending = false;
        }
        match self.cycle(isa, devices) {
            Ok(()) => if self.still_running() {
                Ok(None)
            } else {
                Ok(Some(Stop::Halted))
            },
            Err(e) => Err(e),
        }
    }

    /// Runs until the machine halts, the exit signal is observed, an error
    /// is raised, or `u64::MAX` iterations have passed. While the machine is
    /// running, each iteration polls the exit signal and takes one `step`
    /// with the result.
    pub fn run<S: InstructionSet, H: OutputHandler>(&mut self, isa: &S, devices: &Dispatcher<H>) -> (r: Result<Stop, EngineError>)
        requires
            devices.wf(),
        ensures
            final(self).cpu_actor == old(self).cpu_actor,
            final(self).state.memory@.len() == old(self).state.memory@.len(),
            r == Ok::<Stop, EngineError>(Stop::Halted) <==> (r is Ok && !final(self).state.running()),
            r == Ok::<Stop, EngineError>(Stop::ExitRequested) || r == Ok::<Stop, EngineError>(
                Stop::LimitReached,
            ) ==> final(self).state.running(),
            !old(self).state.running() ==> r == Ok::<Stop, EngineError>(Stop::Halted)
                && final(self).state == old(self).state
                && final(self).reset_pending == old(self).reset_pending,
            old(self).state.stopped ==> final(self).state == old(self).state,
            r matches Err(EngineError::Decode { address, byte }) ==> address == final(self).state.pc
                && address < final(self).state.memory@.len()
                && byte == final(self).state.memory@[address as int],
            r matches Err(EngineError::Dispatch { device }) ==> !devices.handles(device),
            r is Ok ==> (final(self).state == old(self).state && final(self).reset_pending
                == old(self).reset_pending) || (!final(self).reset_pending && exists|k: nat|
                k > 0 && #[trigger] cycles(isa, devices, old(self).resume_state(), final(self).state, k)),
            r matches Err(e) ==> !final(self).reset_pending && exists|k: nat, m: State| #[trigger]
                cycles(isa, devices, old(self).resume_state(), m, k) && cycled(
                isa,
                devices,
                m,
                final(self).state,
                Err(e),
            ),
    {
        let mut polls: u64 = 0;
        let ghost mut k: nat = 0;
        while self.still_running()
            invariant
                devices.wf(),
                self.cpu_actor == old(self).cpu_actor,
                self.state.memory@.len() == old(self).state.memory@.len(),
                old(self).state.stopped ==> self.state == old(self).state,
                polls == 0 ==> self.state == old(self).state
                    && self.reset_pending == old(self).reset_pending,
                polls > 0 ==> old(self).state.running(),
                k == 0 ==> self.state == old(self).state && self.reset_pending
                    == old(self).reset_pending,
                k > 0 ==> !self.reset_pending && cycles(
                    isa,
                    devices,
                    old(self).resume_state(),
                    self.state,
                    k,
                ),
            decreases u64::MAX - polls,
        {
            if polls == u64::MAX {
                return Ok(Stop::LimitReached);
            }
            polls = polls + 1;
            let exit = self.cpu_actor.should_exit();
            let ghost before = *self;
            let stepped = self.step(exit, isa, devices);
            proof {
                let from = before.resume_state();
                if k == 0 {
                    assert(from == old(self).resume_state());
                    assert(cycles(isa, devices, from, from, 0));
                } else {
                    assert(from == before.state);
                }
                if !exit && !before.state.stopped {
                    if stepped is Ok {
                        lemma_one_more_cycle(isa, devices, old(self).resume_state(), from, self.state, k);
                        k = k + 1;
                    } else {
                        assert(cycles(isa, devices, old(self).resume_state(), from, k));
                    }
                }
            }
            match stepped {
                Ok(Some(stop)) => {
                    return Ok(stop);
                },
                Ok(None) => {},
                Err(e) => {
                    return Err(e);
                },
            }
        }
        Ok(Stop::Halted)
    }
}

} // verus!
