use vstd::prelude::*;

verus! {

/// The five condition-code flags of the 8080.
#[derive(Clone, Copy, Debug, PartialEq, Eq, Structural)]
pub struct ConditionCodes {
    pub z: bool,
    pub s: bool,
    pub p: bool,
    pub cy: bool,
    pub ac: bool,
}

impl ConditionCodes {
    /// The reset policy of this emulator: every flag starts out set.
    pub fn all_set() -> (r: ConditionCodes)
        ensures
            r.z && r.s && r.p && r.cy && r.ac,
    {
        ConditionCodes { z: true, s: true, p: true, cy: true, ac: true }
    }
}

/// A pending write of `value` to the output port `device`.
#[derive(Clone, Copy, Debug, PartialEq, Eq, Structural)]
pub struct OutputEvent {
    pub device: u8,
    pub value: u8,
}

/// The whole mutable state of the emulated machine.
pub struct State {
    pub memory: Vec<u8>,
    pub a: u8,
    pub b: u8,
    pub c: u8,
    pub d: u8,
    pub e: u8,
    pub h: u8,
    pub l: u8,
    pub sp: u16,
    pub cc: ConditionCodes,
    /// Address of the instruction being (or just) executed.
    pub pc: usize,
    /// Address execution resumes at on the next cycle.
    pub nc: usize,
    /// While set, the engine executes no instruction.
    pub stopped: bool,
    /// Output writes produced by instructions, oldest first.
    pub output_queue: Vec<OutputEvent>,
}

impl State {
    /// The machine keeps going while `pc` lies inside memory and the last
    /// instruction did not jump to itself.
    pub open spec fn running(&self) -> bool {
        self.pc < self.memory@.len() && self.nc != self.pc
    }

    /// The state right after loading `memory`: counters primed at 0 and 1,
    /// all flags set, registers cleared, machine stopped, no output pending.
    pub open spec fn is_initial_for(&self, memory: Seq<u8>) -> bool {
        &&& self.memory@ == memory
        &&& self.pc == 0
        &&& self.nc == 1
        &&& self.cc.z && self.cc.s && self.cc.p && self.cc.cy && self.cc.ac
        &&& self.stopped
        &&& self.a == 0 && self.b == 0 && self.c == 0 && self.d == 0
        &&& self.e == 0 && self.h == 0 && self.l == 0 && self.sp == 0
        &&& self.output_queue@.len() == 0
    }

    pub fn new(memory: Vec<u8>) -> (r: State)
        ensures
            r.is_initial_for(memory@),
    {
        State {
            memory,
            a: 0,
            b: 0,
            c: 0,
            d: 0,
            e: 0,
            h: 0,
            l: 0,
            sp: 0,
            cc: ConditionCodes::all_set(),
            pc: 0,
            nc: 1,
            stopped: true,
            output_queue: Vec::new(),
        }
    }

    pub fn still_running(&self) -> (r: bool)
        ensures
            r == self.running(),
    {
        self.pc < self.memory.len() && self.nc != self.pc
    }

    /// Removes and returns the oldest pending output event.
    pub fn take_output(&mut self) -> (r: Option<OutputEvent>)
        ensures
            old(self).output_queue@.len() == 0 ==> r is None && *final(self) == *old(self),
            old(self).output_queue@.len() > 0 ==> r == Some(old(self).output_queue@[0])
                && *final(self) == (State { output_queue: final(self).output_queue, ..*old(self) })
                && final(self).output_queue@ == old(self).output_queue@.drop_first(),
    {
        if self.output_queue.len() == 0 {
            None
        } else {
            Some(self.output_queue.remove(0))
        }
    }
}

} // verus!
