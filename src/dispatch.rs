use vstd::prelude::*;

use crate::state::{OutputEvent, State};

verus! {

/// A device that consumes output writes. It may update the machine state,
/// e.g. to acknowledge the write.
pub trait OutputHandler {
    /// Whether handling `event` takes the machine from `before` to `after`.
    /// The default claims nothing.
    open spec fn handled(&self, before: State, event: OutputEvent, after: State) -> bool {
        true
    }

    /// Consumes one output event. Memory keeps its length.
    fn handle(&self, state: &mut State, event: OutputEvent)
        ensures
            self.handled(*old(state), event, *final(state)),
            final(state).memory@.len() == old(state).memory@.len(),
    ;
}

/// An output event named a device that has no handler.
#[derive(Clone, Copy, Debug, PartialEq, Eq, Structural)]
pub struct DispatchError {
    pub device: u8,
}

/// Maps device identifiers to their handlers; each device has at most one.
pub struct Dispatcher<H> {
    devices: Vec<u8>,
    handlers: Vec<H>,
}

impl<H: OutputHandler> Dispatcher<H> {
    /// The registered device identifiers, in order of registration.
    pub closed spec fn devices(&self) -> Seq<u8> {
        self.devices@
    }

    /// The handlers, each at the position of its device in `devices()`.
    pub closed spec fn handlers(&self) -> Seq<H> {
        self.handlers@
    }

    /// The handler registered for `event.device` takes `before` to `after`.
    pub open spec fn delivered(&self, before: State, event: OutputEvent, after: State) -> bool {
        exists|i: int|
            0 <= i < self.devices().len() && self.devices()[i] == event.device
                && #[trigger] self.handlers()[i].handled(before, event, after)
    }

    pub open spec fn handles(&self, device: u8) -> bool {
        self.devices().contains(device)
    }

    pub closed spec fn wf(&self) -> bool {
        &&& self.devices().len() == self.handlers().len()
        &&& self.devices@.no_duplicates()
    }

    pub fn new() -> (r: Dispatcher<H>)
        ensures
            r.wf(),
            r.devices() == Seq::<u8>::empty(),
            r.handlers() == Seq::<H>::empty(),
    {
        Dispatcher { devices: Vec::new(), handlers: Vec::new() }
    }

    /// Position of `device` among the registered devices, if it has a handler.
    fn position(&self, device: u8) -> (r: Option<usize>)
        requires
            self.wf(),
        ensures
            r is None <==> !self.handles(device),
            r matches Some(i) ==> i < self.handlers@.len() && self.devices@[i as int] == device,
    {
        let mut i: usize = 0;
        while i < self.devices.len()
            invariant
                self.wf(),
                i <= self.devices@.len(),
                forall|j: int| 0 <= j < i ==> self.devices@[j] != device,
            decreases self.devices@.len() - i,
        {
            if self.devices[i] == device {
                return Some(i);
            }
            i = i + 1;
        }
        None
    }

    /// Installs `handler` for `device`. A device that already has a handler
    /// keeps it, and `false` is returned.
    pub fn register(&mut self, device: u8, handler: H) -> (r: bool)
        requires
            old(self).wf(),
        ensures
            final(self).wf(),
            r == !old(self).handles(device),
            r ==> final(self).devices() == old(self).devices().push(device)
                && final(self).handlers() == old(self).handlers().push(handler),
            !r ==> final(self).devices() == old(self).devices()
                && final(self).handlers() == old(self).handlers(),
    {
        if self.position(device).is_some() {
            return false;
        }
        self.devices.push(device);
        self.handlers.push(handler);
        proof {
            assert(self.devices@.no_duplicates()) by {
                let s = self.devices@;
                assert forall|i: int, j: int| 0 <= i < s.len() && 0 <= j < s.len() && i != j
                    implies s[i] != s[j] by {
                    if j == s.len() - 1 {
                        assert(old(self).devices@.contains(s[i])) by {
                            assert(old(self).devices@[i] == s[i]);
                        };
                    } else if i == s.len() - 1 {
                        assert(old(self).devices@.contains(s[j])) by {
                            assert(old(self).devices@[j] == s[j]);
                        };
                    }
                };
            };
        }
        true
    }

    pub fn is_registered(&self, device: u8) -> (r: bool)
        requires
            self.wf(),
        ensures
            r == self.handles(device),
    {
        self.position(device).is_some()
    }

    /// Hands `event` to the handler of its device. An unknown device is an
    /// error, and then the state is left untouched. Memory keeps its length.
    pub fn dispatch(&self, state: &mut State, event: OutputEvent) -> (r: Result<(), DispatchError>)
        requires
            self.wf(),
        ensures
            r is Err <==> !self.handles(event.device),
            r matches Err(e) ==> e.device == event.device && *final(state) == *old(state),
            r is Ok ==> self.delivered(*old(state), event, *final(state)),
            final(state).memory@.len() == old(state).memory@.len(),
    {
        match self.position(event.device) {
            Some(i) => {
                self.handlers[i].handle(state, event);
                Ok(())
            },
            None => Err(DispatchError { device: event.device }),
        }
    }
}

} // verus!
