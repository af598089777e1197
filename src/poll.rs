use vstd::prelude::*;

verus! {

/// Handle of a semaphore placed in the kernel's object table.
#[derive(Clone, Copy, Debug, PartialEq, Eq, Structural)]
pub struct SemRef(pub usize);

/// Handle of a poll signal placed in the kernel's object table.
#[derive(Clone, Copy, Debug, PartialEq, Eq, Structural)]
pub struct SignalRef(pub usize);

/// Handle of a mutex placed in the kernel's object table.
#[derive(Clone, Copy, Debug, PartialEq, Eq, Structural)]
pub struct MutexRef(pub usize);

/// The kernel object a poll event waits on.
#[derive(Clone, Copy, Debug, PartialEq, Eq, Structural)]
pub enum PollTarget {
    /// A slot that is never ready.
    Ignore,
    /// Ready while the semaphore's count is positive.
    Sem(SemRef),
    /// Ready while the signal is signaled.
    Signal(SignalRef),
}

/// How a ready object is reported.
#[derive(Clone, Copy, Debug, PartialEq, Eq, Structural)]
pub enum PollMode {
    /// Report readiness only; the object is left as it is.
    NotifyOnly,
}

/// A recoverable failure of the aggregate wait.
#[derive(Clone, Copy, Debug, PartialEq, Eq, Structural)]
pub enum PollError {
    /// The wait was interrupted; the caller should look again at its state.
    Canceled,
}

/// A kernel object that an aggregate wait can wait on.
pub trait PollableKobj {
    spec fn target_spec(&self) -> PollTarget;

    fn target(&self) -> (r: PollTarget)
        ensures
            r == self.target_spec(),
    ;
}

impl PollableKobj for SemRef {
    open spec fn target_spec(&self) -> PollTarget {
        PollTarget::Sem(*self)
    }

    fn target(&self) -> (r: PollTarget) {
        PollTarget::Sem(*self)
    }
}

impl PollableKobj for SignalRef {
    open spec fn target_spec(&self) -> PollTarget {
        PollTarget::Signal(*self)
    }

    fn target(&self) -> (r: PollTarget) {
        PollTarget::Signal(*self)
    }
}

/// One slot of an aggregate wait: an object, a mode, and whether the last
/// wait found the object ready.
#[derive(Clone, Copy, Debug, PartialEq, Eq, Structural)]
pub struct KPollEvent {
    pub target: PollTarget,
    pub mode: PollMode,
    pub ready: bool,
}

/// Building and reading poll events.
pub trait PollEventFuncs: Sized {
    spec fn target_of(&self) -> PollTarget;

    spec fn ready_spec(&self) -> bool;

    spec fn mode_of(&self) -> PollMode;

    /// An event that waits on nothing.
    fn new() -> (r: Self)
        ensures
            r.target_of() == PollTarget::Ignore,
            r.mode_of() == PollMode::NotifyOnly,
            !r.ready_spec(),
    ;

    /// Points the event at `kobj`, not ready.
    fn init<O: PollableKobj>(&mut self, kobj: &O, mode: PollMode)
        ensures
            final(self).target_of() == kobj.target_spec(),
            final(self).mode_of() == mode,
            !final(self).ready_spec(),
    ;

    /// Whether the last wait found the object ready.
    fn ready(&self) -> (r: bool)
        ensures
            r == self.ready_spec(),
    ;
}

impl PollEventFuncs for KPollEvent {
    open spec fn target_of(&self) -> PollTarget {
        self.target
    }

    open spec fn ready_spec(&self) -> bool {
        self.ready
    }

    open spec fn mode_of(&self) -> PollMode {
        self.mode
    }

    fn new() -> (r: Self) {
        KPollEvent { target: PollTarget::Ignore, mode: PollMode::NotifyOnly, ready: false }
    }

    fn init<O: PollableKobj>(&mut self, kobj: &O, mode: PollMode) {
        self.target = kobj.target();
        self.mode = mode;
        self.ready = false;
    }

    fn ready(&self) -> (r: bool) {
        self.ready
    }
}

} // verus!
