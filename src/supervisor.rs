use vstd::prelude::*;

verus! {

/// Why the backend could not be started. The text is what the host reported.
#[derive(Debug, PartialEq, Eq)]
pub enum SpawnError {
    /// No executable is bound to this platform under the sidecar's name.
    CommandNotCreated(String),
    /// The executable was found but the operating system refused to launch it.
    LaunchFailed(String),
}

/// The slot after a launch attempt: a launched child's handle replaces what
/// was there; a failed launch leaves the slot as it was.
pub open spec fn after_spawn<H>(slot: Option<H>, launched: Result<H, SpawnError>) -> Option<H> {
    match launched {
        Ok(h) => Some(h),
        Err(_) => slot,
    }
}

/// Whether a launch attempt starts an output listener: only a launched child has
/// output to listen to.
pub open spec fn starts_listener<H>(launched: Result<H, SpawnError>) -> bool {
    launched is Ok
}

/// Process-wide supervisor state: the handle of the running backend, if any.
///
/// The host shares one value between its startup and its window-destroyed
/// handlers behind a lock, so that each call below runs alone.
pub struct SidecarState<H> {
    child: Option<H>,
}

impl<H> View for SidecarState<H> {
    type V = Option<H>;

    closed spec fn view(&self) -> Option<H> {
        self.child
    }
}

impl<H> SidecarState<H> {
    /// The state at startup: no backend tracked.
    pub fn new() -> (r: Self)
        ensures
            r@ is None,
    {
        SidecarState { child: None }
    }

    /// Whether a backend handle is tracked.
    pub fn has_child(&self) -> (r: bool)
        ensures
            r == self@ is Some,
    {
        self.child.is_some()
    }

    /// Records the outcome of launching the backend. A launched child's handle
    /// is stored, replacing any earlier one, and the result says that its
    /// output listener is to be started. A failure leaves the state untouched
    /// and starts nothing: the application carries on without a backend.
    pub fn on_spawn(&mut self, launched: Result<H, SpawnError>) -> (listen: bool)
        ensures
            final(self)@ == after_spawn(old(self)@, launched),
            listen == starts_listener(launched),
    {
        match launched {
            Ok(h) => {
                self.child = Some(h);
                true
            },
            Err(_) => false,
        }
    }

    /// Takes the tracked handle out of the state, for the window-destroyed
    /// event. A returned handle is the one termination request owed to that
    /// child; `None` means there is nothing to stop, which is no error.
    pub fn shutdown(&mut self) -> (request: Option<H>)
        ensures
            request == old(self)@,
            final(self)@ is None,
    {
        self.child.take()
    }
}

} // verus!
