use vstd::prelude::*;

verus! {

/// One event read from the backend's output stream.
#[derive(Debug, PartialEq, Eq)]
pub enum OutputEvent {
    /// A line the backend wrote to its standard output.
    Stdout(Vec<u8>),
    /// A line the backend wrote to its standard error.
    Stderr(Vec<u8>),
    /// The backend exited, with its exit code where it had one.
    Terminated(Option<i32>),
    /// Any other notice of the stream, which the listener passes over.
    Other,
}

/// One entry for the log, tagged by where it came from.
#[derive(Debug, PartialEq, Eq)]
pub enum LogEntry {
    /// A line of the backend's standard output.
    Backend(Vec<u8>),
    /// A line of the backend's standard error.
    BackendError(Vec<u8>),
    /// The backend's exit, with its exit code where it had one.
    BackendTerminated(Option<i32>),
}

/// The entry that an event gives, if any.
pub open spec fn entry_of(ev: OutputEvent) -> Option<LogEntry> {
    match ev {
        OutputEvent::Stdout(line) => Some(LogEntry::Backend(line)),
        OutputEvent::Stderr(line) => Some(LogEntry::BackendError(line)),
        OutputEvent::Terminated(code) => Some(LogEntry::BackendTerminated(code)),
        OutputEvent::Other => None,
    }
}

/// The entries of an event, as a sequence of zero or one.
pub open spec fn entries_of(ev: OutputEvent) -> Seq<LogEntry> {
    match entry_of(ev) {
        Some(e) => seq![e],
        None => seq![],
    }
}

/// What the listener logs from a stream: the entry of each event in order, up
/// to and including the first termination. Nothing after it is read.
pub open spec fn log_of(events: Seq<OutputEvent>) -> Seq<LogEntry>
    decreases events.len(),
{
    if events.len() == 0 {
        seq![]
    } else if events[0] is Terminated {
        entries_of(events[0])
    } else {
        entries_of(events[0]) + log_of(events.drop_first())
    }
}

/// The listener of the backend's output. It never touches the supervisor
/// state: only the host's shutdown clears the tracked handle.
pub struct Listener {
    finished: bool,
}

impl View for Listener {
    type V = bool;

    /// Whether a termination has been seen, after which nothing more is read.
    closed spec fn view(&self) -> bool {
        self.finished
    }
}

impl Listener {
    /// A listener that has seen nothing yet.
    pub fn new() -> (r: Self)
        ensures
            !r@,
    {
        Listener { finished: false }
    }

    /// Whether the listener has seen the backend terminate and wants no more
    /// events.
    pub fn is_finished(&self) -> (r: bool)
        ensures
            r == self@,
    {
        self.finished
    }

    /// Handles one event and returns the entry to log. After a termination
    /// every further event is ignored.
    pub fn on_event(&mut self, ev: OutputEvent) -> (r: Option<LogEntry>)
        ensures
            old(self)@ ==> final(self)@ && r is None,
            !old(self)@ ==> r == entry_of(ev) && final(self)@ == ev is Terminated,
    {
        if self.finished {
            return None;
        }
        match ev {
            OutputEvent::Stdout(line) => Some(LogEntry::Backend(line)),
            OutputEvent::Stderr(line) => Some(LogEntry::BackendError(line)),
            OutputEvent::Terminated(code) => {
                self.finished = true;
                Some(LogEntry::BackendTerminated(code))
            },
            OutputEvent::Other => None,
        }
    }
}

/// Runs a listener over a stream whose events are already queued, and returns
/// what it logs, in order. It stops at the first termination, or at the end of
/// the stream, which is a normal end too.
pub fn listen(events: Vec<OutputEvent>) -> (log: Vec<LogEntry>)
    ensures
        log@ == log_of(events@),
{
    let mut listener = Listener::new();
    let mut log: Vec<LogEntry> = Vec::new();
    let mut events = events;
    let ghost all = events@;
    let ghost mut read: int = 0;
    while !listener.is_finished() && events.len() > 0
        invariant
            0 <= read <= all.len(),
            events@ == all.subrange(read, all.len() as int),
            listener@ ==> log@ == log_of(all),
            !listener@ ==> log@ + log_of(events@) == log_of(all),
        decreases events@.len(),
    {
        let ghost before = events@;
        let ev = events.remove(0);
        proof {
            assert(before.drop_first() =~= events@);
            read = read + 1;
            assert(events@ =~= all.subrange(read, all.len() as int));
        }
        match listener.on_event(ev) {
            Some(entry) => log.push(entry),
            None => {},
        }
    }
    proof {
        if !listener@ {
            assert(log@ + seq![] =~= log@);
        }
    }
    log
}

} // verus!
