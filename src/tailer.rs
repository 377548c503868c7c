//! One tailed file: its identity, its reader, and the decisions of its
//! watch loop.
use vstd::prelude::*;
use crate::detector::Signal;
use crate::line_reader::{LineReader, scan, views};

verus! {

/// Why a source tailer stopped.
#[derive(Clone, Copy, Debug, PartialEq, Eq, Structural)]
pub enum StopReason {
    /// The change notification could not be armed.
    WatchFailed,
    /// Reading the file failed.
    ReadFailed,
    /// The file was removed or moved away.
    Removed,
    /// The notification channel closed.
    ChannelClosed,
    /// The process is shutting down.
    Shutdown,
}

/// Lifecycle of a source tailer.
#[derive(Clone, Copy, Debug, PartialEq, Eq, Structural)]
pub enum TailerState {
    /// Created, cursor at the end of the file, watcher not armed yet.
    Registered,
    /// Watching, with no unread data.
    Idle,
    /// Pulling lines until no new data is left.
    Draining,
    /// Stopped for good.
    Terminated(StopReason),
}

/// What the watch loop reports to its tailer.
#[derive(Clone, Copy, Debug, PartialEq, Eq, Structural)]
pub enum TailerEvent {
    /// The watcher is armed.
    Armed,
    /// The watcher could not be armed.
    WatchFailed,
    /// Change detection concluded this.
    Changed(Signal),
    /// Reading the file failed.
    ReadFailed,
    /// The notification channel closed.
    ChannelClosed,
    /// The process is shutting down.
    Shutdown,
}

/// What the watch loop does next.
#[derive(Clone, Copy, Debug, PartialEq, Eq, Structural)]
pub enum Action {
    /// Wait for the next change.
    Wait,
    /// Read the bytes from this offset on and hand them to `on_data`.
    Read(u64),
    /// The file was rotated: reopen it and read from its start.
    Reopen,
    /// Leave the loop.
    Stop(StopReason),
}

/// One line, tagged with the source it came from.
pub struct LineEvent {
    pub source_index: usize,
    pub path: String,
    /// The line's bytes, without its terminator.
    pub text: Vec<u8>,
}

/// The state that `event` leads to from `s`.
pub open spec fn next_state(s: TailerState, event: TailerEvent) -> TailerState {
    match s {
        TailerState::Terminated(_) => s,
        TailerState::Registered => match event {
            TailerEvent::Armed => TailerState::Idle,
            TailerEvent::WatchFailed => TailerState::Terminated(StopReason::WatchFailed),
            TailerEvent::Shutdown => TailerState::Terminated(StopReason::Shutdown),
            _ => s,
        },
        _ => match event {
            TailerEvent::Armed => s,
            TailerEvent::WatchFailed => TailerState::Terminated(StopReason::WatchFailed),
            TailerEvent::Changed(Signal::NoNewData) => s,
            TailerEvent::Changed(Signal::NewData) => TailerState::Draining,
            TailerEvent::Changed(Signal::Rotated) => TailerState::Draining,
            TailerEvent::Changed(Signal::Removed) => TailerState::Terminated(StopReason::Removed),
            TailerEvent::ReadFailed => TailerState::Terminated(StopReason::ReadFailed),
            TailerEvent::ChannelClosed => TailerState::Terminated(StopReason::ChannelClosed),
            TailerEvent::Shutdown => TailerState::Terminated(StopReason::Shutdown),
        },
    }
}

/// The action that the loop takes after `event` in state `s`, with the
/// reader's next byte at `read_pos`.
pub open spec fn next_action(s: TailerState, event: TailerEvent, read_pos: u64) -> Action {
    match next_state(s, event) {
        TailerState::Terminated(why) => Action::Stop(why),
        TailerState::Draining => if event == TailerEvent::Changed(Signal::Rotated) {
            Action::Reopen
        } else {
            Action::Read(read_pos)
        },
        _ => Action::Wait,
    }
}

/// The event that delivering `line` from source `index` at `path` publishes.
pub open spec fn event_of(e: LineEvent, index: usize, path: Seq<char>, line: Seq<u8>) -> bool {
    e.source_index == index && e.path@ == path && e.text@ == line
}

/// Binds one file to its reader and drives it through the lifecycle.
pub struct SourceTailer {
    index: usize,
    path: String,
    reader: LineReader,
    state: TailerState,
}

impl SourceTailer {
    pub closed spec fn index_spec(&self) -> usize {
        self.index
    }

    pub closed spec fn path_spec(&self) -> Seq<char> {
        self.path@
    }

    pub closed spec fn reader_spec(&self) -> LineReader {
        self.reader
    }

    pub closed spec fn state_spec(&self) -> TailerState {
        self.state
    }

    pub open spec fn wf(&self) -> bool {
        self.reader_spec().wf()
    }

    /// A registered tailer for `path` under `index`, reading from
    /// `end_of_file` on: lines already in the file are not delivered.
    pub fn new(path: String, index: usize, end_of_file: u64) -> (r: SourceTailer)
        ensures
            r.wf(),
            r.index_spec() == index,
            r.path_spec() == path@,
            r.state_spec() == TailerState::Registered,
            r.reader_spec().cursor_spec() == end_of_file,
            r.reader_spec().pending_spec() == Seq::<u8>::empty(),
    {
        SourceTailer { index, path, reader: LineReader::new(end_of_file), state: TailerState::Registered }
    }

    pub fn index(&self) -> (r: usize)
        ensures
            r == self.index_spec(),
    {
        self.index
    }

    pub fn path(&self) -> (r: &String)
        ensures
            r@ == self.path_spec(),
    {
        &self.path
    }

    pub fn state(&self) -> (r: TailerState)
        ensures
            r == self.state_spec(),
    {
        self.state
    }

    /// Offset in the file of the next byte to read.
    pub fn read_pos(&self) -> (r: u64)
        requires
            self.wf(),
        ensures
            r == self.reader_spec().read_pos_spec(),
    {
        self.reader.read_pos()
    }

    /// Takes one event of the watch loop and says what to do next. A
    /// rotation restarts the reader at offset zero; nothing else touches it.
    pub fn on_event(&mut self, event: TailerEvent) -> (r: Action)
        requires
            old(self).wf(),
        ensures
            final(self).wf(),
            final(self).state_spec() == next_state(old(self).state_spec(), event),
            r == next_action(
                old(self).state_spec(),
                event,
                final(self).reader_spec().read_pos_spec() as u64,
            ),
            final(self).index_spec() == old(self).index_spec(),
            final(self).path_spec() == old(self).path_spec(),
            if next_action(old(self).state_spec(), event, 0) == Action::Reopen {
                &&& final(self).reader_spec().cursor_spec() == 0
                &&& final(self).reader_spec().pending_spec() == Seq::<u8>::empty()
            } else {
                final(self).reader_spec() == old(self).reader_spec()
            },
    {
        let next = match self.state {
            TailerState::Terminated(_) => self.state,
            TailerState::Registered => match event {
                TailerEvent::Armed => TailerState::Idle,
                TailerEvent::WatchFailed => TailerState::Terminated(StopReason::WatchFailed),
                TailerEvent::Shutdown => TailerState::Terminated(StopReason::Shutdown),
                _ => self.state,
            },
            _ => match event {
                TailerEvent::Armed => self.state,
                TailerEvent::WatchFailed => TailerState::Terminated(StopReason::WatchFailed),
                TailerEvent::Changed(Signal::NoNewData) => self.state,
                TailerEvent::Changed(Signal::NewData) => TailerState::Draining,
                TailerEvent::Changed(Signal::Rotated) => TailerState::Draining,
                TailerEvent::Changed(Signal::Removed) => TailerState::Terminated(StopReason::Removed),
                TailerEvent::ReadFailed => TailerState::Terminated(StopReason::ReadFailed),
                TailerEvent::ChannelClosed => TailerState::Terminated(StopReason::ChannelClosed),
                TailerEvent::Shutdown => TailerState::Terminated(StopReason::Shutdown),
            },
        };
        self.state = next;
        match next {
            TailerState::Terminated(why) => Action::Stop(why),
            TailerState::Draining => {
                if event == TailerEvent::Changed(Signal::Rotated) {
                    self.reader.reset(0);
                    Action::Reopen
                } else {
                    Action::Read(self.reader.read_pos())
                }
            },
            _ => Action::Wait,
        }
    }

    /// Takes the bytes read at `read_pos()` while draining, and returns one
    /// event per line that they complete, in order. An empty read means no
    /// new data: draining ends and the tailer is idle again. Outside the
    /// draining state nothing is read and nothing is delivered.
    pub fn on_data(&mut self, chunk: &[u8]) -> (events: Vec<LineEvent>)
        requires
            old(self).wf(),
            old(self).reader_spec().read_pos_spec() + chunk@.len() <= u64::MAX,
        ensures
            final(self).wf(),
            final(self).index_spec() == old(self).index_spec(),
            final(self).path_spec() == old(self).path_spec(),
            old(self).state_spec() == TailerState::Draining ==> {
                let s = scan(old(self).reader_spec().pending_spec(), chunk@);
                &&& events@.len() == s.0.len()
                &&& forall|i: int|
                    0 <= i < events@.len() ==> event_of(
                        #[trigger] events@[i],
                        old(self).index_spec(),
                        old(self).path_spec(),
                        s.0[i],
                    )
                &&& final(self).reader_spec().pending_spec() == s.1
                &&& final(self).reader_spec().read_pos_spec()
                    == old(self).reader_spec().read_pos_spec() + chunk@.len()
                &&& final(self).state_spec() == if chunk@.len() == 0 {
                    TailerState::Idle
                } else {
                    TailerState::Draining
                }
            },
            old(self).state_spec() != TailerState::Draining ==> {
                &&& events@.len() == 0
                &&& final(self).reader_spec() == old(self).reader_spec()
                &&& final(self).state_spec() == old(self).state_spec()
            },
    {
        let mut events: Vec<LineEvent> = Vec::new();
        if self.state != TailerState::Draining {
            return events;
        }
        if chunk.len() == 0 {
            self.state = TailerState::Idle;
        }
        let ghost before = self.reader;
        let lines = self.reader.pull(chunk);
        proof {
            if chunk@.len() == 0 {
                assert(chunk@ =~= Seq::<u8>::empty());
            }
        }
        let mut i: usize = 0;
        while i < lines.len()
            invariant
                i <= lines@.len(),
                events@.len() == i,
                views(lines@) == scan(before.pending_spec(), chunk@).0,
                forall|k: int|
                    0 <= k < i ==> event_of(
                        #[trigger] events@[k],
                        self.index,
                        self.path@,
                        views(lines@)[k],
                    ),
            decreases lines@.len() - i,
        {
            let text = lines[i].clone();
            let e = LineEvent { source_index: self.index, path: self.path.clone(), text };
            events.push(e);
            i = i + 1;
        }
        events
    }
}

/// Why registration failed.
#[derive(Clone, Copy, Debug, PartialEq, Eq, Structural)]
pub enum RegistrationError {
    /// No file was given.
    NoSources,
}

/// Creates one tailer per `(path, end_of_file)` pair, with indices
/// `0, 1, ...` in the given order. An empty list is refused before any
/// watcher is armed.
pub fn register_sources(sources: Vec<(String, u64)>) -> (r: Result<Vec<SourceTailer>, RegistrationError>)
    ensures
        sources@.len() == 0 <==> r == Err::<Vec<SourceTailer>, RegistrationError>(
            RegistrationError::NoSources,
        ),
        r is Ok ==> {
            let ts = r->Ok_0;
            &&& ts@.len() == sources@.len()
            &&& forall|i: int|
                0 <= i < ts@.len() ==> {
                    &&& (#[trigger] ts@[i]).wf()
                    &&& ts@[i].index_spec() == i
                    &&& ts@[i].path_spec() == sources@[i].0@
                    &&& ts@[i].state_spec() == TailerState::Registered
                    &&& ts@[i].reader_spec().cursor_spec() == sources@[i].1
                    &&& ts@[i].reader_spec().pending_spec() == Seq::<u8>::empty()
                }
        },
{
    if sources.len() == 0 {
        return Err(RegistrationError::NoSources);
    }
    let mut tailers: Vec<SourceTailer> = Vec::new();
    let mut i: usize = 0;
    while i < sources.len()
        invariant
            i <= sources@.len(),
            tailers@.len() == i,
            forall|k: int|
                0 <= k < i ==> {
                    &&& (#[trigger] tailers@[k]).wf()
                    &&& tailers@[k].index_spec() == k
                    &&& tailers@[k].path_spec() == sources@[k].0@
                    &&& tailers@[k].state_spec() == TailerState::Registered
                    &&& tailers@[k].reader_spec().cursor_spec() == sources@[k].1
                    &&& tailers@[k].reader_spec().pending_spec() == Seq::<u8>::empty()
                },
        decreases sources@.len() - i,
    {
        let path = sources[i].0.clone();
        let t = SourceTailer::new(path, i, sources[i].1);
        tailers.push(t);
        i = i + 1;
    }
    Ok(tailers)
}

} // verus!
