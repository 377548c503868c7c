//! Deciding, per file, whether new bytes may be available.
use vstd::prelude::*;

verus! {

/// What change detection concluded about the tailed file.
#[derive(Clone, Copy, Debug, PartialEq, Eq, Structural)]
pub enum Signal {
    /// Nothing new to read (a spurious wake, or an unchanged size).
    NoNewData,
    /// New bytes may be available past the read position.
    NewData,
    /// The file was truncated or recreated: reading restarts at its start.
    Rotated,
    /// The file was removed or moved away.
    Removed,
}

/// The kind of a file-change notification, as delivered by the operating
/// system's notification facility.
#[derive(Clone, Copy, Debug, PartialEq, Eq, Structural)]
pub enum NotifyKind {
    Write,
    Create,
    Remove,
    Rename,
    Other,
}

/// The signal that a notification of kind `kind` carries; `on_target` tells
/// whether it names the tailed file.
pub open spec fn notification_signal(kind: NotifyKind, on_target: bool) -> Signal {
    if !on_target {
        Signal::NoNewData
    } else {
        match kind {
            NotifyKind::Write => Signal::NewData,
            NotifyKind::Create => Signal::Rotated,
            NotifyKind::Remove => Signal::Removed,
            NotifyKind::Rename => Signal::Removed,
            NotifyKind::Other => Signal::NoNewData,
        }
    }
}

/// Push mode: turns one notification into a signal. Notifications about
/// other files, or of other kinds, are spurious wakes.
pub fn classify_notification(kind: NotifyKind, on_target: bool) -> (r: Signal)
    ensures
        r == notification_signal(kind, on_target),
{
    if !on_target {
        return Signal::NoNewData;
    }
    match kind {
        NotifyKind::Write => Signal::NewData,
        NotifyKind::Create => Signal::Rotated,
        NotifyKind::Remove => Signal::Removed,
        NotifyKind::Rename => Signal::Removed,
        NotifyKind::Other => Signal::NoNewData,
    }
}

/// The signal of a size comparison: growth is new data, an equal size is
/// none, a smaller size is a truncation.
pub open spec fn size_signal(last_len: u64, current_len: u64) -> Signal {
    if current_len > last_len {
        Signal::NewData
    } else if current_len == last_len {
        Signal::NoNewData
    } else {
        Signal::Rotated
    }
}

/// Poll mode: compares the current size of the file with the last one seen.
pub fn compare_sizes(last_len: u64, current_len: u64) -> (r: Signal)
    ensures
        r == size_signal(last_len, current_len),
{
    if current_len > last_len {
        Signal::NewData
    } else if current_len == last_len {
        Signal::NoNewData
    } else {
        Signal::Rotated
    }
}

/// Poll-mode detector: remembers the size observed last time.
pub struct PollWatch {
    last_len: u64,
}

impl PollWatch {
    pub closed spec fn last_len_spec(&self) -> u64 {
        self.last_len
    }

    /// A detector that has seen the file at size `len`.
    pub fn new(len: u64) -> (r: PollWatch)
        ensures
            r.last_len_spec() == len,
    {
        PollWatch { last_len: len }
    }

    /// The size observed last time.
    pub fn last_len(&self) -> (r: u64)
        ensures
            r == self.last_len_spec(),
    {
        self.last_len
    }

    /// Checks the file's current size `len` against the last one seen, and
    /// takes `len` as the new baseline whatever the outcome.
    pub fn observe(&mut self, len: u64) -> (r: Signal)
        ensures
            r == size_signal(old(self).last_len_spec(), len),
            final(self).last_len_spec() == len,
    {
        let r = compare_sizes(self.last_len, len);
        self.last_len = len;
        r
    }
}

} // verus!
