use vstd::prelude::*;

verus! {

/// A named container of log streams.
#[derive(Debug)]
pub struct LogGroup {
    pub name: String,
}

/// An ordered sequence of log events inside a group.
#[derive(Debug)]
pub struct LogStream {
    pub name: String,
    /// Time of the newest event, in milliseconds since the epoch.
    pub last_event_time: Option<i64>,
}

/// One timestamped log record.
#[derive(Debug)]
pub struct LogEvent {
    /// Milliseconds since the epoch.
    pub timestamp: i64,
    pub message: String,
}

impl View for LogEvent {
    type V = (i64, Seq<char>);

    open spec fn view(&self) -> (i64, Seq<char>) {
        (self.timestamp, self.message@)
    }
}

impl LogEvent {
    /// A field-by-field copy of the event.
    pub fn duplicate(&self) -> (r: LogEvent)
        ensures
            r == *self,
    {
        LogEvent { timestamp: self.timestamp, message: self.message.clone() }
    }
}

/// Which list of the overview receives movement keys.
#[derive(Debug, Clone, Copy, PartialEq, Eq, Structural)]
pub enum ActivePanel {
    Groups,
    Streams,
}

/// The kind of screen that is active.
#[derive(Debug, Clone, Copy, PartialEq, Eq, Structural)]
pub enum Screen {
    Main,
    Events,
    Viewer,
    EventSearch,
    GroupEvents,
    Transitioning,
}

/// A key press, as the screens see it.
#[derive(Debug, Clone, Copy, PartialEq, Eq, Structural)]
pub enum Key {
    Char(char),
    Enter,
    Esc,
    Backspace,
    Tab,
    BackTab,
    Up,
    Down,
    Other,
}

} // verus!
