use vstd::prelude::*;
use vstd::string::*;
use crate::clock::{field_millis, format_seconds, now_millis, parse_datetime_to_ms, seconds_text};
use crate::main_screen::popped;
use crate::model::Key;
use crate::screen::{CurrentScreen, NavigateTo, ScreenAction};
use crate::text::non_empty;

verus! {

/// The search window opens this long before now, in milliseconds.
pub const WINDOW_MS: i64 = 3_600_000;

/// The bound a time field gives: none when it is empty, the instant it
/// names otherwise; `None` when it names none.
pub open spec fn bound_of(s: Seq<char>) -> Option<Option<i64>> {
    if s.len() == 0 {
        Some(None)
    } else {
        match field_millis(s) {
            Some(v) => Some(Some(v)),
            None => None,
        }
    }
}

/// The message shown when the start time cannot be read.
pub open spec fn start_error_text() -> Seq<char> {
    "invalid start time (example: 2024-01-01 12:00:00)"@
}

/// The message shown when the end time cannot be read.
pub open spec fn end_error_text() -> Seq<char> {
    "invalid end time (example: 2024-01-01 12:00:00)"@
}

/// The start of the default window for the instant `now`.
pub open spec fn window_start(now: i64) -> i64 {
    if now < i64::MIN + WINDOW_MS {
        i64::MIN
    } else {
        (now - WINDOW_MS) as i64
    }
}

/// Reads a time field of the form.
pub fn parse_bound(s: &String) -> (r: Option<Option<i64>>)
    ensures
        r == bound_of(s@),
{
    if s.as_str().is_empty() {
        Some(None)
    } else {
        match parse_datetime_to_ms(s.as_str()) {
            Some(v) => Some(Some(v)),
            None => None,
        }
    }
}

/// A form for a search over a whole group: a time window and a filter
/// pattern.
pub struct EventSearchScreen {
    pub group_name: String,
    /// `YYYY-MM-DD HH:MM:SS`, in UTC; empty for no lower bound.
    pub event_search_start: String,
    /// `YYYY-MM-DD HH:MM:SS`, in UTC; empty for no upper bound.
    pub event_search_end: String,
    pub event_search_pattern: String,
    /// The field that takes typing: 0 start, 1 end, 2 pattern.
    pub event_search_focused: u8,
    /// Why the last submission was refused.
    pub event_search_error: Option<String>,
    /// The screen to go back to.
    pub origin: Option<Box<CurrentScreen>>,
}

impl EventSearchScreen {
    pub open spec fn wf(&self) -> bool {
        self.event_search_focused < 3
    }

    /// A form over `group_name` whose window is the hour before `now_ms`.
    pub fn at_time(group_name: String, now_ms: i64, origin: Box<CurrentScreen>) -> (r: Self)
        ensures
            r.wf(),
            r.group_name == group_name,
            r.event_search_start@ == seconds_text(window_start(now_ms)),
            r.event_search_end@ == seconds_text(now_ms),
            r.event_search_pattern@.len() == 0,
            r.event_search_focused == 0,
            r.event_search_error is None,
            r.origin == Some(origin),
    {
        let start = if now_ms < i64::MIN + WINDOW_MS {
            i64::MIN
        } else {
            now_ms - WINDOW_MS
        };
        EventSearchScreen {
            group_name,
            event_search_start: format_seconds(start),
            event_search_end: format_seconds(now_ms),
            event_search_pattern: String::new(),
            event_search_focused: 0,
            event_search_error: None,
            origin: Some(origin),
        }
    }

    /// A form over `group_name` whose window is the last hour; both time
    /// fields are empty when the clock cannot be read.
    pub fn new(group_name: String, origin: Box<CurrentScreen>) -> (r: Self)
        ensures
            r.wf(),
            r.group_name == group_name,
            r.seeded(),
            r.event_search_pattern@.len() == 0,
            r.event_search_focused == 0,
            r.event_search_error is None,
            r.origin == Some(origin),
    {
        match now_millis() {
            Some(now) => EventSearchScreen::at_time(group_name, now, origin),
            None => EventSearchScreen {
                group_name,
                event_search_start: String::new(),
                event_search_end: String::new(),
                event_search_pattern: String::new(),
                event_search_focused: 0,
                event_search_error: None,
                origin: Some(origin),
            },
        }
    }

    /// The time fields hold the hour before some instant, or are both empty.
    pub open spec fn seeded(&self) -> bool {
        ||| exists|now: i64|
            self.event_search_start@ == seconds_text(window_start(now)) && self.event_search_end@
                == #[trigger] seconds_text(now)
        ||| self.event_search_start@.len() == 0 && self.event_search_end@.len() == 0
    }

    /// The text of the focused field.
    pub open spec fn focused_text(&self) -> Seq<char> {
        if self.event_search_focused == 0 {
            self.event_search_start@
        } else if self.event_search_focused == 1 {
            self.event_search_end@
        } else {
            self.event_search_pattern@
        }
    }

    /// `next` is `prev` with the focused field holding `t`.
    pub open spec fn edited(prev: Self, next: Self, t: Seq<char>) -> bool {
        &&& next.focused_text() == t
        &&& if prev.event_search_focused == 0 {
            next == (EventSearchScreen { event_search_start: next.event_search_start, ..prev })
        } else if prev.event_search_focused == 1 {
            next == (EventSearchScreen { event_search_end: next.event_search_end, ..prev })
        } else {
            next == (EventSearchScreen { event_search_pattern: next.event_search_pattern, ..prev })
        }
    }

    /// The effect of Enter: with both time fields readable, the search goes
    /// out; else the first unreadable field's error is recorded.
    pub open spec fn submit_post(prev: Self, next: Self, r: ScreenAction) -> bool {
        let s = bound_of(prev.event_search_start@);
        let e = bound_of(prev.event_search_end@);
        if s is Some && e is Some {
            &&& next == (EventSearchScreen { event_search_error: None, ..prev })
            &&& r == ScreenAction::Navigate(
                NavigateTo::NewGroupEvents {
                    group_name: prev.group_name,
                    start_ms: s->0,
                    end_ms: e->0,
                    pattern: if prev.event_search_pattern@.len() == 0 {
                        None
                    } else {
                        Some(prev.event_search_pattern)
                    },
                    start_display: prev.event_search_start,
                    end_display: prev.event_search_end,
                    pattern_display: prev.event_search_pattern,
                },
            )
        } else {
            &&& r is Nothing
            &&& next == (EventSearchScreen { event_search_error: next.event_search_error, ..prev })
            &&& next.event_search_error matches Some(m) && m@ == if s is None {
                start_error_text()
            } else {
                end_error_text()
            }
        }
    }

    /// The effect of `key` on `prev`.
    pub open spec fn key_post(prev: Self, next: Self, key: Key, r: ScreenAction) -> bool {
        match key {
            Key::Char('q') | Key::Esc => match prev.origin {
                Some(o) => next == (EventSearchScreen { origin: None, ..prev }) && r
                    == ScreenAction::Navigate(NavigateTo::Restore(o)),
                None => next == prev && r is Nothing,
            },
            Key::Tab => r is Nothing && next == (EventSearchScreen {
                event_search_focused: ((prev.event_search_focused + 1) % 3) as u8,
                ..prev
            }),
            Key::BackTab => r is Nothing && next == (EventSearchScreen {
                event_search_focused: ((prev.event_search_focused + 2) % 3) as u8,
                ..prev
            }),
            Key::Backspace => r is Nothing && Self::edited(prev, next, popped(prev.focused_text())),
            Key::Char(c) => r is Nothing && Self::edited(prev, next, prev.focused_text().push(c)),
            Key::Enter => Self::submit_post(prev, next, r),
            _ => next == prev && r is Nothing,
        }
    }

    /// Handles one key.
    pub fn handle_key(&mut self, key: Key) -> (r: ScreenAction)
        requires
            old(self).wf(),
        ensures
            final(self).wf(),
            Self::key_post(*old(self), *final(self), key, r),
    {
        match key {
            Key::Char('q') | Key::Esc => {
                if let Some(origin) = self.origin.take() {
                    return ScreenAction::Navigate(NavigateTo::Restore(origin));
                }
            },
            Key::Tab => {
                self.event_search_focused = (self.event_search_focused + 1) % 3;
            },
            Key::BackTab => {
                self.event_search_focused = (self.event_search_focused + 2) % 3;
            },
            Key::Backspace => {
                if self.event_search_focused == 0 {
                    self.event_search_start.pop();
                } else if self.event_search_focused == 1 {
                    self.event_search_end.pop();
                } else {
                    self.event_search_pattern.pop();
                }
            },
            Key::Char(c) => {
                if self.event_search_focused == 0 {
                    self.event_search_start.push(c);
                } else if self.event_search_focused == 1 {
                    self.event_search_end.push(c);
                } else {
                    self.event_search_pattern.push(c);
                }
            },
            Key::Enter => {
                return self.submit();
            },
            _ => {},
        }
        ScreenAction::Nothing
    }

    /// Checks the form and, when both time fields are readable, builds the
    /// search.
    pub fn submit(&mut self) -> (r: ScreenAction)
        requires
            old(self).wf(),
        ensures
            final(self).wf(),
            Self::submit_post(*old(self), *final(self), r),
    {
        let start = parse_bound(&self.event_search_start);
        let end = parse_bound(&self.event_search_end);
        match (start, end) {
            (Some(start_ms), Some(end_ms)) => {
                self.event_search_error = None;
                ScreenAction::Navigate(
                    NavigateTo::NewGroupEvents {
                        group_name: self.group_name.clone(),
                        start_ms,
                        end_ms,
                        pattern: non_empty(&self.event_search_pattern),
                        start_display: self.event_search_start.clone(),
                        end_display: self.event_search_end.clone(),
                        pattern_display: self.event_search_pattern.clone(),
                    },
                )
            },
            (None, _) => {
                self.event_search_error = Some(
                    String::from_str("invalid start time (example: 2024-01-01 12:00:00)"),
                );
                ScreenAction::Nothing
            },
            (_, None) => {
                self.event_search_error = Some(
                    String::from_str("invalid end time (example: 2024-01-01 12:00:00)"),
                );
                ScreenAction::Nothing
            },
        }
    }
}

} // verus!
