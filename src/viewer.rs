use vstd::prelude::*;
use crate::model::{Key, LogEvent};
use crate::screen::{CurrentScreen, NavigateTo, ScreenAction};

verus! {

/// The full body of one event, scrolled by line.
pub struct ViewerScreen {
    pub selected_event: LogEvent,
    /// Lines scrolled past; the renderer clips it.
    pub viewer_scroll: u16,
    /// The screen to go back to.
    pub origin: Option<Box<CurrentScreen>>,
}

impl ViewerScreen {
    /// A viewer of `event` at the top of the text.
    pub fn new(event: LogEvent, origin: Box<CurrentScreen>) -> (r: Self)
        ensures
            r == (ViewerScreen { selected_event: event, viewer_scroll: 0, origin: Some(origin) }),
    {
        ViewerScreen { selected_event: event, viewer_scroll: 0, origin: Some(origin) }
    }

    /// The effect of `key` on `prev`: `q` goes back, `j`/Down and `k`/Up
    /// scroll by one line, saturating at both ends.
    pub open spec fn key_post(prev: Self, next: Self, key: Key, r: ScreenAction) -> bool {
        match key {
            Key::Char('q') => match prev.origin {
                Some(o) => next == (ViewerScreen { origin: None, ..prev }) && r
                    == ScreenAction::Navigate(NavigateTo::Restore(o)),
                None => next == prev && r is Nothing,
            },
            Key::Char('j') | Key::Down => r is Nothing && next == (ViewerScreen {
                viewer_scroll: if prev.viewer_scroll == u16::MAX {
                    u16::MAX
                } else {
                    (prev.viewer_scroll + 1) as u16
                },
                ..prev
            }),
            Key::Char('k') | Key::Up => r is Nothing && next == (ViewerScreen {
                viewer_scroll: if prev.viewer_scroll == 0 {
                    0
                } else {
                    (prev.viewer_scroll - 1) as u16
                },
                ..prev
            }),
            _ => next == prev && r is Nothing,
        }
    }

    /// Handles one key.
    pub fn handle_key(&mut self, key: Key) -> (r: ScreenAction)
        ensures
            Self::key_post(*old(self), *final(self), key, r),
    {
        match key {
            Key::Char('q') => {
                if let Some(origin) = self.origin.take() {
                    return ScreenAction::Navigate(NavigateTo::Restore(origin));
                }
            },
            Key::Char('j') | Key::Down => {
                self.viewer_scroll = self.viewer_scroll.saturating_add(1);
            },
            Key::Char('k') | Key::Up => {
                self.viewer_scroll = self.viewer_scroll.saturating_sub(1);
            },
            _ => {},
        }
        ScreenAction::Nothing
    }
}

} // verus!
