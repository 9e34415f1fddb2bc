use vstd::prelude::*;
use crate::fetch::{FetchOutcome, FetchRequest};
use crate::list::{next_pos, previous_pos, StatefulList};
use crate::model::{Key, LogEvent};
use crate::screen::{CurrentScreen, NavigateTo, ScreenAction};

verus! {

/// The events of a whole group that matched a search.
pub struct GroupEventsScreen {
    pub log_events: StatefulList<LogEvent>,
    pub group_name: String,
    /// The search, as it was typed, for the header.
    pub start_display: String,
    pub end_display: String,
    pub pattern_display: String,
    /// The screen to go back to.
    pub origin: Option<Box<CurrentScreen>>,
}

impl GroupEventsScreen {
    pub open spec fn wf(&self) -> bool {
        self.log_events.wf()
    }

    /// An empty result list for a search over `group_name`.
    pub fn new(
        group_name: String,
        start_display: String,
        end_display: String,
        pattern_display: String,
        origin: Box<CurrentScreen>,
    ) -> (r: Self)
        ensures
            r.wf(),
            r.log_events.items@.len() == 0,
            r.log_events.selected is None,
            !r.log_events.loading,
            r.log_events.next_token is None,
            r.log_events.visible_indices is None,
            r.group_name == group_name,
            r.start_display == start_display,
            r.end_display == end_display,
            r.pattern_display == pattern_display,
            r.origin == Some(origin),
    {
        GroupEventsScreen {
            log_events: StatefulList::new(),
            group_name,
            start_display,
            end_display,
            pattern_display,
            origin: Some(origin),
        }
    }

    /// The effect of `key` on `prev`: `q` goes back, `j`/`k` move, Enter opens
    /// the selected event.
    pub open spec fn key_post(prev: Self, next: Self, key: Key, r: ScreenAction) -> bool {
        let l = prev.log_events;
        match key {
            Key::Char('q') => match prev.origin {
                Some(o) => next == (GroupEventsScreen { origin: None, ..prev }) && r
                    == ScreenAction::Navigate(NavigateTo::Restore(o)),
                None => next == prev && r is Nothing,
            },
            Key::Char('j') | Key::Down => r is Nothing && next == (GroupEventsScreen {
                log_events: l.with_selected(next_pos(l.selected, l.view_len())),
                ..prev
            }),
            Key::Char('k') | Key::Up => r is Nothing && next == (GroupEventsScreen {
                log_events: l.with_selected(previous_pos(l.selected, l.view_len())),
                ..prev
            }),
            Key::Enter => next == prev && match l.selected_item() {
                Some(e) => r == ScreenAction::Navigate(NavigateTo::NewViewer { event: e }),
                None => r is Nothing,
            },
            _ => next == prev && r is Nothing,
        }
    }

    /// Handles one key.
    pub fn handle_key(&mut self, key: Key) -> (r: ScreenAction)
        requires
            old(self).wf(),
        ensures
            final(self).wf(),
            Self::key_post(*old(self), *final(self), key, r),
    {
        match key {
            Key::Char('q') => {
                if let Some(origin) = self.origin.take() {
                    return ScreenAction::Navigate(NavigateTo::Restore(origin));
                }
            },
            Key::Char('j') | Key::Down => self.log_events.next(),
            Key::Char('k') | Key::Up => self.log_events.previous(),
            Key::Enter => {
                if let Some(event) = self.log_events.selected() {
                    return ScreenAction::Navigate(NavigateTo::NewViewer { event: event.duplicate() });
                }
            },
            _ => {},
        }
        ScreenAction::Nothing
    }

    /// Starts the search: the list empties and its fetch goes out.
    pub fn load_group_events(
        &mut self,
        start_ms: Option<i64>,
        end_ms: Option<i64>,
        pattern: Option<String>,
    ) -> (r: FetchRequest)
        ensures
            final(self).wf(),
            final(self).log_events.items@.len() == 0,
            final(self).log_events.selected is None,
            final(self).log_events.loading,
            final(self).log_events.next_token is None,
            final(self).log_events.visible_indices is None,
            *final(self) == (GroupEventsScreen { log_events: final(self).log_events, ..*old(self) }),
            r == (FetchRequest::Events {
                group_name: old(self).group_name,
                stream_name: None,
                start_ms,
                end_ms,
                pattern,
                token: None,
            }),
    {
        self.log_events.reset();
        self.log_events.start_loading();
        FetchRequest::Events {
            group_name: self.group_name.clone(),
            stream_name: None,
            start_ms,
            end_ms,
            pattern,
            token: None,
        }
    }

    /// The effect of an answer to `req` on `prev`.
    pub open spec fn receive_post(prev: Self, next: Self, req: FetchRequest, outcome: FetchOutcome) -> bool {
        &&& next == (GroupEventsScreen { log_events: next.log_events, ..prev })
        &&& match (req, outcome) {
            (FetchRequest::Events { .. }, FetchOutcome::Events { items, next_token }) => {
                next.log_events.received(prev.log_events, req.is_append(), items@, next_token)
            },
            (_, FetchOutcome::Failed { .. }) => next.log_events.failed_from(prev.log_events),
            _ => next == prev,
        }
    }

    /// Takes the answer to a request of this screen.
    pub fn receive(&mut self, req: &FetchRequest, outcome: FetchOutcome)
        requires
            old(self).wf(),
        ensures
            final(self).wf(),
            Self::receive_post(*old(self), *final(self), *req, outcome),
    {
        match outcome {
            FetchOutcome::Events { items, next_token } => {
                if let FetchRequest::Events { .. } = req {
                    self.log_events.receive_page(req.appends(), items, next_token);
                }
            },
            FetchOutcome::Failed { .. } => self.log_events.receive_failure(),
            _ => {},
        }
    }
}

} // verus!
