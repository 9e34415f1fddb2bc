use vstd::prelude::*;
use crate::event_search::EventSearchScreen;
use crate::events::{error_text, fresh_loading, saved_text, EventsScreen};
use crate::fetch::{FetchOutcome, FetchRequest};
use crate::group_events::GroupEventsScreen;
use crate::list::StatefulList;
use crate::main_screen::MainScreen;
use crate::model::{Key, LogEvent, Screen};
use crate::viewer::ViewerScreen;

verus! {

/// What a screen asks for after handling a key.
pub enum ScreenAction {
    /// Nothing to do.
    Nothing,
    Quit,
    Navigate(NavigateTo),
    /// Fetch a page for one of the screen's lists.
    Fetch(FetchRequest),
    /// Write `content` to the file at `path`.
    Save { path: String, content: String },
}

/// Where a navigation goes.
pub enum NavigateTo {
    /// The events of one stream.
    NewEvents { group_name: String, stream_name: String },
    /// The full body of one event.
    NewViewer { event: LogEvent },
    /// The search form over a group.
    NewEventSearch { group_name: String },
    /// The events of a whole group that match a search.
    NewGroupEvents {
        group_name: String,
        start_ms: Option<i64>,
        end_ms: Option<i64>,
        pattern: Option<String>,
        start_display: String,
        end_display: String,
        pattern_display: String,
    },
    /// Back to the screen that was left.
    Restore(Box<CurrentScreen>),
}

/// The active screen. Each screen that can be left holds its predecessor.
pub enum CurrentScreen {
    Main(MainScreen),
    Events(EventsScreen),
    Viewer(ViewerScreen),
    EventSearch(EventSearchScreen),
    GroupEvents(GroupEventsScreen),
    /// No screen, while one replaces another.
    Transitioning,
}

impl CurrentScreen {
    /// The kind of the screen.
    pub open spec fn kind_of(&self) -> Screen {
        match self {
            CurrentScreen::Main(_) => Screen::Main,
            CurrentScreen::Events(_) => Screen::Events,
            CurrentScreen::Viewer(_) => Screen::Viewer,
            CurrentScreen::EventSearch(_) => Screen::EventSearch,
            CurrentScreen::GroupEvents(_) => Screen::GroupEvents,
            CurrentScreen::Transitioning => Screen::Transitioning,
        }
    }

    /// The screen and every screen it holds are well formed.
    pub open spec fn wf(&self) -> bool
        decreases self,
    {
        match self {
            CurrentScreen::Main(s) => s.wf(),
            CurrentScreen::Events(s) => s.wf() && match s.origin {
                Some(o) => o.wf(),
                None => true,
            },
            CurrentScreen::Viewer(s) => match s.origin {
                Some(o) => o.wf(),
                None => true,
            },
            CurrentScreen::EventSearch(s) => s.wf() && match s.origin {
                Some(o) => o.wf(),
                None => true,
            },
            CurrentScreen::GroupEvents(s) => s.wf() && match s.origin {
                Some(o) => o.wf(),
                None => true,
            },
            CurrentScreen::Transitioning => true,
        }
    }

    /// The effect of `key` on the screen `prev`, as the screen's own
    /// `key_post` states it.
    pub open spec fn key_post(prev: Self, next: Self, key: Key, r: ScreenAction) -> bool {
        match (prev, next) {
            (CurrentScreen::Main(p), CurrentScreen::Main(n)) => MainScreen::key_post(p, n, key, r),
            (CurrentScreen::Events(p), CurrentScreen::Events(n)) => EventsScreen::key_post(p, n, key, r),
            (CurrentScreen::Viewer(p), CurrentScreen::Viewer(n)) => ViewerScreen::key_post(p, n, key, r),
            (CurrentScreen::EventSearch(p), CurrentScreen::EventSearch(n)) => EventSearchScreen::key_post(
                p,
                n,
                key,
                r,
            ),
            (CurrentScreen::GroupEvents(p), CurrentScreen::GroupEvents(n)) => GroupEventsScreen::key_post(
                p,
                n,
                key,
                r,
            ),
            (CurrentScreen::Transitioning, CurrentScreen::Transitioning) => r is Nothing,
            _ => false,
        }
    }

    /// Hands `key` to the screen.
    pub fn handle_key(&mut self, key: Key) -> (r: ScreenAction)
        requires
            old(self).wf(),
        ensures
            final(self).wf(),
            Self::key_post(*old(self), *final(self), key, r),
            r matches ScreenAction::Navigate(NavigateTo::Restore(o)) ==> o.wf(),
    {
        match self {
            CurrentScreen::Main(s) => s.handle_key(key),
            CurrentScreen::Events(s) => s.handle_key(key),
            CurrentScreen::Viewer(s) => s.handle_key(key),
            CurrentScreen::EventSearch(s) => s.handle_key(key),
            CurrentScreen::GroupEvents(s) => s.handle_key(key),
            CurrentScreen::Transitioning => ScreenAction::Nothing,
        }
    }

    /// Which kind of screen this is.
    pub fn kind(&self) -> (r: Screen)
        ensures
            r == self.kind_of(),
    {
        match self {
            CurrentScreen::Main(_) => Screen::Main,
            CurrentScreen::Events(_) => Screen::Events,
            CurrentScreen::Viewer(_) => Screen::Viewer,
            CurrentScreen::EventSearch(_) => Screen::EventSearch,
            CurrentScreen::GroupEvents(_) => Screen::GroupEvents,
            CurrentScreen::Transitioning => Screen::Transitioning,
        }
    }
}

/// What the loop around the screens has to do after a key or a
/// navigation.
pub enum Effect {
    /// Nothing to do.
    Nothing,
    Quit,
    /// Fetch a page and hand the answer back with `App::receive`.
    Fetch(FetchRequest),
    /// Write `content` to `path` and report with `App::finish_save`.
    Save { path: String, content: String },
}

/// Holds the active screen and carries out the navigation that the screens
/// ask for.
pub struct App {
    pub screen: CurrentScreen,
    /// The terminal must be cleared before the next frame.
    pub needs_clear: bool,
    /// Why the last fetch failed, until the next key.
    pub status: Option<String>,
}

impl App {
    pub open spec fn wf(&self) -> bool {
        self.screen.wf()
    }

    /// The screen `next` and effect `r` after navigating from `prev` to
    /// `target`. Forward moves keep `prev` as the new screen's origin; the
    /// events screens start loading their first page at once.
    pub open spec fn navigated(prev: CurrentScreen, next: CurrentScreen, target: NavigateTo, r: Effect) -> bool {
        match target {
            NavigateTo::NewEvents { group_name, stream_name } => {
                &&& next matches CurrentScreen::Events(e)
                &&& e.group_name == group_name
                &&& e.stream_name == stream_name
                &&& e.origin matches Some(o) && *o == prev
                &&& fresh_loading(e.log_events)
                &&& e.filter_input is None
                &&& !e.filter_editing
                &&& !e.download_editing
                &&& e.download_status is None
                &&& r == Effect::Fetch(e.first_page_request())
            },
            NavigateTo::NewViewer { event } => {
                &&& next matches CurrentScreen::Viewer(v)
                &&& v.selected_event == event
                &&& v.viewer_scroll == 0
                &&& v.origin matches Some(o) && *o == prev
                &&& r is Nothing
            },
            NavigateTo::NewEventSearch { group_name } => {
                &&& next matches CurrentScreen::EventSearch(f)
                &&& f.group_name == group_name
                &&& f.seeded()
                &&& f.event_search_pattern@.len() == 0
                &&& f.event_search_focused == 0
                &&& f.event_search_error is None
                &&& f.origin matches Some(o) && *o == prev
                &&& r is Nothing
            },
            NavigateTo::NewGroupEvents {
                group_name,
                start_ms,
                end_ms,
                pattern,
                start_display,
                end_display,
                pattern_display,
            } => {
                &&& next matches CurrentScreen::GroupEvents(g)
                &&& g.group_name == group_name
                &&& g.start_display == start_display
                &&& g.end_display == end_display
                &&& g.pattern_display == pattern_display
                &&& g.origin matches Some(o) && *o == prev
                &&& fresh_loading(g.log_events)
                &&& r == Effect::Fetch(
                    FetchRequest::Events {
                        group_name,
                        stream_name: None,
                        start_ms,
                        end_ms,
                        pattern,
                        token: None,
                    },
                )
            },
            NavigateTo::Restore(o) => next == *o && r is Nothing,
        }
    }

    /// The screen `next` and effect `r` after carrying out `act`, asked for
    /// by the screen `prev`.
    pub open spec fn applied(prev: CurrentScreen, next: CurrentScreen, act: ScreenAction, r: Effect) -> bool {
        match act {
            ScreenAction::Nothing => next == prev && r is Nothing,
            ScreenAction::Quit => next == prev && r is Quit,
            ScreenAction::Fetch(req) => next == prev && r == Effect::Fetch(req),
            ScreenAction::Save { path, content } => next == prev && r == (Effect::Save { path, content }),
            ScreenAction::Navigate(target) => Self::navigated(prev, next, target, r),
        }
    }

    /// The overview, with nothing loaded yet.
    pub fn new() -> (r: Self)
        ensures
            r.wf(),
            r.screen matches CurrentScreen::Main(m) && m.log_groups.items@.len() == 0
                && !m.log_groups.loading && m.log_streams.items@.len() == 0,
            !r.needs_clear,
            r.status is None,
    {
        App { screen: CurrentScreen::Main(MainScreen::new()), needs_clear: false, status: None }
    }

    /// Starts loading the groups, on the overview.
    pub fn start(&mut self) -> (r: Option<FetchRequest>)
        requires
            old(self).wf(),
        ensures
            final(self).wf(),
            old(self).screen matches CurrentScreen::Main(m) ==> (r == Some(
                FetchRequest::Groups { token: None },
            ) && final(self).screen == CurrentScreen::Main(
                MainScreen { log_groups: StatefulList { loading: true, ..m.log_groups }, ..m },
            )),
            !(old(self).screen is Main) ==> r is None && *final(self) == *old(self),
    {
        match &mut self.screen {
            CurrentScreen::Main(m) => Some(m.load_log_groups()),
            _ => None,
        }
    }

    /// Carries out a navigation: the active screen becomes the new screen's
    /// origin, or is dropped for the one restored.
    pub fn navigate(&mut self, target: NavigateTo) -> (r: Effect)
        requires
            old(self).wf(),
            target matches NavigateTo::Restore(o) ==> o.wf(),
        ensures
            final(self).wf(),
            Self::navigated(old(self).screen, final(self).screen, target, r),
            final(self).needs_clear,
            final(self).status == old(self).status,
    {
        let mut prev = CurrentScreen::Transitioning;
        core::mem::swap(&mut prev, &mut self.screen);
        self.needs_clear = true;
        match target {
            NavigateTo::NewEvents { group_name, stream_name } => {
                let mut e = EventsScreen::new(group_name, stream_name, Box::new(prev));
                let req = e.load_log_events();
                self.screen = CurrentScreen::Events(e);
                Effect::Fetch(req)
            },
            NavigateTo::NewViewer { event } => {
                self.screen = CurrentScreen::Viewer(ViewerScreen::new(event, Box::new(prev)));
                Effect::Nothing
            },
            NavigateTo::NewEventSearch { group_name } => {
                self.screen = CurrentScreen::EventSearch(
                    EventSearchScreen::new(group_name, Box::new(prev)),
                );
                Effect::Nothing
            },
            NavigateTo::NewGroupEvents {
                group_name,
                start_ms,
                end_ms,
                pattern,
                start_display,
                end_display,
                pattern_display,
            } => {
                let mut g = GroupEventsScreen::new(
                    group_name,
                    start_display,
                    end_display,
                    pattern_display,
                    Box::new(prev),
                );
                let req = g.load_group_events(start_ms, end_ms, pattern);
                self.screen = CurrentScreen::GroupEvents(g);
                Effect::Fetch(req)
            },
            NavigateTo::Restore(origin) => {
                self.screen = *origin;
                Effect::Nothing
            },
        }
    }

    /// Hands `key` to the active screen and carries out what it asks for.
    pub fn handle_key(&mut self, key: Key) -> (r: Effect)
        requires
            old(self).wf(),
        ensures
            final(self).wf(),
            final(self).status is None,
            exists|mid: CurrentScreen, act: ScreenAction|
                #[trigger] CurrentScreen::key_post(old(self).screen, mid, key, act) && Self::applied(
                    mid,
                    final(self).screen,
                    act,
                    r,
                ),
    {
        self.status = None;
        let act = self.screen.handle_key(key);
        let ghost mid = self.screen;
        let ghost a = act;
        let r = match act {
            ScreenAction::Nothing => Effect::Nothing,
            ScreenAction::Quit => Effect::Quit,
            ScreenAction::Fetch(req) => Effect::Fetch(req),
            ScreenAction::Save { path, content } => Effect::Save { path, content },
            ScreenAction::Navigate(target) => self.navigate(target),
        };
        assert(CurrentScreen::key_post(old(self).screen, mid, key, a) && Self::applied(
            mid,
            self.screen,
            a,
            r,
        ));
        r
    }

    /// The maintenance of one loop turn: every fetch the active screen asks
    /// for without a key, in order.
    pub fn maintain(&mut self) -> (r: Vec<FetchRequest>)
        requires
            old(self).wf(),
        ensures
            final(self).wf(),
            final(self).needs_clear == old(self).needs_clear,
            final(self).status == old(self).status,
            match (old(self).screen, final(self).screen) {
                (CurrentScreen::Main(p), CurrentScreen::Main(n)) => MainScreen::maintain_post(p, n, r@),
                (CurrentScreen::Events(p), CurrentScreen::Events(n)) => exists|o: Option<FetchRequest>|
                    #[trigger] EventsScreen::pagination_post(p, n, o) && r@ == match o {
                        Some(x) => seq![x],
                        None => Seq::empty(),
                    },
                (CurrentScreen::Main(_), _) => false,
                (CurrentScreen::Events(_), _) => false,
                _ => final(self).screen == old(self).screen && r@.len() == 0,
            },
    {
        match &mut self.screen {
            CurrentScreen::Main(m) => m.maintain(),
            CurrentScreen::Events(e) => {
                let ghost p = *e;
                let o = e.check_pagination();
                let ghost oo = o;
                let mut out: Vec<FetchRequest> = Vec::new();
                if let Some(req) = o {
                    out.push(req);
                }
                assert(EventsScreen::pagination_post(p, *e, oo));
                assert(out@ == match oo {
                    Some(x) => seq![x],
                    None => Seq::<FetchRequest>::empty(),
                });
                out
            },
            _ => Vec::new(),
        }
    }

    /// Hands the answer to `req` to the active screen, which issued it; a
    /// failure is kept in `status` as well.
    pub fn receive(&mut self, req: &FetchRequest, outcome: FetchOutcome)
        requires
            old(self).wf(),
        ensures
            final(self).wf(),
            final(self).needs_clear == old(self).needs_clear,
            match outcome {
                FetchOutcome::Failed { message } => final(self).status == Some(message),
                _ => final(self).status == old(self).status,
            },
            match (old(self).screen, final(self).screen) {
                (CurrentScreen::Main(p), CurrentScreen::Main(n)) => MainScreen::receive_post(
                    p,
                    n,
                    *req,
                    outcome,
                ),
                (CurrentScreen::Events(p), CurrentScreen::Events(n)) => EventsScreen::receive_post(
                    p,
                    n,
                    *req,
                    outcome,
                ),
                (CurrentScreen::GroupEvents(p), CurrentScreen::GroupEvents(n)) => GroupEventsScreen::receive_post(
                    p,
                    n,
                    *req,
                    outcome,
                ),
                (CurrentScreen::Main(_), _) => false,
                (CurrentScreen::Events(_), _) => false,
                (CurrentScreen::GroupEvents(_), _) => false,
                _ => final(self).screen == old(self).screen,
            },
    {
        if let FetchOutcome::Failed { message } = &outcome {
            self.status = Some(message.clone());
        }
        match &mut self.screen {
            CurrentScreen::Main(m) => m.receive(req, outcome),
            CurrentScreen::Events(e) => e.receive(req, outcome),
            CurrentScreen::GroupEvents(g) => g.receive(req, outcome),
            _ => {},
        }
    }

    /// Reports how a download to `path` went to the events screen.
    pub fn finish_save(&mut self, path: &str, failure: Option<String>)
        requires
            old(self).wf(),
        ensures
            final(self).wf(),
            final(self).needs_clear == old(self).needs_clear,
            final(self).status == old(self).status,
            match (old(self).screen, final(self).screen) {
                (CurrentScreen::Events(p), CurrentScreen::Events(n)) => {
                    &&& n == (EventsScreen { download_status: n.download_status, ..p })
                    &&& n.download_status matches Some(s) && s@ == match failure {
                        Some(m) => error_text(m@),
                        None => saved_text(path@),
                    }
                },
                (CurrentScreen::Events(_), _) => false,
                _ => final(self).screen == old(self).screen,
            },
    {
        if let CurrentScreen::Events(e) = &mut self.screen {
            e.report_save(path, failure);
        }
    }

    /// The kind of the active screen.
    pub fn active(&self) -> (r: Screen)
        ensures
            r == self.screen.kind_of(),
    {
        self.screen.kind()
    }
}

/// Going forward to a new screen and pressing `q` there at once comes back
/// to the very screen that was left, lists and cursors as they were, with
/// nothing fetched.
pub proof fn lemma_forward_then_back(
    prev: CurrentScreen,
    target: NavigateTo,
    fwd: CurrentScreen,
    r1: Effect,
    after_key: CurrentScreen,
    act: ScreenAction,
    back: CurrentScreen,
    r2: Effect,
)
    requires
        !(target is Restore),
        App::navigated(prev, fwd, target, r1),
        CurrentScreen::key_post(fwd, after_key, Key::Char('q'), act),
        App::applied(after_key, back, act, r2),
    ensures
        back == prev,
        r2 is Nothing,
{
}

} // verus!
