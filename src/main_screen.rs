use vstd::prelude::*;
use crate::fetch::{FetchOutcome, FetchRequest};
use crate::list::{next_pos, previous_pos, StatefulList};
use crate::model::{ActivePanel, Key, LogGroup, LogStream};
use crate::screen::{NavigateTo, ScreenAction};
use crate::text::{clone_opt, contains_folded, is_infix, lower_of, to_lower};

verus! {

/// How many entries before the end of a list the next page is fetched.
pub const LOOKAHEAD: usize = 5;

/// For each group, whether its name holds the query, ignoring case.
pub open spec fn group_mask(items: Seq<LogGroup>, query: Seq<char>) -> Seq<bool> {
    Seq::new(items.len(), |i: int| is_infix(lower_of(query), lower_of(items[i].name@)))
}

/// For each stream, whether its name holds the query, ignoring case.
pub open spec fn stream_mask(items: Seq<LogStream>, query: Seq<char>) -> Seq<bool> {
    Seq::new(items.len(), |i: int| is_infix(lower_of(query), lower_of(items[i].name@)))
}

/// The text without its last character, if it has one.
pub open spec fn popped(s: Seq<char>) -> Seq<char> {
    if s.len() == 0 {
        s
    } else {
        s.drop_last()
    }
}

fn groups_mask(items: &Vec<LogGroup>, lowered: &str) -> (r: Vec<bool>)
    ensures
        r@.len() == items@.len(),
        forall|i: int| 0 <= i < r@.len() ==> r@[i] == is_infix(lowered@, lower_of(items@[i].name@)),
{
    let mut out: Vec<bool> = Vec::new();
    let mut i: usize = 0;
    while i < items.len()
        invariant
            i <= items@.len(),
            out@.len() == i,
            forall|j: int| 0 <= j < i ==> out@[j] == is_infix(lowered@, lower_of(items@[j].name@)),
        decreases items@.len() - i,
    {
        out.push(contains_folded(items[i].name.as_str(), lowered));
        i += 1;
    }
    out
}

fn streams_mask(items: &Vec<LogStream>, lowered: &str) -> (r: Vec<bool>)
    ensures
        r@.len() == items@.len(),
        forall|i: int| 0 <= i < r@.len() ==> r@[i] == is_infix(lowered@, lower_of(items@[i].name@)),
{
    let mut out: Vec<bool> = Vec::new();
    let mut i: usize = 0;
    while i < items.len()
        invariant
            i <= items@.len(),
            out@.len() == i,
            forall|j: int| 0 <= j < i ==> out@[j] == is_infix(lowered@, lower_of(items@[j].name@)),
        decreases items@.len() - i,
    {
        out.push(contains_folded(items[i].name.as_str(), lowered));
        i += 1;
    }
    out
}

/// The overview: log groups beside the streams of the selected group.
pub struct MainScreen {
    pub log_groups: StatefulList<LogGroup>,
    pub log_streams: StatefulList<LogStream>,
    pub active_panel: ActivePanel,
    /// The incremental search text.
    pub main_search_query: String,
    /// Keys go to the search text.
    pub main_search_active: bool,
    /// True index of the group whose streams were last loaded.
    pub last_selected_group: Option<usize>,
}

impl MainScreen {
    pub open spec fn wf(&self) -> bool {
        self.log_groups.wf() && self.log_streams.wf()
    }

    /// Name of the selected group.
    pub open spec fn group_name_of(&self) -> Option<Seq<char>> {
        match self.log_groups.selected_item() {
            Some(g) => Some(g.name@),
            None => None,
        }
    }

    /// Name of the selected stream.
    pub open spec fn stream_name_of(&self) -> Option<Seq<char>> {
        match self.log_streams.selected_item() {
            Some(s) => Some(s.name@),
            None => None,
        }
    }

    /// `next` is `prev` with the active panel's list filtered by `query`,
    /// which `next` holds.
    pub open spec fn searched(prev: Self, next: Self, query: Seq<char>) -> bool {
        &&& next.main_search_query@ == query
        &&& next.main_search_active == prev.main_search_active
        &&& next.active_panel == prev.active_panel
        &&& next.last_selected_group == prev.last_selected_group
        &&& match prev.active_panel {
            ActivePanel::Groups => {
                &&& next.log_groups.filtered_from(prev.log_groups, group_mask(prev.log_groups.items@, query))
                &&& next.log_streams == prev.log_streams
            },
            ActivePanel::Streams => {
                &&& next.log_streams.filtered_from(
                    prev.log_streams,
                    stream_mask(prev.log_streams.items@, query),
                )
                &&& next.log_groups == prev.log_groups
            },
        }
    }

    /// `next` is `prev` with the search left and both filters dropped, each
    /// list keeping its selected item.
    pub open spec fn search_cleared(prev: Self, next: Self) -> bool {
        &&& !next.main_search_active
        &&& next.main_search_query@.len() == 0
        &&& next.active_panel == prev.active_panel
        &&& next.last_selected_group == prev.last_selected_group
        &&& next.log_groups.cleared_from(prev.log_groups)
        &&& next.log_streams.cleared_from(prev.log_streams)
    }

    /// `next` is `prev` with another panel active.
    pub open spec fn with_panel(self, p: ActivePanel) -> Self {
        MainScreen { active_panel: p, ..self }
    }

    /// `prev` with the active panel's cursor moved down.
    pub open spec fn moved_next(self) -> Self {
        match self.active_panel {
            ActivePanel::Groups => MainScreen {
                log_groups: self.log_groups.with_selected(
                    next_pos(self.log_groups.selected, self.log_groups.view_len()),
                ),
                ..self
            },
            ActivePanel::Streams => MainScreen {
                log_streams: self.log_streams.with_selected(
                    next_pos(self.log_streams.selected, self.log_streams.view_len()),
                ),
                ..self
            },
        }
    }

    /// `prev` with the active panel's cursor moved up.
    pub open spec fn moved_previous(self) -> Self {
        match self.active_panel {
            ActivePanel::Groups => MainScreen {
                log_groups: self.log_groups.with_selected(
                    previous_pos(self.log_groups.selected, self.log_groups.view_len()),
                ),
                ..self
            },
            ActivePanel::Streams => MainScreen {
                log_streams: self.log_streams.with_selected(
                    previous_pos(self.log_streams.selected, self.log_streams.view_len()),
                ),
                ..self
            },
        }
    }

    /// The effect of `key` while the search text is being edited.
    pub open spec fn search_key_post(prev: Self, next: Self, key: Key, r: ScreenAction) -> bool {
        &&& r is Nothing
        &&& match key {
            Key::Esc => Self::search_cleared(prev, next),
            Key::Backspace => Self::searched(prev, next, popped(prev.main_search_query@)),
            Key::Enter => if prev.main_search_query@.len() == 0 {
                Self::search_cleared(prev, next)
            } else {
                &&& !next.main_search_active
                &&& next.main_search_query@.len() == 0
                &&& next == (MainScreen {
                    main_search_active: false,
                    main_search_query: next.main_search_query,
                    ..prev
                })
            },
            Key::Char(c) => Self::searched(prev, next, prev.main_search_query@.push(c)),
            _ => next == prev,
        }
    }

    /// The effect of `key` outside the search.
    pub open spec fn nav_key_post(prev: Self, next: Self, key: Key, r: ScreenAction) -> bool {
        match key {
            Key::Char('q') => next == prev && r is Quit,
            Key::Char('l') => next == prev.with_panel(ActivePanel::Streams) && r is Nothing,
            Key::Char('h') => next == prev.with_panel(ActivePanel::Groups) && r is Nothing,
            Key::Char('j') | Key::Down => next == prev.moved_next() && r is Nothing,
            Key::Char('k') | Key::Up => next == prev.moved_previous() && r is Nothing,
            Key::Char('/') => r is Nothing && next == (MainScreen {
                main_search_active: true,
                log_groups: StatefulList {
                    filter_origin: Some(prev.log_groups.selected_index_of()),
                    ..prev.log_groups
                },
                log_streams: StatefulList {
                    filter_origin: Some(prev.log_streams.selected_index_of()),
                    ..prev.log_streams
                },
                ..prev
            }),
            Key::Char('g') => next == prev && match prev.group_name_of() {
                Some(g) => r matches ScreenAction::Navigate(NavigateTo::NewEventSearch { group_name })
                    && group_name@ == g,
                None => r is Nothing,
            },
            Key::Enter => if prev.active_panel == ActivePanel::Streams
                && prev.log_streams.selected is Some {
                &&& next == prev
                &&& r matches ScreenAction::Navigate(NavigateTo::NewEvents { group_name, stream_name })
                &&& Some(stream_name@) == prev.stream_name_of()
                &&& group_name@ == match prev.group_name_of() {
                    Some(g) => g,
                    None => Seq::empty(),
                }
            } else if prev.active_panel == ActivePanel::Groups {
                next == prev.with_panel(ActivePanel::Streams) && r is Nothing
            } else {
                next == prev && r is Nothing
            },
            _ => next == prev && r is Nothing,
        }
    }

    /// The effect of `key` on `prev`.
    pub open spec fn key_post(prev: Self, next: Self, key: Key, r: ScreenAction) -> bool {
        if prev.main_search_active {
            Self::search_key_post(prev, next, key, r)
        } else {
            Self::nav_key_post(prev, next, key, r)
        }
    }

    /// An overview with empty lists, the groups panel active and no search.
    pub fn new() -> (r: Self)
        ensures
            r.wf(),
            r.log_groups.items@.len() == 0,
            r.log_groups.selected is None,
            !r.log_groups.loading,
            r.log_groups.next_token is None,
            r.log_groups.visible_indices is None,
            r.log_streams.items@.len() == 0,
            r.log_streams.selected is None,
            !r.log_streams.loading,
            r.log_streams.next_token is None,
            r.log_streams.visible_indices is None,
            r.active_panel == ActivePanel::Groups,
            r.main_search_query@.len() == 0,
            !r.main_search_active,
            r.last_selected_group is None,
    {
        MainScreen {
            log_groups: StatefulList::new(),
            log_streams: StatefulList::new(),
            active_panel: ActivePanel::Groups,
            main_search_query: String::new(),
            main_search_active: false,
            last_selected_group: None,
        }
    }

    fn selected_group_name(&self) -> (r: Option<String>)
        requires
            self.wf(),
        ensures
            match r {
                Some(n) => self.group_name_of() == Some(n@),
                None => self.group_name_of() is None,
            },
    {
        match self.log_groups.selected() {
            Some(g) => Some(g.name.clone()),
            None => None,
        }
    }

    /// Handles one key.
    pub fn handle_key(&mut self, key: Key) -> (r: ScreenAction)
        requires
            old(self).wf(),
        ensures
            final(self).wf(),
            Self::key_post(*old(self), *final(self), key, r),
    {
        if self.main_search_active {
            match key {
                Key::Esc => {
                    self.clear_main_search();
                },
                Key::Backspace => {
                    self.main_search_query.pop();
                    self.apply_main_search();
                },
                Key::Enter => {
                    if self.main_search_query.as_str().is_empty() {
                        self.clear_main_search();
                    } else {
                        self.main_search_active = false;
                        self.main_search_query.clear();
                    }
                },
                Key::Char(c) => {
                    self.main_search_query.push(c);
                    self.apply_main_search();
                },
                _ => {},
            }
            return ScreenAction::Nothing;
        }
        match key {
            Key::Char('q') => {
                return ScreenAction::Quit;
            },
            Key::Char('l') => {
                self.active_panel = ActivePanel::Streams;
            },
            Key::Char('h') => {
                self.active_panel = ActivePanel::Groups;
            },
            Key::Char('j') | Key::Down => match self.active_panel {
                ActivePanel::Groups => self.log_groups.next(),
                ActivePanel::Streams => self.log_streams.next(),
            },
            Key::Char('k') | Key::Up => match self.active_panel {
                ActivePanel::Groups => self.log_groups.previous(),
                ActivePanel::Streams => self.log_streams.previous(),
            },
            Key::Char('/') => {
                self.log_groups.mark_selection();
                self.log_streams.mark_selection();
                self.main_search_active = true;
            },
            Key::Char('g') => {
                if let Some(group_name) = self.selected_group_name() {
                    return ScreenAction::Navigate(NavigateTo::NewEventSearch { group_name });
                }
            },
            Key::Enter => {
                if self.active_panel == ActivePanel::Streams && self.log_streams.selected.is_some() {
                    let group_name = match self.selected_group_name() {
                        Some(n) => n,
                        None => String::new(),
                    };
                    let stream_name = match self.log_streams.selected() {
                        Some(s) => s.name.clone(),
                        None => String::new(),
                    };
                    return ScreenAction::Navigate(NavigateTo::NewEvents { group_name, stream_name });
                } else if self.active_panel == ActivePanel::Groups {
                    self.active_panel = ActivePanel::Streams;
                }
            },
            _ => {},
        }
        ScreenAction::Nothing
    }

    /// Filters the active panel's list by the search text, ignoring case.
    pub fn apply_main_search(&mut self)
        requires
            old(self).wf(),
        ensures
            final(self).wf(),
            Self::searched(*old(self), *final(self), old(self).main_search_query@),
    {
        let query = to_lower(self.main_search_query.as_str());
        match self.active_panel {
            ActivePanel::Groups => {
                let keep = groups_mask(&self.log_groups.items, query.as_str());
                assert(keep@ == group_mask(self.log_groups.items@, self.main_search_query@));
                self.log_groups.apply_filter(&keep);
            },
            ActivePanel::Streams => {
                let keep = streams_mask(&self.log_streams.items, query.as_str());
                assert(keep@ == stream_mask(self.log_streams.items@, self.main_search_query@));
                self.log_streams.apply_filter(&keep);
            },
        }
    }

    /// Leaves the search and drops both filters, keeping each selected item.
    pub fn clear_main_search(&mut self)
        requires
            old(self).wf(),
        ensures
            final(self).wf(),
            Self::search_cleared(*old(self), *final(self)),
    {
        self.main_search_active = false;
        self.main_search_query.clear();
        self.log_groups.clear_filter();
        self.log_streams.clear_filter();
    }

    /// Starts loading the first page of groups.
    pub fn load_log_groups(&mut self) -> (r: FetchRequest)
        requires
            old(self).wf(),
        ensures
            final(self).wf(),
            *final(self) == (MainScreen {
                log_groups: StatefulList { loading: true, ..old(self).log_groups },
                ..*old(self)
            }),
            r == (FetchRequest::Groups { token: None }),
    {
        self.log_groups.start_loading();
        FetchRequest::Groups { token: None }
    }

    /// Starts loading the first page of streams of the selected group, if
    /// one is selected.
    pub fn load_log_streams(&mut self) -> (r: Option<FetchRequest>)
        requires
            old(self).wf(),
        ensures
            final(self).wf(),
            match old(self).group_name_of() {
                Some(g) => {
                    &&& *final(self) == (MainScreen {
                        log_streams: StatefulList { loading: true, ..old(self).log_streams },
                        ..*old(self)
                    })
                    &&& r matches Some(FetchRequest::Streams { group_name, token })
                    &&& group_name@ == g && token is None
                },
                None => *final(self) == *old(self) && r is None,
            },
    {
        match self.selected_group_name() {
            Some(group_name) => {
                self.log_streams.start_loading();
                Some(FetchRequest::Streams { group_name, token: None })
            },
            None => None,
        }
    }

    /// The effect of the group-change check on `prev`: when the selected
    /// group is another than the one last seen, the streams list empties and
    /// the first page of the new group's streams is asked for.
    pub open spec fn group_change_post(prev: Self, next: Self, r: Option<FetchRequest>) -> bool {
        let cur = prev.log_groups.selected_true();
        let last = match prev.last_selected_group {
            Some(i) => Some(i as int),
            None => None,
        };
        if cur == last {
            next == prev && r is None
        } else {
            &&& next == (MainScreen {
                log_streams: next.log_streams,
                last_selected_group: next.last_selected_group,
                ..prev
            })
            &&& match next.last_selected_group {
                Some(i) => cur == Some(i as int),
                None => cur is None,
            }
            &&& next.log_streams.items@.len() == 0
            &&& next.log_streams.selected is None
            &&& next.log_streams.next_token is None
            &&& next.log_streams.visible_indices is None
            &&& next.log_streams.loading == r is Some
            &&& match prev.group_name_of() {
                Some(g) => r matches Some(FetchRequest::Streams { group_name, token }) && group_name@
                    == g && token is None,
                None => r is None,
            }
        }
    }

    /// Reloads the streams when the selected group changed since last time.
    pub fn check_group_change(&mut self) -> (r: Option<FetchRequest>)
        requires
            old(self).wf(),
        ensures
            final(self).wf(),
            Self::group_change_post(*old(self), *final(self), r),
    {
        let current = self.log_groups.selected_index();
        if current == self.last_selected_group {
            return None;
        }
        self.last_selected_group = current;
        self.log_streams.reset();
        self.load_log_streams()
    }

    /// The effect of the pagination check on `prev`: the next page of groups
    /// when their cursor nears the end, and, in the streams panel, the next
    /// page of streams when theirs does; each list due is marked loading.
    pub open spec fn pagination_post(prev: Self, next: Self, r: Seq<FetchRequest>) -> bool {
        let g = prev.log_groups.wants_next_page(LOOKAHEAD as int);
        let st = prev.active_panel == ActivePanel::Streams && prev.log_streams.wants_next_page(
            LOOKAHEAD as int,
        ) && prev.group_name_of() is Some;
        &&& next == (MainScreen {
            log_groups: if g {
                StatefulList { loading: true, ..prev.log_groups }
            } else {
                prev.log_groups
            },
            log_streams: if st {
                StatefulList { loading: true, ..prev.log_streams }
            } else {
                prev.log_streams
            },
            ..prev
        })
        &&& r.len() == (if g {
            1int
        } else {
            0int
        }) + (if st {
            1int
        } else {
            0int
        })
        &&& g ==> r[0] == FetchRequest::Groups { token: prev.log_groups.next_token }
        &&& st ==> (r.last() matches FetchRequest::Streams { group_name, token } && Some(group_name@)
            == prev.group_name_of() && token == prev.log_streams.next_token)
    }

    /// Asks for the next page of each list whose cursor nears its end.
    pub fn check_pagination(&mut self) -> (r: Vec<FetchRequest>)
        requires
            old(self).wf(),
        ensures
            final(self).wf(),
            Self::pagination_post(*old(self), *final(self), r@),
    {
        let mut out: Vec<FetchRequest> = Vec::new();
        if self.log_groups.needs_next_page(LOOKAHEAD) {
            let token = clone_opt(&self.log_groups.next_token);
            self.log_groups.start_loading();
            out.push(FetchRequest::Groups { token });
        }
        if self.active_panel == ActivePanel::Streams && self.log_streams.needs_next_page(LOOKAHEAD) {
            if let Some(group_name) = self.selected_group_name() {
                let token = clone_opt(&self.log_streams.next_token);
                self.log_streams.start_loading();
                out.push(FetchRequest::Streams { group_name, token });
            }
        }
        out
    }

    /// The effect of one loop turn's maintenance on `prev`: the group-change
    /// check, then the pagination check, with the requests of both in order.
    pub open spec fn maintain_post(prev: Self, next: Self, r: Seq<FetchRequest>) -> bool {
        exists|mid: MainScreen, g: Option<FetchRequest>, rest: Seq<FetchRequest>|
            #![trigger Self::group_change_post(prev, mid, g), Self::pagination_post(mid, next, rest)]
            Self::group_change_post(prev, mid, g) && mid.wf() && Self::pagination_post(mid, next, rest)
                && r == match g {
                Some(x) => seq![x] + rest,
                None => rest,
            }
    }

    /// The maintenance of one loop turn: the group-change check, then the
    /// pagination check; every request due, in that order.
    pub fn maintain(&mut self) -> (r: Vec<FetchRequest>)
        requires
            old(self).wf(),
        ensures
            final(self).wf(),
            Self::maintain_post(*old(self), *final(self), r@),
    {
        let ghost prev = *self;
        let g = self.check_group_change();
        let ghost mid = *self;
        let ghost gg = g;
        let mut rest = self.check_pagination();
        let ghost rs = rest@;
        let mut out: Vec<FetchRequest> = Vec::new();
        if let Some(req) = g {
            out.push(req);
        }
        out.append(&mut rest);
        assert(out@ == match gg {
            Some(x) => seq![x] + rs,
            None => rs,
        });
        assert(Self::group_change_post(prev, mid, gg) && Self::pagination_post(mid, *self, rs));
        out
    }

    /// A further page for `list`, the list of `panel`, arrives while the
    /// search filters that panel: the page's matches join the filter.
    pub open spec fn refilters<T>(
        prev: Self,
        panel: ActivePanel,
        list: StatefulList<T>,
        req: FetchRequest,
        page_len: nat,
    ) -> bool {
        &&& req.is_append()
        &&& list.loading
        &&& prev.active_panel == panel
        &&& prev.main_search_query@.len() > 0
        &&& list.items@.len() + page_len <= usize::MAX
    }

    /// The effect of an answer to `req` on `prev`. While the search filters
    /// the list a further page is for, the page's matching items join the
    /// filter and the cursor stays on its item.
    pub open spec fn receive_post(prev: Self, next: Self, req: FetchRequest, outcome: FetchOutcome) -> bool {
        match (req, outcome) {
            (FetchRequest::Groups { .. }, FetchOutcome::Groups { items, next_token }) => {
                &&& next == (MainScreen { log_groups: next.log_groups, ..prev })
                &&& if Self::refilters(prev, ActivePanel::Groups, prev.log_groups, req, items@.len()) {
                    next.log_groups.appended_filtered_from(
                        prev.log_groups,
                        items@,
                        next_token,
                        group_mask(items@, prev.main_search_query@),
                    )
                } else {
                    next.log_groups.received(prev.log_groups, req.is_append(), items@, next_token)
                }
            },
            (FetchRequest::Streams { .. }, FetchOutcome::Streams { items, next_token }) => {
                &&& next == (MainScreen { log_streams: next.log_streams, ..prev })
                &&& if Self::refilters(prev, ActivePanel::Streams, prev.log_streams, req, items@.len()) {
                    next.log_streams.appended_filtered_from(
                        prev.log_streams,
                        items@,
                        next_token,
                        stream_mask(items@, prev.main_search_query@),
                    )
                } else {
                    next.log_streams.received(prev.log_streams, req.is_append(), items@, next_token)
                }
            },
            (FetchRequest::Groups { .. }, FetchOutcome::Failed { .. }) => {
                &&& next == (MainScreen { log_groups: next.log_groups, ..prev })
                &&& next.log_groups.failed_from(prev.log_groups)
            },
            (FetchRequest::Streams { .. }, FetchOutcome::Failed { .. }) => {
                &&& next == (MainScreen { log_streams: next.log_streams, ..prev })
                &&& next.log_streams.failed_from(prev.log_streams)
            },
            _ => next == prev,
        }
    }

    /// Takes the answer to a request of this screen.
    pub fn receive(&mut self, req: &FetchRequest, outcome: FetchOutcome)
        requires
            old(self).wf(),
        ensures
            final(self).wf(),
            Self::receive_post(*old(self), *final(self), *req, outcome),
    {
        let append = req.appends();
        match req {
            FetchRequest::Groups { .. } => match outcome {
                FetchOutcome::Groups { items, next_token } => {
                    if append && self.log_groups.loading && self.active_panel == ActivePanel::Groups
                        && self.main_search_query.as_str().unicode_len() > 0
                        && self.log_groups.items.len() <= usize::MAX - items.len() {
                        let query = to_lower(self.main_search_query.as_str());
                        let keep = groups_mask(&items, query.as_str());
                        assert(keep@ == group_mask(items@, self.main_search_query@));
                        self.log_groups.append_filtered(items, next_token, &keep);
                    } else {
                        self.log_groups.receive_page(append, items, next_token);
                    }
                },
                FetchOutcome::Failed { .. } => self.log_groups.receive_failure(),
                _ => {},
            },
            FetchRequest::Streams { .. } => match outcome {
                FetchOutcome::Streams { items, next_token } => {
                    if append && self.log_streams.loading && self.active_panel == ActivePanel::Streams
                        && self.main_search_query.as_str().unicode_len() > 0
                        && self.log_streams.items.len() <= usize::MAX - items.len() {
                        let query = to_lower(self.main_search_query.as_str());
                        let keep = streams_mask(&items, query.as_str());
                        assert(keep@ == stream_mask(items@, self.main_search_query@));
                        self.log_streams.append_filtered(items, next_token, &keep);
                    } else {
                        self.log_streams.receive_page(append, items, next_token);
                    }
                },
                FetchOutcome::Failed { .. } => self.log_streams.receive_failure(),
                _ => {},
            },
            _ => {},
        }
    }
}

} // verus!
