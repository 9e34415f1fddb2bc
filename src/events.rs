use vstd::prelude::*;
use vstd::string::*;
use crate::clock::{date_text, format_date, now_millis};
use crate::export::{export_jsonl, export_text, views};
use crate::fetch::{FetchOutcome, FetchRequest};
use crate::list::{next_pos, previous_pos, StatefulList};
use crate::main_screen::{popped, LOOKAHEAD};
use crate::model::{Key, LogEvent};
use crate::screen::{CurrentScreen, NavigateTo, ScreenAction};
use crate::text::{clone_opt, non_empty, text_or_empty};

verus! {

/// The text without its trailing slashes.
pub open spec fn trim_slashes_end(s: Seq<char>) -> Seq<char>
    decreases s.len(),
{
    if s.len() > 0 && s.last() == '/' {
        trim_slashes_end(s.drop_last())
    } else {
        s
    }
}

/// What follows the last slash of the text (all of it when it has none).
pub open spec fn after_last_slash(s: Seq<char>) -> Seq<char>
    decreases s.len(),
{
    if s.len() == 0 {
        s
    } else if s.last() == '/' {
        Seq::empty()
    } else {
        after_last_slash(s.drop_last()).push(s.last())
    }
}

/// `unknown`
pub open spec fn unknown_name() -> Seq<char> {
    seq!['u', 'n', 'k', 'n', 'o', 'w', 'n']
}

/// The last non-empty `/`-separated segment of a group name, or `unknown`.
pub open spec fn last_segment(s: Seq<char>) -> Seq<char> {
    let t = trim_slashes_end(s);
    if t.len() == 0 {
        unknown_name()
    } else {
        after_last_slash(t)
    }
}

/// `<last segment of the group>-<date>.jsonl`
pub open spec fn download_name(group: Seq<char>, date: Seq<char>) -> Seq<char> {
    last_segment(group) + seq!['-'] + date + seq!['.', 'j', 's', 'o', 'n', 'l']
}

/// `path` is the default download path of `group`: named after a UTC date,
/// or with an empty date when the clock cannot be read.
pub open spec fn is_default_download(group: Seq<char>, path: Seq<char>) -> bool {
    ||| exists|ms: i64| path == #[trigger] download_name(group, date_text(ms))
    ||| path == download_name(group, Seq::empty())
}

/// `Saved: <path>`
pub open spec fn saved_text(path: Seq<char>) -> Seq<char> {
    seq!['S', 'a', 'v', 'e', 'd', ':', ' '] + path
}

/// `Error: <message>`
pub open spec fn error_text(message: Seq<char>) -> Seq<char> {
    seq!['E', 'r', 'r', 'o', 'r', ':', ' '] + message
}

/// The last non-empty `/`-separated segment of `s`, or `unknown`.
pub fn last_segment_of(s: &str) -> (r: String)
    ensures
        r@ == last_segment(s@),
{
    let n = s.unicode_len();
    let mut end = n;
    assert(s@.subrange(0, n as int) =~= s@);
    while end > 0 && s.get_char(end - 1) == '/'
        invariant
            n == s@.len(),
            end <= n,
            trim_slashes_end(s@) == trim_slashes_end(s@.subrange(0, end as int)),
        decreases end,
    {
        assert(s@.subrange(0, end as int).drop_last() =~= s@.subrange(0, end - 1));
        end -= 1;
    }
    assert(trim_slashes_end(s@) == s@.subrange(0, end as int));
    if end == 0 {
        proof {
            reveal_strlit("unknown");
        }
        return String::from_str("unknown");
    }
    let mut start = end;
    assert(s@.subrange(start as int, end as int) =~= Seq::<char>::empty());
    assert(s@.subrange(0, start as int) + Seq::<char>::empty() =~= s@.subrange(0, start as int));
    while start > 0 && s.get_char(start - 1) != '/'
        invariant
            n == s@.len(),
            start <= end <= n,
            after_last_slash(s@.subrange(0, end as int)) == after_last_slash(
                s@.subrange(0, start as int),
            ) + s@.subrange(start as int, end as int),
        decreases start,
    {
        let ghost c = s@[start - 1];
        assert(s@.subrange(0, start as int).drop_last() =~= s@.subrange(0, start - 1));
        assert(s@.subrange(0, start as int).last() == c);
        assert(s@.subrange(start - 1, end as int) =~= seq![c] + s@.subrange(start as int, end as int));
        assert(after_last_slash(s@.subrange(0, start - 1)).push(c) + s@.subrange(
            start as int,
            end as int,
        ) =~= after_last_slash(s@.subrange(0, start - 1)) + s@.subrange(start - 1, end as int));
        start -= 1;
    }
    assert(after_last_slash(s@.subrange(0, start as int)) =~= Seq::<char>::empty());
    assert(after_last_slash(s@.subrange(0, end as int)) =~= s@.subrange(start as int, end as int));
    s.substring_char(start, end).to_owned()
}

/// The name a download of the events of `group_name` gets on `date`.
pub fn download_file_name(group_name: &str, date: &str) -> (r: String)
    ensures
        r@ == download_name(group_name@, date@),
{
    let mut out = last_segment_of(group_name);
    out.push('-');
    out.append(date);
    proof {
        reveal_strlit(".jsonl");
    }
    out.append(".jsonl");
    assert(out@ =~= download_name(group_name@, date@));
    out
}

/// The events of one stream, with a server-side filter and a download.
pub struct EventsScreen {
    pub log_events: StatefulList<LogEvent>,
    /// The filter pattern in force; `None` shows every event.
    pub filter_input: Option<String>,
    pub filter_editing: bool,
    pub filter_buffer: String,
    pub download_editing: bool,
    pub download_path_buffer: String,
    /// The outcome of the last download, until the next key.
    pub download_status: Option<String>,
    pub group_name: String,
    pub stream_name: String,
    /// The screen to go back to.
    pub origin: Option<Box<CurrentScreen>>,
}

/// The list is empty and its first page is being fetched.
pub open spec fn fresh_loading<T>(l: StatefulList<T>) -> bool {
    &&& l.items@.len() == 0
    &&& l.selected is None
    &&& l.next_token is None
    &&& l.visible_indices is None
    &&& l.loading
}

impl EventsScreen {
    pub open spec fn wf(&self) -> bool {
        self.log_events.wf()
    }

    /// The first page of events, under the filter in force.
    pub open spec fn first_page_request(&self) -> FetchRequest {
        FetchRequest::Events {
            group_name: self.group_name,
            stream_name: Some(self.stream_name),
            start_ms: None,
            end_ms: None,
            pattern: self.filter_input,
            token: None,
        }
    }

    /// An empty list of the events of `stream_name` in `group_name`.
    pub fn new(group_name: String, stream_name: String, origin: Box<CurrentScreen>) -> (r: Self)
        ensures
            r.wf(),
            r.log_events.items@.len() == 0,
            r.log_events.selected is None,
            !r.log_events.loading,
            r.log_events.next_token is None,
            r.log_events.visible_indices is None,
            r.filter_input is None,
            !r.filter_editing,
            r.filter_buffer@.len() == 0,
            !r.download_editing,
            r.download_path_buffer@.len() == 0,
            r.download_status is None,
            r.group_name == group_name,
            r.stream_name == stream_name,
            r.origin == Some(origin),
    {
        EventsScreen {
            log_events: StatefulList::new(),
            filter_input: None,
            filter_editing: false,
            filter_buffer: String::new(),
            download_editing: false,
            download_path_buffer: String::new(),
            download_status: None,
            group_name,
            stream_name,
            origin: Some(origin),
        }
    }

    /// The effect of `key` while the download path is edited.
    pub open spec fn download_key_post(p: Self, next: Self, key: Key, r: ScreenAction) -> bool {
        match key {
            Key::Enter => {
                &&& next == (EventsScreen { download_editing: false, ..p })
                &&& r matches ScreenAction::Save { path, content }
                &&& path@ == p.download_path_buffer@
                &&& content@ == export_text(views(p.log_events.items@))
            },
            Key::Esc => {
                &&& r is Nothing
                &&& next.download_path_buffer@.len() == 0
                &&& next == (EventsScreen {
                    download_editing: false,
                    download_path_buffer: next.download_path_buffer,
                    ..p
                })
            },
            Key::Backspace => {
                &&& r is Nothing
                &&& next.download_path_buffer@ == popped(p.download_path_buffer@)
                &&& next == (EventsScreen { download_path_buffer: next.download_path_buffer, ..p })
            },
            Key::Char(c) => {
                &&& r is Nothing
                &&& next.download_path_buffer@ == p.download_path_buffer@.push(c)
                &&& next == (EventsScreen { download_path_buffer: next.download_path_buffer, ..p })
            },
            _ => next == p && r is Nothing,
        }
    }

    /// The effect of `key` while the filter pattern is edited.
    pub open spec fn filter_key_post(p: Self, next: Self, key: Key, r: ScreenAction) -> bool {
        match key {
            Key::Enter => {
                &&& next.filter_input == (if p.filter_buffer@.len() == 0 {
                    None
                } else {
                    Some(p.filter_buffer)
                })
                &&& fresh_loading(next.log_events)
                &&& next == (EventsScreen {
                    filter_input: next.filter_input,
                    filter_editing: false,
                    log_events: next.log_events,
                    ..p
                })
                &&& r == ScreenAction::Fetch(next.first_page_request())
            },
            Key::Esc => {
                &&& r is Nothing
                &&& next.filter_buffer@.len() == 0
                &&& next == (EventsScreen {
                    filter_editing: false,
                    filter_buffer: next.filter_buffer,
                    ..p
                })
            },
            Key::Backspace => {
                &&& r is Nothing
                &&& next.filter_buffer@ == popped(p.filter_buffer@)
                &&& next == (EventsScreen { filter_buffer: next.filter_buffer, ..p })
            },
            Key::Char(c) => {
                &&& r is Nothing
                &&& next.filter_buffer@ == p.filter_buffer@.push(c)
                &&& next == (EventsScreen { filter_buffer: next.filter_buffer, ..p })
            },
            _ => next == p && r is Nothing,
        }
    }

    /// The effect of `key` on the list.
    pub open spec fn list_key_post(p: Self, next: Self, key: Key, r: ScreenAction) -> bool {
        let l = p.log_events;
        match key {
            Key::Char('q') => match p.origin {
                Some(o) => next == (EventsScreen { origin: None, ..p }) && r
                    == ScreenAction::Navigate(NavigateTo::Restore(o)),
                None => next == p && r is Nothing,
            },
            Key::Char('j') | Key::Down => r is Nothing && next == (EventsScreen {
                log_events: l.with_selected(next_pos(l.selected, l.view_len())),
                ..p
            }),
            Key::Char('k') | Key::Up => r is Nothing && next == (EventsScreen {
                log_events: l.with_selected(previous_pos(l.selected, l.view_len())),
                ..p
            }),
            Key::Char('/') => {
                &&& r is Nothing
                &&& next.filter_buffer@ == match p.filter_input {
                    Some(f) => f@,
                    None => Seq::empty(),
                }
                &&& next == (EventsScreen {
                    filter_editing: true,
                    filter_buffer: next.filter_buffer,
                    ..p
                })
            },
            Key::Char('d') => {
                &&& r is Nothing
                &&& is_default_download(p.group_name@, next.download_path_buffer@)
                &&& next == (EventsScreen {
                    download_editing: true,
                    download_path_buffer: next.download_path_buffer,
                    ..p
                })
            },
            Key::Enter => next == p && match l.selected_item() {
                Some(e) => r == ScreenAction::Navigate(NavigateTo::NewViewer { event: e }),
                None => r is Nothing,
            },
            _ => next == p && r is Nothing,
        }
    }

    /// The effect of `key` on `prev`. Every key first clears the download
    /// status; the download editor takes keys before the filter editor.
    pub open spec fn key_post(prev: Self, next: Self, key: Key, r: ScreenAction) -> bool {
        let p = EventsScreen { download_status: None, ..prev };
        if prev.download_editing {
            Self::download_key_post(p, next, key, r)
        } else if prev.filter_editing {
            Self::filter_key_post(p, next, key, r)
        } else {
            Self::list_key_post(p, next, key, r)
        }
    }

    /// The download path offered by default: named after the group and the
    /// current date.
    pub fn default_download_path(&self) -> (r: String)
        ensures
            is_default_download(self.group_name@, r@),
    {
        match now_millis() {
            Some(ms) => {
                let date = format_date(ms);
                let r = download_file_name(self.group_name.as_str(), date.as_str());
                assert(r@ == download_name(self.group_name@, date_text(ms)));
                r
            },
            None => {
                let date = String::new();
                download_file_name(self.group_name.as_str(), date.as_str())
            },
        }
    }

    /// Handles one key.
    pub fn handle_key(&mut self, key: Key) -> (r: ScreenAction)
        requires
            old(self).wf(),
        ensures
            final(self).wf(),
            Self::key_post(*old(self), *final(self), key, r),
    {
        self.download_status = None;
        if self.download_editing {
            match key {
                Key::Enter => {
                    let path = self.download_path_buffer.clone();
                    let content = export_jsonl(&self.log_events.items);
                    self.download_editing = false;
                    return ScreenAction::Save { path, content };
                },
                Key::Esc => {
                    self.download_editing = false;
                    self.download_path_buffer.clear();
                },
                Key::Backspace => {
                    self.download_path_buffer.pop();
                },
                Key::Char(c) => {
                    self.download_path_buffer.push(c);
                },
                _ => {},
            }
            return ScreenAction::Nothing;
        }
        if self.filter_editing {
            match key {
                Key::Enter => {
                    self.filter_input = non_empty(&self.filter_buffer);
                    self.filter_editing = false;
                    let req = self.load_log_events();
                    return ScreenAction::Fetch(req);
                },
                Key::Esc => {
                    self.filter_editing = false;
                    self.filter_buffer.clear();
                },
                Key::Backspace => {
                    self.filter_buffer.pop();
                },
                Key::Char(c) => {
                    self.filter_buffer.push(c);
                },
                _ => {},
            }
            return ScreenAction::Nothing;
        }
        match key {
            Key::Char('q') => {
                if let Some(origin) = self.origin.take() {
                    return ScreenAction::Navigate(NavigateTo::Restore(origin));
                }
            },
            Key::Char('j') | Key::Down => self.log_events.next(),
            Key::Char('k') | Key::Up => self.log_events.previous(),
            Key::Char('/') => {
                self.filter_buffer = text_or_empty(&self.filter_input);
                self.filter_editing = true;
            },
            Key::Char('d') => {
                self.download_path_buffer = self.default_download_path();
                self.download_editing = true;
            },
            Key::Enter => {
                if let Some(event) = self.log_events.selected() {
                    return ScreenAction::Navigate(NavigateTo::NewViewer { event: event.duplicate() });
                }
            },
            _ => {},
        }
        ScreenAction::Nothing
    }

    /// Empties the list and starts fetching its first page under the filter
    /// in force.
    pub fn load_log_events(&mut self) -> (r: FetchRequest)
        requires
            old(self).wf(),
        ensures
            final(self).wf(),
            fresh_loading(final(self).log_events),
            *final(self) == (EventsScreen { log_events: final(self).log_events, ..*old(self) }),
            r == old(self).first_page_request(),
    {
        self.log_events.reset();
        self.log_events.start_loading();
        FetchRequest::Events {
            group_name: self.group_name.clone(),
            stream_name: Some(self.stream_name.clone()),
            start_ms: None,
            end_ms: None,
            pattern: clone_opt(&self.filter_input),
            token: None,
        }
    }

    /// The effect of the pagination check on `prev`.
    pub open spec fn pagination_post(prev: Self, next: Self, r: Option<FetchRequest>) -> bool {
        if prev.log_events.wants_next_page(LOOKAHEAD as int) {
            &&& next == (EventsScreen {
                log_events: StatefulList { loading: true, ..prev.log_events },
                ..prev
            })
            &&& r == Some(
                FetchRequest::Events {
                    group_name: prev.group_name,
                    stream_name: Some(prev.stream_name),
                    start_ms: None,
                    end_ms: None,
                    pattern: prev.filter_input,
                    token: prev.log_events.next_token,
                },
            )
        } else {
            next == prev && r is None
        }
    }

    /// Asks for the next page when the cursor nears the end of the events.
    pub fn check_pagination(&mut self) -> (r: Option<FetchRequest>)
        requires
            old(self).wf(),
        ensures
            final(self).wf(),
            Self::pagination_post(*old(self), *final(self), r),
    {
        if !self.log_events.needs_next_page(LOOKAHEAD) {
            return None;
        }
        let token = clone_opt(&self.log_events.next_token);
        self.log_events.start_loading();
        Some(
            FetchRequest::Events {
                group_name: self.group_name.clone(),
                stream_name: Some(self.stream_name.clone()),
                start_ms: None,
                end_ms: None,
                pattern: clone_opt(&self.filter_input),
                token,
            },
        )
    }

    /// The effect of an answer to `req` on `prev`.
    pub open spec fn receive_post(prev: Self, next: Self, req: FetchRequest, outcome: FetchOutcome) -> bool {
        &&& next == (EventsScreen { log_events: next.log_events, ..prev })
        &&& match (req, outcome) {
            (FetchRequest::Events { .. }, FetchOutcome::Events { items, next_token }) => {
                next.log_events.received(prev.log_events, req.is_append(), items@, next_token)
            },
            (_, FetchOutcome::Failed { .. }) => next.log_events.failed_from(prev.log_events),
            _ => next == prev,
        }
    }

    /// Takes the answer to a request of this screen.
    pub fn receive(&mut self, req: &FetchRequest, outcome: FetchOutcome)
        requires
            old(self).wf(),
        ensures
            final(self).wf(),
            Self::receive_post(*old(self), *final(self), *req, outcome),
    {
        match outcome {
            FetchOutcome::Events { items, next_token } => {
                if let FetchRequest::Events { .. } = req {
                    self.log_events.receive_page(req.appends(), items, next_token);
                }
            },
            FetchOutcome::Failed { .. } => self.log_events.receive_failure(),
            _ => {},
        }
    }

    /// Records how a download to `path` went: `failure` holds the reason it
    /// failed, if it did.
    pub fn report_save(&mut self, path: &str, failure: Option<String>)
        ensures
            *final(self) == (EventsScreen { download_status: final(self).download_status, ..*old(self) }),
            final(self).download_status matches Some(s) && s@ == match failure {
                Some(m) => error_text(m@),
                None => saved_text(path@),
            },
    {
        let mut status = String::new();
        match failure {
            Some(m) => {
                proof {
                    reveal_strlit("Error: ");
                }
                status.append("Error: ");
                status.append(m.as_str());
            },
            None => {
                proof {
                    reveal_strlit("Saved: ");
                }
                status.append("Saved: ");
                status.append(path);
            },
        }
        self.download_status = Some(status);
    }
}

} // verus!
