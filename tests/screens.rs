use cleam::event_search::EventSearchScreen;
use cleam::events::EventsScreen;
use cleam::fetch::{FetchOutcome, FetchRequest};
use cleam::group_events::GroupEventsScreen;
use cleam::main_screen::MainScreen;
use cleam::model::{ActivePanel, Key, LogEvent, LogGroup, LogStream, Screen};
use cleam::screen::{App, CurrentScreen, Effect, NavigateTo, ScreenAction};
use cleam::viewer::ViewerScreen;

fn groups(names: &[&str]) -> Vec<LogGroup> {
    names.iter().map(|n| LogGroup { name: n.to_string() }).collect()
}

fn streams(names: &[&str]) -> Vec<LogStream> {
    names.iter().map(|n| LogStream { name: n.to_string(), last_event_time: Some(1) }).collect()
}

fn events(n: usize) -> Vec<LogEvent> {
    (0..n).map(|i| LogEvent { timestamp: i as i64, message: format!("m{}", i) }).collect()
}

fn overview(names: &[&str]) -> MainScreen {
    let mut m = MainScreen::new();
    let req = m.load_log_groups();
    m.receive(&req, FetchOutcome::Groups { items: groups(names), next_token: None });
    m
}

fn typed(m: &mut MainScreen, text: &str) {
    for c in text.chars() {
        assert!(matches!(m.handle_key(Key::Char(c)), ScreenAction::Nothing));
    }
}

#[test]
fn scenario_search_filters_groups_in_order() {
    let mut m = overview(&["prod-a", "staging", "prod-b"]);
    m.handle_key(Key::Char('/'));
    assert!(m.main_search_active);
    typed(&mut m, "prod");
    assert_eq!(m.main_search_query, "prod");
    assert_eq!(m.log_groups.visible_indices, Some(vec![0, 2]));
    assert_eq!(m.log_groups.selected, Some(0));
    assert_eq!(m.log_groups.selected().unwrap().name, "prod-a");
}

#[test]
fn search_ignores_case() {
    let mut m = overview(&["Prod-A", "staging", "PROD-b"]);
    m.handle_key(Key::Char('/'));
    typed(&mut m, "pRoD");
    assert_eq!(m.log_groups.visible_indices, Some(vec![0, 2]));
}

#[test]
fn search_backspace_widens_filter() {
    let mut m = overview(&["prod-a", "staging", "prod-b"]);
    m.handle_key(Key::Char('/'));
    typed(&mut m, "prod-b");
    assert_eq!(m.log_groups.visible_indices, Some(vec![2]));
    m.handle_key(Key::Backspace);
    assert_eq!(m.main_search_query, "prod-");
    assert_eq!(m.log_groups.visible_indices, Some(vec![0, 2]));
}

#[test]
fn search_escape_clears_filter_keeping_item() {
    let mut m = overview(&["prod-a", "staging", "prod-b"]);
    m.handle_key(Key::Char('/'));
    typed(&mut m, "prod");
    m.handle_key(Key::Down);
    assert_eq!(m.log_groups.selected().unwrap().name, "prod-a");
    m.handle_key(Key::Enter);
    m.handle_key(Key::Down);
    assert_eq!(m.log_groups.selected().unwrap().name, "prod-b");
    m.handle_key(Key::Char('/'));
    m.handle_key(Key::Esc);
    assert!(!m.main_search_active);
    assert_eq!(m.main_search_query, "");
    assert!(m.log_groups.visible_indices.is_none());
    assert_eq!(m.log_groups.selected_index(), Some(2));
}

#[test]
fn search_enter_commits_filter() {
    let mut m = overview(&["prod-a", "staging", "prod-b"]);
    m.handle_key(Key::Char('/'));
    typed(&mut m, "stag");
    m.handle_key(Key::Enter);
    assert!(!m.main_search_active);
    assert_eq!(m.main_search_query, "");
    assert_eq!(m.log_groups.visible_indices, Some(vec![1]));
}

#[test]
fn search_enter_on_empty_query_clears() {
    let mut m = overview(&["a", "b"]);
    m.handle_key(Key::Char('/'));
    m.handle_key(Key::Enter);
    assert!(!m.main_search_active);
    assert!(m.log_groups.visible_indices.is_none());
}

#[test]
fn overview_keys_switch_panels_and_quit() {
    let mut m = overview(&["a", "b"]);
    m.handle_key(Key::Char('l'));
    assert_eq!(m.active_panel, ActivePanel::Streams);
    m.handle_key(Key::Char('h'));
    assert_eq!(m.active_panel, ActivePanel::Groups);
    m.handle_key(Key::Enter);
    assert_eq!(m.active_panel, ActivePanel::Streams);
    assert!(matches!(m.handle_key(Key::Char('q')), ScreenAction::Quit));
}

#[test]
fn overview_g_opens_search_form_for_group() {
    let mut m = overview(&["a", "b"]);
    m.handle_key(Key::Char('j'));
    match m.handle_key(Key::Char('g')) {
        ScreenAction::Navigate(NavigateTo::NewEventSearch { group_name }) => assert_eq!(group_name, "b"),
        _ => panic!("expected the search form"),
    }
    let mut empty = MainScreen::new();
    assert!(matches!(empty.handle_key(Key::Char('g')), ScreenAction::Nothing));
}

#[test]
fn group_change_loads_streams_once() {
    let mut m = overview(&["a", "b"]);
    match m.check_group_change() {
        Some(FetchRequest::Streams { group_name, token }) => {
            assert_eq!(group_name, "a");
            assert!(token.is_none());
        },
        _ => panic!("expected a streams request"),
    }
    assert_eq!(m.last_selected_group, Some(0));
    assert!(m.log_streams.loading);
    assert!(m.check_group_change().is_none());
    m.handle_key(Key::Down);
    match m.check_group_change() {
        Some(FetchRequest::Streams { group_name, .. }) => assert_eq!(group_name, "b"),
        _ => panic!("expected a streams request"),
    }
}

#[test]
fn overview_pagination_asks_for_next_groups() {
    let mut m = MainScreen::new();
    let req = m.load_log_groups();
    m.receive(&req, FetchOutcome::Groups { items: groups(&["a", "b", "c"]), next_token: Some("t1".to_string()) });
    let reqs = m.check_pagination();
    assert_eq!(reqs.len(), 1);
    match &reqs[0] {
        FetchRequest::Groups { token } => assert_eq!(token, &Some("t1".to_string())),
        _ => panic!("expected the next page of groups"),
    }
    assert!(m.log_groups.loading);
    assert!(m.check_pagination().is_empty());
    let more = FetchRequest::Groups { token: Some("t1".to_string()) };
    m.receive(&more, FetchOutcome::Groups { items: groups(&["d"]), next_token: None });
    assert_eq!(m.log_groups.items.len(), 4);
    assert_eq!(m.log_groups.selected, Some(0));
    assert!(m.check_pagination().is_empty());
}

#[test]
fn overview_pagination_asks_for_both_lists() {
    let mut m = MainScreen::new();
    let req = m.load_log_groups();
    m.receive(&req, FetchOutcome::Groups { items: groups(&["a", "b"]), next_token: Some("g".to_string()) });
    let s = m.check_group_change().unwrap();
    m.receive(&s, FetchOutcome::Streams { items: streams(&["s"]), next_token: Some("s".to_string()) });
    m.handle_key(Key::Char('l'));
    let reqs = m.check_pagination();
    assert_eq!(reqs.len(), 2);
    assert!(matches!(&reqs[0], FetchRequest::Groups { token: Some(_) }));
    match &reqs[1] {
        FetchRequest::Streams { group_name, token } => {
            assert_eq!(group_name, "a");
            assert_eq!(token, &Some("s".to_string()));
        },
        _ => panic!("expected the next page of streams"),
    }
    assert!(m.log_groups.loading && m.log_streams.loading);
}

#[test]
fn maintain_runs_group_change_and_pagination_in_one_turn() {
    let mut m = MainScreen::new();
    let req = m.load_log_groups();
    m.receive(&req, FetchOutcome::Groups { items: groups(&["a", "b"]), next_token: Some("g".to_string()) });
    let reqs = m.maintain();
    assert_eq!(reqs.len(), 2);
    assert!(matches!(&reqs[0], FetchRequest::Streams { token: None, .. }));
    assert!(matches!(&reqs[1], FetchRequest::Groups { token: Some(_) }));
}

#[test]
fn escape_restores_selection_held_before_search() {
    let mut m = overview(&["same", "same", "other"]);
    m.handle_key(Key::Down);
    assert_eq!(m.log_groups.selected_index(), Some(1));
    m.handle_key(Key::Char('/'));
    typed(&mut m, "sa");
    assert_eq!(m.log_groups.selected_index(), Some(0));
    m.handle_key(Key::Esc);
    assert!(m.log_groups.visible_indices.is_none());
    assert_eq!(m.log_groups.selected_index(), Some(1));
    let mut n = overview(&["same", "same"]);
    n.handle_key(Key::Down);
    n.handle_key(Key::Char('/'));
    n.handle_key(Key::Char('p'));
    assert_eq!(n.log_groups.selected, None);
    n.handle_key(Key::Esc);
    assert_eq!(n.log_groups.selected_index(), Some(1));
}

#[test]
fn clear_main_search_restores_without_slash() {
    let mut m = overview(&["same", "same"]);
    m.handle_key(Key::Down);
    m.main_search_query = "s".to_string();
    m.apply_main_search();
    assert_eq!(m.log_groups.selected_index(), Some(0));
    m.clear_main_search();
    assert_eq!(m.log_groups.selected_index(), Some(1));
}

#[test]
fn page_arriving_during_search_joins_filter() {
    let mut m = MainScreen::new();
    let req = m.load_log_groups();
    m.receive(&req, FetchOutcome::Groups { items: groups(&["prod-a", "dev"]), next_token: Some("t".to_string()) });
    m.handle_key(Key::Char('/'));
    typed(&mut m, "prod");
    assert_eq!(m.log_groups.visible_indices, Some(vec![0]));
    let more = FetchRequest::Groups { token: Some("t".to_string()) };
    m.log_groups.start_loading();
    m.receive(&more, FetchOutcome::Groups { items: groups(&["qa", "PROD-b"]), next_token: None });
    assert_eq!(m.log_groups.visible_indices, Some(vec![0, 3]));
    assert_eq!(m.log_groups.selected().unwrap().name, "prod-a");
}

#[test]
fn viewer_scroll_saturates() {
    let mut v = ViewerScreen::new(events(1).remove(0), Box::new(CurrentScreen::Transitioning));
    v.handle_key(Key::Up);
    assert_eq!(v.viewer_scroll, 0);
    v.handle_key(Key::Char('j'));
    v.handle_key(Key::Down);
    assert_eq!(v.viewer_scroll, 2);
    v.viewer_scroll = u16::MAX;
    v.handle_key(Key::Down);
    assert_eq!(v.viewer_scroll, u16::MAX);
    assert!(matches!(v.handle_key(Key::Char('q')), ScreenAction::Navigate(NavigateTo::Restore(_))));
    assert!(v.origin.is_none());
    assert!(matches!(v.handle_key(Key::Char('q')), ScreenAction::Nothing));
}

fn events_screen() -> EventsScreen {
    let mut e = EventsScreen::new("/aws/app".to_string(), "s1".to_string(), Box::new(CurrentScreen::Transitioning));
    let req = e.load_log_events();
    e.receive(&req, FetchOutcome::Events { items: events(3), next_token: None });
    e
}

#[test]
fn events_filter_commit_reloads() {
    let mut e = events_screen();
    e.handle_key(Key::Char('/'));
    assert!(e.filter_editing);
    e.handle_key(Key::Char('E'));
    e.handle_key(Key::Char('R'));
    e.handle_key(Key::Backspace);
    assert_eq!(e.filter_buffer, "E");
    match e.handle_key(Key::Enter) {
        ScreenAction::Fetch(FetchRequest::Events { group_name, stream_name, start_ms, end_ms, pattern, token }) => {
            assert_eq!(group_name, "/aws/app");
            assert_eq!(stream_name, Some("s1".to_string()));
            assert!(start_ms.is_none() && end_ms.is_none() && token.is_none());
            assert_eq!(pattern, Some("E".to_string()));
        },
        _ => panic!("expected a reload"),
    }
    assert_eq!(e.filter_input, Some("E".to_string()));
    assert!(!e.filter_editing);
    assert!(e.log_events.items.is_empty());
    assert!(e.log_events.loading);
}

#[test]
fn events_empty_filter_clears_pattern() {
    let mut e = events_screen();
    e.filter_input = Some("x".to_string());
    e.handle_key(Key::Char('/'));
    assert_eq!(e.filter_buffer, "x");
    e.handle_key(Key::Backspace);
    match e.handle_key(Key::Enter) {
        ScreenAction::Fetch(FetchRequest::Events { pattern, .. }) => assert!(pattern.is_none()),
        _ => panic!("expected a reload"),
    }
    assert!(e.filter_input.is_none());
}

#[test]
fn events_download_flow() {
    let mut e = events_screen();
    e.handle_key(Key::Char('d'));
    assert!(e.download_editing);
    assert!(e.download_path_buffer.starts_with("app-"));
    assert!(e.download_path_buffer.ends_with(".jsonl"));
    e.download_path_buffer = "out".to_string();
    e.handle_key(Key::Char('x'));
    match e.handle_key(Key::Enter) {
        ScreenAction::Save { path, content } => {
            assert_eq!(path, "outx");
            assert_eq!(content.lines().count(), 3);
            assert!(content.starts_with("{\"timestamp\":0,\"message\":\"m0\"}\n"));
        },
        _ => panic!("expected a save"),
    }
    assert!(!e.download_editing);
    e.report_save("outx", None);
    assert_eq!(e.download_status, Some("Saved: outx".to_string()));
    e.handle_key(Key::Char('j'));
    assert!(e.download_status.is_none());
    e.report_save("outx", Some("denied".to_string()));
    assert_eq!(e.download_status, Some("Error: denied".to_string()));
}

#[test]
fn events_download_escape_cancels() {
    let mut e = events_screen();
    e.handle_key(Key::Char('d'));
    assert!(matches!(e.handle_key(Key::Esc), ScreenAction::Nothing));
    assert!(!e.download_editing);
    assert_eq!(e.download_path_buffer, "");
}

#[test]
fn events_enter_opens_selected_event() {
    let mut e = events_screen();
    e.handle_key(Key::Down);
    match e.handle_key(Key::Enter) {
        ScreenAction::Navigate(NavigateTo::NewViewer { event }) => {
            assert_eq!(event.timestamp, 1);
            assert_eq!(event.message, "m1");
        },
        _ => panic!("expected the viewer"),
    }
}

#[test]
fn events_pagination_carries_filter_and_token() {
    let mut e = EventsScreen::new("g".to_string(), "s".to_string(), Box::new(CurrentScreen::Transitioning));
    e.filter_input = Some("p".to_string());
    let req = e.load_log_events();
    e.receive(&req, FetchOutcome::Events { items: events(2), next_token: Some("n".to_string()) });
    match e.check_pagination() {
        Some(FetchRequest::Events { pattern, token, .. }) => {
            assert_eq!(pattern, Some("p".to_string()));
            assert_eq!(token, Some("n".to_string()));
        },
        _ => panic!("expected the next page"),
    }
}

fn form(start: &str, end: &str, pattern: &str) -> EventSearchScreen {
    let mut f = EventSearchScreen::at_time("grp".to_string(), 0, Box::new(CurrentScreen::Main(MainScreen::new())));
    f.event_search_start = start.to_string();
    f.event_search_end = end.to_string();
    f.event_search_pattern = pattern.to_string();
    f
}

#[test]
fn search_form_defaults_to_last_hour() {
    let f = EventSearchScreen::at_time("grp".to_string(), 1_704_110_400_000, Box::new(CurrentScreen::Transitioning));
    assert_eq!(f.event_search_start, "2024-01-01 11:00:00");
    assert_eq!(f.event_search_end, "2024-01-01 12:00:00");
    assert_eq!(f.event_search_pattern, "");
    assert_eq!(f.event_search_focused, 0);
    let now = EventSearchScreen::new("grp".to_string(), Box::new(CurrentScreen::Transitioning));
    assert_eq!(now.event_search_end.len(), 19);
}

#[test]
fn scenario_open_start_bound_navigates() {
    let f = form("", "2024-01-01 12:00:00", "err");
    let mut app = App { screen: CurrentScreen::EventSearch(f), needs_clear: false, status: None };
    match app.handle_key(Key::Enter) {
        Effect::Fetch(FetchRequest::Events { group_name, stream_name, start_ms, end_ms, pattern, token }) => {
            assert_eq!(group_name, "grp");
            assert!(stream_name.is_none());
            assert_eq!(start_ms, None);
            assert_eq!(end_ms, Some(1_704_110_400_000));
            assert_eq!(pattern, Some("err".to_string()));
            assert!(token.is_none());
        },
        _ => panic!("expected the group search"),
    }
    assert_eq!(app.active(), Screen::GroupEvents);
    assert!(app.needs_clear);
    match &app.screen {
        CurrentScreen::GroupEvents(g) => {
            assert_eq!(g.start_display, "");
            assert_eq!(g.end_display, "2024-01-01 12:00:00");
            assert_eq!(g.pattern_display, "err");
            assert!(g.log_events.loading);
        },
        _ => panic!("expected the results screen"),
    }
}

#[test]
fn scenario_bad_start_records_error() {
    let mut f = form("not-a-date", "2024-01-01 12:00:00", "err");
    assert!(matches!(f.handle_key(Key::Enter), ScreenAction::Nothing));
    assert_eq!(
        f.event_search_error,
        Some("invalid start time (example: 2024-01-01 12:00:00)".to_string())
    );
    assert_eq!(f.event_search_end, "2024-01-01 12:00:00");
    assert_eq!(f.event_search_pattern, "err");
    assert!(f.origin.is_some());
}

#[test]
fn search_form_start_error_wins_over_end() {
    let mut f = form("bad", "worse", "");
    f.handle_key(Key::Enter);
    assert_eq!(f.event_search_error, Some("invalid start time (example: 2024-01-01 12:00:00)".to_string()));
    let mut g = form("", "worse", "");
    g.handle_key(Key::Enter);
    assert_eq!(g.event_search_error, Some("invalid end time (example: 2024-01-01 12:00:00)".to_string()));
}

#[test]
fn search_form_focus_cycles_and_edits() {
    let mut f = form("", "", "");
    f.handle_key(Key::BackTab);
    assert_eq!(f.event_search_focused, 2);
    f.handle_key(Key::Char('x'));
    assert_eq!(f.event_search_pattern, "x");
    f.handle_key(Key::Tab);
    assert_eq!(f.event_search_focused, 0);
    f.handle_key(Key::Char('1'));
    f.handle_key(Key::Tab);
    f.handle_key(Key::Char('2'));
    f.handle_key(Key::Backspace);
    f.handle_key(Key::Char('3'));
    assert_eq!(f.event_search_start, "1");
    assert_eq!(f.event_search_end, "3");
    f.handle_key(Key::Tab);
    f.handle_key(Key::Tab);
    assert_eq!(f.event_search_focused, 0);
    assert!(matches!(f.handle_key(Key::Esc), ScreenAction::Navigate(NavigateTo::Restore(_))));
}

#[test]
fn group_results_keys() {
    let mut g = GroupEventsScreen::new(
        "grp".to_string(),
        "".to_string(),
        "".to_string(),
        "".to_string(),
        Box::new(CurrentScreen::Transitioning),
    );
    let req = g.load_group_events(Some(1), Some(2), None);
    assert!(matches!(req, FetchRequest::Events { start_ms: Some(1), end_ms: Some(2), .. }));
    assert!(matches!(g.handle_key(Key::Enter), ScreenAction::Nothing));
    g.receive(&req, FetchOutcome::Events { items: events(2), next_token: None });
    g.handle_key(Key::Char('j'));
    match g.handle_key(Key::Enter) {
        ScreenAction::Navigate(NavigateTo::NewViewer { event }) => assert_eq!(event.message, "m1"),
        _ => panic!("expected the viewer"),
    }
    assert!(matches!(g.handle_key(Key::Char('q')), ScreenAction::Navigate(NavigateTo::Restore(_))));
}

#[test]
fn scenario_round_trip_back_to_overview() {
    let mut app = App::new();
    let req = app.start().unwrap();
    app.receive(&req, FetchOutcome::Groups { items: groups(&["g0", "g1", "g2"]), next_token: None });
    let first = app.maintain().remove(0);
    app.receive(&first, FetchOutcome::Streams { items: streams(&["a0"]), next_token: None });
    assert!(app.maintain().is_empty());
    app.handle_key(Key::Down);
    let sreq = app.maintain().remove(0);
    app.receive(&sreq, FetchOutcome::Streams { items: streams(&["s0", "s1"]), next_token: None });
    assert!(app.maintain().is_empty());
    app.handle_key(Key::Char('l'));
    app.handle_key(Key::Down);
    let (g_sel, s_sel) = match &app.screen {
        CurrentScreen::Main(m) => (m.log_groups.selected, m.log_streams.selected),
        _ => panic!("expected the overview"),
    };
    assert_eq!((g_sel, s_sel), (Some(1), Some(1)));
    let ereq = match app.handle_key(Key::Enter) {
        Effect::Fetch(r) => r,
        _ => panic!("expected the events to load"),
    };
    match &ereq {
        FetchRequest::Events { group_name, stream_name, .. } => {
            assert_eq!(group_name, "g1");
            assert_eq!(stream_name, &Some("s1".to_string()));
        },
        _ => panic!("expected an events request"),
    }
    assert_eq!(app.active(), Screen::Events);
    app.receive(&ereq, FetchOutcome::Events { items: events(2), next_token: None });
    assert!(matches!(app.handle_key(Key::Enter), Effect::Nothing));
    assert_eq!(app.active(), Screen::Viewer);
    assert!(matches!(app.handle_key(Key::Char('q')), Effect::Nothing));
    assert_eq!(app.active(), Screen::Events);
    assert!(matches!(app.handle_key(Key::Char('q')), Effect::Nothing));
    assert_eq!(app.active(), Screen::Main);
    assert!(app.maintain().is_empty());
    match &app.screen {
        CurrentScreen::Main(m) => {
            assert_eq!(m.log_groups.items.len(), 3);
            assert_eq!(m.log_streams.items.len(), 2);
            assert_eq!(m.log_groups.selected, Some(1));
            assert_eq!(m.log_streams.selected, Some(1));
            assert_eq!(m.active_panel, ActivePanel::Streams);
            assert!(!m.log_groups.loading && !m.log_streams.loading);
        },
        _ => panic!("expected the overview"),
    }
}

#[test]
fn failed_fetch_sets_status_until_next_key() {
    let mut app = App::new();
    let req = app.start().unwrap();
    app.receive(&req, FetchOutcome::Failed { message: "expired".to_string() });
    assert_eq!(app.status, Some("expired".to_string()));
    match &app.screen {
        CurrentScreen::Main(m) => {
            assert!(!m.log_groups.loading);
            assert!(m.log_groups.items.is_empty());
        },
        _ => panic!("expected the overview"),
    }
    app.handle_key(Key::Other);
    assert!(app.status.is_none());
}

#[test]
fn app_quit_and_save_effects() {
    let mut app = App::new();
    assert!(matches!(app.handle_key(Key::Char('q')), Effect::Quit));
    let mut e = events_screen();
    e.handle_key(Key::Char('d'));
    let mut app = App { screen: CurrentScreen::Events(e), needs_clear: false, status: None };
    match app.handle_key(Key::Enter) {
        Effect::Save { content, .. } => assert_eq!(content.lines().count(), 3),
        _ => panic!("expected a save"),
    }
    app.finish_save("p", None);
    match &app.screen {
        CurrentScreen::Events(e) => assert_eq!(e.download_status, Some("Saved: p".to_string())),
        _ => panic!("expected the events screen"),
    }
}
