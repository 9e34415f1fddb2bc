use cleam::list::StatefulList;
use cleam::model::LogGroup;

fn groups(names: &[&str]) -> Vec<LogGroup> {
    names.iter().map(|n| LogGroup { name: n.to_string() }).collect()
}

fn loaded(names: &[&str]) -> StatefulList<LogGroup> {
    let mut l = StatefulList::new();
    l.start_loading();
    l.finish_reload(groups(names), None);
    l
}

#[test]
fn new_list_is_empty() {
    let l: StatefulList<LogGroup> = StatefulList::new();
    assert!(l.items.is_empty());
    assert_eq!(l.selected, None);
    assert_eq!(l.next_token, None);
    assert!(!l.loading);
    assert!(l.visible_indices.is_none());
}

#[test]
fn next_saturates_at_last_entry() {
    let mut l = loaded(&["a", "b", "c"]);
    assert_eq!(l.selected, Some(0));
    l.next();
    l.next();
    assert_eq!(l.selected, Some(2));
    l.next();
    l.next();
    assert_eq!(l.selected, Some(2));
    assert_eq!(l.selected().unwrap().name, "c");
}

#[test]
fn previous_saturates_at_first_entry() {
    let mut l = loaded(&["a", "b", "c"]);
    l.next();
    l.previous();
    l.previous();
    assert_eq!(l.selected, Some(0));
}

#[test]
fn moves_on_empty_view_do_nothing() {
    let mut l: StatefulList<LogGroup> = StatefulList::new();
    l.next();
    assert_eq!(l.selected, None);
    l.previous();
    assert_eq!(l.selected, None);
}

#[test]
fn moves_stay_inside_filtered_view() {
    let mut l = loaded(&["x1", "y", "x2", "z", "x3"]);
    l.apply_filter(&vec![true, false, true, false, true]);
    for _ in 0..10 {
        l.next();
        assert!(l.selected.unwrap() < 3);
    }
    assert_eq!(l.selected, Some(2));
    assert_eq!(l.selected_index(), Some(4));
    assert_eq!(l.selected().unwrap().name, "x3");
}

#[test]
fn filter_keeps_scan_order_and_resets_cursor() {
    let mut l = loaded(&["a", "b", "c", "d"]);
    l.next();
    l.next();
    l.apply_filter(&vec![false, true, false, true]);
    assert_eq!(l.visible_indices, Some(vec![1, 3]));
    assert_eq!(l.selected, Some(0));
    assert_eq!(l.selected_index(), Some(1));
    let names: Vec<&str> = l.visible_items().iter().map(|g| g.name.as_str()).collect();
    assert_eq!(names, vec!["b", "d"]);
}

#[test]
fn filter_matching_nothing_clears_cursor() {
    let mut l = loaded(&["a", "b"]);
    l.apply_filter(&vec![false, false]);
    assert_eq!(l.visible_indices, Some(vec![]));
    assert_eq!(l.selected, None);
    assert!(l.selected().is_none());
}

#[test]
fn filter_matching_everything_drops_filter() {
    let mut l = loaded(&["a", "b"]);
    l.next();
    l.apply_filter(&vec![true, true]);
    assert!(l.visible_indices.is_none());
    assert_eq!(l.selected, Some(0));
}

#[test]
fn filter_then_clear_restores_selection() {
    let mut l = loaded(&["a", "b", "c", "d"]);
    l.next();
    assert_eq!(l.selected_index(), Some(1));
    l.apply_filter(&vec![false, true, true, false]);
    l.clear_filter();
    assert!(l.visible_indices.is_none());
    assert_eq!(l.selected_index(), Some(1));
    assert_eq!(l.selected().unwrap().name, "b");
}

#[test]
fn clear_filter_restores_pre_filter_selection() {
    let mut l = loaded(&["a", "b", "c", "d"]);
    l.apply_filter(&vec![false, true, true, true]);
    l.next();
    l.next();
    assert_eq!(l.selected().unwrap().name, "d");
    l.clear_filter();
    assert_eq!(l.selected, Some(0));
    assert_eq!(l.selected().unwrap().name, "a");
    assert!(l.filter_origin.is_none());
}

#[test]
fn filter_then_clear_restores_for_any_filter() {
    for keep in [vec![true, true, true], vec![false, false, false], vec![true, false, false], vec![false, true, true]] {
        let mut l = loaded(&["x", "x", "y"]);
        l.next();
        l.apply_filter(&keep);
        l.apply_filter(&keep);
        l.clear_filter();
        assert_eq!(l.selected_index(), Some(1));
    }
}

#[test]
fn clear_without_record_keeps_item() {
    let mut l = loaded(&["a", "b", "c"]);
    l.apply_filter(&vec![false, true, true]);
    l.next();
    l.mark_selection();
    l.clear_filter();
    assert_eq!(l.selected().unwrap().name, "c");
}

#[test]
fn append_filtered_extends_view_and_keeps_item() {
    let mut l = loaded(&["a", "b", "c"]);
    l.apply_filter(&vec![true, false, true]);
    l.next();
    assert_eq!(l.selected().unwrap().name, "c");
    l.start_loading();
    l.append_filtered(groups(&["d", "e", "f"]), None, &vec![false, true, true]);
    assert_eq!(l.visible_indices, Some(vec![0, 2, 4, 5]));
    assert_eq!(l.selected().unwrap().name, "c");
    assert!(!l.loading);
}

#[test]
fn append_filtered_to_full_view() {
    let mut l = loaded(&["a", "b"]);
    l.start_loading();
    l.append_filtered(groups(&["c", "d"]), None, &vec![true, true]);
    assert!(l.visible_indices.is_none());
    l.start_loading();
    l.append_filtered(groups(&["e"]), None, &vec![false]);
    assert_eq!(l.visible_indices, Some(vec![0, 1, 2, 3]));
}

#[test]
fn no_page_without_token_or_while_loading() {
    let names: Vec<String> = (0..12).map(|i| format!("g{}", i)).collect();
    let refs: Vec<&str> = names.iter().map(|s| s.as_str()).collect();
    let mut l = loaded(&refs);
    for _ in 0..11 {
        l.next();
    }
    assert!(!l.needs_next_page(5));
    l.next_token = Some("t".to_string());
    assert!(l.needs_next_page(5));
    l.loading = true;
    assert!(!l.needs_next_page(5));
}

#[test]
fn scenario_twelve_groups_cursor_seven_wants_page() {
    let names: Vec<String> = (0..12).map(|i| format!("g{}", i)).collect();
    let refs: Vec<&str> = names.iter().map(|s| s.as_str()).collect();
    let mut l = loaded(&refs);
    l.next_token = Some("token".to_string());
    for _ in 0..7 {
        l.next();
    }
    assert_eq!(l.selected, Some(7));
    assert!(l.needs_next_page(5));
}

#[test]
fn page_boundary_is_index_plus_lookahead_at_least_length() {
    let names: Vec<String> = (0..12).map(|i| format!("g{}", i)).collect();
    let refs: Vec<&str> = names.iter().map(|s| s.as_str()).collect();
    let mut l = loaded(&refs);
    l.next_token = Some("token".to_string());
    for _ in 0..6 {
        l.next();
    }
    assert_eq!(l.selected, Some(6));
    assert!(!l.needs_next_page(5));
    assert!(l.needs_next_page(6));
}

#[test]
fn pagination_uses_true_index_under_filter() {
    let names: Vec<String> = (0..12).map(|i| format!("g{}", i)).collect();
    let refs: Vec<&str> = names.iter().map(|s| s.as_str()).collect();
    let mut l = loaded(&refs);
    l.next_token = Some("token".to_string());
    let mut keep = vec![false; 12];
    keep[0] = true;
    keep[11] = true;
    l.apply_filter(&keep);
    assert!(!l.needs_next_page(5));
    l.next();
    assert_eq!(l.selected_index(), Some(11));
    assert!(l.needs_next_page(5));
}

#[test]
fn append_keeps_selected_item() {
    let mut l = loaded(&["a", "b", "c"]);
    l.next();
    l.apply_filter(&vec![true, false, true]);
    l.next();
    assert_eq!(l.selected().unwrap().name, "c");
    l.start_loading();
    l.append_page(groups(&["d", "e"]), Some("n".to_string()));
    assert_eq!(l.items.len(), 5);
    assert_eq!(l.selected().unwrap().name, "c");
    assert_eq!(l.selected_index(), Some(2));
    assert!(!l.loading);
    assert_eq!(l.next_token, Some("n".to_string()));
}

#[test]
fn stale_page_is_dropped() {
    let mut l = loaded(&["a"]);
    l.receive_page(true, groups(&["b"]), Some("x".to_string()));
    assert_eq!(l.items.len(), 1);
    assert_eq!(l.next_token, None);
}

#[test]
fn reload_replaces_items_and_selects_first() {
    let mut l = loaded(&["a", "b"]);
    l.next();
    l.start_loading();
    l.receive_page(false, groups(&["c"]), None);
    assert_eq!(l.items.len(), 1);
    assert_eq!(l.selected, Some(0));
    assert!(!l.loading);
}

#[test]
fn failed_page_stops_pagination() {
    let mut l = loaded(&["a", "b"]);
    l.next_token = Some("t".to_string());
    l.start_loading();
    l.receive_failure();
    assert!(!l.loading);
    assert_eq!(l.next_token, None);
    assert_eq!(l.items.len(), 2);
}

#[test]
fn reset_empties_everything() {
    let mut l = loaded(&["a", "b"]);
    l.apply_filter(&vec![true, false]);
    l.next_token = Some("t".to_string());
    l.reset();
    assert!(l.items.is_empty());
    assert_eq!(l.selected, None);
    assert_eq!(l.next_token, None);
    assert!(l.visible_indices.is_none());
}
