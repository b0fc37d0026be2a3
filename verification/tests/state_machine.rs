use session_selector::state::{State, SwitchDirective};

fn chars(s: &str) -> Vec<char> {
    s.chars().collect()
}

fn charsv(list: &[&str]) -> Vec<Vec<char>> {
    list.iter().map(|s| chars(s)).collect()
}

fn ids(n: usize) -> Vec<Vec<char>> {
    (0..n).map(|i| chars(&format!("${i}"))).collect()
}

fn fresh_state(labels: &[&str], initial: Option<&str>) -> State {
    State::new(
        ids(labels.len()),
        charsv(labels),
        initial.map(chars),
    )
}

fn type_pattern(state: &mut State, pattern: &str) {
    for c in pattern.chars() {
        state.char_add(c);
    }
}

#[test]
fn new_state_shows_all_candidates() {
    let state = fresh_state(&["~/one", "~/two", "~/three"], None);
    assert_eq!(state.sessions_len(), 3);
    assert_eq!(state.matches_len(), 3);
    assert_eq!(state.cursor_pos(), 0);
    assert_eq!(state.pattern_string(), "");
}

#[test]
fn get_session_path_by_index_bounds() {
    let state = fresh_state(&["~/one", "~/two"], None);
    assert_eq!(state.get_session_path_by_index(0), Some(&chars("~/one")));
    assert_eq!(state.get_session_path_by_index(1), Some(&chars("~/two")));
    assert_eq!(state.get_session_path_by_index(2), None);
}

#[test]
fn typing_edits_pattern_at_cursor() {
    let mut state = fresh_state(&["~/abc"], None);
    state.char_add('a');
    state.char_add('c');
    state.cursor_backward();
    state.char_add('b');
    assert_eq!(state.pattern_string(), "abc");
    assert_eq!(state.cursor_pos(), 2);
    state.cursor_forward();
    assert_eq!(state.cursor_pos(), 3);
    state.cursor_forward();
    assert_eq!(state.cursor_pos(), 3);
}

#[test]
fn delete_backward_and_forward() {
    let mut state = fresh_state(&["~/abc"], None);
    type_pattern(&mut state, "abc");
    state.char_delete_backward();
    assert_eq!(state.pattern_string(), "ab");
    state.cursor_backward();
    state.cursor_backward();
    state.char_delete_forward();
    assert_eq!(state.pattern_string(), "b");
    state.char_delete_backward();
    assert_eq!(state.pattern_string(), "b");
    state.char_delete_forward();
    assert_eq!(state.pattern_string(), "");
}

#[test]
fn typing_filters_and_reranks() {
    let mut state = fresh_state(&["~/proj-a", "~/blog", "~/proj-b"], None);
    type_pattern(&mut state, "pb");
    assert_eq!(state.matches_len(), 1);
    assert_eq!(state.get_selected_session(), Some(2));
}

// Scenario: typing then fully deleting a pattern returns the ranked list to
// the original full, order-preserved candidate list.
#[test]
fn deleting_pattern_restores_full_list() {
    let labels = ["~/one", "~/two", "~/three", "~/four"];
    let mut state = fresh_state(&labels, None);
    type_pattern(&mut state, "to");
    assert!(state.matches_len() < 4);
    state.char_delete_backward();
    state.char_delete_backward();
    assert_eq!(state.matches_len(), 4);
    let visible = state.visible_matches(10);
    for (i, m) in visible.iter().enumerate() {
        assert_eq!(m.candidate_index, i);
        assert_eq!(m.score, 0);
    }
}

// Selection wraps: stepping the selection exactly ranked.len() times returns
// it to where it started.
#[test]
fn selection_wraps_around() {
    let mut state = fresh_state(&["~/a", "~/b", "~/c", "~/d", "~/e"], None);
    assert_eq!(state.selection_pos, 0);
    for _ in 0..state.matches_len() {
        state.selection_next();
    }
    assert_eq!(state.selection_pos, 0);
    state.selection_prev();
    assert_eq!(state.selection_pos, 4);
    state.selection_next();
    assert_eq!(state.selection_pos, 0);
}

// Windowing: with five visible rows, two rows of scrolloff and twenty ranked
// results, walking the selection from 0 to 19 never lets it leave the window.
#[test]
fn window_follows_selection() {
    let labels: Vec<String> = (0..20).map(|i| format!("~/p{i:02}")).collect();
    let label_refs: Vec<&str> = labels.iter().map(|s| s.as_str()).collect();
    let mut state = fresh_state(&label_refs, None);
    let visible_rows = 5;
    let scrolloff = 2;
    state.adjust_scroll_pos(visible_rows, scrolloff);
    for _ in 0..19 {
        state.selection_next();
        state.adjust_scroll_pos(visible_rows, scrolloff);
        assert!(state.scroll_pos <= state.selection_pos);
        assert!(state.selection_pos < state.scroll_pos + visible_rows);
    }
    assert_eq!(state.selection_pos, 19);
    assert_eq!(state.scroll_pos, 15);
}

#[test]
fn scroll_snaps_at_edges_and_steps_in_interior() {
    let labels: Vec<String> = (0..10).map(|i| format!("~/p{i}")).collect();
    let label_refs: Vec<&str> = labels.iter().map(|s| s.as_str()).collect();
    let mut state = fresh_state(&label_refs, None);

    // selection far below the top margin: snap to zero
    state.selection_pos = 1;
    state.scroll_pos = 4;
    state.adjust_scroll_pos(4, 2);
    // scrolloff clamps to (4 - 1) / 2 = 1; selection 1 is not under it, and
    // sits below scroll + scrolloff: one-row follow
    assert_eq!(state.scroll_pos, 3);

    state.selection_pos = 0;
    state.scroll_pos = 4;
    state.adjust_scroll_pos(4, 2);
    assert_eq!(state.scroll_pos, 0);

    // selection within scrolloff of the bottom: bottom-aligned snap
    state.selection_pos = 9;
    state.scroll_pos = 0;
    state.adjust_scroll_pos(4, 2);
    assert_eq!(state.scroll_pos, 6);

    // more rows than results: nothing changes
    state.selection_pos = 0;
    state.scroll_pos = 3;
    state.adjust_scroll_pos(11, 2);
    assert_eq!(state.scroll_pos, 3);
}

#[test]
fn visible_matches_slices_window() {
    let mut state = fresh_state(&["~/a", "~/b", "~/c", "~/d"], None);
    state.scroll_pos = 1;
    let visible = state.visible_matches(2);
    assert_eq!(visible.len(), 2);
    assert_eq!(visible[0].candidate_index, 1);
    assert_eq!(visible[1].candidate_index, 2);
    let all = state.visible_matches(100);
    assert_eq!(all.len(), 3);
}

#[test]
fn is_selected_is_window_relative() {
    let mut state = fresh_state(&["~/a", "~/b", "~/c", "~/d"], None);
    state.selection_pos = 2;
    state.scroll_pos = 1;
    assert!(!state.is_selected(0));
    assert!(state.is_selected(1));
    assert!(!state.is_selected(2));
}

// Confirm on a non-empty ranked list reports true; on an empty one it
// reports false and directs no switch.
#[test]
fn confirm_reports_selection() {
    let mut state = fresh_state(&["~/proj-a", "~/blog"], Some("$9"));
    let (selected, directive) = state.confirm();
    assert!(selected);
    assert_eq!(
        directive,
        Some(SwitchDirective { target_index: 0, save_initial_as_last: true })
    );

    type_pattern(&mut state, "zzz");
    assert_eq!(state.matches_len(), 0);
    let (selected, directive) = state.confirm();
    assert!(!selected);
    assert_eq!(directive, None);
}

#[test]
fn confirm_does_not_persist_when_staying_put() {
    // the initial session is the selected one: nothing to persist
    let mut state = fresh_state(&["~/proj-a", "~/blog"], Some("$0"));
    let (selected, directive) = state.confirm();
    assert!(selected);
    assert_eq!(
        directive,
        Some(SwitchDirective { target_index: 0, save_initial_as_last: false })
    );
    // preview switches never ask to persist
    let preview = state.selection_next().unwrap();
    assert_eq!(preview, SwitchDirective { target_index: 1, save_initial_as_last: false });
}

#[test]
fn abort_returns_initial_session() {
    let state = fresh_state(&["~/a"], Some("$7"));
    assert_eq!(state.abort(), Some(&chars("$7")));
    let state = fresh_state(&["~/a"], None);
    assert_eq!(state.abort(), None);
}

#[test]
fn selection_resets_on_pattern_change() {
    let mut state = fresh_state(&["~/aa", "~/ab", "~/ac"], None);
    state.selection_next();
    state.adjust_scroll_pos(2, 0);
    assert_eq!(state.selection_pos, 1);
    state.char_add('a');
    assert_eq!(state.selection_pos, 0);
    assert_eq!(state.scroll_pos, 0);
}
