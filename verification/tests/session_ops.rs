//! Tests for the session state machine: filtering, cursor movement,
//! viewport scrolling, bookmarks and overlay handling.

use history_finder::session::{App, MoveDirection};
use history_finder::shell::ShellType;
use history_finder::storage::bookmarks_from_json;

fn strings(v: &[&str]) -> Vec<String> {
    v.iter().map(|s| s.to_string()).collect()
}

fn app_with(history: &[&str]) -> App {
    App::new(strings(history), Vec::new(), ShellType::Bash)
}

fn type_query(app: &mut App, q: &str) {
    for c in q.chars() {
        app.push_query(c);
    }
}

#[test]
fn new_starts_with_full_view_and_top_cursor() {
    let app = app_with(&["ls", "echo hi"]);
    assert_eq!(app.current_list(), &strings(&["ls", "echo hi"]));
    assert_eq!(app.selected, 0);
    assert_eq!(app.skipped_items, 0);
    assert!(!app.search_mode && !app.bookmark_mode && !app.show_help && !app.should_quit);
    assert_eq!(app.search_query(), "");
}

#[test]
fn new_deduplicates_bookmarks() {
    let app = App::new(
        strings(&["ls"]),
        strings(&["a", "b", "a", "c", "b"]),
        ShellType::Bash,
    );
    assert_eq!(app.bookmarks, strings(&["a", "b", "c"]));
}

#[test]
fn filtering_is_case_insensitive_substring() {
    let mut app = app_with(&["Echo Hi", "ls -la", "grep echo"]);
    type_query(&mut app, "echo");
    assert_eq!(app.current_list(), &strings(&["Echo Hi", "grep echo"]));
    let mut app = app_with(&["ls -la"]);
    type_query(&mut app, "LA");
    assert_eq!(app.current_list(), &strings(&["ls -la"]));
}

#[test]
fn filtering_clamps_selection() {
    let mut app = app_with(&["one", "two", "three"]);
    app.move_selection(MoveDirection::Down);
    app.move_selection(MoveDirection::Down);
    assert_eq!(app.selected, 2);
    type_query(&mut app, "one");
    assert_eq!(app.current_list(), &strings(&["one"]));
    assert_eq!(app.selected, 0);
}

#[test]
fn no_match_gives_empty_view_and_zero_selection() {
    let mut app = app_with(&["one", "two"]);
    type_query(&mut app, "zzz");
    assert_eq!(app.current_list().len(), 0);
    assert_eq!(app.selected, 0);
}

#[test]
fn pop_query_recovers_filtered_out_entries() {
    // the view is recomputed from the full history, so deleting query
    // characters restores entries that an earlier, longer query excluded
    let mut app = app_with(&["car", "cart", "dog"]);
    type_query(&mut app, "cart");
    assert_eq!(app.current_list(), &strings(&["cart"]));
    app.pop_query();
    assert_eq!(app.search_query(), "car");
    assert_eq!(app.current_list(), &strings(&["car", "cart"]));
}

#[test]
fn filtering_is_path_independent_of_query_history() {
    // the same final query yields the same view however it was reached
    let mut a = app_with(&["car", "cart", "dog"]);
    type_query(&mut a, "dog");
    a.clear_query();
    type_query(&mut a, "car");
    let mut b = app_with(&["car", "cart", "dog"]);
    type_query(&mut b, "car");
    assert_eq!(a.current_list(), b.current_list());
}

#[test]
fn clear_query_restores_full_history() {
    let mut app = app_with(&["one", "two"]);
    type_query(&mut app, "one");
    app.clear_query();
    assert_eq!(app.search_query(), "");
    assert_eq!(app.current_list(), &strings(&["one", "two"]));
}

#[test]
fn move_up_at_top_is_a_no_op() {
    let mut app = app_with(&["one", "two"]);
    app.set_size(10);
    app.move_selection(MoveDirection::Up);
    assert_eq!(app.selected, 0);
    assert_eq!(app.skipped_items, 0);
}

#[test]
fn move_down_at_bottom_is_a_no_op() {
    let mut app = app_with(&["one", "two"]);
    app.set_size(10);
    app.move_selection(MoveDirection::Down);
    assert_eq!(app.selected, 1);
    app.move_selection(MoveDirection::Down);
    assert_eq!(app.selected, 1);
    assert_eq!(app.skipped_items, 0);
}

#[test]
fn moves_keep_selection_inside_viewport() {
    let mut app = app_with(&["a", "b", "c", "d", "e"]);
    app.set_size(2);
    for _ in 0..4 {
        app.move_selection(MoveDirection::Down);
        assert!(app.skipped_items <= app.selected);
        assert!(app.selected < app.skipped_items + 2);
    }
    assert_eq!(app.selected, 4);
    assert_eq!(app.skipped_items, 3);
    for _ in 0..4 {
        app.move_selection(MoveDirection::Up);
        assert!(app.skipped_items <= app.selected);
        assert!(app.selected < app.skipped_items + 2);
    }
    assert_eq!(app.selected, 0);
    assert_eq!(app.skipped_items, 0);
}

#[test]
fn viewport_scrolls_down_by_the_deficit() {
    // after the viewport shrinks, one move repairs the offset in one step
    let mut app = app_with(&["a", "b", "c", "d", "e", "f"]);
    app.set_size(5);
    for _ in 0..4 {
        app.move_selection(MoveDirection::Down);
    }
    assert_eq!(app.selected, 4);
    assert_eq!(app.skipped_items, 0);
    app.set_size(2);
    app.move_selection(MoveDirection::Down);
    assert_eq!(app.selected, 5);
    assert_eq!(app.skipped_items, 4);
}

#[test]
fn unmeasured_viewport_leaves_offset_alone() {
    let mut app = app_with(&["a", "b", "c"]);
    assert_eq!(app.size, 0);
    app.move_selection(MoveDirection::Down);
    assert_eq!(app.selected, 1);
    assert_eq!(app.skipped_items, 0);
}

#[test]
fn toggle_bookmark_adds_then_removes() {
    let mut app = app_with(&["ls", "echo hi"]);
    app.toggle_bookmark();
    assert_eq!(app.bookmarks, strings(&["ls"]));
    assert_eq!(app.message, "Bookmark added!");
    app.toggle_bookmark();
    assert_eq!(app.bookmarks, Vec::<String>::new());
    assert_eq!(app.message, "Bookmark removed!");
}

#[test]
fn toggle_bookmark_twice_is_identity() {
    let mut app = app_with(&["ls", "echo hi"]);
    app.move_selection(MoveDirection::Down);
    app.toggle_bookmark();
    let before = app.bookmarks.clone();
    app.move_selection(MoveDirection::Up);
    app.toggle_bookmark();
    app.toggle_bookmark();
    assert_eq!(app.bookmarks, before);
}

#[test]
fn toggle_bookmark_on_empty_view_changes_nothing() {
    let mut app = app_with(&["ls"]);
    type_query(&mut app, "zzz");
    app.toggle_bookmark();
    assert_eq!(app.bookmarks, Vec::<String>::new());
    assert_eq!(app.message, "");
}

#[test]
fn toggle_bookmark_mode_resets_cursor_and_viewport() {
    let mut app = app_with(&["a", "b", "c", "d"]);
    app.set_size(2);
    app.move_selection(MoveDirection::Down);
    app.move_selection(MoveDirection::Down);
    app.move_selection(MoveDirection::Down);
    assert!(app.selected > 0 && app.skipped_items > 0);
    app.toggle_bookmark_mode();
    assert!(app.bookmark_mode);
    assert_eq!(app.selected, 0);
    assert_eq!(app.skipped_items, 0);
    app.move_selection(MoveDirection::Down);
    app.toggle_bookmark_mode();
    assert!(!app.bookmark_mode);
    assert_eq!(app.selected, 0);
    assert_eq!(app.skipped_items, 0);
}

#[test]
fn current_list_follows_bookmark_mode() {
    let mut app = app_with(&["ls", "echo hi"]);
    app.toggle_bookmark();
    app.toggle_bookmark_mode();
    assert_eq!(app.current_list(), &strings(&["ls"]));
    app.toggle_bookmark_mode();
    assert_eq!(app.current_list(), &strings(&["ls", "echo hi"]));
}

#[test]
fn delete_bookmark_removes_at_cursor_and_clamps() {
    let mut app = App::new(strings(&["ls"]), strings(&["a", "b", "c"]), ShellType::Bash);
    app.toggle_bookmark_mode();
    app.move_selection(MoveDirection::Down);
    app.move_selection(MoveDirection::Down);
    assert_eq!(app.selected, 2);
    app.delete_bookmark();
    assert_eq!(app.bookmarks, strings(&["a", "b"]));
    assert_eq!(app.selected, 1);
    assert_eq!(app.message, "Bookmark deleted!");
    app.delete_bookmark();
    app.delete_bookmark();
    assert_eq!(app.bookmarks, Vec::<String>::new());
    assert_eq!(app.selected, 0);
    app.delete_bookmark();
    assert_eq!(app.bookmarks, Vec::<String>::new());
}

#[test]
fn selected_command_follows_cursor() {
    let mut app = app_with(&["ls", "echo hi"]);
    assert_eq!(app.selected_command(), Some(&"ls".to_string()));
    app.move_selection(MoveDirection::Down);
    assert_eq!(app.selected_command(), Some(&"echo hi".to_string()));
    type_query(&mut app, "zzz");
    assert_eq!(app.selected_command(), None);
}

#[test]
fn enter_search_mode_clears_query() {
    let mut app = app_with(&["one", "two"]);
    type_query(&mut app, "one");
    app.enter_search_mode();
    assert!(app.search_mode);
    assert_eq!(app.search_query(), "");
    assert_eq!(app.current_list(), &strings(&["one", "two"]));
}

#[test]
fn escape_leaves_innermost_overlay_first() {
    let mut app = app_with(&["one"]);
    app.enter_search_mode();
    app.show_help = true;
    app.toggle_bookmark_mode();
    app.exit_current_overlay();
    assert!(!app.search_mode && app.show_help && app.bookmark_mode);
    app.exit_current_overlay();
    assert!(!app.show_help && app.bookmark_mode);
    app.exit_current_overlay();
    assert!(!app.bookmark_mode);
    let before_selected = app.selected;
    app.exit_current_overlay();
    assert_eq!(app.selected, before_selected);
}

#[test]
fn moves_on_an_empty_list_change_nothing() {
    let mut app = app_with(&[]);
    app.set_size(5);
    app.move_selection(MoveDirection::Down);
    app.move_selection(MoveDirection::Up);
    assert_eq!(app.selected, 0);
    assert_eq!(app.skipped_items, 0);
}

#[test]
fn update_queried_history_refilters_a_directly_set_query() {
    let mut app = app_with(&["one", "two"]);
    app.search_query = "two".to_string();
    app.update_queried_history();
    assert_eq!(app.current_list(), &strings(&["two"]));
}

#[test]
fn request_quit_sets_the_flag() {
    let mut app = app_with(&["one"]);
    assert!(!app.should_quit);
    app.request_quit();
    assert!(app.should_quit);
}

#[test]
fn set_size_records_the_viewport_height() {
    let mut app = app_with(&["one"]);
    app.set_size(7);
    assert_eq!(app.size, 7);
}

#[test]
fn help_text_lists_the_key_bindings() {
    let app = app_with(&["one"]);
    let help = app.get_help_text();
    assert!(help.contains("Navigation"));
    assert!(help.contains("Bookmark Mode"));
}

#[test]
fn bookmarks_round_trip_through_json() {
    let mut app = app_with(&["ls -la", "echo \"hi\""]);
    app.toggle_bookmark();
    app.move_selection(MoveDirection::Down);
    app.toggle_bookmark();
    let text = app.bookmarks_json();
    let loaded = bookmarks_from_json(Some(&text));
    assert_eq!(loaded, app.bookmarks);
    assert_eq!(loaded, strings(&["ls -la", "echo \"hi\""]));
}

#[test]
fn bookmarks_from_json_is_best_effort() {
    assert_eq!(bookmarks_from_json(None), Vec::<String>::new());
    assert_eq!(bookmarks_from_json(Some("not json")), Vec::<String>::new());
    assert_eq!(
        bookmarks_from_json(Some("[\"a\", \"b\"]")),
        strings(&["a", "b"])
    );
}
