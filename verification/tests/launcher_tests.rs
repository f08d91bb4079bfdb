use rigorstarter_rust_tauri_webgpu::ui::launcher::{LauncherItemKind, LauncherKey, LauncherState};

#[test]
fn test_launcher_initialization() {
    let state = LauncherState::new();
    assert_eq!(state.selected_index, 0);
    assert_eq!(state.scroll_offset, 0);
    assert!(state.search_text.is_empty());
}

#[test]
fn test_launcher_filtering() {
    let mut state = LauncherState::new();

    // No search text: all items should be returned
    let filtered_all = state.filtered_items();
    assert_eq!(filtered_all.len(), state.items.len());

    // Search for "Snake"
    state.search_text = "Snake".to_string();
    let filtered_snake = state.filtered_items();
    assert_eq!(filtered_snake.len(), 1);
    assert_eq!(filtered_snake[0].1.name, "Snake Game");

    // Search for something that doesn't exist
    state.search_text = "NonExistent".to_string();
    let filtered_none = state.filtered_items();
    assert_eq!(filtered_none.len(), 0);
}

#[test]
fn test_launcher_navigation() {
    let mut state = LauncherState::new();
    let total_items = state.items.len();

    // Move down
    state.move_selection(1);
    assert_eq!(state.selected_index, 1);

    // Move up
    state.move_selection(-1);
    assert_eq!(state.selected_index, 0);

    // Boundary: top
    state.move_selection(-1);
    assert_eq!(state.selected_index, 0);

    // Boundary: bottom
    for _ in 0..total_items {
        state.move_selection(1);
    }
    assert_eq!(state.selected_index, total_items - 1);
}

#[test]
fn test_launcher_scrolling() {
    let mut state = LauncherState::new();

    // Initial state: scroll_offset = 0
    assert_eq!(state.scroll_offset, 0);

    // Scroll down (delta_y < 0)
    state.handle_mouse_wheel(0, -1);
    assert_eq!(state.scroll_offset, 1);

    // Scroll up (delta_y > 0)
    state.handle_mouse_wheel(0, 1);
    assert_eq!(state.scroll_offset, 0);

    // Boundary: top
    state.handle_mouse_wheel(0, 1);
    assert_eq!(state.scroll_offset, 0);

    // Scroll to bottom
    let total_items = state.items.len();
    for _ in 0..total_items {
        state.handle_mouse_wheel(0, -1);
    }
    // VISIBLE_ITEMS = 8
    assert_eq!(state.scroll_offset, total_items.saturating_sub(8));
}

#[test]
fn test_selection_scroll_sync() {
    let mut state = LauncherState::new();

    // Select item 10 (out of view)
    state.selected_index = 10;

    // Navigation should update scroll_offset
    state.move_selection(1);

    assert_eq!(state.selected_index, 11);
    assert_eq!(state.scroll_offset, 11 - 8 + 1);
}

#[test]
fn test_search_resets_state() {
    let mut state = LauncherState::new();
    state.selected_index = 5;
    state.scroll_offset = 2;

    state.input_char('a');
    assert_eq!(state.selected_index, 0);
    assert_eq!(state.scroll_offset, 0);
}

#[test]
fn catalog_lists_thirteen_entries_in_order() {
    let state = LauncherState::new();
    assert_eq!(state.items.len(), 13);
    assert_eq!(state.items[0].name, "Snake Game");
    assert_eq!(state.items[7].name, "Bézier Curve Editor");
    assert_eq!(state.items[12].description, "Maze navigation and AI demo.");
    assert_eq!(state.items[3].kind, LauncherItemKind::Example);
    assert_eq!(state.items[8].kind, LauncherItemKind::Game);
    assert_eq!(state.current_visible_count, 8);
}

#[test]
fn search_ignores_case_and_reads_descriptions() {
    let mut state = LauncherState::new();
    state.search_text = "sNaKe".to_string();
    let found: Vec<usize> = state.filtered_items().iter().map(|(i, _)| *i).collect();
    assert_eq!(found, vec![0]);

    state.search_text = "physics".to_string();
    let found: Vec<usize> = state.filtered_items().iter().map(|(i, _)| *i).collect();
    assert_eq!(found, vec![8, 9]);

    state.search_text = "classic".to_string();
    let found: Vec<usize> = state.filtered_items().iter().map(|(i, _)| *i).collect();
    assert_eq!(found, vec![0, 10, 11]);

    state.search_text = "bézier".to_string();
    let found: Vec<usize> = state.filtered_items().iter().map(|(i, _)| *i).collect();
    assert_eq!(found, vec![7]);
}

#[test]
fn enter_launches_the_selected_filtered_entry() {
    let mut state = LauncherState::new();
    state.search_text = "demo".to_string();
    // Linear Algebra Demo (3), Bézier Curve Editor (7), Asteroids (8), Pacman (12)
    assert_eq!(state.handle_input(LauncherKey::ArrowDown, true), None);
    assert_eq!(state.selected_index, 1);
    assert_eq!(state.handle_input(LauncherKey::Enter, true), Some(7));
    assert_eq!(state.handle_input(LauncherKey::Enter, false), None);
    state.selected_index = 9;
    assert_eq!(state.handle_input(LauncherKey::Enter, true), None);
}

#[test]
fn keys_edit_the_search() {
    let mut state = LauncherState::new();
    state.input_char('t');
    state.input_char('\n');
    state.input_char('\u{7f}');
    state.input_char('e');
    assert_eq!(state.search_text, "te");
    state.selected_index = 3;
    assert_eq!(state.handle_input(LauncherKey::Backspace, true), None);
    assert_eq!(state.search_text, "t");
    assert_eq!(state.selected_index, 0);
    state.scroll_offset = 4;
    assert_eq!(state.handle_input(LauncherKey::Escape, true), None);
    assert_eq!(state.search_text, "");
    assert_eq!(state.scroll_offset, 0);
    state.backspace();
    assert_eq!(state.search_text, "");
    assert_eq!(state.handle_input(LauncherKey::Other, true), None);
}

#[test]
fn wheel_does_nothing_without_matches() {
    let mut state = LauncherState::new();
    state.search_text = "zzzz".to_string();
    state.scroll_offset = 3;
    state.handle_mouse_wheel(0, -1);
    assert_eq!(state.scroll_offset, 3);
    state.handle_mouse_wheel(0, 1);
    assert_eq!(state.scroll_offset, 3);
}

#[test]
fn clicks_and_lines_follow_the_scroll() {
    let mut state = LauncherState::new();
    state.scroll_offset = 2;
    assert_eq!(state.row_at_line(0), Some(2));
    assert_eq!(state.row_at_line(7), Some(9));
    assert_eq!(state.row_at_line(8), None);
    state.scroll_offset = 10;
    assert_eq!(state.row_at_line(2), Some(12));
    assert_eq!(state.row_at_line(3), None);
    assert_eq!(state.visible_rows(), vec![10, 11, 12]);
    assert_eq!(state.handle_mouse_click(Some(11)), Some(11));
    assert_eq!(state.selected_index, 11);
    assert_eq!(state.handle_mouse_click(Some(20)), None);
    assert_eq!(state.selected_index, 20);
    assert_eq!(state.handle_mouse_click(None), None);
    assert_eq!(state.selected_index, 20);
}

#[test]
fn visible_rows_show_a_page() {
    let mut state = LauncherState::new();
    assert_eq!(state.visible_rows(), vec![0, 1, 2, 3, 4, 5, 6, 7]);
    state.set_visible_count(0);
    assert_eq!(state.current_visible_count, 1);
    assert_eq!(state.visible_rows(), vec![0]);
    state.set_visible_count(20);
    assert_eq!(state.visible_rows().len(), 13);
}

#[test]
fn moving_up_scrolls_back() {
    let mut state = LauncherState::new();
    state.selected_index = 5;
    state.scroll_offset = 5;
    state.move_selection(-1);
    assert_eq!(state.selected_index, 4);
    assert_eq!(state.scroll_offset, 4);
    assert!(state.can_move_selection(1));
    state.selected_index = usize::MAX;
    assert!(!state.can_move_selection(1));
}

#[test]
fn badges_name_the_kind() {
    assert_eq!(LauncherItemKind::Game.badge(), "[Game]");
    assert_eq!(LauncherItemKind::Example.badge(), "[Example]");
}
