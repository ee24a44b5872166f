use kubetui::span::Spans;
use kubetui::text::{wrap_line, Text, TextState};

fn lines(n: usize) -> Vec<String> {
    (0..n).map(|i| format!("line {}", i)).collect()
}

#[test]
fn text_state_select() {
    let mut state = TextState::default();
    assert_eq!(state.selected(), 0);
    state.select(7);
    assert_eq!(state.selected(), 7);
}

#[test]
fn new_buffer_shows_one_empty_line() {
    let text = Text::new(lines(3));
    assert_eq!(text.items(), &lines(3));
    assert_eq!(text.spans(), &vec![Spans::new(vec![])]);
    assert_eq!(text.row_size(), 0);
    assert_eq!(text.selected(), 0);
    let text = Text::default();
    assert!(text.items().is_empty());
    assert!(text.spans().is_empty());
}

#[test]
fn append_items_counts_rows() {
    let mut text = Text::default();
    text.append_items(&lines(10), 20, 6);
    assert_eq!(text.items().len(), 10);
    assert_eq!(text.spans().len(), 10);
    assert_eq!(text.row_size(), 6);
    text.append_items(&vec!["aaaaaaaaaaaaaaaaaaaaaaaaaaaaaa".to_string()], 12, 6);
    assert_eq!(text.spans().len(), 13);
    assert_eq!(text.row_size(), 9);
    text.update_rows_size(40);
    assert_eq!(text.row_size(), 0);
    text.update_rows_size(2);
    assert_eq!(text.row_size(), 13);
    text.update_rows_size(1);
    assert_eq!(text.row_size(), 14);
    text.update_rows_size(0);
    assert_eq!(text.row_size(), 15);
}

#[test]
fn append_items_wraps_to_the_width_inside_the_border() {
    let mut text = Text::default();
    text.append_items(&vec!["abcdef".to_string()], 5, 10);
    assert_eq!(text.spans(), &vec![Spans::raw("abc"), Spans::raw("def")]);
    text.append_items(&vec!["xy".to_string()], 2, 10);
    assert_eq!(
        text.spans(),
        &vec![Spans::raw("abc"), Spans::raw("def"), Spans::raw("x"), Spans::raw("y")]
    );
    text.update_spans(8);
    assert_eq!(text.spans(), &vec![Spans::raw("abcdef"), Spans::raw("xy")]);
}

#[test]
fn scroll_stays_in_bounds() {
    let mut text = Text::default();
    text.append_items(&lines(10), 20, 6);
    assert_eq!(text.row_size(), 6);
    text.scroll_down(4);
    assert_eq!(text.selected(), 4);
    text.scroll_down(4);
    assert_eq!(text.selected(), 6);
    assert!(text.is_bottom());
    text.scroll_up(1);
    assert_eq!(text.selected(), 5);
    assert!(!text.is_bottom());
    text.scroll_up(100);
    assert_eq!(text.selected(), 0);
    text.scroll_down(u64::MAX);
    assert_eq!(text.selected(), 6);
    text.scroll_top();
    assert_eq!(text.selected(), 0);
    text.scroll_bottom();
    assert_eq!(text.selected(), 6);
    assert!(text.is_bottom());
    text.select(50);
    assert_eq!(text.selected(), 50);
    text.scroll_up(3);
    assert_eq!(text.selected(), 6);
    text.select(50);
    text.scroll_down(0);
    assert_eq!(text.selected(), 6);
    text.select_prev(2);
    assert_eq!(text.selected(), 4);
    text.select_next(1);
    assert_eq!(text.selected(), 5);
    text.select_first();
    assert_eq!(text.selected(), 0);
    text.select_last();
    assert_eq!(text.selected(), 6);
}

#[test]
fn visible_range_follows_the_view() {
    let mut text = Text::default();
    text.append_items(&lines(10), 20, 6);
    assert_eq!(text.visible_range(4), (0, 4));
    text.scroll_down(3);
    assert_eq!(text.visible_range(4), (3, 7));
    text.scroll_bottom();
    assert_eq!(text.visible_range(4), (6, 10));
    assert_eq!(text.visible_range(40), (6, 10));
    text.select(30);
    assert_eq!(text.visible_range(4), (10, 10));
}

#[test]
fn clear_and_set_items() {
    let mut text = Text::default();
    text.append_items(&lines(10), 20, 6);
    text.scroll_bottom();
    text.set_items(lines(2));
    assert_eq!(text.items(), &lines(2));
    assert_eq!(text.selected(), 0);
    assert_eq!(text.spans().len(), 10);
    text.add_item("more".to_string());
    assert_eq!(text.items().len(), 3);
    text.clear();
    assert!(text.items().is_empty());
    assert!(text.spans().is_empty());
    assert_eq!(text.row_size(), 0);
    assert!(text.selectable());
}

#[test]
fn wrap_line_of_one_item() {
    assert_eq!(
        wrap_line(&"aaaaaaaaaaaaaaa".to_string(), 10),
        vec!["aaaaaaaaaa".to_string(), "aaaaa".to_string()]
    );
}
