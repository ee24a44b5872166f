use kubetui::event::{
    EventResult, KeyCode, KeyEvent, KeyEventKind, KeyModifiers, MouseButton, MouseEvent,
    MouseEventKind,
};
use kubetui::layout::{Direction, LayoutElement, NestedLayoutElement, NestedWidgetLayout};
use kubetui::list::List;
use kubetui::rect::Rect;
use kubetui::tab::{Tab, TabLayout};
use kubetui::text::Text;
use kubetui::widget::{Widget, WidgetKind};

fn items(n: usize) -> Vec<String> {
    (0..n).map(|i| format!("item {}", i)).collect()
}

fn list(id: &str) -> Widget {
    Widget::new(id, id, WidgetKind::List(List::new(items(5))))
}

fn layout(n: usize) -> TabLayout {
    let elements = (0..n)
        .map(|i| NestedLayoutElement(1, LayoutElement::WidgetIndex(i)))
        .collect();
    TabLayout::new(
        NestedWidgetLayout::default().nested_widget_layout(elements),
        Direction::Horizontal,
    )
}

fn tab(ids: &[&str]) -> Tab {
    Tab::new(
        "tab",
        "Tab",
        ids.iter().map(|id| list(id)).collect(),
        layout(ids.len()),
    )
}

fn mouse(kind: MouseEventKind, column: u16, row: u16) -> MouseEvent {
    MouseEvent {
        kind,
        column,
        row,
        modifiers: KeyModifiers::none(),
    }
}

fn key(code: KeyCode) -> KeyEvent {
    KeyEvent {
        code,
        modifiers: KeyModifiers::none(),
        kind: KeyEventKind::Press,
    }
}

fn active_id(tab: &Tab) -> String {
    tab.active_widget().unwrap().id().to_string()
}

#[test]
fn focus_goes_round() {
    let mut tab = tab(&["A", "B", "C"]);
    assert_eq!(active_id(&tab), "A");
    tab.activate_next_widget();
    assert_eq!(active_id(&tab), "B");
    tab.activate_next_widget();
    assert_eq!(active_id(&tab), "C");
    tab.activate_next_widget();
    assert_eq!(active_id(&tab), "A");
    tab.activate_prev_widget();
    assert_eq!(active_id(&tab), "C");
    tab.activate_prev_widget();
    assert_eq!(active_id(&tab), "B");
}

#[test]
fn focus_without_widgets_that_take_it() {
    let mut tab = tab(&[]);
    tab.activate_next_widget();
    tab.activate_prev_widget();
    assert!(tab.active_widget().is_none());
    assert_eq!(tab.active_widget_index(), None);
    assert_eq!(
        tab.on_key_event(key(KeyCode::Down)),
        EventResult::Ignore
    );

    let mut fixed = list("fixed");
    fixed.focusable = false;
    let mut tab = Tab::new("tab", "Tab", vec![fixed], layout(1));
    tab.activate_next_widget();
    assert!(tab.active_widget().is_none());
    tab.activate_widget_by_id("fixed");
    assert!(tab.active_widget().is_none());
}

#[test]
fn focus_skips_widgets_that_cannot_take_it() {
    let mut fixed = list("B");
    fixed.focusable = false;
    let mut tab = Tab::new("tab", "Tab", vec![list("A"), fixed, list("C")], layout(3));
    assert_eq!(tab.active_widget_index(), Some(0));
    tab.activate_next_widget();
    assert_eq!(tab.active_widget_index(), Some(2));
    tab.activate_next_widget();
    assert_eq!(tab.active_widget_index(), Some(0));
}

#[test]
fn focus_by_id() {
    let mut tab = tab(&["A", "B", "C"]);
    tab.activate_widget_by_id("C");
    assert_eq!(active_id(&tab), "C");
    tab.activate_widget_by_id("nobody");
    assert_eq!(active_id(&tab), "C");
    assert_eq!(tab.find_widget_index("B"), Some(1));
    assert_eq!(tab.find_widget("B").unwrap().id(), "B");
    assert!(tab.find_widget("nobody").is_none());
    assert_eq!(tab.id(), "tab");
    assert_eq!(tab.title(), "Tab");
}

fn placed() -> Tab {
    let mut tab = tab(&["A", "B"]);
    tab.assign(&vec![
        kubetui::layout::Placement {
            slot: 0,
            area: Rect::new(0, 0, 10, 10),
        },
        kubetui::layout::Placement {
            slot: 1,
            area: Rect::new(10, 0, 10, 10),
        },
    ]);
    tab
}

#[test]
fn mouse_press_moves_the_focus_and_reaches_the_widget() {
    let mut tab = placed();
    assert_eq!(active_id(&tab), "A");
    let r = tab.on_mouse_event(mouse(MouseEventKind::Down(MouseButton::Left), 12, 4));
    assert_eq!(r, EventResult::Nop);
    assert_eq!(active_id(&tab), "B");
    match &tab.find_widget("B").unwrap().kind {
        WidgetKind::List(l) => assert_eq!(l.selected(), 3),
        _ => unreachable!(),
    }
    match &tab.find_widget("A").unwrap().kind {
        WidgetKind::List(l) => assert_eq!(l.selected(), 0),
        _ => unreachable!(),
    }
}

#[test]
fn mouse_outside_every_widget_is_ignored() {
    let mut tab = placed();
    tab.on_mouse_event(mouse(MouseEventKind::Moved, 3, 3));
    assert_eq!(tab.mouse_over_widget_index(), Some(0));
    let r = tab.on_mouse_event(mouse(MouseEventKind::Down(MouseButton::Left), 30, 4));
    assert_eq!(r, EventResult::Ignore);
    assert_eq!(active_id(&tab), "A");
    assert_eq!(tab.mouse_over_widget_index(), Some(0));
    let r = tab.on_mouse_event(mouse(MouseEventKind::Down(MouseButton::Left), 5, 10));
    assert_eq!(r, EventResult::Ignore);
}

#[test]
fn mouse_move_marks_without_moving_the_focus() {
    let mut tab = placed();
    let r = tab.on_mouse_event(mouse(MouseEventKind::Moved, 12, 4));
    assert_eq!(r, EventResult::Ignore);
    assert_eq!(tab.mouse_over_widget_index(), Some(1));
    assert_eq!(active_id(&tab), "A");
    tab.activate_next_widget();
    assert_eq!(tab.mouse_over_widget_index(), None);
    tab.on_mouse_event(mouse(MouseEventKind::Moved, 12, 4));
    tab.clear_mouse_over();
    assert_eq!(tab.mouse_over_widget_index(), None);
}

#[test]
fn other_mouse_events_go_to_the_focus_only() {
    let mut tab = placed();
    let r = tab.on_mouse_event(mouse(MouseEventKind::ScrollDown, 12, 4));
    assert_eq!(r, EventResult::Nop);
    assert_eq!(active_id(&tab), "A");
    match &tab.find_widget("A").unwrap().kind {
        WidgetKind::List(l) => assert_eq!(l.selected(), 1),
        _ => unreachable!(),
    }
    let r = tab.on_mouse_event(mouse(MouseEventKind::Up(MouseButton::Left), 12, 4));
    assert_eq!(r, EventResult::Ignore);
}

#[test]
fn keys_go_to_the_focus() {
    let mut tab = placed();
    tab.activate_next_widget();
    assert_eq!(tab.on_key_event(key(KeyCode::Char('j'))), EventResult::Nop);
    assert_eq!(tab.on_key_event(key(KeyCode::Down)), EventResult::Nop);
    assert_eq!(tab.on_key_event(key(KeyCode::Char('x'))), EventResult::Ignore);
    assert_eq!(tab.on_key_event(key(KeyCode::Enter)), EventResult::Ignore);
    match &tab.find_widget("B").unwrap().kind {
        WidgetKind::List(l) => assert_eq!(l.selected(), 2),
        _ => unreachable!(),
    }
    assert_eq!(tab.on_key_event(key(KeyCode::End)), EventResult::Nop);
    assert_eq!(tab.on_key_event(key(KeyCode::PageUp)), EventResult::Nop);
    match &tab.find_widget("B").unwrap().kind {
        WidgetKind::List(l) => assert_eq!(l.selected(), 0),
        _ => unreachable!(),
    }
}

#[test]
fn enter_asks_for_the_action_of_the_widget() {
    let mut w = list("A");
    w.on_select = Some(4);
    let mut tab = Tab::new("tab", "Tab", vec![w], layout(1));
    assert_eq!(tab.on_key_event(key(KeyCode::Enter)), EventResult::Callback(4));
}

#[test]
fn update_chunk_gives_every_leaf_an_area() {
    let mut tab = tab(&["A", "B"]);
    tab.update_chunk(Rect::new(0, 0, 40, 10));
    assert_eq!(tab.chunk(), Rect::new(0, 0, 40, 10));
    let a = tab.find_widget("A").unwrap().chunk();
    let b = tab.find_widget("B").unwrap().chunk();
    assert_eq!(a, Rect::new(0, 0, 20, 10));
    assert_eq!(b, Rect::new(20, 0, 20, 10));
    assert_eq!(
        tab.chunks(Rect::new(0, 0, 40, 10)),
        vec![Rect::new(0, 0, 20, 10), Rect::new(20, 0, 20, 10)]
    );
    tab.toggle_split_direction();
    let a = tab.find_widget("A").unwrap().chunk();
    let b = tab.find_widget("B").unwrap().chunk();
    assert_eq!(a, Rect::new(0, 0, 40, 5));
    assert_eq!(b, Rect::new(0, 5, 40, 5));
}

#[test]
fn text_widget_scrolls_with_the_wheel() {
    let mut text = Text::default();
    text.append_items(&items(10), 20, 6);
    let w = Widget::new("log", "Log", WidgetKind::Text(text));
    let mut tab = Tab::new("tab", "Tab", vec![w], layout(1));
    tab.update_chunk(Rect::new(0, 0, 20, 6));
    assert_eq!(
        tab.on_mouse_event(mouse(MouseEventKind::ScrollDown, 1, 1)),
        EventResult::Nop
    );
    match &tab.find_widget("log").unwrap().kind {
        WidgetKind::Text(t) => assert_eq!(t.selected(), 1),
        _ => unreachable!(),
    }
    assert_eq!(
        tab.on_mouse_event(mouse(MouseEventKind::Down(MouseButton::Left), 1, 1)),
        EventResult::Ignore
    );
}

#[test]
fn the_widget_with_the_focus_can_be_changed_in_place() {
    let mut t = tab(&["a", "b"]);
    assert_eq!(t.active_widget_id(), Some("a"));
    t.active_widget_mut().title = "renamed".to_string();
    assert_eq!(t.active_widget().map(|w| w.title().to_string()), Some("renamed".to_string()));
    t.activate_next_widget();
    assert_eq!(t.active_widget_id(), Some("b"));
    match t.find_widget_mut("a") {
        Some(w) => w.focusable = true,
        None => panic!("the widget is there"),
    }
    assert!(t.find_widget_mut("c").is_none());
    assert_eq!(tab(&[]).active_widget_id(), None);
}

#[test]
fn a_flat_layout_gives_each_widget_a_strip_across_the_area() {
    let mut t = tab(&["a", "b", "c"]);
    let area = Rect::new(2, 3, 60, 20);
    t.update_chunk(area);
    let strips = t.chunks(area);
    assert_eq!(strips.len(), 3);
    for (widget, strip) in t.as_ref_widgets().iter().zip(strips.iter()) {
        assert_eq!(widget.chunk(), *strip);
        assert_eq!(widget.chunk().y, 3);
        assert_eq!(widget.chunk().height, 20);
    }
    t.toggle_split_direction();
    for widget in t.as_ref_widgets() {
        assert_eq!(widget.chunk().x, 2);
        assert_eq!(widget.chunk().width, 60);
    }
}
