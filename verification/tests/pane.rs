use kubetui::event::{KeyModifiers, MouseButton, MouseEvent, MouseEventKind};
use kubetui::list::List;
use kubetui::pane::{Pane, PaneTrait, SubWindow};
use kubetui::rect::{child_window_chunk, Rect};
use kubetui::widget::{WidgetItem, WidgetKind};

fn names(n: usize) -> Vec<String> {
    (0..n).map(|i| format!("entry {}", i)).collect()
}

fn list_pane() -> Pane {
    Pane::new("Entries", WidgetKind::List(List::new(names(4))), 2, "entries")
}

fn cursor(pane: &Pane) -> usize {
    match pane.widget() {
        WidgetKind::List(l) => l.selected(),
        _ => panic!("a list was put in"),
    }
}

#[test]
fn a_new_pane_keeps_what_it_was_given() {
    let pane = list_pane();
    assert_eq!(pane.title(), "Entries");
    assert_eq!(pane.id(), "entries");
    assert_eq!(pane.chunk_index(), 2);
    assert_eq!(pane.chunk(), Rect::new(0, 0, 0, 0));
    assert_eq!(cursor(&pane), 0);
}

#[test]
fn the_cursor_of_a_pane_stops_at_both_ends() {
    let mut pane = list_pane();
    pane.next_item(2);
    assert_eq!(cursor(&pane), 2);
    pane.next_item(5);
    assert_eq!(cursor(&pane), 3);
    pane.prev_item(1);
    assert_eq!(cursor(&pane), 2);
    pane.prev_item(7);
    assert_eq!(cursor(&pane), 0);
    pane.select_last_item();
    assert_eq!(cursor(&pane), 3);
    pane.select_first_item();
    assert_eq!(cursor(&pane), 0);
}

#[test]
fn new_items_replace_the_old_ones() {
    let mut pane = list_pane();
    pane.next_item(3);
    pane.set_items(WidgetItem::Array(names(2)));
    match pane.widget() {
        WidgetKind::List(l) => {
            assert_eq!(l.items(), &names(2));
            assert!(l.selected() < 2);
        }
        _ => panic!("a list was put in"),
    }
}

#[test]
fn what_a_pane_holds_can_be_changed_in_place() {
    let mut pane = list_pane();
    match pane.widget_mut() {
        WidgetKind::List(l) => l.select(1),
        _ => panic!("a list was put in"),
    }
    assert_eq!(cursor(&pane), 1);
}

#[test]
fn a_press_on_a_row_of_a_pane_puts_the_cursor_there() {
    let mut pane = list_pane();
    pane.update_chunk(Rect::new(0, 0, 20, 10));
    pane.on_mouse_event(MouseEvent {
        kind: MouseEventKind::Down(MouseButton::Left),
        column: 3,
        row: 3,
        modifiers: KeyModifiers::none(),
    });
    assert_eq!(cursor(&pane), 2);
}

#[test]
fn a_sub_window_takes_the_middle_of_the_screen() {
    let screen = Rect::new(0, 0, 100, 50);
    let mut framed = SubWindow::new("sub", "Sub", list_pane(), true);
    assert_eq!(framed.id(), "sub");
    assert_eq!(framed.title(), "Sub");
    framed.update_chunks(screen);
    assert_eq!(framed.chunk(), Rect::new(10, 5, 80, 40));
    assert_eq!(framed.chunk(), child_window_chunk(80, 80, screen));
    assert_eq!(framed.pane().chunk(), Rect::new(12, 7, 76, 36));

    let mut bare = SubWindow::new("sub", "Sub", list_pane(), false);
    bare.update_chunks(screen);
    assert_eq!(bare.pane().chunk(), Rect::new(10, 5, 80, 40));
}

#[test]
fn a_sub_window_hands_the_mouse_to_its_pane() {
    let mut sub = SubWindow::new("sub", "Sub", list_pane(), false);
    sub.update_chunks(Rect::new(0, 0, 100, 50));
    sub.on_mouse_event(MouseEvent {
        kind: MouseEventKind::ScrollDown,
        column: 0,
        row: 0,
        modifiers: KeyModifiers::none(),
    });
    assert_eq!(cursor(sub.pane()), 1);
    sub.pane_mut().next_item(1);
    assert_eq!(cursor(sub.pane()), 2);
}

#[test]
fn a_pane_behaves_as_a_sub_window_asks() {
    let mut pane = list_pane();
    assert_eq!(PaneTrait::id(&pane), "entries");
    PaneTrait::select_next_item(&mut pane);
    assert_eq!(cursor(&pane), 1);
    PaneTrait::select_next_pane(&mut pane);
    assert_eq!(cursor(&pane), 1);
    PaneTrait::select_last_item(&mut pane);
    assert_eq!(cursor(&pane), 3);
    PaneTrait::select_prev_item(&mut pane);
    assert_eq!(cursor(&pane), 2);
    PaneTrait::set_items(&mut pane, "ignored", WidgetItem::Array(names(1)));
    assert_eq!(cursor(&pane), 0);
    PaneTrait::update_chunks(&mut pane, Rect::new(1, 2, 3, 4));
    assert_eq!(pane.chunk(), Rect::new(1, 2, 3, 4));
}
