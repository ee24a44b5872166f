use kubetui::action::{
    error_format, update_contents, update_widget_item_for_table,
    update_widget_item_for_table_for_error, window_action, Event, Kube, WindowAction,
};
use kubetui::event::{
    read_key, EventResult, KeyCode, KeyEvent, KeyEventKind, KeyModifiers, MouseEvent,
    MouseEventKind, TerminalEvent, UserEvent, WindowEvent,
};
use kubetui::layout::{Direction, LayoutElement, NestedLayoutElement, NestedWidgetLayout};
use kubetui::list::List;
use kubetui::rect::{child_window_chunk, Rect};
use kubetui::tab::{Tab, TabLayout};
use kubetui::table::{KubeTable, Table};
use kubetui::text::Text;
use kubetui::view_id;
use kubetui::widget::{MultipleSelect, Widget, WidgetKind};
use kubetui::window::{Place, Window};

fn strings(items: &[&str]) -> Vec<String> {
    items.iter().map(|s| s.to_string()).collect()
}

fn layout(n: usize) -> TabLayout {
    let elements = (0..n)
        .map(|i| NestedLayoutElement(1, LayoutElement::WidgetIndex(i)))
        .collect();
    TabLayout::new(
        NestedWidgetLayout::default().nested_widget_layout(elements),
        Direction::Horizontal,
    )
}

fn window() -> Window {
    let pods = Tab::new(
        view_id::tab_pods,
        "Pods",
        vec![
            Widget::new(
                view_id::tab_pods_widget_pods,
                "Pods",
                WidgetKind::Table(Table::new(strings(&["NAME"]), vec![])),
            ),
            Widget::new(
                view_id::tab_pods_widget_logs,
                "Logs",
                WidgetKind::Text(Text::default()),
            ),
        ],
        layout(2),
    );
    let configs = Tab::new(
        view_id::tab_configs,
        "Configs",
        vec![
            Widget::new(
                view_id::tab_configs_widget_configs,
                "Configs",
                WidgetKind::Table(Table::new(vec![], vec![])),
            ),
            Widget::new(
                view_id::tab_configs_widget_raw_data,
                "Raw",
                WidgetKind::Text(Text::default()),
            ),
        ],
        layout(2),
    );
    let popups = vec![
        Widget::new(
            view_id::subwin_ns,
            "Namespace",
            WidgetKind::MultipleSelect(MultipleSelect::new(vec![])),
        ),
        Widget::new(
            view_id::subwin_single_ns,
            "Namespace",
            WidgetKind::SingleSelect(List::new(vec![])),
        ),
        Widget::new(
            view_id::subwin_apis,
            "APIs",
            WidgetKind::MultipleSelect(MultipleSelect::new(vec![])),
        ),
    ];
    let mut window = Window::new(vec![pods, configs], popups);
    window.update_chunks(Rect::new(0, 0, 80, 20));
    window
}

fn key(code: KeyCode) -> UserEvent {
    UserEvent::from_key(code)
}

fn table_of<'a>(window: &'a Window, id: &str) -> &'a Table {
    match &window.find_widget(id).unwrap().kind {
        WidgetKind::Table(t) => t,
        _ => unreachable!(),
    }
}

fn text_of<'a>(window: &'a Window, id: &str) -> &'a Text {
    match &window.find_widget(id).unwrap().kind {
        WidgetKind::Text(t) => t,
        _ => unreachable!(),
    }
}

#[test]
fn keys_move_focus_and_tabs() {
    let mut w = window();
    assert_eq!(w.active_tab_index(), 0);
    assert_eq!(w.tabs()[0].active_widget_index(), Some(0));
    assert_eq!(w.on_event(key(KeyCode::Tab)), EventResult::Nop);
    assert_eq!(w.tabs()[0].active_widget_index(), Some(1));
    assert_eq!(w.on_event(key(KeyCode::Tab)), EventResult::Nop);
    assert_eq!(w.tabs()[0].active_widget_index(), Some(0));
    assert_eq!(w.on_event(key(KeyCode::BackTab)), EventResult::Nop);
    assert_eq!(w.tabs()[0].active_widget_index(), Some(1));
    assert_eq!(w.on_event(key(KeyCode::Char('2'))), EventResult::Nop);
    assert_eq!(w.active_tab_index(), 1);
    assert_eq!(w.on_event(key(KeyCode::Char('9'))), EventResult::Nop);
    assert_eq!(w.active_tab_index(), 1);
    assert_eq!(w.on_event(key(KeyCode::Char('1'))), EventResult::Nop);
    assert_eq!(w.active_tab_index(), 0);
    assert_eq!(w.on_event(key(KeyCode::Char('x'))), EventResult::Ignore);
    assert_eq!(
        w.on_event(UserEvent::Resize(80, 24)),
        EventResult::Window(WindowEvent::ResizeWindow(80, 24))
    );
}

#[test]
fn popup_takes_every_event() {
    let mut w = window();
    let mut ignored = String::new();
    let mut namespace = String::from("b");
    let mut selected = vec![];
    update_contents(
        &mut w,
        Kube::GetNamespacesResponse(strings(&["a", "b", "c"])),
        &mut ignored,
        &mut namespace,
        &mut selected,
    );
    w.open_popup(view_id::subwin_single_ns);
    assert_eq!(w.open_popup_index(), Some(1));
    assert_eq!(w.on_event(key(KeyCode::Tab)), EventResult::Ignore);
    assert_eq!(w.tabs()[0].active_widget_index(), Some(0));
    assert_eq!(w.on_event(key(KeyCode::Char('2'))), EventResult::Ignore);
    assert_eq!(w.active_tab_index(), 0);
    assert_eq!(w.on_event(key(KeyCode::Down)), EventResult::Nop);
    match &w.popups()[1].kind {
        WidgetKind::SingleSelect(l) => assert_eq!(l.selected(), 1),
        _ => unreachable!(),
    }
    let scroll = UserEvent::Mouse(MouseEvent {
        kind: MouseEventKind::ScrollDown,
        column: 0,
        row: 0,
        modifiers: KeyModifiers::none(),
    });
    assert_eq!(w.on_event(scroll), EventResult::Nop);
    match &w.popups()[1].kind {
        WidgetKind::SingleSelect(l) => assert_eq!(l.selected(), 2),
        _ => unreachable!(),
    }
    w.open_popup(view_id::subwin_apis);
    assert_eq!(w.open_popup_index(), Some(2));
    w.open_popup("nobody");
    assert_eq!(w.open_popup_index(), Some(2));
    w.close_popup();
    assert_eq!(w.open_popup_index(), None);
    assert_eq!(w.on_event(key(KeyCode::Tab)), EventResult::Nop);
    assert_eq!(w.tabs()[0].active_widget_index(), Some(1));
}

#[test]
fn widgets_are_found_by_id() {
    let w = window();
    assert_eq!(
        w.find_widget_place(view_id::tab_pods_widget_logs),
        Some(Place::InTab(0, 1))
    );
    assert_eq!(
        w.find_widget_place(view_id::tab_configs_widget_configs),
        Some(Place::InTab(1, 0))
    );
    assert_eq!(w.find_widget_place(view_id::subwin_apis), Some(Place::Popup(2)));
    assert_eq!(w.find_widget_place("nobody"), None);
    assert!(w.find_widget("nobody").is_none());
}

#[test]
fn pods_go_to_the_table() {
    let mut w = window();
    let mut ctx = String::from("ctx");
    let mut ns = String::from("ns");
    let mut selected = strings(&["ns"]);
    let table = KubeTable {
        header: strings(&["NAME", "AGE"]),
        rows: vec![strings(&["a", "1d"]), strings(&["b", "2d"])],
    };
    update_contents(&mut w, Kube::Pod(Ok(table)), &mut ctx, &mut ns, &mut selected);
    let t = table_of(&w, view_id::tab_pods_widget_pods);
    assert_eq!(t.header(), &strings(&["NAME", "AGE"]));
    assert_eq!(t.rows(), &vec![strings(&["a", "1d"]), strings(&["b", "2d"])]);
    assert_eq!((ctx.as_str(), ns.as_str()), ("ctx", "ns"));
    assert_eq!(selected, strings(&["ns"]));

    assert_eq!(w.on_event(key(KeyCode::Down)), EventResult::Nop);
    assert_eq!(table_of(&w, view_id::tab_pods_widget_pods).selected(), 1);
    let same = KubeTable {
        header: strings(&["NAME", "AGE"]),
        rows: vec![strings(&["a", "1d"]), strings(&["b", "2d"]), strings(&["c", "3d"])],
    };
    update_widget_item_for_table(&mut w, view_id::tab_pods_widget_pods, same);
    assert_eq!(table_of(&w, view_id::tab_pods_widget_pods).selected(), 1);
    assert_eq!(table_of(&w, view_id::tab_pods_widget_pods).rows().len(), 3);
    let other = KubeTable {
        header: strings(&["NAME"]),
        rows: vec![strings(&["a"]), strings(&["b"])],
    };
    update_widget_item_for_table(&mut w, view_id::tab_pods_widget_pods, other);
    assert_eq!(table_of(&w, view_id::tab_pods_widget_pods).selected(), 0);

    update_contents(
        &mut w,
        Kube::Pod(Err("no route".to_string())),
        &mut ctx,
        &mut ns,
        &mut selected,
    );
    let t = table_of(&w, view_id::tab_pods_widget_pods);
    assert_eq!(t.header(), &strings(&["ERROR"]));
    assert_eq!(t.rows(), &vec![strings(&["\x1b[31mno route\x1b[39m"])]);
    update_widget_item_for_table_for_error(
        &mut w,
        view_id::tab_configs_widget_configs,
        "x".to_string(),
    );
    assert_eq!(
        table_of(&w, view_id::tab_configs_widget_configs).rows(),
        &vec![strings(&["\x1b[31mx\x1b[39m"])]
    );
    assert_eq!(error_format("x"), "\x1b[31mx\x1b[39m");
}

#[test]
fn logs_are_added_and_raw_data_replaced() {
    let mut w = window();
    let mut ctx = String::new();
    let mut ns = String::new();
    let mut selected = vec![];
    update_contents(
        &mut w,
        Kube::LogStreamResponse(Ok(strings(&["one", "two"]))),
        &mut ctx,
        &mut ns,
        &mut selected,
    );
    update_contents(
        &mut w,
        Kube::LogStreamResponse(Err("broken".to_string())),
        &mut ctx,
        &mut ns,
        &mut selected,
    );
    assert_eq!(
        text_of(&w, view_id::tab_pods_widget_logs).items(),
        &strings(&["one", "two", "\x1b[31mbroken\x1b[39m"])
    );
    assert_eq!(text_of(&w, view_id::tab_pods_widget_logs).spans().len(), 3);
    update_contents(
        &mut w,
        Kube::ConfigResponse(strings(&["a: 1", "b: 2"])),
        &mut ctx,
        &mut ns,
        &mut selected,
    );
    update_contents(
        &mut w,
        Kube::ConfigResponse(strings(&["c: 3"])),
        &mut ctx,
        &mut ns,
        &mut selected,
    );
    assert_eq!(
        text_of(&w, view_id::tab_configs_widget_raw_data).items(),
        &strings(&["c: 3"])
    );
    assert_eq!(text_of(&w, view_id::tab_configs_widget_raw_data).spans().len(), 1);
    update_contents(
        &mut w,
        Kube::Event(strings(&["no such widget here"])),
        &mut ctx,
        &mut ns,
        &mut selected,
    );
    update_contents(&mut w, Kube::GetAPIsRequest, &mut ctx, &mut ns, &mut selected);
}

#[test]
fn context_and_namespaces() {
    let mut w = window();
    let mut ctx = String::new();
    let mut ns = String::new();
    let mut selected = strings(&["old"]);
    update_contents(
        &mut w,
        Kube::GetCurrentContextResponse("minikube".to_string(), "default".to_string()),
        &mut ctx,
        &mut ns,
        &mut selected,
    );
    assert_eq!(ctx, "minikube");
    assert_eq!(ns, "default");
    assert_eq!(selected, strings(&["default"]));
    update_contents(
        &mut w,
        Kube::GetNamespacesResponse(strings(&["default", "kube-system"])),
        &mut ctx,
        &mut ns,
        &mut selected,
    );
    match &w.popups()[0].kind {
        WidgetKind::MultipleSelect(m) => {
            assert_eq!(m.list.items(), &strings(&["default", "kube-system"]));
            assert_eq!(m.selected_items(), &strings(&["default"]));
        }
        _ => unreachable!(),
    }
    match &w.popups()[1].kind {
        WidgetKind::SingleSelect(l) => {
            assert_eq!(l.items(), &strings(&["default", "kube-system"]))
        }
        _ => unreachable!(),
    }
    ns = "kube-system".to_string();
    update_contents(
        &mut w,
        Kube::GetNamespacesResponse(strings(&["default", "kube-system"])),
        &mut ctx,
        &mut ns,
        &mut selected,
    );
    match &w.popups()[0].kind {
        WidgetKind::MultipleSelect(m) => assert_eq!(m.selected_items(), &strings(&["default"])),
        _ => unreachable!(),
    }
    update_contents(
        &mut w,
        Kube::GetAPIsResponse(strings(&["apps/v1"])),
        &mut ctx,
        &mut ns,
        &mut selected,
    );
    match &w.popups()[2].kind {
        WidgetKind::MultipleSelect(m) => assert_eq!(m.list.items(), &strings(&["apps/v1"])),
        _ => unreachable!(),
    }
}

#[test]
fn what_the_main_loop_does() {
    let mut w = window();
    w.add_action(key(KeyCode::Char('q')), 7);
    w.add_action(key(KeyCode::Char('q')), 8);
    assert_eq!(w.match_callback(key(KeyCode::Char('q'))), Some(7));
    assert_eq!(w.match_callback(key(KeyCode::Char('w'))), None);
    assert!(matches!(
        window_action(&mut w, Event::Tick),
        WindowAction::Event(WindowEvent::Continue)
    ));
    assert!(matches!(
        window_action(&mut w, Event::User(key(KeyCode::Char('q')))),
        WindowAction::Event(WindowEvent::Callback(7))
    ));
    assert!(matches!(
        window_action(&mut w, Event::User(key(KeyCode::Char('w')))),
        WindowAction::Event(WindowEvent::Continue)
    ));
    assert!(matches!(
        window_action(&mut w, Event::User(key(KeyCode::Tab))),
        WindowAction::Event(WindowEvent::Continue)
    ));
    assert!(matches!(
        window_action(&mut w, Event::User(UserEvent::Resize(1, 2))),
        WindowAction::Event(WindowEvent::ResizeWindow(1, 2))
    ));
    assert!(matches!(
        window_action(&mut w, Event::Kube(Kube::GetAPIsRequest)),
        WindowAction::UpdateContents(Kube::GetAPIsRequest)
    ));
}

#[test]
fn what_the_terminal_reports_and_what_is_noted() {
    let press = KeyEvent {
        code: KeyCode::Char('a'),
        modifiers: KeyModifiers::none(),
        kind: KeyEventKind::Press,
    };
    let repeat = KeyEvent {
        kind: KeyEventKind::Repeat,
        ..press
    };
    let release = KeyEvent {
        kind: KeyEventKind::Release,
        ..press
    };
    assert_eq!(read_key(&TerminalEvent::Key(press)), Some(UserEvent::Key(press)));
    assert_eq!(read_key(&TerminalEvent::Key(repeat)), Some(UserEvent::Key(repeat)));
    assert_eq!(read_key(&TerminalEvent::Key(release)), None);
    assert_eq!(read_key(&TerminalEvent::Resize(3, 4)), Some(UserEvent::Resize(3, 4)));
    assert_eq!(read_key(&TerminalEvent::FocusGained), None);
    assert_eq!(read_key(&TerminalEvent::FocusLost), None);
    assert_eq!(read_key(&TerminalEvent::Paste("x".to_string())), None);
    let mouse = MouseEvent {
        kind: MouseEventKind::Moved,
        column: 1,
        row: 2,
        modifiers: KeyModifiers::none(),
    };
    assert_eq!(read_key(&TerminalEvent::Mouse(mouse)), Some(UserEvent::Mouse(mouse)));
    assert_eq!(UserEvent::from_char('a'), UserEvent::Key(press));
}

#[test]
fn areas_of_tabs_and_popups() {
    let w = window();
    assert_eq!(w.tabs()[0].chunk(), Rect::new(0, 0, 80, 20));
    assert_eq!(w.tabs()[1].chunk(), Rect::new(0, 0, 80, 20));
    assert_eq!(
        w.find_widget(view_id::tab_pods_widget_logs).unwrap().chunk(),
        Rect::new(40, 0, 40, 20)
    );
    for popup in w.popups() {
        assert_eq!(popup.chunk(), Rect::new(8, 2, 64, 16));
    }
    assert_eq!(
        child_window_chunk(50, 200, Rect::new(10, 10, 21, 7)),
        Rect::new(15, 10, 10, 7)
    );
    assert_eq!(
        child_window_chunk(80, 80, Rect::new(65000, 2, 65535, 10)),
        Rect::new(65535, 3, 52428, 8)
    );
}
