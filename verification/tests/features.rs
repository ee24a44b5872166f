use kubetui::action::Kube;
use kubetui::features::{
    block_injection, border_color, clear_contents, event_widget, generate_title, kind_dialog,
    metadata_get, open_kind_popup, popup_api, popup_ns, select_context,
    select_multiple_namespaces, select_single_namespace, select_yaml_kind, select_yaml_name,
    tab_pod_widget_log, title_with_position, ContextPopupBuilder, ListTab, YamlMessage,
    YamlTabBuilder, ACTION_SELECT_CONTEXT, EVENT_WIDGET_ID,
};
use kubetui::pod::{pod_lines, PodInfo};
use kubetui::related::{Filter, Label, List, Pod, RelatedPod};
use kubetui::span::{Span, Spans};
use kubetui::style::{Color, Modifier, Style};
use kubetui::text::Text;
use kubetui::util::to_decimal;
use kubetui::widget::{Change, MultipleSelect, Widget, WidgetItem, WidgetKind};
use kubetui::window::Window;

fn strings(items: &[&str]) -> Vec<String> {
    items.iter().map(|s| s.to_string()).collect()
}

fn label(key: &str, value: &str) -> Label {
    Label {
        key: key.to_string(),
        value: value.to_string(),
    }
}

fn setup_target() -> List {
    List {
        items: vec![
            Pod {
                name: "pod-1".to_string(),
                labels: Some(vec![label("app", "pod-1"), label("version", "v1")]),
            },
            Pod {
                name: "pod-2".to_string(),
                labels: Some(vec![label("app", "pod-2"), label("version", "v1")]),
            },
            Pod {
                name: "pod-3".to_string(),
                labels: None,
            },
        ],
    }
}

#[test]
fn pods_whose_labels_hold_the_selector() {
    let list = setup_target();
    let actual = list.filter_by_labels(&vec![label("app", "pod-1")]).unwrap();
    assert_eq!(actual.to_value(), strings(&["pod-1"]));
    assert_eq!(actual.items[0].labels.as_ref().unwrap().len(), 2);
    let actual = list.filter_by_labels(&vec![label("version", "v1")]).unwrap();
    assert_eq!(actual.to_value(), strings(&["pod-1", "pod-2"]));
    let actual = list
        .filter_by_labels(&vec![label("version", "v1"), label("app", "pod-2")])
        .unwrap();
    assert_eq!(actual.to_value(), strings(&["pod-2"]));
    let actual = list.filter_by_labels(&vec![]).unwrap();
    assert_eq!(actual.to_value(), strings(&["pod-1", "pod-2"]));
}

#[test]
fn no_pod_whose_labels_hold_the_selector() {
    let list = setup_target();
    assert!(list.filter_by_labels(&vec![label("hoge", "fuga")]).is_none());
    assert!(list.filter_by_labels(&vec![label("app", "v1")]).is_none());
    assert!(List { items: vec![] }.filter_by_labels(&vec![]).is_none());
}

#[test]
fn related_pods_by_name() {
    let related = RelatedPod::new("default", vec![label("version", "v1")]);
    assert_eq!(related.path(), "/api/v1/namespaces/default/pods");
    assert_eq!(
        related.related_resources(&setup_target()),
        Some(strings(&["pod-1", "pod-2"]))
    );
    let related = RelatedPod::new("default", vec![label("hoge", "fuga")]);
    assert_eq!(related.related_resources(&setup_target()), None);
}

#[test]
fn pod_line_is_padded_to_the_width() {
    let pod = PodInfo::new("abc".to_string(), "Running".to_string(), "3d".to_string());
    assert_eq!(pod.to_string(5), format!("{:9} {}    {}", "abc", "Running", "3d"));
    assert_eq!(pod.to_string(5), "abc       Running    3d");
    assert_eq!(pod.to_string(0), "abc  Running    3d");
    let long = PodInfo::new("abcdefghij".to_string(), "P".to_string(), "1h".to_string());
    assert_eq!(long.to_string(2), "abcdefghij P    1h");
    assert_eq!(
        pod_lines(&vec![pod, long]),
        Some(strings(&[
            "abc            Running    3d",
            "abcdefghij     P    1h"
        ]))
    );
    assert_eq!(pod_lines(&vec![]), Some(vec![]));
}

#[test]
fn numbers_in_decimal() {
    for n in [0u64, 7, 10, 99, 100, 12345, u64::MAX] {
        assert_eq!(to_decimal(n), n.to_string());
    }
    assert_eq!(block_injection(3, 120), " [3/120]");
    let mut text = Text::default();
    text.append_items(&strings(&["a", "b", "c", "d"]), 10, 4);
    text.scroll_down(1);
    assert_eq!(title_with_position("Event", &text), "Event [1/2]");
}

#[test]
fn event_widget_is_an_empty_text() {
    let w = event_widget();
    assert_eq!(w.id(), EVENT_WIDGET_ID);
    assert_eq!(w.title(), "Event");
    assert!(w.can_activate());
    assert!(matches!(&w.kind, WidgetKind::Text(t) if t.items().is_empty()));
    let w = kind_dialog();
    assert_eq!(w.title(), "Kind");
}

#[test]
fn title_of_a_pane() {
    assert_eq!(border_color(true), Color::White);
    assert_eq!(border_color(false), Color::DarkGray);
    assert_eq!(
        generate_title("Pods", Color::White, true),
        Spans::new(vec![
            Span::styled("─", Style::default()),
            Span::styled("✔︎ ", Style::default().fg(Color::White)),
            Span::styled(
                "Pods",
                Style::default().fg(Color::White).add_modifier(Modifier::Bold)
            ),
        ])
    );
    assert_eq!(
        generate_title("Pods", Color::DarkGray, false).0[1],
        Span::styled("──", Style::default().fg(Color::DarkGray))
    );
}

fn context_window() -> Window {
    let popups = ContextPopupBuilder::new().build();
    assert_eq!(popups.context.on_select, Some(ACTION_SELECT_CONTEXT));
    let mut log = Text::default();
    log.append_items(&strings(&["line"]), 20, 5);
    let yaml = YamlTabBuilder::new("Yaml").build();
    let list = ListTab::new("List");
    assert_eq!(list.tab.title(), "List");
    let mut window = Window::new(
        vec![
            kubetui::tab::Tab::new(
                "tab_pod",
                "Pod",
                vec![Widget::new(tab_pod_widget_log, "Log", WidgetKind::Text(log))],
                kubetui::features::single_widget_layout(),
            ),
            yaml.tab,
        ],
        vec![
            popups.context,
            popups.single_namespace,
            popups.multiple_namespaces,
            Widget::new(
                popup_api,
                "API",
                WidgetKind::MultipleSelect(MultipleSelect::new(strings(&["v1", "apps/v1"]))),
            ),
            yaml.popup_kind,
            yaml.popup_name,
        ],
    );
    window.apply(popup_ns, Change::Show(WidgetItem::Array(strings(&["a", "b", "c"]))));
    window.apply(popup_ns, Change::Pick("b".to_string()));
    window.apply(popup_api, Change::Pick("v1".to_string()));
    window
}

fn picked(window: &Window, id: &str) -> Vec<String> {
    match &window.find_widget(id).unwrap().kind {
        WidgetKind::MultipleSelect(m) => m.selected_items().clone(),
        _ => unreachable!(),
    }
}

fn log_len(window: &Window) -> usize {
    match &window.find_widget(tab_pod_widget_log).unwrap().kind {
        WidgetKind::Text(t) => t.items().len(),
        _ => unreachable!(),
    }
}

#[test]
fn choosing_a_context() {
    let mut w = context_window();
    w.open_popup("popup_ctx");
    assert_eq!(picked(&w, popup_ns), strings(&["b"]));
    assert_eq!(log_len(&w), 1);
    let mut context = String::from("old");
    let mut selected = strings(&["b"]);
    let message = select_context(&mut w, "new", &mut context, &mut selected);
    assert!(matches!(message, Kube::SetContext(name) if name == "new"));
    assert_eq!(context, "new");
    assert_eq!(selected, strings(&["None"]));
    assert_eq!(w.open_popup_index(), None);
    assert_eq!(log_len(&w), 0);
    assert!(picked(&w, popup_ns).is_empty());
    assert!(picked(&w, popup_api).is_empty());
}

#[test]
fn choosing_one_namespace() {
    let mut w = context_window();
    w.open_popup("popup_single_ns");
    let mut selected = strings(&["b"]);
    let message = select_single_namespace(&mut w, "c", &mut selected);
    assert!(matches!(message, Kube::SetNamespaces(names) if names == strings(&["c"])));
    assert_eq!(selected, strings(&["c"]));
    assert_eq!(w.open_popup_index(), None);
    assert_eq!(log_len(&w), 0);
    assert_eq!(picked(&w, popup_ns), strings(&["c"]));
    assert_eq!(picked(&w, popup_api), strings(&["v1"]));
    select_single_namespace(&mut w, "nobody", &mut selected);
    assert!(picked(&w, popup_ns).is_empty());
}

#[test]
fn picking_among_the_namespaces() {
    let mut w = context_window();
    w.open_popup(popup_ns);
    let mut selected = strings(&["b"]);
    let message = select_multiple_namespaces(&mut w, &mut selected);
    assert!(matches!(message, Kube::SetNamespaces(names) if names == strings(&["b", "a"])));
    assert_eq!(selected, strings(&["b", "a"]));
    assert_eq!(picked(&w, popup_ns), strings(&["b", "a"]));
    assert_eq!(w.open_popup_index(), Some(2));
    assert_eq!(log_len(&w), 0);
    w.on_event(kubetui::event::UserEvent::from_key(kubetui::event::KeyCode::Down));
    select_multiple_namespaces(&mut w, &mut selected);
    assert_eq!(selected, strings(&["a"]));
    w.on_event(kubetui::event::UserEvent::from_key(kubetui::event::KeyCode::Up));
    let message = select_multiple_namespaces(&mut w, &mut selected);
    assert!(matches!(message, Kube::SetNamespaces(names) if names == strings(&["None"])));
    assert_eq!(selected, strings(&["None"]));
    assert!(picked(&w, popup_ns).is_empty());
    clear_contents(&mut w);
}

#[test]
fn choosing_a_manifest() {
    let mut w = context_window();
    assert!(matches!(open_kind_popup(&mut w), YamlMessage::APIsRequest));
    assert_eq!(w.open_popup_index(), Some(4));
    let message = select_yaml_kind(&mut w, "pods");
    assert!(matches!(message, YamlMessage::ResourceRequest(kind) if kind == "pods"));
    assert_eq!(w.open_popup_index(), Some(5));
    let metadata = vec![
        label("name", "nginx"),
        label("kind", "pods"),
        label("namespace", "default"),
        label("name", "other"),
    ];
    assert_eq!(metadata_get(&metadata, "name"), Some("nginx".to_string()));
    assert_eq!(metadata_get(&metadata, "uid"), None);
    match select_yaml_name(&mut w, &metadata) {
        Some(YamlMessage::RawRequest(req)) => {
            assert_eq!(req.kind, "pods");
            assert_eq!(req.name, "nginx");
            assert_eq!(req.namespace, "default");
        }
        _ => unreachable!(),
    }
    assert_eq!(w.open_popup_index(), None);
    w.open_popup("popup_yaml_name");
    assert!(select_yaml_name(&mut w, &vec![label("name", "nginx")]).is_none());
    assert_eq!(w.open_popup_index(), None);
}
