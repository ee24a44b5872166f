//! The widgets and popups that the dashboard is put together from, and
//! what choosing an entry in one of its popups comes to.

use crate::action::Kube;
use crate::layout::{
    lemma_single_leaf, Direction, LayoutElement, NestedLayoutElement, NestedWidgetLayout,
};
use crate::list::{List, Listing};
use crate::rect::Rect;
use crate::related::{pairs, Label, Pairs};
use crate::span::{Run, Span, Spans};
use crate::style::{Color, Modifier, Style};
use crate::tab::{Tab, TabLayout};
use crate::text::{Buffer, Text};
use crate::util::{decimal, lemma_texts_push, texts, to_decimal};
use crate::widget::{
    Alteration, Change, Content, MultipleSelect, Widget, WidgetKind, WidgetModel,
};
use crate::window::{Window, WindowModel};
use vstd::prelude::*;

verus! {

pub const EVENT_WIDGET_ID: &'static str = "event";

pub const popup_ctx: &'static str = "popup_ctx";

pub const popup_ns: &'static str = "popup_ns";

pub const popup_single_ns: &'static str = "popup_single_ns";

pub const popup_api: &'static str = "popup_api";

pub const tab_pod_widget_log: &'static str = "tab_pod_widget_log";

pub const tab_config_widget_raw_data: &'static str = "tab_config_widget_raw_data";

pub const tab_event_widget_event: &'static str = "tab_event_widget_event";

pub const tab_api_widget_api: &'static str = "tab_api_widget_api";

/// What is added to the title of a text to say where its view stands:
/// ` [index/size]`.
pub open spec fn position_suffix(index: u64, size: u64) -> Seq<char> {
    " ["@ + decimal(index as nat) + "/"@ + decimal(size as nat) + "]"@
}

/// What is added to the title of a text to say where its view stands.
pub fn block_injection(index: u64, size: u64) -> (r: String)
    ensures
        r@ == position_suffix(index, size),
{
    let mut out: String = String::from_str(" [");
    out.append(to_decimal(index).as_str());
    out.append("/");
    out.append(to_decimal(size).as_str());
    out.append("]");
    out
}

/// The title of a text widget with the place of its view behind it.
pub fn title_with_position(title: &str, text: &Text) -> (r: String)
    ensures
        r@ == title@ + position_suffix(text@.offset, text@.rows),
{
    let mut out: String = String::from_str(title);
    out.append(block_injection(text.selected(), text.row_size()).as_str());
    out
}

/// An empty text.
pub open spec fn empty_text() -> Content {
    Content::Text(Buffer { items: seq![], lines: seq![], offset: 0, rows: 0 })
}

/// The widget that shows the events of the cluster: an empty text.
pub fn event_widget() -> (r: Widget)
    ensures
        r.wf(),
        r@ == (WidgetModel {
            id: EVENT_WIDGET_ID@,
            title: "Event"@,
            chunk: Rect { x: 0, y: 0, width: 0, height: 0 },
            focusable: true,
            on_select: None,
            content: empty_text(),
        }),
{
    Widget::new(EVENT_WIDGET_ID, "Event", WidgetKind::Text(Text::default()))
}

/// The number of the action that choosing a context asks for.
pub const ACTION_SELECT_CONTEXT: usize = 1;

/// The number of the action that choosing one namespace asks for.
pub const ACTION_SELECT_SINGLE_NAMESPACE: usize = 2;

/// The number of the action that picking among the namespaces asks for.
pub const ACTION_SELECT_MULTIPLE_NAMESPACES: usize = 3;

/// The popups to choose the context and the namespaces with.
pub struct ContextPopup {
    pub context: Widget,
    pub single_namespace: Widget,
    pub multiple_namespaces: Widget,
}

/// Puts the popups of context and namespaces together.
pub struct ContextPopupBuilder {}

/// A popup without entries that asks for `action` when an entry is chosen.
pub open spec fn popup_model(
    id: Seq<char>,
    title: Seq<char>,
    action: usize,
    content: Content,
) -> WidgetModel {
    WidgetModel {
        id,
        title,
        chunk: Rect { x: 0, y: 0, width: 0, height: 0 },
        focusable: true,
        on_select: Some(action),
        content,
    }
}

impl ContextPopupBuilder {
    pub fn new() -> (r: ContextPopupBuilder) {
        ContextPopupBuilder {  }
    }

    /// The popup to choose the context from.
    pub fn context(&self) -> (r: Widget)
        ensures
            r.wf(),
            r@ == popup_model(
                popup_ctx@,
                "Context"@,
                ACTION_SELECT_CONTEXT,
                Content::SingleSelect(Listing { items: seq![], selected: 0 }),
            ),
    {
        let mut w: Widget = Widget::new(
            popup_ctx,
            "Context",
            WidgetKind::SingleSelect(List::new(Vec::new())),
        );
        w.on_select = Some(ACTION_SELECT_CONTEXT);
        assert(texts(Seq::<String>::empty()) =~= Seq::<Seq<char>>::empty());
        w
    }

    /// The popup to choose one namespace from.
    pub fn single_namespace(&self) -> (r: Widget)
        ensures
            r.wf(),
            r@ == popup_model(
                popup_single_ns@,
                "Namespace"@,
                ACTION_SELECT_SINGLE_NAMESPACE,
                Content::SingleSelect(Listing { items: seq![], selected: 0 }),
            ),
    {
        let mut w: Widget = Widget::new(
            popup_single_ns,
            "Namespace",
            WidgetKind::SingleSelect(List::new(Vec::new())),
        );
        w.on_select = Some(ACTION_SELECT_SINGLE_NAMESPACE);
        assert(texts(Seq::<String>::empty()) =~= Seq::<Seq<char>>::empty());
        w
    }

    /// The popup to pick namespaces from.
    pub fn multiple_namespaces(&self) -> (r: Widget)
        ensures
            r.wf(),
            r@ == popup_model(
                popup_ns@,
                "Namespace"@,
                ACTION_SELECT_MULTIPLE_NAMESPACES,
                Content::MultipleSelect(Listing { items: seq![], selected: 0 }, seq![]),
            ),
    {
        let m: MultipleSelect = MultipleSelect::new(Vec::new());
        assert(texts(Seq::<String>::empty()) =~= Seq::<Seq<char>>::empty());
        assert(texts(m.chosen@) =~= Seq::<Seq<char>>::empty());
        let mut w: Widget = Widget::new(popup_ns, "Namespace", WidgetKind::MultipleSelect(m));
        w.on_select = Some(ACTION_SELECT_MULTIPLE_NAMESPACES);
        w
    }

    pub fn build(self) -> (r: ContextPopup)
        ensures
            r.context.wf() && r.single_namespace.wf() && r.multiple_namespaces.wf(),
            r.context@.id == popup_ctx@,
            r.single_namespace@.id == popup_single_ns@,
            r.multiple_namespaces@.id == popup_ns@,
            r.context@.on_select == Some(ACTION_SELECT_CONTEXT),
            r.single_namespace@.on_select == Some(ACTION_SELECT_SINGLE_NAMESPACE),
            r.multiple_namespaces@.on_select == Some(ACTION_SELECT_MULTIPLE_NAMESPACES),
    {
        ContextPopup {
            context: self.context(),
            single_namespace: self.single_namespace(),
            multiple_namespaces: self.multiple_namespaces(),
        }
    }
}

/// The window with what belongs to the namespaces shown before cleared:
/// the log, the raw data, the events and the APIs.
pub open spec fn contents_cleared(w: WindowModel) -> WindowModel {
    w.changed(tab_pod_widget_log@, Alteration::Clear).changed(
        tab_config_widget_raw_data@,
        Alteration::Clear,
    ).changed(tab_event_widget_event@, Alteration::Clear).changed(
        tab_api_widget_api@,
        Alteration::Clear,
    )
}

/// Clears what belongs to the namespaces shown before.
pub fn clear_contents(window: &mut Window)
    requires
        old(window).wf(),
    ensures
        final(window).wf(),
        final(window)@ == contents_cleared(old(window)@),
{
    window.apply(tab_pod_widget_log, Change::Clear);
    window.apply(tab_config_widget_raw_data, Change::Clear);
    window.apply(tab_event_widget_event, Change::Clear);
    window.apply(tab_api_widget_api, Change::Clear);
}

/// What is picked in the widget with the given id, if it is a list to
/// pick many from; nothing otherwise.
pub open spec fn chosen_in(w: WindowModel, id: Seq<char>) -> Seq<Seq<char>> {
    match w.place_of(id) {
        Some(place) => match w.widget_at(place).content {
            Content::MultipleSelect(_, chosen) => chosen,
            _ => seq![],
        },
        None => seq![],
    }
}

/// The namespaces to watch when `chosen` are picked: the word `None` where
/// none is.
pub open spec fn namespaces_for(chosen: Seq<Seq<char>>) -> Seq<Seq<char>> {
    if chosen.len() == 0 {
        seq!["None"@]
    } else {
        chosen
    }
}

/// A list of the one text `s`.
fn only(s: String) -> (r: Vec<String>)
    ensures
        texts(r@) == seq![s@],
{
    let mut v: Vec<String> = Vec::new();
    proof {
        lemma_texts_push(v@, s);
    }
    v.push(s);
    assert(texts(v@) =~= seq![s@]);
    v
}

/// What choosing the context `item` comes to: the popup closes, what was
/// shown of the old context is cleared, nothing is picked any more among
/// namespaces and APIs, no namespace is watched, and the watcher is told
/// the new context.
pub fn select_context(
    window: &mut Window,
    item: &str,
    context: &mut String,
    selected: &mut Vec<String>,
) -> (r: Kube)
    requires
        old(window).wf(),
    ensures
        final(window).wf(),
        final(window)@ == contents_cleared(old(window)@.closed()).changed(
            popup_ns@,
            Alteration::UnpickAll,
        ).changed(popup_api@, Alteration::UnpickAll),
        final(context)@ == item@,
        texts(final(selected)@) == seq!["None"@],
        match r {
            Kube::SetContext(name) => name@ == item@,
            _ => false,
        },
{
    *context = item.to_owned();
    *selected = only(String::from_str("None"));
    window.close_popup();
    clear_contents(window);
    window.apply(popup_ns, Change::UnpickAll);
    window.apply(popup_api, Change::UnpickAll);
    Kube::SetContext(item.to_owned())
}

/// What choosing the one namespace `item` comes to: the popup closes,
/// what was shown of the old namespaces is cleared, `item` alone is
/// picked among the namespaces and watched, and the watcher is told so.
pub fn select_single_namespace(window: &mut Window, item: &str, selected: &mut Vec<String>) -> (r:
    Kube)
    requires
        old(window).wf(),
    ensures
        final(window).wf(),
        final(window)@ == contents_cleared(old(window)@.closed()).changed(
            popup_ns@,
            Alteration::PickOnly(item@),
        ),
        texts(final(selected)@) == seq![item@],
        match r {
            Kube::SetNamespaces(names) => texts(names@) == seq![item@],
            _ => false,
        },
{
    *selected = only(item.to_owned());
    window.close_popup();
    clear_contents(window);
    window.apply(popup_ns, Change::PickOnly(item.to_owned()));
    Kube::SetNamespaces(only(item.to_owned()))
}

/// What is picked in the widget with the given id.
fn chosen_items(window: &Window, id: &str) -> (r: Vec<String>)
    ensures
        texts(r@) == chosen_in(window@, id@),
{
    match window.find_widget(id) {
        Some(w) => match &w.kind {
            WidgetKind::MultipleSelect(m) => crate::util::clone_texts(m.selected_items()),
            _ => {
                let v: Vec<String> = Vec::new();
                assert(texts(v@) =~= Seq::<Seq<char>>::empty());
                v
            },
        },
        None => {
            let v: Vec<String> = Vec::new();
            assert(texts(v@) =~= Seq::<Seq<char>>::empty());
            v
        },
    }
}

/// What pressing enter among the namespaces to pick from comes to: the
/// namespace under the cursor is picked, or let go of if it was picked;
/// what is picked then is watched, and the watcher is told so; what was
/// shown of the old namespaces is cleared.
pub fn select_multiple_namespaces(window: &mut Window, selected: &mut Vec<String>) -> (r: Kube)
    requires
        old(window).wf(),
    ensures
        final(window).wf(),
        final(window)@ == contents_cleared(old(window)@.changed(popup_ns@, Alteration::Toggle)),
        texts(final(selected)@) == namespaces_for(
            chosen_in(old(window)@.changed(popup_ns@, Alteration::Toggle), popup_ns@),
        ),
        match r {
            Kube::SetNamespaces(names) => texts(names@) == texts(final(selected)@),
            _ => false,
        },
{
    window.apply(popup_ns, Change::Toggle);
    let mut items: Vec<String> = chosen_items(window, popup_ns);
    if items.len() == 0 {
        assert(texts(items@).len() == 0);
        items = only(String::from_str("None"));
    }
    let message: Vec<String> = crate::util::clone_texts(&items);
    *selected = items;
    clear_contents(window);
    Kube::SetNamespaces(message)
}

pub const tab_yaml: &'static str = "tab_yaml";

pub const tab_yaml_widget_yaml: &'static str = "tab_yaml_widget_yaml";

pub const popup_yaml_kind: &'static str = "popup_yaml_kind";

pub const popup_yaml_name: &'static str = "popup_yaml_name";

pub const tab_list: &'static str = "tab_list";

pub const tab_list_widget_list: &'static str = "tab_list_widget_list";

pub const popup_list: &'static str = "popup_list";

pub const YAML_KIND_DIALOG_ID: &'static str = "yaml_kind_dialog";

/// The number of the action that choosing a kind asks for.
pub const ACTION_SELECT_YAML_KIND: usize = 4;

/// The number of the action that choosing a name asks for.
pub const ACTION_SELECT_YAML_NAME: usize = 5;

/// What is needed to fetch the manifest of a resource.
pub struct YamlRawRequestData {
    pub kind: String,
    pub name: String,
    pub namespace: String,
}

/// What the tab of manifests asks of the watcher.
pub enum YamlMessage {
    APIsRequest,
    ResourceRequest(String),
    RawRequest(YamlRawRequestData),
}

/// A layout that gives all of the area to the widget in slot 0.
pub fn single_widget_layout() -> (r: TabLayout)
    ensures
        r.description().leaf_slots() == seq![0usize],
        r.description().valid_for(1),
        r.direction() == Direction::Vertical,
{
    let mut elements: Vec<NestedLayoutElement> = Vec::new();
    elements.push(NestedLayoutElement(100, LayoutElement::WidgetIndex(0)));
    let layout: NestedWidgetLayout = NestedWidgetLayout::default().nested_widget_layout(elements);
    proof {
        lemma_single_leaf(layout, 0);
    }
    TabLayout::new(layout, Direction::Vertical)
}

/// A tab of the one widget `widget`.
fn single_widget_tab(id: &str, title: &str, widget: Widget) -> (r: Tab)
    requires
        widget.wf(),
    ensures
        r.wf(),
        r@.id == id@,
        r@.title == title@,
        r@.widgets == seq![widget@],
        r@.active == 0,
        r@.hover is None,
{
    let mut widgets: Vec<Widget> = Vec::new();
    widgets.push(widget);
    let tab: Tab = Tab::new(id, title, widgets, single_widget_layout());
    assert(tab@.widgets =~= seq![widget@]);
    tab
}

/// The tab of manifests with its two popups.
pub struct YamlTab {
    pub tab: Tab,
    pub popup_kind: Widget,
    pub popup_name: Widget,
}

/// Puts the tab of manifests together.
pub struct YamlTabBuilder {
    title: String,
}

impl YamlTabBuilder {
    pub closed spec fn title(&self) -> Seq<char> {
        self.title@
    }

    pub fn new(title: &str) -> (r: YamlTabBuilder)
        ensures
            r.title() == title@,
    {
        YamlTabBuilder { title: title.to_owned() }
    }

    /// The text that shows the manifest.
    fn main(&self) -> (r: Widget)
        ensures
            r.wf(),
            r@ == (WidgetModel {
                id: tab_yaml_widget_yaml@,
                title: "Yaml"@,
                chunk: Rect { x: 0, y: 0, width: 0, height: 0 },
                focusable: true,
                on_select: None,
                content: empty_text(),
            }),
    {
        Widget::new(tab_yaml_widget_yaml, "Yaml", WidgetKind::Text(Text::default()))
    }

    /// The popup to choose the kind of resource from.
    pub fn subwin_kind(&self) -> (r: Widget)
        ensures
            r.wf(),
            r@ == popup_model(
                popup_yaml_kind@,
                "Kind"@,
                ACTION_SELECT_YAML_KIND,
                Content::SingleSelect(Listing { items: seq![], selected: 0 }),
            ),
    {
        let mut w: Widget = Widget::new(
            popup_yaml_kind,
            "Kind",
            WidgetKind::SingleSelect(List::new(Vec::new())),
        );
        w.on_select = Some(ACTION_SELECT_YAML_KIND);
        assert(texts(Seq::<String>::empty()) =~= Seq::<Seq<char>>::empty());
        w
    }

    /// The popup to choose the resource from.
    pub fn subwin_name(&self) -> (r: Widget)
        ensures
            r.wf(),
            r@ == popup_model(
                popup_yaml_name@,
                "Name"@,
                ACTION_SELECT_YAML_NAME,
                Content::SingleSelect(Listing { items: seq![], selected: 0 }),
            ),
    {
        let mut w: Widget = Widget::new(
            popup_yaml_name,
            "Name",
            WidgetKind::SingleSelect(List::new(Vec::new())),
        );
        w.on_select = Some(ACTION_SELECT_YAML_NAME);
        assert(texts(Seq::<String>::empty()) =~= Seq::<Seq<char>>::empty());
        w
    }

    pub fn build(self) -> (r: YamlTab)
        ensures
            r.tab.wf() && r.popup_kind.wf() && r.popup_name.wf(),
            r.tab@.id == tab_yaml@,
            r.tab@.title == self.title(),
            r.tab@.widgets.len() == 1,
            r.tab@.widgets[0].id == tab_yaml_widget_yaml@,
            r.popup_kind@.id == popup_yaml_kind@,
            r.popup_name@.id == popup_yaml_name@,
    {
        let yaml: Widget = self.main();
        let popup_kind: Widget = self.subwin_kind();
        let popup_name: Widget = self.subwin_name();
        YamlTab {
            tab: single_widget_tab(tab_yaml, self.title.as_str(), yaml),
            popup_kind,
            popup_name,
        }
    }
}

/// What asking for another manifest comes to: the popup of kinds opens,
/// and the watcher is asked for the kinds.
pub fn open_kind_popup(window: &mut Window) -> (r: YamlMessage)
    requires
        old(window).wf(),
    ensures
        final(window).wf(),
        final(window)@ == old(window)@.opened(popup_yaml_kind@),
        r is APIsRequest,
{
    window.open_popup(popup_yaml_kind);
    YamlMessage::APIsRequest
}

/// What choosing the kind `item` comes to: the popup of kinds gives way
/// to the popup of names, and the watcher is asked for the resources of
/// that kind.
pub fn select_yaml_kind(window: &mut Window, item: &str) -> (r: YamlMessage)
    requires
        old(window).wf(),
    ensures
        final(window).wf(),
        final(window)@ == old(window)@.closed().opened(popup_yaml_name@),
        match r {
            YamlMessage::ResourceRequest(kind) => kind@ == item@,
            _ => false,
        },
{
    window.close_popup();
    window.open_popup(popup_yaml_name);
    YamlMessage::ResourceRequest(item.to_owned())
}

/// The first position at or after `from` at which `data` holds the key
/// `key`, or the length of `data`.
pub open spec fn find_key(data: Pairs, key: Seq<char>, from: int) -> int
    decreases data.len() - from,
{
    if 0 <= from < data.len() && data[from].0 != key {
        find_key(data, key, from + 1)
    } else {
        from
    }
}

/// The value that `data` holds for `key`, if it holds one.
pub open spec fn value_of(data: Pairs, key: Seq<char>) -> Option<Seq<char>> {
    let i = find_key(data, key, 0);
    if i < data.len() {
        Some(data[i].1)
    } else {
        None
    }
}

/// The value that `data` holds for `key`, if it holds one.
pub fn metadata_get(data: &Vec<Label>, key: &str) -> (r: Option<String>)
    ensures
        r is Some == value_of(pairs(data@), key@) is Some,
        r is Some ==> r->0@ == value_of(pairs(data@), key@)->0,
{
    let wanted: String = key.to_owned();
    let mut i: usize = 0;
    while i < data.len()
        invariant
            i <= data.len(),
            wanted@ == key@,
            find_key(pairs(data@), key@, 0) == find_key(pairs(data@), key@, i as int),
        decreases data.len() - i,
    {
        assert(pairs(data@)[i as int] == (data@[i as int].key@, data@[i as int].value@));
        if data[i].key == wanted {
            return Some(data[i].value.clone());
        }
        i += 1;
    }
    None
}

/// What choosing a resource comes to: the popup closes; where the entry
/// says namespace, kind and name of the resource, the watcher is asked
/// for its manifest.
pub fn select_yaml_name(window: &mut Window, metadata: &Vec<Label>) -> (r: Option<YamlMessage>)
    requires
        old(window).wf(),
    ensures
        final(window).wf(),
        final(window)@ == old(window)@.closed(),
        r is Some == (value_of(pairs(metadata@), "namespace"@) is Some && value_of(
            pairs(metadata@),
            "kind"@,
        ) is Some && value_of(pairs(metadata@), "name"@) is Some),
        match r {
            Some(YamlMessage::RawRequest(req)) => {
                &&& req.namespace@ == value_of(pairs(metadata@), "namespace"@)->0
                &&& req.kind@ == value_of(pairs(metadata@), "kind"@)->0
                &&& req.name@ == value_of(pairs(metadata@), "name"@)->0
            },
            Some(_) => false,
            None => true,
        },
{
    window.close_popup();
    let namespace: Option<String> = metadata_get(metadata, "namespace");
    let kind: Option<String> = metadata_get(metadata, "kind");
    let name: Option<String> = metadata_get(metadata, "name");
    match (namespace, kind, name) {
        (Some(namespace), Some(kind), Some(name)) => Some(
            YamlMessage::RawRequest(YamlRawRequestData { kind, name, namespace }),
        ),
        _ => None,
    }
}

/// The dialog to choose the kind of resource from.
pub fn kind_dialog() -> (r: Widget)
    ensures
        r.wf(),
        r@ == popup_model(
            YAML_KIND_DIALOG_ID@,
            "Kind"@,
            ACTION_SELECT_YAML_KIND,
            Content::SingleSelect(Listing { items: seq![], selected: 0 }),
        ),
{
    let mut w: Widget = Widget::new(
        YAML_KIND_DIALOG_ID,
        "Kind",
        WidgetKind::SingleSelect(List::new(Vec::new())),
    );
    w.on_select = Some(ACTION_SELECT_YAML_KIND);
    assert(texts(Seq::<String>::empty()) =~= Seq::<Seq<char>>::empty());
    w
}

/// A tab that lists something, with the popup to choose what.
pub struct ListTab {
    pub tab: Tab,
    pub popup: Widget,
}

impl ListTab {
    /// A tab with the title `title` that holds one empty text, and a
    /// popup without entries to pick from.
    pub fn new(title: &str) -> (r: ListTab)
        ensures
            r.tab.wf() && r.popup.wf(),
            r.tab@.id == tab_list@,
            r.tab@.title == title@,
            r.tab@.widgets == seq![
                WidgetModel {
                    id: tab_list_widget_list@,
                    title: "List"@,
                    chunk: Rect { x: 0, y: 0, width: 0, height: 0 },
                    focusable: true,
                    on_select: None,
                    content: empty_text(),
                },
            ],
            r.tab@.active == 0,
            r.tab@.hover is None,
            r.popup@ == (WidgetModel {
                id: popup_list@,
                title: "List"@,
                chunk: Rect { x: 0, y: 0, width: 0, height: 0 },
                focusable: true,
                on_select: None,
                content: Content::MultipleSelect(Listing { items: seq![], selected: 0 }, seq![]),
            }),
    {
        let list: Widget = Widget::new(tab_list_widget_list, "List", WidgetKind::Text(Text::default()));
        let m: MultipleSelect = MultipleSelect::new(Vec::new());
        assert(texts(Seq::<String>::empty()) =~= Seq::<Seq<char>>::empty());
        assert(texts(m.chosen@) =~= Seq::<Seq<char>>::empty());
        let popup: Widget = Widget::new(popup_list, "List", WidgetKind::MultipleSelect(m));
        ListTab { tab: single_widget_tab(tab_list, title, list), popup }
    }
}

/// The color of the border of a pane: white where the pane has the focus,
/// dark gray where it has not.
pub open spec fn spec_border_color(selected: bool) -> Color {
    if selected {
        Color::White
    } else {
        Color::DarkGray
    }
}

pub fn border_color(selected: bool) -> (r: Color)
    ensures
        r == spec_border_color(selected),
{
    if selected {
        Color::White
    } else {
        Color::DarkGray
    }
}

/// The title of a pane as it is drawn into the border: a piece of line, a
/// mark in the color of the border that says whether the pane has the
/// focus, and the title in bold white.
pub open spec fn title_runs(title: Seq<char>, color: Color, selected: bool) -> Seq<Run> {
    seq![
        Run { content: "─"@, style: Style::plain() },
        Run {
            content: if selected {
                "✔︎ "@
            } else {
                "──"@
            },
            style: Style::plain().with_fg(color),
        },
        Run {
            content: title,
            style: Style::plain().with_fg(Color::White).with_modifier(Modifier::Bold, true),
        },
    ]
}

/// The title of a pane as it is drawn into the border.
pub fn generate_title(title: &str, border_color: Color, selected: bool) -> (r: Spans)
    ensures
        r@ == title_runs(title@, border_color, selected),
{
    let prefix: &str = if selected {
        "✔︎ "
    } else {
        "──"
    };
    let mut runs: Vec<Span> = Vec::new();
    runs.push(Span::styled("─", Style::reset()));
    runs.push(Span::styled(prefix, Style::reset().fg(border_color)));
    runs.push(Span::styled(title, Style::reset().fg(Color::White).add_modifier(Modifier::Bold)));
    let r: Spans = Spans::new(runs);
    assert(r@ =~= title_runs(title@, border_color, selected));
    r
}

} // verus!
