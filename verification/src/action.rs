//! What the main loop does with the events that reach it.

use crate::event::{EventResult, UserEvent, WindowEvent};
use crate::table::{cells, KubeTable};
use crate::util::{clone_texts, lemma_texts_push, texts};
use crate::view_id;
use crate::widget::{Alteration, Change, Item, WidgetItem};
use crate::window::{find_binding, Window, WindowModel};
use vstd::prelude::*;

verus! {

/// What goes between the dashboard and the watcher of the cluster: what
/// the dashboard asks for, and what the watcher reports.
pub enum Kube {
    GetNamespacesRequest,
    SetNamespaces(Vec<String>),
    SetContext(String),
    LogStreamRequest(String, String),
    ConfigRequest(String),
    GetCurrentContextRequest,
    GetAPIsRequest,
    SetAPIs(Vec<String>),
    /// The pods, or why they could not be had.
    Pod(Result<KubeTable, String>),
    Configs(KubeTable),
    /// New lines of the log, or why the log broke off.
    LogStreamResponse(Result<Vec<String>, String>),
    ConfigResponse(Vec<String>),
    /// The context and the namespace that are current.
    GetCurrentContextResponse(String, String),
    Event(Vec<String>),
    APIsResults(Vec<String>),
    GetNamespacesResponse(Vec<String>),
    GetAPIsResponse(Vec<String>),
}

/// What reaches the main loop.
pub enum Event {
    Kube(Kube),
    User(UserEvent),
    Tick,
}

/// What the main loop is to do next.
pub enum WindowAction {
    /// What the window asks for.
    Event(WindowEvent),
    /// Take what the watcher reports into the window.
    UpdateContents(Kube),
}

/// `content` marked as an error: in red, with the color reset behind it.
pub open spec fn error_text(content: Seq<char>) -> Seq<char> {
    "\x1b[31m"@ + content + "\x1b[39m"@
}

/// `content` marked as an error.
pub fn error_format(content: &str) -> (r: String)
    ensures
        r@ == error_text(content@),
{
    let mut s: String = String::from_str("\x1b[31m");
    s.append(content);
    s.append("\x1b[39m");
    s
}

/// What the main loop is to do for what handling a user event came to,
/// given the action that the event is bound to, if any: nothing for an
/// event that is handled; the bound action for an event that meant
/// nothing to the window; the action or the request that the window
/// returned otherwise.
pub open spec fn action_for(result: EventResult, bound: Option<usize>) -> WindowEvent {
    match result {
        EventResult::Nop => WindowEvent::Continue,
        EventResult::Ignore => match bound {
            Some(action) => WindowEvent::Callback(action),
            None => WindowEvent::Continue,
        },
        EventResult::Callback(action) => WindowEvent::Callback(action),
        EventResult::Window(ev) => ev,
    }
}

/// The action that `ev` is bound to in `w`, if it is bound.
pub open spec fn bound_action(w: WindowModel, ev: UserEvent) -> Option<usize> {
    let i = find_binding(w.bindings, ev, 0);
    if i < w.bindings.len() {
        Some(w.bindings[i].1)
    } else {
        None
    }
}

/// Handles one event: hands what the user did to the window, passes on
/// what the watcher reports, and lets a tick pass.
pub fn window_action(window: &mut Window, event: Event) -> (r: WindowAction)
    requires
        old(window).wf(),
    ensures
        final(window).wf(),
        match event {
            Event::User(ev) => final(window)@ == old(window)@.after_event(ev).0 && r
                == WindowAction::Event(
                action_for(old(window)@.after_event(ev).1, bound_action(final(window)@, ev)),
            ),
            Event::Tick => final(window)@ == old(window)@ && r == WindowAction::Event(
                WindowEvent::Continue,
            ),
            Event::Kube(k) => final(window)@ == old(window)@ && r == WindowAction::UpdateContents(k),
        },
{
    match event {
        Event::User(ev) => {
            let result: EventResult = window.on_event(ev);
            let bound: Option<usize> = window.match_callback(ev);
            WindowAction::Event(
                match result {
                    EventResult::Nop => WindowEvent::Continue,
                    EventResult::Ignore => match bound {
                        Some(action) => WindowEvent::Callback(action),
                        None => WindowEvent::Continue,
                    },
                    EventResult::Callback(action) => WindowEvent::Callback(action),
                    EventResult::Window(ev) => ev,
                },
            )
        },
        Event::Tick => WindowAction::Event(WindowEvent::Continue),
        Event::Kube(k) => WindowAction::UpdateContents(k),
    }
}

/// The change that shows `table`.
pub open spec fn table_change(table: KubeTable) -> Alteration {
    Alteration::Table(texts(table.header@), cells(table.rows@))
}

/// The change that shows an error in place of a table: one column headed
/// `ERROR` with the marked message in its one cell.
pub open spec fn error_change(content: Seq<char>) -> Alteration {
    Alteration::Table(seq!["ERROR"@], seq![seq![error_text(content)]])
}

/// Shows `table` in the table with the given id.
pub fn update_widget_item_for_table(window: &mut Window, id: &str, table: KubeTable)
    requires
        old(window).wf(),
    ensures
        final(window).wf(),
        final(window)@ == old(window)@.changed(id@, table_change(table)),
{
    window.apply(id, Change::Table(table));
}

/// Shows an error in the table with the given id.
pub fn update_widget_item_for_table_for_error(window: &mut Window, id: &str, content: String)
    requires
        old(window).wf(),
    ensures
        final(window).wf(),
        final(window)@ == old(window)@.changed(id@, error_change(content@)),
{
    let mut header: Vec<String> = Vec::new();
    let title: String = String::from_str("ERROR");
    proof {
        lemma_texts_push(header@, title);
    }
    header.push(title);
    let mut row: Vec<String> = Vec::new();
    let cell: String = error_format(content.as_str());
    proof {
        lemma_texts_push(row@, cell);
    }
    row.push(cell);
    let mut rows: Vec<Vec<String>> = Vec::new();
    rows.push(row);
    let table = KubeTable { header, rows };
    proof {
        assert(texts(table.header@) =~= seq!["ERROR"@]);
        assert(texts(row@) =~= seq![error_text(content@)]);
        assert(cells(table.rows@) =~= seq![seq![error_text(content@)]]);
    }
    window.apply(id, Change::Table(table));
}

/// The change that shows `lines` in place of what is shown.
pub open spec fn show_lines(lines: Seq<Seq<char>>) -> Alteration {
    Alteration::Show(Item::Array(lines))
}

/// The window after it took in what the watcher reports.
///
/// - The pods go to the table of pods; where they could not be had, the
///   table shows the error instead.
/// - The configs go to the table of configs.
/// - New lines of the log are added to the log; where the log broke off,
///   the error is added as a line.
/// - Raw data of a config, events and the list of APIs replace what their
///   widgets show.
/// - The namespaces replace what both namespace popups show; in the popup
///   to pick many from, the current namespace is picked where nothing is.
/// - The APIs to choose from replace what the popup of APIs shows.
/// - Anything else leaves the window as it is.
pub open spec fn contents_after(w: WindowModel, ev: Kube, namespace: Seq<char>) -> WindowModel {
    match ev {
        Kube::Pod(Ok(table)) => w.changed(view_id::tab_pods_widget_pods@, table_change(table)),
        Kube::Pod(Err(e)) => w.changed(view_id::tab_pods_widget_pods@, error_change(e@)),
        Kube::Configs(table) => w.changed(
            view_id::tab_configs_widget_configs@,
            table_change(table),
        ),
        Kube::LogStreamResponse(Ok(lines)) => w.changed(
            view_id::tab_pods_widget_logs@,
            Alteration::Add(Item::Array(texts(lines@))),
        ),
        Kube::LogStreamResponse(Err(e)) => w.changed(
            view_id::tab_pods_widget_logs@,
            Alteration::Add(Item::Array(seq![error_text(e@)])),
        ),
        Kube::ConfigResponse(raw) => w.changed(
            view_id::tab_configs_widget_raw_data@,
            show_lines(texts(raw@)),
        ),
        Kube::Event(lines) => w.changed(view_id::tab_event_widget_event@, show_lines(texts(lines@))),
        Kube::APIsResults(apis) => w.changed(
            view_id::tab_apis_widget_apis@,
            show_lines(texts(apis@)),
        ),
        Kube::GetNamespacesResponse(ns) => w.changed(
            view_id::subwin_ns@,
            show_lines(texts(ns@)),
        ).changed(view_id::subwin_single_ns@, show_lines(texts(ns@))).changed(
            view_id::subwin_ns@,
            Alteration::Pick(namespace),
        ),
        Kube::GetAPIsResponse(apis) => w.changed(view_id::subwin_apis@, show_lines(texts(apis@))),
        _ => w,
    }
}

/// Takes what the watcher reports into the window. The report of the
/// current context and namespace goes into `current_context`,
/// `current_namespace` and `selected_namespace`, which any other report
/// leaves as they are.
pub fn update_contents(
    window: &mut Window,
    ev: Kube,
    current_context: &mut String,
    current_namespace: &mut String,
    selected_namespace: &mut Vec<String>,
)
    requires
        old(window).wf(),
    ensures
        final(window).wf(),
        final(window)@ == contents_after(old(window)@, ev, old(current_namespace)@),
        match ev {
            Kube::GetCurrentContextResponse(ctx, ns) => {
                &&& final(current_context)@ == ctx@
                &&& final(current_namespace)@ == ns@
                &&& texts(final(selected_namespace)@) == seq![ns@]
            },
            _ => {
                &&& final(current_context)@ == old(current_context)@
                &&& final(current_namespace)@ == old(current_namespace)@
                &&& texts(final(selected_namespace)@) == texts(old(selected_namespace)@)
            },
        },
{
    match ev {
        Kube::Pod(Ok(table)) => {
            update_widget_item_for_table(window, view_id::tab_pods_widget_pods, table);
        },
        Kube::Pod(Err(e)) => {
            update_widget_item_for_table_for_error(window, view_id::tab_pods_widget_pods, e);
        },
        Kube::Configs(table) => {
            update_widget_item_for_table(window, view_id::tab_configs_widget_configs, table);
        },
        Kube::LogStreamResponse(Ok(lines)) => {
            window.apply(view_id::tab_pods_widget_logs, Change::Add(WidgetItem::Array(lines)));
        },
        Kube::LogStreamResponse(Err(e)) => {
            let mut lines: Vec<String> = Vec::new();
            let line: String = error_format(e.as_str());
            proof {
                lemma_texts_push(lines@, line);
            }
            lines.push(line);
            assert(texts(lines@) =~= seq![error_text(e@)]);
            window.apply(view_id::tab_pods_widget_logs, Change::Add(WidgetItem::Array(lines)));
        },
        Kube::ConfigResponse(raw) => {
            window.apply(view_id::tab_configs_widget_raw_data, Change::Show(WidgetItem::Array(raw)));
        },
        Kube::GetCurrentContextResponse(ctx, ns) => {
            *current_context = ctx;
            *current_namespace = ns.clone();
            let mut selected: Vec<String> = Vec::new();
            proof {
                lemma_texts_push(selected@, ns);
            }
            selected.push(ns);
            assert(texts(selected@) =~= seq![ns@]);
            *selected_namespace = selected;
        },
        Kube::Event(lines) => {
            window.apply(view_id::tab_event_widget_event, Change::Show(WidgetItem::Array(lines)));
        },
        Kube::APIsResults(apis) => {
            window.apply(view_id::tab_apis_widget_apis, Change::Show(WidgetItem::Array(apis)));
        },
        Kube::GetNamespacesResponse(ns) => {
            let copy: Vec<String> = clone_texts(&ns);
            window.apply(view_id::subwin_ns, Change::Show(WidgetItem::Array(copy)));
            window.apply(view_id::subwin_single_ns, Change::Show(WidgetItem::Array(ns)));
            window.apply(view_id::subwin_ns, Change::Pick(current_namespace.clone()));
        },
        Kube::GetAPIsResponse(apis) => {
            window.apply(view_id::subwin_apis, Change::Show(WidgetItem::Array(apis)));
        },
        _ => {},
    }
}

} // verus!
