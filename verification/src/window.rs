//! The window: tabs, and at most one popup that is open above them.
//!
//! While a popup is open, every key and every mouse event goes to the
//! popup and to nothing else. Without a popup they go to the tab that is
//! shown; a key that means nothing to it may move the focus or change the
//! tab.

use crate::event::{EventResult, KeyCode, KeyEvent, MouseEvent, UserEvent, WindowEvent};
use crate::layout::{placed_slots, Placement};
use crate::rect::{centered, child_window_chunk, Rect};
use crate::tab::{assigned, find_id, models, Tab, TabModel};
use crate::widget::{after_key, after_mouse, changed, Alteration, Change, Widget, WidgetModel};
use vstd::prelude::*;

verus! {

/// The mathematical value of a `Window`.
pub ghost struct WindowModel {
    pub tabs: Seq<TabModel>,
    /// The tab that is shown.
    pub active_tab: nat,
    pub popups: Seq<WidgetModel>,
    /// The popup that is open.
    pub open_popup: Option<usize>,
    /// What the user can do, each with the number of the action that it
    /// asks for.
    pub bindings: Seq<(UserEvent, usize)>,
}

/// The window: tabs of which one is shown, popups of which one may be
/// open, and the actions that events are bound to.
pub struct Window {
    tabs: Vec<Tab>,
    active_tab_index: usize,
    popups: Vec<Widget>,
    open_popup_index: Option<usize>,
    actions: Vec<(UserEvent, usize)>,
}

/// The first position at or after `from` at which `bindings` holds `ev`,
/// or the length of `bindings`.
pub open spec fn find_binding(bindings: Seq<(UserEvent, usize)>, ev: UserEvent, from: int) -> int
    decreases bindings.len() - from,
{
    if 0 <= from < bindings.len() && bindings[from].0 != ev {
        find_binding(bindings, ev, from + 1)
    } else {
        from
    }
}

/// The values of the tabs `tabs`.
pub open spec fn tab_models(tabs: Seq<Tab>) -> Seq<TabModel> {
    Seq::new(tabs.len(), |i: int| tabs[i]@)
}

/// The tab that the key of a digit asks for: `1` the first, `9` the ninth.
pub open spec fn tab_of_key(code: KeyCode) -> Option<nat> {
    match code {
        KeyCode::Char(c) => if '1' <= c <= '9' {
            Some((c as u32 - '1' as u32) as nat)
        } else {
            None
        },
        _ => None,
    }
}

impl WindowModel {
    pub open spec fn valid(self) -> bool {
        &&& forall|i: int| 0 <= i < self.tabs.len() ==> (#[trigger] self.tabs[i]).valid()
        &&& (self.tabs.len() == 0 ==> self.active_tab == 0)
        &&& (self.tabs.len() > 0 ==> self.active_tab < self.tabs.len())
        &&& (self.open_popup is Some ==> self.open_popup->0 < self.popups.len())
    }

    /// The window with the popup of the given id open, in place of any
    /// that was open; the window as it is where there is no such popup.
    pub open spec fn opened(self, id: Seq<char>) -> WindowModel {
        let i = find_id(self.popups, id, 0);
        if i < self.popups.len() {
            WindowModel { open_popup: Some(i as usize), ..self }
        } else {
            self
        }
    }

    pub open spec fn closed(self) -> WindowModel {
        WindowModel { open_popup: None, ..self }
    }

    /// The window with the tab at `index` shown, if there is such a tab.
    pub open spec fn with_tab(self, index: nat) -> WindowModel {
        if index < self.tabs.len() {
            WindowModel { active_tab: index, ..self }
        } else {
            self
        }
    }

    /// The window after a key that meant nothing to the tab that is
    /// shown, and what the key came to: the tab key moves the focus on,
    /// the back tab key moves it back, a digit shows the tab of that
    /// number; any other key is ignored.
    pub open spec fn after_unused_key(self, key: KeyEvent) -> (WindowModel, EventResult) {
        let a = self.active_tab as int;
        if key.code == KeyCode::Tab {
            (WindowModel { tabs: self.tabs.update(a, self.tabs[a].next()), ..self }, EventResult::Nop)
        } else if key.code == KeyCode::BackTab {
            (WindowModel { tabs: self.tabs.update(a, self.tabs[a].prev()), ..self }, EventResult::Nop)
        } else {
            match tab_of_key(key.code) {
                Some(n) => (self.with_tab(n), EventResult::Nop),
                None => (self, EventResult::Ignore),
            }
        }
    }

    /// The window after a key, and what the key came to.
    pub open spec fn after_key(self, key: KeyEvent) -> (WindowModel, EventResult) {
        match self.open_popup {
            Some(p) => {
                let (w, r) = after_key(self.popups[p as int], key);
                (WindowModel { popups: self.popups.update(p as int, w), ..self }, r)
            },
            None => if self.tabs.len() == 0 {
                (self, EventResult::Ignore)
            } else {
                let a = self.active_tab as int;
                let (t, r) = self.tabs[a].after_key(key);
                let handed = WindowModel { tabs: self.tabs.update(a, t), ..self };
                if r == EventResult::Ignore {
                    handed.after_unused_key(key)
                } else {
                    (handed, r)
                }
            },
        }
    }

    /// The window after a mouse event, and what the event came to.
    pub open spec fn after_mouse(self, ev: MouseEvent) -> (WindowModel, EventResult) {
        match self.open_popup {
            Some(p) => {
                let (w, r) = after_mouse(self.popups[p as int], ev);
                (WindowModel { popups: self.popups.update(p as int, w), ..self }, r)
            },
            None => if self.tabs.len() == 0 {
                (self, EventResult::Ignore)
            } else {
                let a = self.active_tab as int;
                let (t, r) = self.tabs[a].after_mouse(ev);
                (WindowModel { tabs: self.tabs.update(a, t), ..self }, r)
            },
        }
    }

    /// The window after something the user did, and what it came to. A
    /// new size changes nothing by itself: it is passed on to the main
    /// loop.
    pub open spec fn after_event(self, ev: UserEvent) -> (WindowModel, EventResult) {
        match ev {
            UserEvent::Key(key) => self.after_key(key),
            UserEvent::Mouse(mouse) => self.after_mouse(mouse),
            UserEvent::Resize(w, h) => (self, EventResult::Window(WindowEvent::ResizeWindow(w, h))),
        }
    }
}

/// While a popup is open, no event changes a tab, and closing the popup
/// leaves the tabs as they were before it was opened.
pub proof fn lemma_popup_takes_all(w: WindowModel, ev: UserEvent)
    requires
        w.open_popup is Some,
    ensures
        w.after_event(ev).0.tabs == w.tabs,
        w.after_event(ev).0.active_tab == w.active_tab,
        w.after_event(ev).0.open_popup == w.open_popup,
        w.after_event(ev).0.closed().tabs == w.tabs,
{
}

/// Opening a popup while another is open leaves only the new one open.
pub proof fn lemma_open_replaces(w: WindowModel, first: Seq<char>, second: Seq<char>)
    requires
        find_id(w.popups, second, 0) < w.popups.len(),
    ensures
        w.opened(first).opened(second) == w.opened(second),
{
}

impl View for Window {
    type V = WindowModel;

    closed spec fn view(&self) -> WindowModel {
        WindowModel {
            tabs: tab_models(self.tabs@),
            active_tab: self.active_tab_index as nat,
            popups: models(self.popups@),
            open_popup: self.open_popup_index,
            bindings: self.actions@,
        }
    }
}

impl Window {
    pub closed spec fn wf(&self) -> bool {
        &&& forall|i: int| 0 <= i < self.tabs@.len() ==> (#[trigger] self.tabs@[i]).wf()
        &&& forall|i: int| 0 <= i < self.popups@.len() ==> (#[trigger] self.popups@[i]).wf()
        &&& (self.tabs@.len() == 0 ==> self.active_tab_index == 0)
        &&& (self.tabs@.len() > 0 ==> self.active_tab_index < self.tabs@.len())
        &&& (self.open_popup_index is Some ==> self.open_popup_index->0 < self.popups@.len())
    }

    /// A window that shows its first tab and has no popup open.
    pub fn new(tabs: Vec<Tab>, popups: Vec<Widget>) -> (r: Window)
        requires
            forall|i: int| 0 <= i < tabs@.len() ==> (#[trigger] tabs@[i]).wf(),
            forall|i: int| 0 <= i < popups@.len() ==> (#[trigger] popups@[i]).wf(),
        ensures
            r.wf(),
            r@ == (WindowModel {
                tabs: tab_models(tabs@),
                active_tab: 0,
                popups: models(popups@),
                open_popup: None,
                bindings: seq![],
            }),
    {
        Window { tabs, active_tab_index: 0, popups, open_popup_index: None, actions: Vec::new() }
    }

    /// Binds `ev` to the action with the number `action`. Where `ev` is
    /// bound already, the earlier binding stays in force.
    pub fn add_action(&mut self, ev: UserEvent, action: usize)
        requires
            old(self).wf(),
        ensures
            final(self).wf(),
            final(self)@ == (WindowModel {
                bindings: old(self)@.bindings.push((ev, action)),
                ..old(self)@
            }),
    {
        self.actions.push((ev, action));
    }

    /// The action that `ev` is bound to, if it is bound.
    pub fn match_callback(&self, ev: UserEvent) -> (r: Option<usize>)
        ensures
            match r {
                Some(action) => find_binding(self@.bindings, ev, 0) < self@.bindings.len()
                    && action == self@.bindings[find_binding(self@.bindings, ev, 0)].1,
                None => find_binding(self@.bindings, ev, 0) >= self@.bindings.len(),
            },
    {
        let mut i: usize = 0;
        while i < self.actions.len()
            invariant
                i <= self.actions.len(),
                find_binding(self@.bindings, ev, 0) == find_binding(self@.bindings, ev, i as int),
            decreases self.actions.len() - i,
        {
            if self.actions[i].0 == ev {
                return Some(self.actions[i].1);
            }
            i += 1;
        }
        None
    }

    pub fn tabs(&self) -> (r: &Vec<Tab>)
        ensures
            tab_models(r@) == self@.tabs,
    {
        &self.tabs
    }

    pub fn popups(&self) -> (r: &Vec<Widget>)
        ensures
            models(r@) == self@.popups,
    {
        &self.popups
    }

    pub fn active_tab_index(&self) -> (r: usize)
        ensures
            r == self@.active_tab,
    {
        self.active_tab_index
    }

    pub fn open_popup_index(&self) -> (r: Option<usize>)
        ensures
            r == self@.open_popup,
    {
        self.open_popup_index
    }

    /// Shows the tab at `index`, if there is such a tab.
    pub fn activate_tab(&mut self, index: usize)
        requires
            old(self).wf(),
        ensures
            final(self).wf(),
            final(self)@ == old(self)@.with_tab(index as nat),
    {
        if index < self.tabs.len() {
            self.active_tab_index = index;
        }
    }

    /// Opens the popup with the given id, in place of any that is open.
    pub fn open_popup(&mut self, id: &str)
        requires
            old(self).wf(),
        ensures
            final(self).wf(),
            final(self)@ == old(self)@.opened(id@),
    {
        let key: String = id.to_owned();
        let mut i: usize = 0;
        while i < self.popups.len()
            invariant
                i <= self.popups.len(),
                key@ == id@,
                *self == *old(self),
                self.wf(),
                find_id(self@.popups, id@, 0) == find_id(self@.popups, id@, i as int),
            decreases self.popups.len() - i,
        {
            if self.popups[i].id == key {
                self.open_popup_index = Some(i);
                proof {
                    assert(self.popups == old(self).popups);
                    assert(self.tabs == old(self).tabs);
                }
                return ;
            }
            i += 1;
        }
    }

    /// Closes the popup, if one is open.
    pub fn close_popup(&mut self)
        requires
            old(self).wf(),
        ensures
            final(self).wf(),
            final(self)@ == old(self)@.closed(),
    {
        self.open_popup_index = None;
    }
}

fn key_tab(code: KeyCode) -> (r: Option<usize>)
    ensures
        match r {
            Some(n) => tab_of_key(code) == Some(n as nat),
            None => tab_of_key(code) is None,
        },
{
    match code {
        KeyCode::Char(c) => if '1' <= c && c <= '9' {
            Some((c as u32 - '1' as u32) as usize)
        } else {
            None
        },
        _ => None,
    }
}

impl Window {
    /// Hands a key to the window.
    pub fn on_key_event(&mut self, key: KeyEvent) -> (r: EventResult)
        requires
            old(self).wf(),
        ensures
            final(self).wf(),
            (final(self)@, r) == old(self)@.after_key(key),
    {
        match self.open_popup_index {
            Some(p) => {
                let ghost before = self.popups@;
                let r: EventResult = self.popups[p].on_key_event(key);
                proof {
                    assert(self.popups@ =~= before.update(p as int, self.popups@[p as int]));
                    assert(models(self.popups@) =~= models(before).update(
                        p as int,
                        self.popups@[p as int]@,
                    ));
                    assert forall|i: int| 0 <= i < self.popups@.len() implies (
                    #[trigger] self.popups@[i]).wf() by {
                        if i != p {
                            assert(self.popups@[i] == before[i]);
                        }
                    }
                }
                r
            },
            None => {
                if self.tabs.len() == 0 {
                    return EventResult::Ignore;
                }
                let a: usize = self.active_tab_index;
                let ghost before = self.tabs@;
                let r: EventResult = self.tabs[a].on_key_event(key);
                proof {
                    self.note_tab_changed(before, a);
                }
                match r {
                    EventResult::Ignore => {},
                    _ => {
                        return r;
                    },
                }
                let ghost handed = self.tabs@;
                match key.code {
                    KeyCode::Tab => {
                        self.tabs[a].activate_next_widget();
                        proof {
                            self.note_tab_changed(handed, a);
                        }
                        EventResult::Nop
                    },
                    KeyCode::BackTab => {
                        self.tabs[a].activate_prev_widget();
                        proof {
                            self.note_tab_changed(handed, a);
                        }
                        EventResult::Nop
                    },
                    _ => match key_tab(key.code) {
                        Some(n) => {
                            self.activate_tab(n);
                            EventResult::Nop
                        },
                        None => EventResult::Ignore,
                    },
                }
            },
        }
    }

    /// What follows when one tab was changed and nothing else.
    proof fn note_tab_changed(&self, before: Seq<Tab>, a: usize)
        requires
            a < before.len(),
            self.tabs@ =~= before.update(a as int, self.tabs@[a as int]),
            self.tabs@[a as int].wf(),
            forall|i: int| 0 <= i < before.len() ==> (#[trigger] before[i]).wf(),
        ensures
            tab_models(self.tabs@) == tab_models(before).update(a as int, self.tabs@[a as int]@),
            forall|i: int| 0 <= i < self.tabs@.len() ==> (#[trigger] self.tabs@[i]).wf(),
    {
        assert(tab_models(self.tabs@) =~= tab_models(before).update(
            a as int,
            self.tabs@[a as int]@,
        ));
        assert forall|i: int| 0 <= i < self.tabs@.len() implies (#[trigger] self.tabs@[i]).wf() by {
            if i != a {
                assert(self.tabs@[i] == before[i]);
            }
        }
    }

    /// Hands a mouse event to the window.
    pub fn on_mouse_event(&mut self, ev: MouseEvent) -> (r: EventResult)
        requires
            old(self).wf(),
        ensures
            final(self).wf(),
            (final(self)@, r) == old(self)@.after_mouse(ev),
    {
        match self.open_popup_index {
            Some(p) => {
                let ghost before = self.popups@;
                let r: EventResult = self.popups[p].on_mouse_event(ev);
                proof {
                    assert(self.popups@ =~= before.update(p as int, self.popups@[p as int]));
                    assert(models(self.popups@) =~= models(before).update(
                        p as int,
                        self.popups@[p as int]@,
                    ));
                    assert forall|i: int| 0 <= i < self.popups@.len() implies (
                    #[trigger] self.popups@[i]).wf() by {
                        if i != p {
                            assert(self.popups@[i] == before[i]);
                        }
                    }
                }
                r
            },
            None => {
                if self.tabs.len() == 0 {
                    return EventResult::Ignore;
                }
                let a: usize = self.active_tab_index;
                let ghost before = self.tabs@;
                let r: EventResult = self.tabs[a].on_mouse_event(ev);
                proof {
                    self.note_tab_changed(before, a);
                }
                r
            },
        }
    }

    /// Hands what the user did to the window.
    pub fn on_event(&mut self, ev: UserEvent) -> (r: EventResult)
        requires
            old(self).wf(),
        ensures
            final(self).wf(),
            (final(self)@, r) == old(self)@.after_event(ev),
    {
        match ev {
            UserEvent::Key(key) => self.on_key_event(key),
            UserEvent::Mouse(mouse) => self.on_mouse_event(mouse),
            UserEvent::Resize(w, h) => EventResult::Window(WindowEvent::ResizeWindow(w, h)),
        }
    }
}

/// Where a widget of the window is.
#[derive(Clone, Copy, Debug, PartialEq, Eq, Structural)]
pub enum Place {
    /// In the tab with the first number, in the slot with the second.
    InTab(usize, usize),
    /// Among the popups, at this position.
    Popup(usize),
}

/// The first tab at or after `from` that has a widget with the given id,
/// or the number of tabs.
pub open spec fn find_tab_with(tabs: Seq<TabModel>, id: Seq<char>, from: int) -> int
    decreases tabs.len() - from,
{
    if 0 <= from < tabs.len() && find_id(tabs[from].widgets, id, 0) >= tabs[from].widgets.len() {
        find_tab_with(tabs, id, from + 1)
    } else {
        from
    }
}

impl WindowModel {
    /// Where the widget with the given id is: in the first tab that has
    /// one, else among the popups.
    pub open spec fn place_of(self, id: Seq<char>) -> Option<Place> {
        let t = find_tab_with(self.tabs, id, 0);
        if t < self.tabs.len() {
            Some(Place::InTab(t as usize, find_id(self.tabs[t].widgets, id, 0) as usize))
        } else {
            let p = find_id(self.popups, id, 0);
            if p < self.popups.len() {
                Some(Place::Popup(p as usize))
            } else {
                None
            }
        }
    }

    /// The widget at `place`.
    pub open spec fn widget_at(self, place: Place) -> WidgetModel {
        match place {
            Place::InTab(t, s) => self.tabs[t as int].widgets[s as int],
            Place::Popup(p) => self.popups[p as int],
        }
    }

    /// The window with `w` at `place`.
    pub open spec fn with_widget(self, place: Place, w: WidgetModel) -> WindowModel {
        match place {
            Place::InTab(t, s) => WindowModel {
                tabs: self.tabs.update(
                    t as int,
                    TabModel {
                        widgets: self.tabs[t as int].widgets.update(s as int, w),
                        ..self.tabs[t as int]
                    },
                ),
                ..self
            },
            Place::Popup(p) => WindowModel { popups: self.popups.update(p as int, w), ..self },
        }
    }

    /// The window after `change` was done to what the widget with the
    /// given id holds. Nothing changes where there is no such widget.
    pub open spec fn changed(self, id: Seq<char>, change: Alteration) -> WindowModel {
        match self.place_of(id) {
            Some(place) => {
                let w = self.widget_at(place);
                self.with_widget(
                    place,
                    WidgetModel { content: changed(w.content, change, w.chunk), ..w },
                )
            },
            None => self,
        }
    }
}

impl Window {
    /// Where the widget with the given id is, if there is one.
    pub fn find_widget_place(&self, id: &str) -> (r: Option<Place>)
        ensures
            r == self@.place_of(id@),
            match r {
                Some(Place::InTab(t, s)) => t < self@.tabs.len() && s
                    < self@.tabs[t as int].widgets.len(),
                Some(Place::Popup(p)) => p < self@.popups.len(),
                None => true,
            },
    {
        let mut t: usize = 0;
        while t < self.tabs.len()
            invariant
                t <= self.tabs.len(),
                find_tab_with(self@.tabs, id@, 0) == find_tab_with(self@.tabs, id@, t as int),
            decreases self.tabs.len() - t,
        {
            match self.tabs[t].find_widget_index(id) {
                Some(s) => {
                    return Some(Place::InTab(t, s));
                },
                None => {},
            }
            t += 1;
        }
        let key: String = id.to_owned();
        let mut p: usize = 0;
        while p < self.popups.len()
            invariant
                p <= self.popups.len(),
                key@ == id@,
                find_tab_with(self@.tabs, id@, 0) >= self@.tabs.len(),
                find_id(self@.popups, id@, 0) == find_id(self@.popups, id@, p as int),
            decreases self.popups.len() - p,
        {
            if self.popups[p].id == key {
                return Some(Place::Popup(p));
            }
            p += 1;
        }
        None
    }

    /// The widget with the given id, if there is one.
    pub fn find_widget(&self, id: &str) -> (r: Option<&Widget>)
        ensures
            r is Some == self@.place_of(id@) is Some,
            r is Some ==> r->0@ == self@.widget_at(self@.place_of(id@)->0),
    {
        match self.find_widget_place(id) {
            Some(Place::InTab(t, s)) => {
                let ws: &Vec<Widget> = self.tabs[t].as_ref_widgets();
                assert(models(ws@)[s as int] == ws@[s as int]@);
                Some(&ws[s])
            },
            Some(Place::Popup(p)) => Some(&self.popups[p]),
            None => None,
        }
    }

    /// Does `change` to what the widget with the given id holds. Nothing
    /// changes where there is no such widget.
    pub fn apply(&mut self, id: &str, change: Change)
        requires
            old(self).wf(),
        ensures
            final(self).wf(),
            final(self)@ == old(self)@.changed(id@, change@),
    {
        match self.find_widget_place(id) {
            Some(Place::InTab(t, s)) => {
                let ghost before = self.tabs@;
                self.tabs[t].apply(s, change);
                proof {
                    self.note_tab_changed(before, t);
                }
            },
            Some(Place::Popup(p)) => {
                let ghost before = self.popups@;
                self.popups[p].apply(change);
                proof {
                    self.note_popup_changed(before, p);
                }
            },
            None => {},
        }
    }

    /// What follows when one popup was changed and nothing else.
    proof fn note_popup_changed(&self, before: Seq<Widget>, p: usize)
        requires
            p < before.len(),
            self.popups@ =~= before.update(p as int, self.popups@[p as int]),
            self.popups@[p as int].wf(),
            forall|i: int| 0 <= i < before.len() ==> (#[trigger] before[i]).wf(),
        ensures
            models(self.popups@) == models(before).update(p as int, self.popups@[p as int]@),
            forall|i: int| 0 <= i < self.popups@.len() ==> (#[trigger] self.popups@[i]).wf(),
    {
        assert(models(self.popups@) =~= models(before).update(p as int, self.popups@[p as int]@));
        assert forall|i: int| 0 <= i < self.popups@.len() implies (
        #[trigger] self.popups@[i]).wf() by {
            if i != p {
                assert(self.popups@[i] == before[i]);
            }
        }
    }
}

/// Whether `after` is `before` put into the area `chunk`: each widget that
/// a leaf of the layout names is in an area that the layout gave it, and
/// nothing else has changed.
pub open spec fn tab_placed(before: Tab, after: Tab, chunk: Rect) -> bool {
    &&& after.description() == before.description()
    &&& exists|placements: Seq<Placement>|
        before.description().places_in(before@.direction, chunk, placements) && placed_slots(
            placements,
        ) == before.leaf_slots() && after@ == (TabModel {
            chunk,
            widgets: #[trigger] assigned(before@.widgets, placements),
            ..before@
        })
}

impl Window {
    /// The tabs of the window.
    pub closed spec fn spec_tabs(&self) -> Seq<Tab> {
        self.tabs@
    }

    /// Puts the window into the area `chunk`: every tab takes all of it,
    /// and every popup the middle of it, four fifths each way.
    pub fn update_chunks(&mut self, chunk: Rect)
        requires
            old(self).wf(),
        ensures
            final(self).wf(),
            final(self)@.active_tab == old(self)@.active_tab,
            final(self)@.open_popup == old(self)@.open_popup,
            final(self)@.bindings == old(self)@.bindings,
            final(self)@.tabs.len() == old(self)@.tabs.len(),
            final(self)@.popups.len() == old(self)@.popups.len(),
            final(self).spec_tabs().len() == old(self).spec_tabs().len(),
            forall|i: int|
                0 <= i < old(self).spec_tabs().len() ==> tab_placed(
                    old(self).spec_tabs()[i],
                    #[trigger] final(self).spec_tabs()[i],
                    chunk,
                ),
            forall|i: int|
                0 <= i < old(self)@.popups.len() ==> #[trigger] final(self)@.popups[i]
                    == (WidgetModel { chunk: centered(80, 80, chunk), ..old(self)@.popups[i] }),
    {
        let mut t: usize = 0;
        while t < self.tabs.len()
            invariant
                t <= self.tabs.len(),
                self.wf(),
                self.tabs@.len() == old(self).tabs@.len(),
                self.popups == old(self).popups,
                self.active_tab_index == old(self).active_tab_index,
                self.open_popup_index == old(self).open_popup_index,
                self.actions == old(self).actions,
                forall|i: int|
                    0 <= i < t ==> tab_placed(old(self).tabs@[i], #[trigger] self.tabs@[i], chunk),
                forall|i: int| t <= i < self.tabs@.len() ==> self.tabs@[i] == old(self).tabs@[i],
            decreases self.tabs.len() - t,
        {
            let ghost before = self.tabs@;
            self.tabs[t].update_chunk(chunk);
            proof {
                assert(self.tabs@ =~= before.update(t as int, self.tabs@[t as int]));
                self.note_tab_changed(before, t);
                assert forall|i: int| 0 <= i < t + 1 implies tab_placed(
                    old(self).tabs@[i],
                    #[trigger] self.tabs@[i],
                    chunk,
                ) by {
                    if i < t {
                        assert(self.tabs@[i] == before[i]);
                    }
                }
            }
            t += 1;
        }
        let ghost placed_tabs = self.tabs@;
        let area: Rect = child_window_chunk(80, 80, chunk);
        let mut p: usize = 0;
        while p < self.popups.len()
            invariant
                p <= self.popups.len(),
                self.wf(),
                self.tabs@ == placed_tabs,
                self.popups@.len() == old(self).popups@.len(),
                self.active_tab_index == old(self).active_tab_index,
                self.open_popup_index == old(self).open_popup_index,
                self.actions == old(self).actions,
                area == centered(80, 80, chunk),
                forall|i: int|
                    0 <= i < p ==> (#[trigger] self.popups@[i])@ == (WidgetModel {
                        chunk: area,
                        ..old(self).popups@[i]@
                    }),
                forall|i: int| p <= i < self.popups@.len() ==> self.popups@[i] == old(self).popups@[i],
            decreases self.popups.len() - p,
        {
            let ghost before = self.popups@;
            self.popups[p].update_chunk(area);
            proof {
                assert(self.popups@ =~= before.update(p as int, self.popups@[p as int]));
                self.note_popup_changed(before, p);
                assert forall|i: int| 0 <= i < p + 1 implies (#[trigger] self.popups@[i])@ == (
                WidgetModel { chunk: area, ..old(self).popups@[i]@ }) by {
                    if i < p {
                        assert(self.popups@[i] == before[i]);
                    }
                }
            }
            p += 1;
        }
        proof {
            assert forall|i: int| 0 <= i < old(self)@.popups.len() implies #[trigger] self@.popups[i]
                == (WidgetModel { chunk: centered(80, 80, chunk), ..old(self)@.popups[i] }) by {
                assert(self@.popups[i] == self.popups@[i]@);
                assert(old(self)@.popups[i] == old(self).popups@[i]@);
            }
        }
    }
}

} // verus!
