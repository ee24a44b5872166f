//! A tab: widgets, their layout, and which of them has the focus.
//!
//! The focus goes round among the widgets that can take it. The mouse
//! gives the focus to the widget that is pressed on and marks the widget
//! that it moves over; what it does beyond that is the business of the
//! widget that has the focus.

use crate::event::{EventResult, KeyEvent, MouseButton, MouseEvent, MouseEventKind};
use crate::layout::{placed_slots, strips_span, Direction, NestedWidgetLayout, Placement};
use crate::rect::Rect;
use crate::widget::{after_key, after_mouse, changed, Change, Widget, WidgetModel};
use vstd::prelude::*;

verus! {

/// The layout of a tab: a description of how the area is divided, and the
/// direction along which its root divides at present.
pub struct TabLayout {
    description: NestedWidgetLayout,
    current_direction: Direction,
}

impl TabLayout {
    pub closed spec fn description(&self) -> NestedWidgetLayout {
        self.description
    }

    pub closed spec fn direction(&self) -> Direction {
        self.current_direction
    }

    pub fn new(description: NestedWidgetLayout, direction: Direction) -> (r: TabLayout)
        ensures
            r.description() == description,
            r.direction() == direction,
    {
        TabLayout { description, current_direction: direction }
    }

    /// Turns the root of the layout to the other direction.
    pub fn toggle_split_direction(&mut self)
        ensures
            final(self).description() == old(self).description(),
            final(self).direction() == old(self).direction().flipped(),
    {
        self.current_direction = self.current_direction.toggle();
    }

    /// For each leaf of the layout that gets an area, its slot and that
    /// area, from the first leaf to the last.
    pub fn placements(&self, chunk: Rect) -> (r: Vec<Placement>)
        ensures
            placed_slots(r@) == self.description().leaf_slots(),
            self.description().places_in(self.direction(), chunk, r@),
    {
        let mut out: Vec<Placement> = Vec::new();
        self.description.place_in(self.current_direction, chunk, &mut out);
        assert(placed_slots(Seq::<Placement>::empty()) + self.description().leaf_slots()
            =~= self.description().leaf_slots());
        assert(out@.skip(0) =~= out@);
        out
    }

    /// The strips that the root of the layout divides `chunk` into.
    pub fn split(&self, chunk: Rect) -> (r: Vec<Rect>)
        ensures
            r@.len() == self.description().spec_weights().len(),
            strips_span(r@, self.direction(), chunk),
    {
        self.description.direction_split(self.current_direction, chunk)
    }
}

/// The mathematical value of a `Tab`.
pub ghost struct TabModel {
    pub id: Seq<char>,
    pub title: Seq<char>,
    pub chunk: Rect,
    pub direction: Direction,
    pub widgets: Seq<WidgetModel>,
    /// The slots of the widgets that can take the focus.
    pub activatable: Seq<usize>,
    /// Which of `activatable` has the focus.
    pub active: nat,
    /// The slot of the widget that the mouse is over.
    pub hover: Option<usize>,
}

/// The first position at or after `from` at which `slots` holds `slot`,
/// or the length of `slots`.
pub open spec fn find_slot(slots: Seq<usize>, slot: usize, from: int) -> int
    decreases slots.len() - from,
{
    if 0 <= from < slots.len() && slots[from] != slot {
        find_slot(slots, slot, from + 1)
    } else {
        from
    }
}

/// The first widget at or after `from` whose area holds the cell, or the
/// number of widgets.
pub open spec fn find_hit(widgets: Seq<WidgetModel>, column: int, row: int, from: int) -> int
    decreases widgets.len() - from,
{
    if 0 <= from < widgets.len() && !widgets[from].chunk.contains(column, row) {
        find_hit(widgets, column, row, from + 1)
    } else {
        from
    }
}

/// The first widget at or after `from` with the given id, or the number of
/// widgets.
pub open spec fn find_id(widgets: Seq<WidgetModel>, id: Seq<char>, from: int) -> int
    decreases widgets.len() - from,
{
    if 0 <= from < widgets.len() && widgets[from].id != id {
        find_id(widgets, id, from + 1)
    } else {
        from
    }
}

/// The slots, in order, of the widgets from `from` on that can take the
/// focus.
pub open spec fn focusable_slots(widgets: Seq<WidgetModel>, upto: int) -> Seq<usize>
    decreases upto,
{
    if upto <= 0 {
        seq![]
    } else if widgets[upto - 1].focusable {
        focusable_slots(widgets, upto - 1).push((upto - 1) as usize)
    } else {
        focusable_slots(widgets, upto - 1)
    }
}

impl TabModel {
    /// Whether the focus and the mark of the mouse are on widgets that are
    /// there.
    pub open spec fn valid(self) -> bool {
        &&& forall|k: int|
            0 <= k < self.activatable.len() ==> #[trigger] self.activatable[k]
                < self.widgets.len()
        &&& (self.activatable.len() == 0 ==> self.active == 0)
        &&& (self.activatable.len() > 0 ==> self.active < self.activatable.len())
        &&& (self.hover is Some ==> self.hover->0 < self.widgets.len())
    }

    /// The slot of the widget that has the focus, if any can have it.
    pub open spec fn active_slot(self) -> Option<usize> {
        if self.activatable.len() > 0 {
            Some(self.activatable[self.active as int])
        } else {
            None
        }
    }

    /// The tab with the focus on the next widget, round to the first
    /// behind the last, and the mouse over none. Nothing changes where no
    /// widget can take the focus.
    pub open spec fn next(self) -> TabModel {
        if self.activatable.len() == 0 {
            self
        } else {
            TabModel {
                active: ((self.active as int + 1) % (self.activatable.len() as int)) as nat,
                hover: None,
                ..self
            }
        }
    }

    /// The tab with the focus on the widget before, round to the last
    /// before the first, and the mouse over none.
    pub open spec fn prev(self) -> TabModel {
        if self.activatable.len() == 0 {
            self
        } else {
            TabModel {
                active: ((self.active as int + self.activatable.len() - 1) % (
                self.activatable.len() as int)) as nat,
                hover: None,
                ..self
            }
        }
    }

    /// The tab with the focus on the widget in `slot` and the mouse over
    /// none, if that widget can take the focus; else the tab as it is.
    pub open spec fn activated(self, slot: usize) -> TabModel {
        let k = find_slot(self.activatable, slot, 0);
        if k < self.activatable.len() {
            TabModel { active: k as nat, hover: None, ..self }
        } else {
            self
        }
    }

    /// The tab with the focus on the first widget with the given id, if
    /// there is one that can take it.
    pub open spec fn activated_by_id(self, id: Seq<char>) -> TabModel {
        let i = find_id(self.widgets, id, 0);
        if i < self.widgets.len() {
            self.activated(i as usize)
        } else {
            self
        }
    }

    /// The tab after the mouse did what it does to the focus and to its
    /// mark, given that it is on the widget in `slot`: a press of the left
    /// button gives that widget the focus unless it has it; a move marks
    /// it.
    pub open spec fn pointed(self, slot: usize, kind: MouseEventKind) -> TabModel {
        if kind == MouseEventKind::Down(MouseButton::Left) {
            if self.active_slot() == Some(slot) {
                self
            } else {
                self.activated(slot)
            }
        } else if kind == MouseEventKind::Moved {
            TabModel { hover: Some(slot), ..self }
        } else {
            self
        }
    }

    /// The tab after a mouse event, and what the event came to. Where the
    /// mouse is on no widget, nothing changes and the event is ignored.
    /// Else the focus and the mark are set, and the event goes to the
    /// widget that then has the focus.
    pub open spec fn after_mouse(self, ev: MouseEvent) -> (TabModel, EventResult) {
        let hit = find_hit(self.widgets, ev.column as int, ev.row as int, 0);
        if hit >= self.widgets.len() {
            (self, EventResult::Ignore)
        } else {
            let t = self.pointed(hit as usize, ev.kind);
            match t.active_slot() {
                Some(slot) => {
                    let (w, r) = after_mouse(t.widgets[slot as int], ev);
                    (TabModel { widgets: t.widgets.update(slot as int, w), ..t }, r)
                },
                None => (t, EventResult::Ignore),
            }
        }
    }

    /// The tab after a key, and what the key came to: the key goes to the
    /// widget that has the focus.
    pub open spec fn after_key(self, key: KeyEvent) -> (TabModel, EventResult) {
        match self.active_slot() {
            Some(slot) => {
                let (w, r) = after_key(self.widgets[slot as int], key);
                (TabModel { widgets: self.widgets.update(slot as int, w), ..self }, r)
            },
            None => (self, EventResult::Ignore),
        }
    }
}

/// Going to the next widget and back leaves the focus where it was.
pub proof fn lemma_next_prev(t: TabModel)
    requires
        t.valid(),
    ensures
        t.next().valid(),
        t.prev().valid(),
        t.next().prev().active == t.active,
        t.prev().next().active == t.active,
{
    let n = t.activatable.len() as int;
    if n > 0 {
        let a = t.active as int;
        if a + 1 < n {
            assert((a + 1) % n == a + 1) by (nonlinear_arith)
                requires
                    0 <= a + 1 < n,
            ;
        } else {
            assert((a + 1) % n == 0) by (nonlinear_arith)
                requires
                    a + 1 == n,
                    n > 0,
            ;
        }
        if a >= 1 {
            assert((a + n - 1) % n == a - 1) by (nonlinear_arith)
                requires
                    1 <= a < n,
            ;
        } else {
            assert((a + n - 1) % n == n - 1) by (nonlinear_arith)
                requires
                    a == 0,
                    n > 0,
            ;
        }
        let b = t.next().active as int;
        let c = t.prev().active as int;
        if b >= 1 {
            assert((b + n - 1) % n == b - 1) by (nonlinear_arith)
                requires
                    1 <= b < n,
            ;
        } else {
            assert((b + n - 1) % n == n - 1) by (nonlinear_arith)
                requires
                    b == 0,
                    n > 0,
            ;
        }
        if c + 1 < n {
            assert((c + 1) % n == c + 1) by (nonlinear_arith)
                requires
                    0 <= c + 1 < n,
            ;
        } else {
            assert((c + 1) % n == 0) by (nonlinear_arith)
                requires
                    c + 1 == n,
                    n > 0,
            ;
        }
    }
}

/// Going on from the last widget that can take the focus leads to the
/// first, going on from any other to the one behind it; where no widget
/// can take the focus, going on changes nothing.
pub proof fn lemma_next_wraps(t: TabModel)
    requires
        t.valid(),
    ensures
        t.activatable.len() == 0 ==> t.next() == t,
        t.activatable.len() > 0 && t.active + 1 == t.activatable.len() ==> t.next().active == 0,
        t.activatable.len() > 0 && t.active + 1 < t.activatable.len() ==> t.next().active
            == t.active + 1,
        t.activatable.len() > 0 ==> t.next().hover is None,
{
    let n = t.activatable.len() as int;
    let a = t.active as int;
    if n > 0 {
        if a + 1 < n {
            assert((a + 1) % n == a + 1) by (nonlinear_arith)
                requires
                    0 <= a + 1 < n,
            ;
        } else {
            assert((a + 1) % n == 0) by (nonlinear_arith)
                requires
                    a + 1 == n,
                    n > 0,
            ;
        }
    }
}

/// A slot that stands among `slots` at `k` is found at or before `k`.
pub proof fn lemma_find_slot(slots: Seq<usize>, slot: usize, from: int, k: int)
    requires
        0 <= from <= k < slots.len(),
        slots[k] == slot,
    ensures
        from <= find_slot(slots, slot, from) <= k,
        slots[find_slot(slots, slot, from)] == slot,
    decreases k - from,
{
    if slots[from] != slot {
        lemma_find_slot(slots, slot, from + 1, k);
    }
}

/// A press of the left button on a widget that can take the focus gives
/// that widget the focus, and the press then goes to that widget and to
/// no other.
pub proof fn lemma_press_moves_focus(t: TabModel, ev: MouseEvent, k: int)
    requires
        t.valid(),
        ev.kind == MouseEventKind::Down(MouseButton::Left),
        0 <= k < t.activatable.len(),
        find_hit(t.widgets, ev.column as int, ev.row as int, 0) == t.activatable[k],
    ensures
        t.after_mouse(ev).0.active_slot() == Some(t.activatable[k]),
        t.after_mouse(ev).0.activatable == t.activatable,
        t.after_mouse(ev).0.widgets == t.widgets.update(
            t.activatable[k] as int,
            after_mouse(t.widgets[t.activatable[k] as int], ev).0,
        ),
        t.after_mouse(ev).1 == after_mouse(t.widgets[t.activatable[k] as int], ev).1,
{
    lemma_find_slot(t.activatable, t.activatable[k], 0, k);
}

/// The mouse on no widget changes nothing, and the event is ignored.
pub proof fn lemma_mouse_outside_is_ignored(t: TabModel, ev: MouseEvent)
    requires
        find_hit(t.widgets, ev.column as int, ev.row as int, 0) >= t.widgets.len(),
    ensures
        t.after_mouse(ev) == (t, EventResult::Ignore),
{
}

/// The values of the widgets `widgets`.
pub open spec fn models(widgets: Seq<Widget>) -> Seq<WidgetModel> {
    Seq::new(widgets.len(), |i: int| widgets[i]@)
}

/// The widgets after each of `placements`, in order, put the widget in its
/// slot into its area.
pub open spec fn assigned(widgets: Seq<WidgetModel>, placements: Seq<Placement>) -> Seq<
    WidgetModel,
>
    decreases placements.len(),
{
    if placements.len() == 0 {
        widgets
    } else {
        let before = assigned(widgets, placements.drop_last());
        let p = placements.last();
        if p.slot < before.len() {
            before.update(p.slot as int, WidgetModel { chunk: p.area, ..before[p.slot as int] })
        } else {
            before
        }
    }
}

/// A tab: widgets, the layout that divides the area of the tab among
/// them, the focus, and the widget that the mouse is over.
pub struct Tab {
    id: String,
    title: String,
    chunk: Rect,
    layout: TabLayout,
    widgets: Vec<Widget>,
    active_widget_index: usize,
    activatable_widget_indices: Vec<usize>,
    mouse_over_widget_index: Option<usize>,
}

impl View for Tab {
    type V = TabModel;

    closed spec fn view(&self) -> TabModel {
        TabModel {
            id: self.id@,
            title: self.title@,
            chunk: self.chunk,
            direction: self.layout.direction(),
            widgets: models(self.widgets@),
            activatable: self.activatable_widget_indices@,
            active: self.active_widget_index as nat,
            hover: self.mouse_over_widget_index,
        }
    }
}

impl Tab {
    /// Into how many strips the root of the layout divides an area.
    pub closed spec fn strips(&self) -> nat {
        self.layout.description().spec_weights().len()
    }

    /// The slots that the leaves of the layout name, from first to last.
    pub open spec fn leaf_slots(&self) -> Seq<usize> {
        self.description().leaf_slots()
    }

    /// The description of the layout of the tab.
    pub closed spec fn description(&self) -> NestedWidgetLayout {
        self.layout.description()
    }

    /// Whether the tab is in order: the focus and the mark of the mouse
    /// are on widgets that are there, every widget is in order, and every
    /// leaf of the layout names a widget.
    pub closed spec fn wf(&self) -> bool {
        &&& self@.valid()
        &&& forall|i: int| 0 <= i < self.widgets@.len() ==> (#[trigger] self.widgets@[i]).wf()
        &&& self.layout.description().valid_for(self.widgets@.len() as nat)
    }

    /// What `wf` says of the value of the tab.
    pub proof fn lemma_wf(&self)
        requires
            self.wf(),
        ensures
            self@.valid(),
            forall|k: int|
                0 <= k < self.leaf_slots().len() ==> #[trigger] self.leaf_slots()[k]
                    < self@.widgets.len(),
    {
    }

    /// A tab of the given widgets with the focus on the first of them
    /// that can take it. Every leaf of the layout must name one of the
    /// widgets.
    pub fn new(id: &str, title: &str, widgets: Vec<Widget>, layout: TabLayout) -> (r: Tab)
        requires
            forall|i: int| 0 <= i < widgets@.len() ==> (#[trigger] widgets@[i]).wf(),
            layout.description().valid_for(widgets@.len() as nat),
        ensures
            r.wf(),
            r.description() == layout.description(),
            r@ == (TabModel {
                id: id@,
                title: title@,
                chunk: Rect { x: 0, y: 0, width: 0, height: 0 },
                direction: layout.direction(),
                widgets: models(widgets@),
                activatable: focusable_slots(models(widgets@), widgets@.len() as int),
                active: 0,
                hover: None,
            }),
    {
        let mut activatable: Vec<usize> = Vec::new();
        let mut i: usize = 0;
        while i < widgets.len()
            invariant
                i <= widgets.len(),
                activatable@ == focusable_slots(models(widgets@), i as int),
                forall|k: int| 0 <= k < activatable@.len() ==> #[trigger] activatable@[k] < i,
            decreases widgets.len() - i,
        {
            if widgets[i].can_activate() {
                activatable.push(i);
            }
            i += 1;
        }
        Tab {
            id: id.to_owned(),
            title: title.to_owned(),
            chunk: Rect::zero(),
            layout,
            widgets,
            active_widget_index: 0,
            activatable_widget_indices: activatable,
            mouse_over_widget_index: None,
        }
    }

    pub fn id(&self) -> (r: &str)
        ensures
            r@ == self@.id,
    {
        self.id.as_str()
    }

    pub fn title(&self) -> (r: &str)
        ensures
            r@ == self@.title,
    {
        self.title.as_str()
    }

    /// The strips that the root of the layout divides `tab_size` into.
    pub fn chunks(&self, tab_size: Rect) -> (r: Vec<Rect>)
        ensures
            r@.len() == self.strips(),
            strips_span(r@, self@.direction, tab_size),
    {
        self.layout.split(tab_size)
    }

    pub fn as_ref_widgets(&self) -> (r: &Vec<Widget>)
        ensures
            models(r@) == self@.widgets,
    {
        &self.widgets
    }

    /// Gives the focus to the next widget that can take it.
    pub fn activate_next_widget(&mut self)
        requires
            old(self).wf(),
        ensures
            final(self).wf(),
            final(self)@ == old(self)@.next(),
    {
        let len: usize = self.activatable_widget_indices.len();
        if len == 0 {
            return ;
        }
        let a: usize = self.active_widget_index;
        if a + 1 == len {
            assert((a as int + 1) % (len as int) == 0) by (nonlinear_arith)
                requires
                    a + 1 == len,
                    len > 0,
            ;
            self.active_widget_index = 0;
        } else {
            assert((a as int + 1) % (len as int) == a + 1) by (nonlinear_arith)
                requires
                    0 <= a + 1 < len,
            ;
            self.active_widget_index = a + 1;
        }
        self.mouse_over_widget_index = None;
    }

    /// Gives the focus to the widget before that can take it.
    pub fn activate_prev_widget(&mut self)
        requires
            old(self).wf(),
        ensures
            final(self).wf(),
            final(self)@ == old(self)@.prev(),
    {
        let len: usize = self.activatable_widget_indices.len();
        if len == 0 {
            return ;
        }
        let a: usize = self.active_widget_index;
        if a == 0 {
            assert((a as int + len - 1) % (len as int) == len - 1) by (nonlinear_arith)
                requires
                    a == 0,
                    len > 0,
            ;
            self.active_widget_index = len - 1;
        } else {
            assert((a as int + len - 1) % (len as int) == a - 1) by (nonlinear_arith)
                requires
                    1 <= a < len,
            ;
            self.active_widget_index = a - 1;
        }
        self.mouse_over_widget_index = None;
    }

    /// The slot of the widget that has the focus, if any can have it.
    pub fn active_widget_index(&self) -> (r: Option<usize>)
        requires
            self.wf(),
        ensures
            r == self@.active_slot(),
            r is Some ==> r->0 < self@.widgets.len(),
    {
        if self.activatable_widget_indices.len() == 0 {
            None
        } else {
            Some(self.activatable_widget_indices[self.active_widget_index])
        }
    }

    /// The widget that has the focus, if any can have it.
    pub fn active_widget(&self) -> (r: Option<&Widget>)
        requires
            self.wf(),
        ensures
            r is Some == self@.active_slot() is Some,
            r is Some ==> r->0@ == self@.widgets[self@.active_slot()->0 as int],
    {
        match self.active_widget_index() {
            Some(slot) => Some(&self.widgets[slot]),
            None => None,
        }
    }

    /// The id of the widget that has the focus, if any can have it.
    pub fn active_widget_id(&self) -> (r: Option<&str>)
        requires
            self.wf(),
        ensures
            r is Some == self@.active_slot() is Some,
            r is Some ==> r->0@ == self@.widgets[self@.active_slot()->0 as int].id,
    {
        match self.active_widget() {
            Some(w) => Some(w.id()),
            None => None,
        }
    }

    /// The widget that has the focus, to be changed in place. The tab
    /// stays in order if the widget does.
    pub fn active_widget_mut(&mut self) -> (r: &mut Widget)
        requires
            old(self).wf(),
            old(self)@.active_slot() is Some,
        ensures
            r@ == old(self)@.widgets[old(self)@.active_slot()->0 as int],
            r.wf(),
            final(self)@ == (TabModel {
                widgets: old(self)@.widgets.update(old(self)@.active_slot()->0 as int, final(r)@),
                ..old(self)@
            }),
            final(r).wf() ==> final(self).wf(),
    {
        let slot: usize = self.activatable_widget_indices[self.active_widget_index];
        let ghost before = self.widgets@;
        let r: &mut Widget = &mut self.widgets[slot];
        proof {
            assert(models(before.update(slot as int, *final(r))) =~= models(before).update(
                slot as int,
                final(r)@,
            ));
        }
        r
    }

    /// The slot of the widget that the mouse is over, if it is over one.
    pub fn mouse_over_widget_index(&self) -> (r: Option<usize>)
        ensures
            r == self@.hover,
    {
        self.mouse_over_widget_index
    }

    /// The area of the tab.
    pub fn chunk(&self) -> (r: Rect)
        ensures
            r == self@.chunk,
    {
        self.chunk
    }

    /// The mouse is over no widget.
    pub fn clear_mouse_over(&mut self)
        requires
            old(self).wf(),
        ensures
            final(self).wf(),
            final(self)@ == (TabModel { hover: None, ..old(self)@ }),
    {
        self.mouse_over_widget_index = None;
    }

    /// The slot of the first widget with the given id, if there is one.
    pub fn find_widget_index(&self, id: &str) -> (r: Option<usize>)
        ensures
            match r {
                Some(i) => i < self@.widgets.len() && find_id(self@.widgets, id@, 0) == i,
                None => find_id(self@.widgets, id@, 0) >= self@.widgets.len(),
            },
    {
        let key: String = id.to_owned();
        let mut i: usize = 0;
        while i < self.widgets.len()
            invariant
                i <= self.widgets.len(),
                key@ == id@,
                find_id(self@.widgets, id@, 0) == find_id(self@.widgets, id@, i as int),
            decreases self.widgets.len() - i,
        {
            if self.widgets[i].id == key {
                return Some(i);
            }
            i += 1;
        }
        None
    }

    /// The first widget with the given id, if there is one.
    pub fn find_widget(&self, id: &str) -> (r: Option<&Widget>)
        ensures
            match r {
                Some(w) => find_id(self@.widgets, id@, 0) < self@.widgets.len() && w@
                    == self@.widgets[find_id(self@.widgets, id@, 0)],
                None => find_id(self@.widgets, id@, 0) >= self@.widgets.len(),
            },
    {
        match self.find_widget_index(id) {
            Some(i) => Some(&self.widgets[i]),
            None => None,
        }
    }

    /// The first widget with the given id, if there is one, to be changed
    /// in place. The tab stays in order if the widget does.
    pub fn find_widget_mut(&mut self, id: &str) -> (r: Option<&mut Widget>)
        requires
            old(self).wf(),
        ensures
            match r {
                Some(w) => {
                    let slot = find_id(old(self)@.widgets, id@, 0);
                    &&& slot < old(self)@.widgets.len()
                    &&& w@ == old(self)@.widgets[slot]
                    &&& w.wf()
                    &&& final(self)@ == (TabModel {
                        widgets: old(self)@.widgets.update(slot, final(w)@),
                        ..old(self)@
                    })
                    &&& (final(w).wf() ==> final(self).wf())
                },
                None => find_id(old(self)@.widgets, id@, 0) >= old(self)@.widgets.len()
                    && *final(self) == *old(self),
            },
    {
        match self.find_widget_index(id) {
            Some(i) => {
                let ghost before = self.widgets@;
                let w: &mut Widget = &mut self.widgets[i];
                proof {
                    assert(models(before.update(i as int, *final(w))) =~= models(before).update(
                        i as int,
                        final(w)@,
                    ));
                }
                Some(w)
            },
            None => None,
        }
    }

    /// Gives the focus to the widget in `slot`, if it can take it.
    pub fn activate_widget(&mut self, slot: usize)
        requires
            old(self).wf(),
        ensures
            final(self).wf(),
            final(self)@ == old(self)@.activated(slot),
    {
        let mut k: usize = 0;
        while k < self.activatable_widget_indices.len()
            invariant
                k <= self.activatable_widget_indices.len(),
                *self == *old(self),
                self.wf(),
                find_slot(self@.activatable, slot, 0) == find_slot(self@.activatable, slot, k as int),
            decreases self.activatable_widget_indices.len() - k,
        {
            if self.activatable_widget_indices[k] == slot {
                self.active_widget_index = k;
                self.mouse_over_widget_index = None;
                proof {
                    assert(self.widgets == old(self).widgets);
                    assert(self.layout == old(self).layout);
                    assert(self@.widgets == old(self)@.widgets);
                    assert(self@.activatable == old(self)@.activatable);
                    assert(self@.valid());
                }
                return ;
            }
            k += 1;
        }
    }

    /// Gives the focus to the first widget with the given id, if there is
    /// one that can take it.
    pub fn activate_widget_by_id(&mut self, id: &str)
        requires
            old(self).wf(),
        ensures
            final(self).wf(),
            final(self)@ == old(self)@.activated_by_id(id@),
    {
        match self.find_widget_index(id) {
            Some(i) => self.activate_widget(i),
            None => {},
        }
    }
}

impl Tab {
    /// The slot of the first widget whose area holds the cell at `pos`,
    /// if any does.
    pub fn hit_widget(&self, pos: (u16, u16)) -> (r: Option<usize>)
        ensures
            match r {
                Some(i) => i < self@.widgets.len() && find_hit(
                    self@.widgets,
                    pos.0 as int,
                    pos.1 as int,
                    0,
                ) == i,
                None => find_hit(self@.widgets, pos.0 as int, pos.1 as int, 0)
                    >= self@.widgets.len(),
            },
    {
        let mut i: usize = 0;
        while i < self.widgets.len()
            invariant
                i <= self.widgets.len(),
                find_hit(self@.widgets, pos.0 as int, pos.1 as int, 0) == find_hit(
                    self@.widgets,
                    pos.0 as int,
                    pos.1 as int,
                    i as int,
                ),
            decreases self.widgets.len() - i,
        {
            if self.widgets[i].chunk().contains_point(pos) {
                return Some(i);
            }
            i += 1;
        }
        None
    }

    /// Hands a mouse event to the tab.
    pub fn on_mouse_event(&mut self, ev: MouseEvent) -> (r: EventResult)
        requires
            old(self).wf(),
        ensures
            final(self).wf(),
            (final(self)@, r) == old(self)@.after_mouse(ev),
    {
        let hit: usize = match self.hit_widget(ev.position()) {
            Some(i) => i,
            None => {
                return EventResult::Ignore;
            },
        };
        match ev.kind {
            MouseEventKind::Down(MouseButton::Left) => {
                if self.active_widget_index() != Some(hit) {
                    self.activate_widget(hit);
                }
            },
            MouseEventKind::Moved => {
                self.mouse_over_widget_index = Some(hit);
            },
            _ => {},
        }
        assert(self@ == old(self)@.pointed(hit, ev.kind));
        assert(self.wf());
        self.forward_mouse(ev)
    }

    /// Hands a mouse event to the widget that has the focus.
    fn forward_mouse(&mut self, ev: MouseEvent) -> (r: EventResult)
        requires
            old(self).wf(),
        ensures
            final(self).wf(),
            match old(self)@.active_slot() {
                Some(slot) => (WidgetModel { ..final(self)@.widgets[slot as int] }, r)
                    == after_mouse(old(self)@.widgets[slot as int], ev) && final(self)@
                    == (TabModel {
                    widgets: old(self)@.widgets.update(
                        slot as int,
                        final(self)@.widgets[slot as int],
                    ),
                    ..old(self)@
                }),
                None => r == EventResult::Ignore && final(self)@ == old(self)@,
            },
    {
        match self.active_widget_index() {
            Some(slot) => {
                let ghost before = self.widgets@;
                let r: EventResult = self.widgets[slot].on_mouse_event(ev);
                proof {
                    assert(self.widgets@ =~= before.update(slot as int, self.widgets@[slot as int]));
                    assert(models(self.widgets@) =~= models(before).update(
                        slot as int,
                        self.widgets@[slot as int]@,
                    ));
                    assert forall|i: int| 0 <= i < self.widgets@.len() implies (
                    #[trigger] self.widgets@[i]).wf() by {
                        if i != slot {
                            assert(self.widgets@[i] == before[i]);
                        }
                    }
                }
                r
            },
            None => EventResult::Ignore,
        }
    }

    /// Hands a key to the tab: to the widget that has the focus.
    pub fn on_key_event(&mut self, key: KeyEvent) -> (r: EventResult)
        requires
            old(self).wf(),
        ensures
            final(self).wf(),
            (final(self)@, r) == old(self)@.after_key(key),
    {
        match self.active_widget_index() {
            Some(slot) => {
                let ghost before = self.widgets@;
                let r: EventResult = self.widgets[slot].on_key_event(key);
                proof {
                    assert(self.widgets@ =~= before.update(slot as int, self.widgets@[slot as int]));
                    assert(models(self.widgets@) =~= models(before).update(
                        slot as int,
                        self.widgets@[slot as int]@,
                    ));
                    assert forall|i: int| 0 <= i < self.widgets@.len() implies (
                    #[trigger] self.widgets@[i]).wf() by {
                        if i != slot {
                            assert(self.widgets@[i] == before[i]);
                        }
                    }
                }
                r
            },
            None => EventResult::Ignore,
        }
    }
}

impl Tab {
    /// Puts each widget that `placements` name into the area given with
    /// it, in the order of `placements`.
    pub fn assign(&mut self, placements: &Vec<Placement>)
        requires
            old(self).wf(),
        ensures
            final(self).wf(),
            final(self).description() == old(self).description(),
            final(self)@ == (TabModel {
                widgets: assigned(old(self)@.widgets, placements@),
                ..old(self)@
            }),
    {
        let mut i: usize = 0;
        assert(placements@.take(0) =~= Seq::<Placement>::empty());
        while i < placements.len()
            invariant
                i <= placements.len(),
                self.wf(),
                self.description() == old(self).description(),
                self@ == (TabModel {
                    widgets: assigned(old(self)@.widgets, placements@.take(i as int)),
                    ..old(self)@
                }),
            decreases placements.len() - i,
        {
            let p: Placement = placements[i];
            let ghost before = self.widgets@;
            proof {
                assert(placements@.take(i + 1).drop_last() =~= placements@.take(i as int));
                assert(placements@.take(i + 1).last() == p);
            }
            if p.slot < self.widgets.len() {
                self.widgets[p.slot].update_chunk(p.area);
                proof {
                    assert(self.widgets@ =~= before.update(
                        p.slot as int,
                        self.widgets@[p.slot as int],
                    ));
                    assert(models(self.widgets@) =~= models(before).update(
                        p.slot as int,
                        self.widgets@[p.slot as int]@,
                    ));
                    assert forall|k: int| 0 <= k < self.widgets@.len() implies (
                    #[trigger] self.widgets@[k]).wf() by {
                        if k != p.slot {
                            assert(self.widgets@[k] == before[k]);
                        }
                    }
                }
            }
            i += 1;
        }
        assert(placements@.take(placements@.len() as int) =~= placements@);
    }

    /// Puts the tab into the area `chunk`: divides it as the layout says
    /// and puts each widget that a leaf names into the area of that leaf.
    pub fn update_chunk(&mut self, chunk: Rect)
        requires
            old(self).wf(),
        ensures
            final(self).wf(),
            final(self).description() == old(self).description(),
            exists|placements: Seq<Placement>|
                old(self).description().places_in(old(self)@.direction, chunk, placements)
                    && placed_slots(placements) == old(self).leaf_slots() && final(self)@
                    == (TabModel {
                    chunk,
                    widgets: #[trigger] assigned(old(self)@.widgets, placements),
                    ..old(self)@
                }),
    {
        self.chunk = chunk;
        let placements: Vec<Placement> = self.layout.placements(chunk);
        self.assign(&placements);
        proof {
            assert(placed_slots(placements@) == old(self).leaf_slots());
            assert(self@ == (TabModel {
                chunk,
                widgets: assigned(old(self)@.widgets, placements@),
                ..old(self)@
            }));
        }
    }

    /// Turns the root of the layout to the other direction, and divides
    /// the area of the tab anew.
    pub fn toggle_split_direction(&mut self)
        requires
            old(self).wf(),
        ensures
            final(self).wf(),
            final(self).description() == old(self).description(),
            exists|placements: Seq<Placement>|
                old(self).description().places_in(
                    old(self)@.direction.flipped(),
                    old(self)@.chunk,
                    placements,
                ) && placed_slots(placements) == old(self).leaf_slots() && final(self)@
                    == (TabModel {
                    direction: old(self)@.direction.flipped(),
                    widgets: #[trigger] assigned(old(self)@.widgets, placements),
                    ..old(self)@
                }),
    {
        self.layout.toggle_split_direction();
        let placements: Vec<Placement> = self.layout.placements(self.chunk);
        self.assign(&placements);
        proof {
            assert(placed_slots(placements@) == old(self).leaf_slots());
            assert(self@ == (TabModel {
                direction: old(self)@.direction.flipped(),
                widgets: assigned(old(self)@.widgets, placements@),
                ..old(self)@
            }));
        }
    }

    /// Does `change` to what the widget in `slot` holds. Nothing changes
    /// where there is no such widget.
    pub fn apply(&mut self, slot: usize, change: Change)
        requires
            old(self).wf(),
        ensures
            final(self).wf(),
            final(self).description() == old(self).description(),
            final(self)@ == if slot < old(self)@.widgets.len() {
                let w = old(self)@.widgets[slot as int];
                TabModel {
                    widgets: old(self)@.widgets.update(
                        slot as int,
                        WidgetModel { content: changed(w.content, change@, w.chunk), ..w },
                    ),
                    ..old(self)@
                }
            } else {
                old(self)@
            },
    {
        if slot < self.widgets.len() {
            let ghost before = self.widgets@;
            self.widgets[slot].apply(change);
            proof {
                assert(self.widgets@ =~= before.update(slot as int, self.widgets@[slot as int]));
                assert(models(self.widgets@) =~= models(before).update(
                    slot as int,
                    self.widgets@[slot as int]@,
                ));
                assert forall|k: int| 0 <= k < self.widgets@.len() implies (
                #[trigger] self.widgets@[k]).wf() by {
                    if k != slot {
                        assert(self.widgets@[k] == before[k]);
                    }
                }
            }
        }
    }
}

} // verus!
