//! Panes and sub-windows.
//!
//! A pane is a widget together with the slot of a layout that it is drawn
//! in. A sub-window is drawn over the middle of the screen and holds
//! anything that behaves as a pane does.

use crate::event::MouseEvent;
use crate::rect::{centered, child_window_chunk, Rect};
use crate::widget::{
    after_mouse, stepped, updated, Step, Widget, WidgetItem, WidgetKind, WidgetModel,
};
use vstd::prelude::*;

verus! {

/// A widget in a slot of a layout.
pub struct Pane {
    widget: Widget,
    chunk_index: usize,
}

/// The mathematical value of a `Pane`.
pub ghost struct PaneModel {
    pub widget: WidgetModel,
    pub chunk_index: usize,
}

impl View for Pane {
    type V = PaneModel;

    closed spec fn view(&self) -> PaneModel {
        PaneModel { widget: self.widget@, chunk_index: self.chunk_index }
    }
}

/// The pane `p` with `widget` in place of its widget.
pub open spec fn holding(p: PaneModel, widget: WidgetModel) -> PaneModel {
    PaneModel { widget, ..p }
}

/// The pane `p` after its cursor or view moved by `step`.
pub open spec fn pane_stepped(p: PaneModel, step: Step) -> PaneModel {
    holding(p, WidgetModel { content: stepped(p.widget.content, step), ..p.widget })
}

impl Pane {
    /// Whether the cursor of what the pane holds stands on an entry.
    pub closed spec fn wf(&self) -> bool {
        self.widget.wf()
    }

    /// A pane that has no area yet.
    pub fn new(title: &str, widget: WidgetKind, chunk_index: usize, id: &str) -> (r: Pane)
        requires
            widget.wf(),
        ensures
            r.wf(),
            r@ == (PaneModel {
                widget: WidgetModel {
                    id: id@,
                    title: title@,
                    chunk: Rect { x: 0, y: 0, width: 0, height: 0 },
                    focusable: true,
                    on_select: None,
                    content: widget@,
                },
                chunk_index,
            }),
    {
        Pane { widget: Widget::new(id, title, widget), chunk_index }
    }

    /// What the pane holds.
    pub fn widget(&self) -> (r: &WidgetKind)
        ensures
            r@ == self@.widget.content,
            self.wf() ==> r.wf(),
    {
        &self.widget.kind
    }

    /// What the pane holds, to be changed in place.
    pub fn widget_mut(&mut self) -> (r: &mut WidgetKind)
        ensures
            r@ == old(self)@.widget.content,
            r.wf() == old(self).wf(),
            final(self)@ == holding(
                old(self)@,
                WidgetModel { content: final(r)@, ..old(self)@.widget },
            ),
            final(self).wf() == final(r).wf(),
    {
        &mut self.widget.kind
    }

    pub fn title(&self) -> (r: &str)
        ensures
            r@ == self@.widget.title,
    {
        self.widget.title()
    }

    pub fn id(&self) -> (r: &str)
        ensures
            r@ == self@.widget.id,
    {
        self.widget.id()
    }

    /// The slot of the layout that the pane is drawn in.
    pub fn chunk_index(&self) -> (r: usize)
        ensures
            r == self@.chunk_index,
    {
        self.chunk_index
    }

    /// The area of the pane, border included.
    pub fn chunk(&self) -> (r: Rect)
        ensures
            r == self@.widget.chunk,
    {
        self.widget.chunk()
    }

    /// Puts the pane into the area `chunk`.
    pub fn update_chunk(&mut self, chunk: Rect)
        ensures
            final(self)@ == holding(old(self)@, WidgetModel { chunk, ..old(self)@.widget }),
            final(self).wf() == old(self).wf(),
    {
        self.widget.update_chunk(chunk);
    }

    /// Moves the cursor or the view down by `index`.
    pub fn next_item(&mut self, index: usize)
        requires
            old(self).wf(),
        ensures
            final(self).wf(),
            final(self)@ == pane_stepped(old(self)@, Step::Down(index)),
    {
        self.widget.kind.step(Step::Down(index));
    }

    /// Moves the cursor or the view up by `index`.
    pub fn prev_item(&mut self, index: usize)
        requires
            old(self).wf(),
        ensures
            final(self).wf(),
            final(self)@ == pane_stepped(old(self)@, Step::Up(index)),
    {
        self.widget.kind.step(Step::Up(index));
    }

    /// Puts the cursor or the view on the first entry or line.
    pub fn select_first_item(&mut self)
        requires
            old(self).wf(),
        ensures
            final(self).wf(),
            final(self)@ == pane_stepped(old(self)@, Step::First),
    {
        self.widget.kind.step(Step::First);
    }

    /// Puts the cursor or the view on the last entry or line.
    pub fn select_last_item(&mut self)
        requires
            old(self).wf(),
        ensures
            final(self).wf(),
            final(self)@ == pane_stepped(old(self)@, Step::Last),
    {
        self.widget.kind.step(Step::Last);
    }

    /// Shows `items` in place of what was shown.
    pub fn set_items(&mut self, items: WidgetItem)
        requires
            old(self).wf(),
        ensures
            final(self).wf(),
            final(self)@ == holding(
                old(self)@,
                WidgetModel {
                    content: updated(old(self)@.widget.content, items@, old(self)@.widget.chunk),
                    ..old(self)@.widget
                },
            ),
    {
        self.widget.update_widget_item(items);
    }

    /// Hands a mouse event to what the pane holds.
    pub fn on_mouse_event(&mut self, ev: MouseEvent)
        requires
            old(self).wf(),
        ensures
            final(self).wf(),
            final(self)@ == holding(old(self)@, after_mouse(old(self)@.widget, ev).0),
    {
        let _ = self.widget.on_mouse_event(ev);
    }
}

/// What a sub-window asks of what it holds.
pub trait PaneTrait {
    type Item;

    /// Whether the value is in order.
    spec fn valid(&self) -> bool;

    /// The name by which the value is found.
    spec fn name(&self) -> Seq<char>;

    /// The area that the value is drawn in.
    spec fn area(&self) -> Rect;

    /// What the value hands out of itself.
    spec fn item(&self) -> Self::Item;

    /// Whether `after` is what the value is once the mouse event `ev` has
    /// been handed to it.
    spec fn mouse_handled(&self, ev: MouseEvent, after: &Self) -> bool;

    fn id(&self) -> (r: &str)
        ensures
            r@ == self.name(),
    ;

    /// Puts the value into the area `chunk`.
    fn update_chunks(&mut self, chunk: Rect)
        requires
            old(self).valid(),
        ensures
            final(self).valid(),
            final(self).name() == old(self).name(),
            final(self).area() == chunk,
    ;

    fn select_next_pane(&mut self)
        requires
            old(self).valid(),
        ensures
            final(self).valid(),
            final(self).name() == old(self).name(),
            final(self).area() == old(self).area(),
    ;

    fn select_prev_pane(&mut self)
        requires
            old(self).valid(),
        ensures
            final(self).valid(),
            final(self).name() == old(self).name(),
            final(self).area() == old(self).area(),
    ;

    fn select_next_item(&mut self)
        requires
            old(self).valid(),
        ensures
            final(self).valid(),
            final(self).name() == old(self).name(),
            final(self).area() == old(self).area(),
    ;

    fn select_prev_item(&mut self)
        requires
            old(self).valid(),
        ensures
            final(self).valid(),
            final(self).name() == old(self).name(),
            final(self).area() == old(self).area(),
    ;

    fn select_first_item(&mut self)
        requires
            old(self).valid(),
        ensures
            final(self).valid(),
            final(self).name() == old(self).name(),
            final(self).area() == old(self).area(),
    ;

    fn select_last_item(&mut self)
        requires
            old(self).valid(),
        ensures
            final(self).valid(),
            final(self).name() == old(self).name(),
            final(self).area() == old(self).area(),
    ;

    /// Shows `items` in the part called `id`.
    fn set_items(&mut self, id: &str, items: WidgetItem)
        requires
            old(self).valid(),
        ensures
            final(self).valid(),
            final(self).name() == old(self).name(),
            final(self).area() == old(self).area(),
    ;

    fn get(&self) -> (r: &Self::Item)
        ensures
            *r == self.item(),
    ;

    /// What the value hands out of itself, to be changed in place.
    fn get_mut(&mut self) -> (r: &mut Self::Item)
        ensures
            *r == old(self).item(),
            final(self).item() == *final(r),
    ;

    /// Hands a mouse event to the value.
    fn on_mouse_event(&mut self, ev: MouseEvent)
        requires
            old(self).valid(),
        ensures
            final(self).valid(),
            final(self).name() == old(self).name(),
            final(self).area() == old(self).area(),
            old(self).mouse_handled(ev, &*final(self)),
    ;
}

impl PaneTrait for Pane {
    type Item = Pane;

    open spec fn valid(&self) -> bool {
        self.wf()
    }

    open spec fn name(&self) -> Seq<char> {
        self@.widget.id
    }

    open spec fn area(&self) -> Rect {
        self@.widget.chunk
    }

    open spec fn item(&self) -> Pane {
        *self
    }

    /// The event has gone to the widget of the pane, and nothing else of
    /// the pane has changed.
    open spec fn mouse_handled(&self, ev: MouseEvent, after: &Pane) -> bool {
        after@ == holding(self@, after_mouse(self@.widget, ev).0)
    }

    fn id(&self) -> (r: &str) {
        self.widget.id()
    }

    fn update_chunks(&mut self, chunk: Rect)
        ensures
            final(self)@ == holding(old(self)@, WidgetModel { chunk, ..old(self)@.widget }),
    {
        self.update_chunk(chunk);
    }

    /// A pane is one pane: there is no other to go to.
    fn select_next_pane(&mut self)
        ensures
            final(self)@ == old(self)@,
    {
    }

    /// A pane is one pane: there is no other to go to.
    fn select_prev_pane(&mut self)
        ensures
            final(self)@ == old(self)@,
    {
    }

    fn select_next_item(&mut self)
        ensures
            final(self)@ == pane_stepped(old(self)@, Step::Down(1)),
    {
        self.next_item(1);
    }

    fn select_prev_item(&mut self)
        ensures
            final(self)@ == pane_stepped(old(self)@, Step::Up(1)),
    {
        self.prev_item(1);
    }

    fn select_first_item(&mut self)
        ensures
            final(self)@ == pane_stepped(old(self)@, Step::First),
    {
        self.widget.kind.step(Step::First);
    }

    fn select_last_item(&mut self)
        ensures
            final(self)@ == pane_stepped(old(self)@, Step::Last),
    {
        self.widget.kind.step(Step::Last);
    }

    /// A pane has one part: `id` is not looked at.
    fn set_items(&mut self, id: &str, items: WidgetItem)
        ensures
            final(self)@ == holding(
                old(self)@,
                WidgetModel {
                    content: updated(old(self)@.widget.content, items@, old(self)@.widget.chunk),
                    ..old(self)@.widget
                },
            ),
    {
        self.widget.update_widget_item(items);
    }

    fn get(&self) -> (r: &Pane) {
        self
    }

    fn get_mut(&mut self) -> (r: &mut Pane) {
        self
    }

    fn on_mouse_event(&mut self, ev: MouseEvent)
        ensures
            final(self)@ == holding(old(self)@, after_mouse(old(self)@.widget, ev).0),
    {
        let _ = self.widget.on_mouse_event(ev);
    }
}

/// How much of the screen a sub-window takes, in hundredths of each side.
pub const SUB_WINDOW_RATE: u16 = 80;

/// A window over the middle of the screen.
pub struct SubWindow<P> {
    id: String,
    title: String,
    chunk: Rect,
    pane: P,
    bordered: bool,
}

/// The area inside a sub-window of area `chunk`: with a border, what is
/// left inside the border and the margin within it.
pub open spec fn sub_window_inner(chunk: Rect, bordered: bool) -> Rect {
    if bordered {
        chunk.shrunk().shrunk()
    } else {
        chunk
    }
}

impl<P: PaneTrait> SubWindow<P> {
    pub closed spec fn name(&self) -> Seq<char> {
        self.id@
    }

    pub closed spec fn heading(&self) -> Seq<char> {
        self.title@
    }

    /// The area of the sub-window.
    pub closed spec fn area(&self) -> Rect {
        self.chunk
    }

    /// Whether the sub-window has a border.
    pub closed spec fn framed(&self) -> bool {
        self.bordered
    }

    /// What the sub-window holds.
    pub closed spec fn content(&self) -> P {
        self.pane
    }

    /// A sub-window that has no area yet.
    pub fn new(id: &str, title: &str, pane: P, bordered: bool) -> (r: SubWindow<P>)
        ensures
            r.name() == id@,
            r.heading() == title@,
            r.area() == (Rect { x: 0, y: 0, width: 0, height: 0 }),
            r.framed() == bordered,
            r.content() == pane,
    {
        SubWindow { id: id.to_owned(), title: title.to_owned(), chunk: Rect::zero(), pane, bordered }
    }

    pub fn id(&self) -> (r: &str)
        ensures
            r@ == self.name(),
    {
        self.id.as_str()
    }

    pub fn title(&self) -> (r: &str)
        ensures
            r@ == self.heading(),
    {
        self.title.as_str()
    }

    pub fn chunk(&self) -> (r: Rect)
        ensures
            r == self.area(),
    {
        self.chunk
    }

    /// Puts the sub-window over the middle of `chunk`, and what it holds
    /// inside it.
    pub fn update_chunks(&mut self, chunk: Rect)
        requires
            old(self).content().valid(),
        ensures
            final(self).area() == centered(SUB_WINDOW_RATE, SUB_WINDOW_RATE, chunk),
            final(self).content().valid(),
            final(self).content().area() == sub_window_inner(
                final(self).area(),
                old(self).framed(),
            ),
            final(self).content().name() == old(self).content().name(),
            final(self).name() == old(self).name(),
            final(self).heading() == old(self).heading(),
            final(self).framed() == old(self).framed(),
    {
        self.chunk = child_window_chunk(SUB_WINDOW_RATE, SUB_WINDOW_RATE, chunk);
        let inner: Rect = if self.bordered {
            self.chunk.inner().inner()
        } else {
            self.chunk
        };
        self.pane.update_chunks(inner);
    }

    /// What the sub-window holds.
    pub fn pane(&self) -> (r: &P::Item)
        ensures
            *r == self.content().item(),
    {
        self.pane.get()
    }

    /// What the sub-window holds, to be changed in place.
    pub fn pane_mut(&mut self) -> (r: &mut P::Item)
        ensures
            *r == old(self).content().item(),
            final(self).content().item() == *final(r),
            final(self).area() == old(self).area(),
            final(self).name() == old(self).name(),
            final(self).heading() == old(self).heading(),
            final(self).framed() == old(self).framed(),
    {
        self.pane.get_mut()
    }

    /// Hands a mouse event to what the sub-window holds: what it holds is
    /// then what the event makes of it, and nothing else of the sub-window
    /// changes.
    pub fn on_mouse_event(&mut self, ev: MouseEvent)
        requires
            old(self).content().valid(),
        ensures
            old(self).content().mouse_handled(ev, &final(self).content()),
            final(self).content().valid(),
            final(self).content().name() == old(self).content().name(),
            final(self).content().area() == old(self).content().area(),
            final(self).area() == old(self).area(),
            final(self).name() == old(self).name(),
            final(self).heading() == old(self).heading(),
            final(self).framed() == old(self).framed(),
    {
        self.pane.on_mouse_event(ev);
    }
}

} // verus!
