//! The widgets of the dashboard: what each of them holds, and what a key
//! or the mouse does to it.

use crate::event::{EventResult, KeyCode, KeyEvent, MouseButton, MouseEvent, MouseEventKind};
use crate::list::{moved_down, moved_up, List, Listing};
use crate::rect::Rect;
use crate::table::{cells, Grid, KubeTable, Table};
use crate::text::{inner_width, lines_of, row_count, scroll_by, wrap_all, Buffer, Scroll, Text};
use crate::util::{find_text, lemma_texts_push, position_of, texts};
use vstd::prelude::*;

verus! {

/// What a widget is handed to show.
pub enum WidgetItem {
    Single(String),
    Array(Vec<String>),
    DoubleArray(Vec<Vec<String>>),
}

/// A list from which any number of items can be picked.
pub struct MultipleSelect {
    pub list: List,
    pub chosen: Vec<String>,
}

impl MultipleSelect {
    pub fn new(items: Vec<String>) -> (r: MultipleSelect)
        ensures
            r.list.wf(),
            r.list@ == (Listing { items: texts(items@), selected: 0 }),
            r.chosen@.len() == 0,
    {
        MultipleSelect { list: List::new(items), chosen: Vec::new() }
    }

    /// The items that are picked, in the order in which they were picked.
    pub fn selected_items(&self) -> (r: &Vec<String>)
        ensures
            r@ == self.chosen@,
    {
        &self.chosen
    }

    /// Picks the item `name`, if the list holds it and it is not picked
    /// yet.
    pub fn select_item(&mut self, name: &str)
        ensures
            final(self).list == old(self).list,
            texts(final(self).chosen@) == if position_of(old(self).list@.items, name@) is Some
                && position_of(texts(old(self).chosen@), name@) is None {
                texts(old(self).chosen@).push(name@)
            } else {
                texts(old(self).chosen@)
            },
    {
        if find_text(self.list.items(), name).is_some() && find_text(&self.chosen, name).is_none() {
            let item: String = name.to_owned();
            proof {
                lemma_texts_push(self.chosen@, item);
            }
            self.chosen.push(item);
        }
    }

    /// Picks the item under the cursor if it is not picked, and lets go of
    /// it if it is. Nothing changes in an empty list.
    pub fn toggle_select_unselect(&mut self)
        requires
            old(self).list.wf(),
        ensures
            final(self).list == old(self).list,
            texts(final(self).chosen@) == toggled(old(self).list@, texts(old(self).chosen@)),
    {
        if self.list.len() == 0 {
            return ;
        }
        let item: String = match self.list.selected_item() {
            Some(item) => item.clone(),
            None => {
                return ;
            },
        };
        proof {
            crate::util::lemma_position_of(texts(self.chosen@), item@);
        }
        match find_text(&self.chosen, item.as_str()) {
            Some(i) => {
                let ghost before = self.chosen@;
                self.chosen.remove(i);
                assert(texts(self.chosen@) =~= texts(before).remove(i as int));
            },
            None => {
                proof {
                    lemma_texts_push(self.chosen@, item);
                }
                self.chosen.push(item);
            },
        }
    }

    /// Picks nothing.
    pub fn unselect_all(&mut self)
        ensures
            final(self).list == old(self).list,
            final(self).chosen@.len() == 0,
    {
        self.chosen = Vec::new();
    }
}

/// What is picked after the item under the cursor of `list` was picked or
/// let go of.
pub open spec fn toggled(list: Listing, chosen: Seq<Seq<char>>) -> Seq<Seq<char>> {
    if list.items.len() == 0 {
        chosen
    } else {
        let item = list.items[list.selected as int];
        match position_of(chosen, item) {
            Some(i) => chosen.remove(i),
            None => chosen.push(item),
        }
    }
}

/// What a widget holds, by its kind.
pub enum WidgetKind {
    List(List),
    Table(Table),
    Text(Text),
    SingleSelect(List),
    MultipleSelect(MultipleSelect),
}

/// The mathematical value of what a widget holds.
pub ghost enum Content {
    List(Listing),
    Table(Grid),
    Text(Buffer),
    SingleSelect(Listing),
    MultipleSelect(Listing, Seq<Seq<char>>),
}

impl View for WidgetKind {
    type V = Content;

    open spec fn view(&self) -> Content {
        match self {
            WidgetKind::List(l) => Content::List(l@),
            WidgetKind::Table(t) => Content::Table(t@),
            WidgetKind::Text(t) => Content::Text(t@),
            WidgetKind::SingleSelect(l) => Content::SingleSelect(l@),
            WidgetKind::MultipleSelect(m) => Content::MultipleSelect(m.list@, texts(m.chosen@)),
        }
    }
}

impl WidgetKind {
    /// Whether the cursor of a list or a table stands on an entry.
    pub open spec fn wf(&self) -> bool {
        match self {
            WidgetKind::List(l) => l.wf(),
            WidgetKind::Table(t) => t.wf(),
            WidgetKind::Text(_) => true,
            WidgetKind::SingleSelect(l) => l.wf(),
            WidgetKind::MultipleSelect(m) => m.list.wf(),
        }
    }
}

/// A move of the cursor of a list or of the view of a text.
#[derive(Clone, Copy, Debug, PartialEq, Eq, Structural)]
pub enum Step {
    Down(usize),
    Up(usize),
    First,
    Last,
}

/// Where a cursor at `selected` among `len` entries stands after `step`.
pub open spec fn stepped_cursor(selected: nat, len: nat, step: Step) -> nat {
    match step {
        Step::Down(n) => moved_down(selected, n as nat, len),
        Step::Up(n) => moved_up(selected, n as nat),
        Step::First => 0,
        Step::Last => if len == 0 {
            0
        } else {
            (len - 1) as nat
        },
    }
}

/// The scroll step that `step` is on a text.
pub open spec fn as_scroll(step: Step) -> Scroll {
    match step {
        Step::Down(n) => Scroll::Down(n as u64),
        Step::Up(n) => Scroll::Up(n as u64),
        Step::First => Scroll::Top,
        Step::Last => Scroll::Bottom,
    }
}

/// What a widget holds after `step`.
pub open spec fn stepped(content: Content, step: Step) -> Content {
    match content {
        Content::List(l) => Content::List(
            Listing { selected: stepped_cursor(l.selected, l.items.len(), step), ..l },
        ),
        Content::Table(t) => Content::Table(
            Grid { selected: stepped_cursor(t.selected, t.rows.len(), step), ..t },
        ),
        Content::Text(b) => Content::Text(
            Buffer { offset: scroll_by(b.offset, b.rows, as_scroll(step)), ..b },
        ),
        Content::SingleSelect(l) => Content::SingleSelect(
            Listing { selected: stepped_cursor(l.selected, l.items.len(), step), ..l },
        ),
        Content::MultipleSelect(l, chosen) => Content::MultipleSelect(
            Listing { selected: stepped_cursor(l.selected, l.items.len(), step), ..l },
            chosen,
        ),
    }
}

/// The step that a key asks for, if it asks for one. `page` is how far a
/// page key moves.
pub open spec fn key_step(code: KeyCode, page: usize) -> Option<Step> {
    match code {
        KeyCode::Down => Some(Step::Down(1)),
        KeyCode::Up => Some(Step::Up(1)),
        KeyCode::PageDown => Some(Step::Down(page)),
        KeyCode::PageUp => Some(Step::Up(page)),
        KeyCode::Home => Some(Step::First),
        KeyCode::End => Some(Step::Last),
        KeyCode::Char(c) => if c == 'j' {
            Some(Step::Down(1))
        } else if c == 'k' {
            Some(Step::Up(1))
        } else if c == 'g' {
            Some(Step::First)
        } else if c == 'G' {
            Some(Step::Last)
        } else {
            None
        },
        _ => None,
    }
}

/// The step that the mouse wheel asks for.
pub open spec fn wheel_step(kind: MouseEventKind) -> Option<Step> {
    match kind {
        MouseEventKind::ScrollDown => Some(Step::Down(1)),
        MouseEventKind::ScrollUp => Some(Step::Up(1)),
        _ => None,
    }
}

fn step_of_key(code: KeyCode, page: usize) -> (r: Option<Step>)
    ensures
        r == key_step(code, page),
{
    match code {
        KeyCode::Down => Some(Step::Down(1)),
        KeyCode::Up => Some(Step::Up(1)),
        KeyCode::PageDown => Some(Step::Down(page)),
        KeyCode::PageUp => Some(Step::Up(page)),
        KeyCode::Home => Some(Step::First),
        KeyCode::End => Some(Step::Last),
        KeyCode::Char(c) => if c == 'j' {
            Some(Step::Down(1))
        } else if c == 'k' {
            Some(Step::Up(1))
        } else if c == 'g' {
            Some(Step::First)
        } else if c == 'G' {
            Some(Step::Last)
        } else {
            None
        },
        _ => None,
    }
}

fn step_of_wheel(kind: MouseEventKind) -> (r: Option<Step>)
    ensures
        r == wheel_step(kind),
{
    match kind {
        MouseEventKind::ScrollDown => Some(Step::Down(1)),
        MouseEventKind::ScrollUp => Some(Step::Up(1)),
        _ => None,
    }
}

fn step_list(list: &mut List, step: Step)
    requires
        old(list).wf(),
    ensures
        final(list).wf(),
        final(list)@ == (Listing {
            selected: stepped_cursor(old(list)@.selected, old(list)@.items.len(), step),
            ..old(list)@
        }),
{
    match step {
        Step::Down(n) => list.select_next(n),
        Step::Up(n) => list.select_prev(n),
        Step::First => list.select_first(),
        Step::Last => list.select_last(),
    }
}

impl WidgetKind {
    /// Moves the cursor or the view by `step`.
    pub fn step(&mut self, step: Step)
        requires
            old(self).wf(),
        ensures
            final(self).wf(),
            final(self)@ == stepped(old(self)@, step),
    {
        match self {
            WidgetKind::List(l) => step_list(l, step),
            WidgetKind::SingleSelect(l) => step_list(l, step),
            WidgetKind::MultipleSelect(m) => step_list(&mut m.list, step),
            WidgetKind::Table(t) => match step {
                Step::Down(n) => t.select_next(n),
                Step::Up(n) => t.select_prev(n),
                Step::First => t.select_first(),
                Step::Last => t.select_last(),
            },
            WidgetKind::Text(t) => match step {
                Step::Down(n) => t.scroll_down(n as u64),
                Step::Up(n) => t.scroll_up(n as u64),
                Step::First => t.scroll_top(),
                Step::Last => t.scroll_bottom(),
            },
        }
    }
}

/// The mathematical value of a `WidgetItem`.
pub ghost enum Item {
    Single(Seq<char>),
    Array(Seq<Seq<char>>),
    DoubleArray(Seq<Seq<Seq<char>>>),
}

impl View for WidgetItem {
    type V = Item;

    open spec fn view(&self) -> Item {
        match self {
            WidgetItem::Single(s) => Item::Single(s@),
            WidgetItem::Array(v) => Item::Array(texts(v@)),
            WidgetItem::DoubleArray(rows) => Item::DoubleArray(cells(rows@)),
        }
    }
}

/// The lines that an item stands for, if it stands for lines.
pub open spec fn item_lines(item: Item) -> Option<Seq<Seq<char>>> {
    match item {
        Item::Single(s) => Some(seq![s]),
        Item::Array(v) => Some(v),
        Item::DoubleArray(_) => None,
    }
}

/// A text buffer that holds `lines`, wrapped for an area of the given size
/// and seen from the top.
pub open spec fn fresh_text(lines: Seq<Seq<char>>, width: u16, height: u16) -> Buffer {
    let wrapped = lines_of(wrap_all(lines, inner_width(width as u64)));
    Buffer { items: lines, lines: wrapped, offset: 0, rows: row_count(wrapped.len(), height as u64) }
}

/// What a widget in `chunk` holds after it is handed `item` to show in
/// place of what it showed. A list takes lines, a table takes rows, a text
/// takes lines and wraps them; an item of another shape changes nothing.
pub open spec fn updated(content: Content, item: Item, chunk: Rect) -> Content {
    match content {
        Content::List(l) => match item_lines(item) {
            Some(lines) => Content::List(
                Listing { items: lines, selected: moved_down(0, l.selected, lines.len()) },
            ),
            None => content,
        },
        Content::SingleSelect(l) => match item_lines(item) {
            Some(lines) => Content::SingleSelect(
                Listing { items: lines, selected: moved_down(0, l.selected, lines.len()) },
            ),
            None => content,
        },
        Content::MultipleSelect(l, chosen) => match item_lines(item) {
            Some(lines) => Content::MultipleSelect(
                Listing { items: lines, selected: moved_down(0, l.selected, lines.len()) },
                chosen,
            ),
            None => content,
        },
        Content::Table(t) => match item {
            Item::DoubleArray(rows) => Content::Table(
                Grid { rows, selected: moved_down(0, t.selected, rows.len()), ..t },
            ),
            _ => content,
        },
        Content::Text(_) => match item_lines(item) {
            Some(lines) => Content::Text(fresh_text(lines, chunk.width, chunk.height)),
            None => content,
        },
    }
}

/// The lines of `item`, if it stands for lines.
fn lines_of_item(item: WidgetItem) -> (r: Option<Vec<String>>)
    ensures
        r is Some == item_lines(item@) is Some,
        r is Some ==> texts(r->0@) == item_lines(item@)->0,
{
    match item {
        WidgetItem::Single(s) => {
            let mut v: Vec<String> = Vec::new();
            proof {
                lemma_texts_push(v@, s);
            }
            v.push(s);
            assert(texts(v@) =~= seq![s@]);
            Some(v)
        },
        WidgetItem::Array(v) => Some(v),
        WidgetItem::DoubleArray(_) => None,
    }
}

impl WidgetKind {
    /// Shows `item` in place of what was shown, in an area of the size of
    /// `chunk`.
    pub fn update(&mut self, item: WidgetItem, chunk: Rect)
        requires
            old(self).wf(),
        ensures
            final(self).wf(),
            final(self)@ == updated(old(self)@, item@, chunk),
    {
        match self {
            WidgetKind::Table(t) => match item {
                WidgetItem::DoubleArray(rows) => t.update_rows(rows),
                _ => {},
            },
            WidgetKind::List(l) => match lines_of_item(item) {
                Some(lines) => l.set_items(lines),
                None => {},
            },
            WidgetKind::SingleSelect(l) => match lines_of_item(item) {
                Some(lines) => l.set_items(lines),
                None => {},
            },
            WidgetKind::MultipleSelect(m) => match lines_of_item(item) {
                Some(lines) => m.list.set_items(lines),
                None => {},
            },
            WidgetKind::Text(t) => match lines_of_item(item) {
                Some(lines) => {
                    t.set_items(lines);
                    t.update_spans(chunk.width as u64);
                    t.update_rows_size(chunk.height as u64);
                },
                None => {},
            },
        }
    }
}

/// A widget: who it is, where it is drawn, and what it holds.
pub struct Widget {
    pub id: String,
    pub title: String,
    /// The area that the layout gave the widget, border included.
    pub chunk: Rect,
    /// Whether the widget can take the focus.
    pub focusable: bool,
    /// The action that choosing an entry with the enter key asks for.
    pub on_select: Option<usize>,
    pub kind: WidgetKind,
}

/// The mathematical value of a `Widget`.
pub ghost struct WidgetModel {
    pub id: Seq<char>,
    pub title: Seq<char>,
    pub chunk: Rect,
    pub focusable: bool,
    pub on_select: Option<usize>,
    pub content: Content,
}

impl View for Widget {
    type V = WidgetModel;

    open spec fn view(&self) -> WidgetModel {
        WidgetModel {
            id: self.id@,
            title: self.title@,
            chunk: self.chunk,
            focusable: self.focusable,
            on_select: self.on_select,
            content: self.kind@,
        }
    }
}

/// How many entries a list or a table holds; 0 for a text.
pub open spec fn entries(content: Content) -> nat {
    match content {
        Content::List(l) => l.items.len(),
        Content::Table(t) => t.rows.len(),
        Content::Text(_) => 0,
        Content::SingleSelect(l) => l.items.len(),
        Content::MultipleSelect(l, _) => l.items.len(),
    }
}

/// What a widget holds after the entry at `index` was clicked: the cursor
/// stands on it, if there is such an entry.
pub open spec fn clicked(content: Content, index: nat) -> Content {
    if index < entries(content) {
        stepped(stepped(content, Step::First), Step::Down(index as usize))
    } else {
        content
    }
}

/// How far a page key moves in an area: as many lines as fit inside its
/// border.
pub open spec fn page_of(chunk: Rect) -> usize {
    chunk.shrunk().height as usize
}

/// What a widget is after a key, and what the key came to. A key that
/// moves the cursor or the view is handled. The enter key asks for the
/// widget's action, if it has one. Any other key means nothing to the
/// widget.
pub open spec fn after_key(w: WidgetModel, key: KeyEvent) -> (WidgetModel, EventResult) {
    match key_step(key.code, page_of(w.chunk)) {
        Some(step) => (WidgetModel { content: stepped(w.content, step), ..w }, EventResult::Nop),
        None => if key.code == KeyCode::Enter && w.on_select is Some {
            (w, EventResult::Callback(w.on_select->0))
        } else {
            (w, EventResult::Ignore)
        },
    }
}

/// What a widget is after a mouse event, and what the event came to. The
/// wheel moves the cursor or the view. A press of the left button inside
/// the border of a list or a table puts the cursor on the entry in that
/// row. Anything else means nothing to the widget.
pub open spec fn after_mouse(w: WidgetModel, ev: MouseEvent) -> (WidgetModel, EventResult) {
    match wheel_step(ev.kind) {
        Some(step) => (WidgetModel { content: stepped(w.content, step), ..w }, EventResult::Nop),
        None => if ev.kind == MouseEventKind::Down(MouseButton::Left) && !(w.content is Text)
            && w.chunk.shrunk().contains(ev.column as int, ev.row as int) {
            (
                WidgetModel {
                    content: clicked(w.content, (ev.row - w.chunk.shrunk().y) as nat),
                    ..w
                },
                EventResult::Nop,
            )
        } else {
            (w, EventResult::Ignore)
        },
    }
}

impl Widget {
    pub open spec fn wf(&self) -> bool {
        self.kind.wf()
    }

    /// A widget that can take the focus, has no area yet and no action.
    pub fn new(id: &str, title: &str, kind: WidgetKind) -> (r: Widget)
        requires
            kind.wf(),
        ensures
            r.wf(),
            r@ == (WidgetModel {
                id: id@,
                title: title@,
                chunk: Rect { x: 0, y: 0, width: 0, height: 0 },
                focusable: true,
                on_select: None,
                content: kind@,
            }),
    {
        Widget {
            id: id.to_owned(),
            title: title.to_owned(),
            chunk: Rect::zero(),
            focusable: true,
            on_select: None,
            kind,
        }
    }

    pub fn id(&self) -> (r: &str)
        ensures
            r@ == self@.id,
    {
        self.id.as_str()
    }

    pub fn title(&self) -> (r: &str)
        ensures
            r@ == self@.title,
    {
        self.title.as_str()
    }

    pub fn chunk(&self) -> (r: Rect)
        ensures
            r == self@.chunk,
    {
        self.chunk
    }

    pub fn can_activate(&self) -> (r: bool)
        ensures
            r == self@.focusable,
    {
        self.focusable
    }

    /// Puts the widget into the area `chunk`.
    pub fn update_chunk(&mut self, chunk: Rect)
        ensures
            final(self)@ == (WidgetModel { chunk, ..old(self)@ }),
            final(self).wf() == old(self).wf(),
    {
        self.chunk = chunk;
    }

    /// Hands a key to the widget.
    pub fn on_key_event(&mut self, key: KeyEvent) -> (r: EventResult)
        requires
            old(self).wf(),
        ensures
            final(self).wf(),
            (final(self)@, r) == after_key(old(self)@, key),
    {
        let page: usize = self.chunk.inner().height as usize;
        match step_of_key(key.code, page) {
            Some(step) => {
                self.kind.step(step);
                EventResult::Nop
            },
            None => match (key.code, self.on_select) {
                (KeyCode::Enter, Some(action)) => EventResult::Callback(action),
                _ => EventResult::Ignore,
            },
        }
    }

    /// Hands a mouse event to the widget.
    pub fn on_mouse_event(&mut self, ev: MouseEvent) -> (r: EventResult)
        requires
            old(self).wf(),
        ensures
            final(self).wf(),
            (final(self)@, r) == after_mouse(old(self)@, ev),
    {
        match step_of_wheel(ev.kind) {
            Some(step) => {
                self.kind.step(step);
                EventResult::Nop
            },
            None => {
                let inner: Rect = self.chunk.inner();
                let pressed: bool = match ev.kind {
                    MouseEventKind::Down(MouseButton::Left) => true,
                    _ => false,
                };
                let is_text: bool = match &self.kind {
                    WidgetKind::Text(_) => true,
                    _ => false,
                };
                if pressed && !is_text && inner.contains_point(ev.position()) {
                    let index: usize = (ev.row - inner.y) as usize;
                    let count: usize = match &self.kind {
                        WidgetKind::List(l) => l.len(),
                        WidgetKind::SingleSelect(l) => l.len(),
                        WidgetKind::MultipleSelect(m) => m.list.len(),
                        WidgetKind::Table(t) => t.rows().len(),
                        WidgetKind::Text(_) => 0,
                    };
                    if index < count {
                        self.kind.step(Step::First);
                        self.kind.step(Step::Down(index));
                    }
                    EventResult::Nop
                } else {
                    EventResult::Ignore
                }
            },
        }
    }

    /// Shows `item` in place of what was shown.
    pub fn update_widget_item(&mut self, item: WidgetItem)
        requires
            old(self).wf(),
        ensures
            final(self).wf(),
            final(self)@ == (WidgetModel {
                content: updated(old(self)@.content, item@, old(self)@.chunk),
                ..old(self)@
            }),
    {
        self.kind.update(item, self.chunk);
    }
}

/// What a widget in `chunk` holds after `item` is added to what it shows.
/// Only a text takes more lines: it wraps them and adds them below those
/// that are there, and its view stays where it is.
pub open spec fn appended(content: Content, item: Item, chunk: Rect) -> Content {
    match content {
        Content::Text(b) => match item_lines(item) {
            Some(lines) => {
                let all = b.lines + lines_of(wrap_all(lines, inner_width(chunk.width as u64)));
                Content::Text(
                    Buffer {
                        items: b.items + lines,
                        lines: all,
                        offset: b.offset,
                        rows: row_count(all.len(), chunk.height as u64),
                    },
                )
            },
            None => content,
        },
        _ => content,
    }
}

impl Widget {
    /// Adds `item` to what is shown.
    pub fn append_widget_item(&mut self, item: WidgetItem)
        requires
            old(self).wf(),
        ensures
            final(self).wf(),
            final(self)@ == (WidgetModel {
                content: appended(old(self)@.content, item@, old(self)@.chunk),
                ..old(self)@
            }),
    {
        let width: u64 = self.chunk.width as u64;
        let height: u64 = self.chunk.height as u64;
        match &mut self.kind {
            WidgetKind::Text(t) => match lines_of_item(item) {
                Some(lines) => {
                    t.append_items(&lines, width, height);
                },
                None => {},
            },
            _ => {},
        }
    }

    /// Empties a text; leaves any other widget as it is.
    pub fn clear(&mut self)
        requires
            old(self).wf(),
        ensures
            final(self).wf(),
            final(self)@ == (WidgetModel {
                content: match old(self)@.content {
                    Content::Text(_) => Content::Text(
                        Buffer { items: seq![], lines: seq![], offset: 0, rows: 0 },
                    ),
                    other => other,
                },
                ..old(self)@
            }),
    {
        match &mut self.kind {
            WidgetKind::Text(t) => t.clear(),
            _ => {},
        }
    }
}

/// Something to do to what a widget holds.
pub enum Change {
    /// Show the item in place of what is shown.
    Show(WidgetItem),
    /// Add the item to what is shown.
    Add(WidgetItem),
    /// Show the table.
    Table(KubeTable),
    /// Pick the item of this name, if nothing is picked.
    Pick(String),
    /// Pick the item of this name and no other.
    PickOnly(String),
    /// Pick the item under the cursor, or let go of it if it is picked.
    Toggle,
    /// Pick nothing.
    UnpickAll,
    /// Show nothing.
    Clear,
}

/// The mathematical value of a `Change`.
pub ghost enum Alteration {
    Show(Item),
    Add(Item),
    Table(Seq<Seq<char>>, Seq<Seq<Seq<char>>>),
    Pick(Seq<char>),
    PickOnly(Seq<char>),
    Toggle,
    UnpickAll,
    Clear,
}

impl View for Change {
    type V = Alteration;

    open spec fn view(&self) -> Alteration {
        match self {
            Change::Show(item) => Alteration::Show(item@),
            Change::Add(item) => Alteration::Add(item@),
            Change::Table(table) => Alteration::Table(texts(table.header@), cells(table.rows@)),
            Change::Pick(name) => Alteration::Pick(name@),
            Change::PickOnly(name) => Alteration::PickOnly(name@),
            Change::Toggle => Alteration::Toggle,
            Change::UnpickAll => Alteration::UnpickAll,
            Change::Clear => Alteration::Clear,
        }
    }
}

/// What a widget in `chunk` holds after a change.
///
/// A table that is shown a table with its own header takes the rows and
/// keeps its cursor as far as the rows reach; shown another header it
/// takes header and rows and puts the cursor on the first row. A list to
/// pick many from picks the named item if it holds it and nothing is
/// picked. A text that is cleared holds nothing. A change that does not
/// suit the kind of the widget changes nothing.
pub open spec fn changed(content: Content, change: Alteration, chunk: Rect) -> Content {
    match change {
        Alteration::Show(item) => updated(content, item, chunk),
        Alteration::Add(item) => appended(content, item, chunk),
        Alteration::Table(header, rows) => match content {
            Content::Table(t) => if t.header == header {
                Content::Table(
                    Grid { rows, selected: moved_down(0, t.selected, rows.len()), ..t },
                )
            } else {
                Content::Table(Grid { header, rows, selected: 0 })
            },
            _ => content,
        },
        Alteration::Pick(name) => match content {
            Content::MultipleSelect(l, chosen) => if chosen.len() == 0 && position_of(
                l.items,
                name,
            ) is Some {
                Content::MultipleSelect(l, seq![name])
            } else {
                content
            },
            _ => content,
        },
        Alteration::PickOnly(name) => match content {
            Content::MultipleSelect(l, _) => if position_of(l.items, name) is Some {
                Content::MultipleSelect(l, seq![name])
            } else {
                Content::MultipleSelect(l, seq![])
            },
            _ => content,
        },
        Alteration::Toggle => match content {
            Content::MultipleSelect(l, chosen) => Content::MultipleSelect(l, toggled(l, chosen)),
            _ => content,
        },
        Alteration::UnpickAll => match content {
            Content::MultipleSelect(l, _) => Content::MultipleSelect(l, seq![]),
            _ => content,
        },
        Alteration::Clear => match content {
            Content::Text(_) => Content::Text(
                Buffer { items: seq![], lines: seq![], offset: 0, rows: 0 },
            ),
            _ => content,
        },
    }
}

impl Widget {
    /// Does `change` to what the widget holds.
    pub fn apply(&mut self, change: Change)
        requires
            old(self).wf(),
        ensures
            final(self).wf(),
            final(self)@ == (WidgetModel {
                content: changed(old(self)@.content, change@, old(self)@.chunk),
                ..old(self)@
            }),
    {
        match change {
            Change::Show(item) => self.update_widget_item(item),
            Change::Add(item) => self.append_widget_item(item),
            Change::Clear => self.clear(),
            Change::Table(table) => match &mut self.kind {
                WidgetKind::Table(t) => {
                    if t.equal_header(&table.header) {
                        t.update_rows(table.rows);
                    } else {
                        t.update_header_and_rows(table.header, table.rows);
                    }
                },
                _ => {},
            },
            Change::PickOnly(name) => match &mut self.kind {
                WidgetKind::MultipleSelect(m) => {
                    m.unselect_all();
                    assert(texts(m.chosen@) =~= Seq::<Seq<char>>::empty());
                    proof {
                        crate::util::lemma_position_of(texts(m.chosen@), name@);
                    }
                    m.select_item(name.as_str());
                    assert(position_of(m.list@.items, name@) is Some ==> texts(m.chosen@)
                        =~= seq![name@]);
                },
                _ => {},
            },
            Change::Toggle => match &mut self.kind {
                WidgetKind::MultipleSelect(m) => {
                    m.toggle_select_unselect();
                },
                _ => {},
            },
            Change::UnpickAll => match &mut self.kind {
                WidgetKind::MultipleSelect(m) => {
                    m.unselect_all();
                    assert(texts(m.chosen@) =~= Seq::<Seq<char>>::empty());
                },
                _ => {},
            },
            Change::Pick(name) => match &mut self.kind {
                WidgetKind::MultipleSelect(m) => {
                    if m.chosen.len() == 0 {
                        assert(texts(m.chosen@) =~= Seq::<Seq<char>>::empty());
                        proof {
                            crate::util::lemma_position_of(texts(m.chosen@), name@);
                        }
                        m.select_item(name.as_str());
                        assert(position_of(m.list@.items, name@) is Some ==> texts(m.chosen@)
                            =~= seq![name@]);
                    }
                },
                _ => {},
            },
        }
    }
}

} // verus!
