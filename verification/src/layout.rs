//! Dividing an area among the widgets of a tab.
//!
//! A layout is a tree. A node divides its area along one direction into
//! strips, one for each constraint, and hands each strip to the element at
//! the same position: a widget slot, or a layout that divides the strip
//! further. How long each strip is decides the layout solver of `ratatui`.

use crate::rect::Rect;
use vstd::prelude::*;

verus! {

/// The direction along which an area is divided.
#[derive(Clone, Copy, Debug, PartialEq, Eq, Structural)]
pub enum Direction {
    Horizontal,
    Vertical,
}

impl Direction {
    pub open spec fn flipped(self) -> Direction {
        match self {
            Direction::Horizontal => Direction::Vertical,
            Direction::Vertical => Direction::Horizontal,
        }
    }

    /// The other direction.
    pub fn toggle(self) -> (r: Direction)
        ensures
            r == self.flipped(),
    {
        match self {
            Direction::Horizontal => Direction::Vertical,
            Direction::Vertical => Direction::Horizontal,
        }
    }
}

/// What a strip is given to.
pub enum LayoutElement {
    /// The widget in this slot of the tab.
    WidgetIndex(usize),
    /// A layout that divides the strip further.
    NestedElement(NestedWidgetLayout),
}

/// A strip as it is described: its weight, and what it is given to. The
/// strips of a node share its area in proportion to their weights.
pub struct NestedLayoutElement(pub u16, pub LayoutElement);

/// A node of a layout.
pub struct NestedWidgetLayout {
    direction: Direction,
    weights: Vec<u16>,
    elements: Vec<LayoutElement>,
}

/// A widget slot and the area that a layout gives it.
#[derive(Clone, Copy, Debug, PartialEq, Eq, Structural)]
pub struct Placement {
    pub slot: usize,
    pub area: Rect,
}

/// Whether `strips` divide `area` along `direction`: each strip spans the
/// area across that direction and lies inside it along that direction.
pub open spec fn strips_span(strips: Seq<Rect>, direction: Direction, area: Rect) -> bool {
    forall|i: int|
        0 <= i < strips.len() ==> match direction {
            Direction::Horizontal => {
                &&& (#[trigger] strips[i]).y == area.y
                &&& strips[i].height == area.height
                &&& area.x <= strips[i].x
                &&& strips[i].x + strips[i].width <= area.x + area.width
            },
            Direction::Vertical => {
                &&& (#[trigger] strips[i]).x == area.x
                &&& strips[i].width == area.width
                &&& area.y <= strips[i].y
                &&& strips[i].y + strips[i].height <= area.y + area.height
            },
        }
}

/// Calls `ratatui::layout::Layout::split` on a layout of the given
/// direction with one `Constraint::Fill` for each weight, without margin or
/// spacing. Trusted: the call returns one strip for each constraint, in
/// order; each strip has the position and the size of `area` across the
/// direction; and along the direction each strip begins and ends inside
/// `area`, which the layout requires of its solver. Where inside it the
/// strips begin and end is the solver's choice and is not stated.
#[verifier::external_body]
fn split_area(direction: Direction, weights: &Vec<u16>, area: Rect) -> (r: Vec<Rect>)
    ensures
        r@.len() == weights@.len(),
        strips_span(r@, direction, area),
{
    let direction = match direction {
        Direction::Horizontal => ratatui::layout::Direction::Horizontal,
        Direction::Vertical => ratatui::layout::Direction::Vertical,
    };
    let fills = weights.iter().map(|w| ratatui::layout::Constraint::Fill(*w));
    let area = ratatui::layout::Rect { x: area.x, y: area.y, width: area.width, height: area.height };
    let strips = ratatui::layout::Layout::new(direction, fills).split(area);
    strips.iter().map(|s| Rect { x: s.x, y: s.y, width: s.width, height: s.height }).collect()
}

/// The slots of the leaves of `elements`, from first to last.
pub open spec fn slots_of(elements: Seq<LayoutElement>) -> Seq<usize>
    decreases elements,
{
    if elements.len() == 0 {
        seq![]
    } else {
        slots_of(elements.drop_last()) + match elements.last() {
            LayoutElement::WidgetIndex(slot) => seq![slot],
            LayoutElement::NestedElement(layout) => slots_of(layout.paired()),
        }
    }
}

/// The slots of `placements`, in order.
pub open spec fn placed_slots(placements: Seq<Placement>) -> Seq<usize> {
    Seq::new(placements.len(), |i: int| placements[i].slot)
}

/// Whether `strips` can be what a node with the given weights divides
/// `area` into along `direction`: one strip for each weight, each
/// spanning the area across the direction.
pub open spec fn divides(strips: Seq<Rect>, weights: Seq<u16>, direction: Direction, area: Rect) -> bool {
    strips.len() == weights.len() && strips_span(strips, direction, area)
}

/// How a layout has divided an area: the strips of the node, and for each
/// strip that was handed to a layout how that layout divided it. What
/// stands in `parts` for a strip that was handed to a widget is of no
/// account.
pub ghost struct Division {
    pub strips: Seq<Rect>,
    pub parts: Seq<Division>,
}

/// Whether `placements` are what `elements` come to under `division`: the
/// element at each position is given the strip at that position; a widget
/// slot is placed in its strip, and a layout divides its strip along its
/// own direction and places its elements in the strips that it gets.
pub open spec fn laid_out(
    elements: Seq<LayoutElement>,
    division: Division,
    placements: Seq<Placement>,
) -> bool
    decreases elements,
{
    if elements.len() == 0 {
        placements.len() == 0
    } else {
        let last = elements.len() - 1;
        let k = slots_of(elements.drop_last()).len() as int;
        &&& elements.len() <= division.strips.len()
        &&& k <= placements.len()
        &&& laid_out(elements.drop_last(), division, placements.take(k))
        &&& match elements.last() {
            LayoutElement::WidgetIndex(slot) => placements.skip(k) == seq![
                Placement { slot, area: division.strips[last] },
            ],
            LayoutElement::NestedElement(layout) => {
                &&& last < division.parts.len()
                &&& divides(
                    division.parts[last].strips,
                    layout.spec_weights(),
                    layout.spec_direction(),
                    division.strips[last],
                )
                &&& laid_out(layout.paired(), division.parts[last], placements.skip(k))
            },
        }
    }
}

/// What a division says beyond the parts that it has does not count:
/// placements that are laid out under a division are laid out under any
/// division that has the same strips and begins with the same parts.
pub proof fn lemma_laid_out_extends(
    elements: Seq<LayoutElement>,
    division: Division,
    longer: Division,
    placements: Seq<Placement>,
)
    requires
        laid_out(elements, division, placements),
        longer.strips == division.strips,
        division.parts.len() <= longer.parts.len(),
        longer.parts.take(division.parts.len() as int) == division.parts,
    ensures
        laid_out(elements, longer, placements),
    decreases elements.len(),
{
    if elements.len() > 0 {
        let last = elements.len() - 1;
        let k = slots_of(elements.drop_last()).len() as int;
        lemma_laid_out_extends(elements.drop_last(), division, longer, placements.take(k));
        if last < division.parts.len() {
            assert(longer.parts.take(division.parts.len() as int)[last] == longer.parts[last]);
        }
    }
}

impl NestedWidgetLayout {
    pub closed spec fn spec_direction(&self) -> Direction {
        self.direction
    }

    pub closed spec fn spec_weights(&self) -> Seq<u16> {
        self.weights@
    }

    pub closed spec fn spec_elements(&self) -> Seq<LayoutElement> {
        self.elements@
    }

    /// The elements that get a strip: as many as there are weights.
    pub open spec fn paired(&self) -> Seq<LayoutElement> {
        if self.spec_weights().len() < self.spec_elements().len() {
            self.spec_elements().take(self.spec_weights().len() as int)
        } else {
            self.spec_elements()
        }
    }

    /// The slots of the leaves that get an area, from first to last.
    pub open spec fn leaf_slots(&self) -> Seq<usize> {
        slots_of(self.paired())
    }

    /// Whether `placements` are what this node comes to in `chunk` when it
    /// divides along `direction`.
    pub open spec fn places_in(
        &self,
        direction: Direction,
        chunk: Rect,
        placements: Seq<Placement>,
    ) -> bool {
        exists|division: Division|
            divides(division.strips, self.spec_weights(), direction, chunk) && #[trigger] laid_out(
                self.paired(),
                division,
                placements,
            )
    }

    /// Whether every leaf that gets an area names one of `slots` slots.
    pub open spec fn valid_for(&self, slots: nat) -> bool {
        forall|k: int| 0 <= k < self.leaf_slots().len() ==> #[trigger] self.leaf_slots()[k] < slots
    }

    /// Sets the direction of this node.
    pub fn direction(self, direction: Direction) -> (r: Self)
        ensures
            r.spec_direction() == direction,
            r.spec_weights() == self.spec_weights(),
            r.spec_elements() == self.spec_elements(),
    {
        NestedWidgetLayout { direction, weights: self.weights, elements: self.elements }
    }

    /// Sets the strips of this node.
    pub fn nested_widget_layout(self, nested_layout_elements: Vec<NestedLayoutElement>) -> (r:
        Self)
        ensures
            r.spec_direction() == self.spec_direction(),
            r.spec_weights().len() == nested_layout_elements@.len(),
            r.spec_elements().len() == nested_layout_elements@.len(),
            forall|i: int|
                0 <= i < nested_layout_elements@.len() ==> r.spec_weights()[i]
                    == nested_layout_elements@[i].0 && r.spec_elements()[i]
                    == nested_layout_elements@[i].1,
    {
        let mut weights: Vec<u16> = Vec::new();
        let mut elements: Vec<LayoutElement> = Vec::new();
        let mut rest: Vec<NestedLayoutElement> = nested_layout_elements;
        let ghost all = rest@;
        while rest.len() > 0
            invariant
                rest@.len() <= all.len(),
                rest@ == all.take(rest@.len() as int),
                weights@.len() == all.len() - rest@.len(),
                elements@.len() == weights@.len(),
                forall|i: int|
                    0 <= i < weights@.len() ==> weights@[i] == all[all.len() - 1 - i].0
                        && elements@[i] == all[all.len() - 1 - i].1,
            decreases rest.len(),
        {
            let ghost before = rest@;
            let last: Option<NestedLayoutElement> = rest.pop();
            match last {
                Some(NestedLayoutElement(weight, element)) => {
                    assert(before.last() == all[before.len() - 1]);
                    weights.push(weight);
                    elements.push(element);
                },
                None => {},
            }
        }
        let weights: Vec<u16> = reversed(weights);
        let elements: Vec<LayoutElement> = reversed(elements);
        NestedWidgetLayout { direction: self.direction, weights, elements }
    }

    /// The strips that this node divides `chunk` into, one for each weight.
    pub fn split(&self, chunk: Rect) -> (r: Vec<Rect>)
        ensures
            r@.len() == self.spec_weights().len(),
            strips_span(r@, self.spec_direction(), chunk),
    {
        split_area(self.direction, &self.weights, chunk)
    }

    /// The strips that this node divides `chunk` into when it divides along
    /// `direction`.
    pub fn direction_split(&self, direction: Direction, chunk: Rect) -> (r: Vec<Rect>)
        ensures
            r@.len() == self.spec_weights().len(),
            strips_span(r@, direction, chunk),
    {
        split_area(direction, &self.weights, chunk)
    }

    /// Whether every leaf that gets an area names one of `slots` slots.
    pub fn is_valid_for(&self, slots: usize) -> (r: bool)
        ensures
            r == self.valid_for(slots as nat),
        decreases self,
    {
        let n: usize = if self.weights.len() < self.elements.len() {
            self.weights.len()
        } else {
            self.elements.len()
        };
        let mut i: usize = 0;
        assert(self.paired().take(0) =~= Seq::<LayoutElement>::empty());
        while i < n
            invariant
                i <= n,
                n == self.paired().len(),
                n <= self.elements@.len(),
                forall|k: int|
                    0 <= k < n ==> #[trigger] self.paired()[k] == self.elements@[k],
                forall|k: int|
                    0 <= k < slots_of(self.paired().take(i as int)).len() ==> #[trigger] slots_of(
                        self.paired().take(i as int),
                    )[k] < slots,
            decreases n - i,
        {
            let ghost upto = self.paired().take(i + 1);
            let ghost seen = slots_of(self.paired().take(i as int));
            assert(upto.drop_last() =~= self.paired().take(i as int));
            assert(upto.last() == self.elements@[i as int]);
            let ok: bool = match &self.elements[i] {
                LayoutElement::WidgetIndex(slot) => *slot < slots,
                LayoutElement::NestedElement(layout) => layout.is_valid_for(slots),
            };
            if !ok {
                proof {
                    let all = self.paired();
                    lemma_slots_of_prefix(all, i + 1);
                    let bad: int = match self.elements@[i as int] {
                        LayoutElement::WidgetIndex(slot) => seen.len() as int,
                        LayoutElement::NestedElement(layout) => {
                            let w = choose|k: int|
                                0 <= k < layout.leaf_slots().len() && !(
                                #[trigger] layout.leaf_slots()[k] < slots);
                            seen.len() + w
                        },
                    };
                    assert(0 <= bad < slots_of(upto).len());
                    assert(!(slots_of(upto)[bad] < slots));
                    assert(self.leaf_slots()[bad] == slots_of(upto)[bad]);
                }
                return false;
            }
            proof {
                assert forall|k: int| 0 <= k < slots_of(upto).len() implies #[trigger] slots_of(
                    upto,
                )[k] < slots by {
                    if k >= seen.len() {
                        match self.elements@[i as int] {
                            LayoutElement::WidgetIndex(slot) => {},
                            LayoutElement::NestedElement(layout) => {
                                assert(slots_of(upto)[k] == layout.leaf_slots()[k - seen.len()]);
                            },
                        }
                    } else {
                        assert(slots_of(upto)[k] == seen[k]);
                    }
                }
            }
            i += 1;
        }
        assert(self.paired().take(n as int) =~= self.paired());
        true
    }

    /// Divides `chunk` and adds to `out`, for each leaf that gets an area,
    /// its slot and that area, from the first leaf to the last.
    pub fn place(&self, chunk: Rect, out: &mut Vec<Placement>)
        ensures
            placed_slots(final(out)@) == placed_slots(old(out)@) + self.leaf_slots(),
            final(out)@.len() == old(out)@.len() + self.leaf_slots().len(),
            final(out)@.take(old(out)@.len() as int) == old(out)@,
            self.places_in(self.spec_direction(), chunk, final(out)@.skip(old(out)@.len() as int)),
        decreases self, 1nat,
    {
        self.place_in(self.direction, chunk, out);
    }

    /// As `place`, but divides `chunk` along `direction` at this node.
    pub fn place_in(&self, direction: Direction, chunk: Rect, out: &mut Vec<Placement>)
        ensures
            placed_slots(final(out)@) == placed_slots(old(out)@) + self.leaf_slots(),
            final(out)@.len() == old(out)@.len() + self.leaf_slots().len(),
            final(out)@.take(old(out)@.len() as int) == old(out)@,
            self.places_in(direction, chunk, final(out)@.skip(old(out)@.len() as int)),
        decreases self, 0nat,
    {
        let strips: Vec<Rect> = split_area(direction, &self.weights, chunk);
        let n: usize = if self.weights.len() < self.elements.len() {
            self.weights.len()
        } else {
            self.elements.len()
        };
        let ghost before = out@;
        let ghost mut parts: Seq<Division> = seq![];
        let mut i: usize = 0;
        assert(self.paired().take(0) =~= Seq::<LayoutElement>::empty());
        assert(placed_slots(out@) + Seq::<usize>::empty() =~= placed_slots(out@));
        assert(out@.skip(before.len() as int) =~= Seq::<Placement>::empty());
        while i < n
            invariant
                i <= n,
                n == self.paired().len(),
                n <= self.elements@.len(),
                n <= strips@.len(),
                forall|k: int|
                    0 <= k < n ==> #[trigger] self.paired()[k] == self.elements@[k],
                placed_slots(out@) == placed_slots(before) + slots_of(
                    self.paired().take(i as int),
                ),
                before.len() <= out@.len(),
                out@.take(before.len() as int) == before,
                divides(strips@, self.spec_weights(), direction, chunk),
                parts.len() == i,
                laid_out(
                    self.paired().take(i as int),
                    Division { strips: strips@, parts },
                    out@.skip(before.len() as int),
                ),
            decreases n - i,
        {
            let ghost upto = self.paired().take(i + 1);
            let ghost seen = slots_of(self.paired().take(i as int));
            let ghost so_far = out@;
            let ghost parts_so_far = parts;
            assert(upto.drop_last() =~= self.paired().take(i as int));
            assert(upto.last() == self.elements@[i as int]);
            match &self.elements[i] {
                LayoutElement::WidgetIndex(slot) => {
                    out.push(Placement { slot: *slot, area: strips[i] });
                    assert(placed_slots(out@) =~= placed_slots(so_far) + seq![*slot]);
                    assert(out@.take(before.len() as int) =~= so_far.take(before.len() as int));
                    assert(out@.skip(so_far.len() as int) =~= seq![
                        Placement { slot: *slot, area: strips@[i as int] },
                    ]);
                    proof {
                        parts = parts.push(Division { strips: seq![], parts: seq![] });
                    }
                },
                LayoutElement::NestedElement(layout) => {
                    layout.place(strips[i], out);
                    assert(out@.take(before.len() as int) =~= out@.take(so_far.len() as int).take(
                        before.len() as int,
                    ));
                    proof {
                        let inner = choose|d: Division|
                            divides(
                                d.strips,
                                layout.spec_weights(),
                                layout.spec_direction(),
                                strips@[i as int],
                            ) && #[trigger] laid_out(
                                layout.paired(),
                                d,
                                out@.skip(so_far.len() as int),
                            );
                        parts = parts.push(inner);
                    }
                },
            }
            assert(placed_slots(out@) =~= placed_slots(before) + slots_of(upto));
            proof {
                let added = out@.skip(before.len() as int);
                let k = seen.len() as int;
                assert(placed_slots(so_far).len() == so_far.len());
                assert(placed_slots(before).len() == before.len());
                assert(so_far.len() == before.len() + k);
                assert(out@.take(so_far.len() as int) =~= so_far);
                assert(added.take(k) =~= so_far.skip(before.len() as int));
                assert(added.skip(k) =~= out@.skip(so_far.len() as int));
                assert(upto.len() == i + 1);
                assert(slots_of(upto.drop_last()) == seen);
                assert(parts.take(parts_so_far.len() as int) =~= parts_so_far);
                lemma_laid_out_extends(
                    upto.drop_last(),
                    Division { strips: strips@, parts: parts_so_far },
                    Division { strips: strips@, parts },
                    added.take(k),
                );
                assert(laid_out(upto, Division { strips: strips@, parts }, added));
            }
            i += 1;
        }
        assert(self.paired().take(n as int) =~= self.paired());
        assert(placed_slots(out@).len() == out@.len());
        assert(placed_slots(before).len() == before.len());
        assert(laid_out(
            self.paired(),
            Division { strips: strips@, parts },
            out@.skip(before.len() as int),
        ));
    }
}

impl Default for NestedWidgetLayout {
    /// A vertical node with one strip of weight 100 that is given to nothing.
    fn default() -> (r: NestedWidgetLayout)
        ensures
            r.spec_direction() == Direction::Vertical,
            r.spec_weights() == seq![100u16],
            r.spec_elements() == Seq::<LayoutElement>::empty(),
    {
        let mut weights: Vec<u16> = Vec::new();
        weights.push(100);
        NestedWidgetLayout { direction: Direction::Vertical, weights, elements: Vec::new() }
    }
}

/// Elements that are all widget slots come to one placement each: the
/// slot of the element in the strip at its position.
pub proof fn lemma_flat_laid_out(
    elements: Seq<LayoutElement>,
    division: Division,
    placements: Seq<Placement>,
)
    requires
        forall|i: int| 0 <= i < elements.len() ==> #[trigger] elements[i] is WidgetIndex,
        laid_out(elements, division, placements),
    ensures
        slots_of(elements).len() == elements.len(),
        placements.len() == elements.len(),
        elements.len() <= division.strips.len(),
        forall|i: int|
            0 <= i < elements.len() ==> #[trigger] placements[i] == (Placement {
                slot: elements[i]->WidgetIndex_0,
                area: division.strips[i],
            }),
    decreases elements.len(),
{
    if elements.len() > 0 {
        let shorter = elements.drop_last();
        let k = slots_of(shorter).len() as int;
        let last = elements.len() - 1;
        assert forall|i: int| 0 <= i < shorter.len() implies #[trigger] shorter[i] is WidgetIndex by {
            assert(shorter[i] == elements[i]);
        }
        assert(elements.last() == elements[last]);
        lemma_flat_laid_out(shorter, division, placements.take(k));
        assert(placements.skip(k).len() == 1);
        assert(placements.skip(k)[0] == placements[k]);
        assert forall|i: int| 0 <= i < elements.len() implies #[trigger] placements[i] == (
        Placement { slot: elements[i]->WidgetIndex_0, area: division.strips[i] }) by {
            if i < k {
                assert(placements.take(k)[i] == placements[i]);
                assert(shorter[i] == elements[i]);
            }
        }
    }
}

/// A node whose strips are all given to widgets places each widget in a
/// strip that spans the area across the direction of the node.
pub proof fn lemma_flat_layout_spans(
    layout: NestedWidgetLayout,
    direction: Direction,
    chunk: Rect,
    placements: Seq<Placement>,
)
    requires
        forall|i: int|
            0 <= i < layout.paired().len() ==> #[trigger] layout.paired()[i] is WidgetIndex,
        layout.places_in(direction, chunk, placements),
    ensures
        placements.len() == layout.paired().len(),
        forall|i: int|
            0 <= i < placements.len() ==> (#[trigger] placements[i]).slot
                == layout.paired()[i]->WidgetIndex_0,
        strips_span(Seq::new(placements.len(), |i: int| placements[i].area), direction, chunk),
{
    let division = choose|division: Division|
        divides(division.strips, layout.spec_weights(), direction, chunk) && #[trigger] laid_out(
            layout.paired(),
            division,
            placements,
        );
    lemma_flat_laid_out(layout.paired(), division, placements);
    let areas = Seq::new(placements.len(), |i: int| placements[i].area);
    assert forall|i: int| 0 <= i < areas.len() implies #[trigger] areas[i]
        == division.strips[i] by {
        assert(areas[i] == placements[i].area);
    }
}

/// Placements that are laid out in strips inside an area are inside that
/// area, whatever the layouts among the elements do with their strips.
pub proof fn lemma_laid_out_inside(
    elements: Seq<LayoutElement>,
    division: Division,
    placements: Seq<Placement>,
    chunk: Rect,
)
    requires
        laid_out(elements, division, placements),
        forall|i: int|
            0 <= i < elements.len() ==> (#[trigger] division.strips[i]).within(chunk),
    ensures
        forall|p: int| 0 <= p < placements.len() ==> (#[trigger] placements[p]).area.within(chunk),
    decreases elements,
{
    if elements.len() > 0 {
        let last = elements.len() - 1;
        let k = slots_of(elements.drop_last()).len() as int;
        lemma_laid_out_inside(elements.drop_last(), division, placements.take(k), chunk);
        let strip = division.strips[last];
        assert(strip.within(chunk));
        match elements.last() {
            LayoutElement::WidgetIndex(slot) => {
                assert(placements.skip(k).len() == 1);
                assert(placements.skip(k)[0].area == strip);
            },
            LayoutElement::NestedElement(layout) => {
                let inner = division.parts[last];
                assert forall|i: int| 0 <= i < layout.paired().len() implies (
                #[trigger] inner.strips[i]).within(chunk) by {
                    assert(inner.strips[i].within(strip));
                }
                lemma_laid_out_inside(layout.paired(), inner, placements.skip(k), chunk);
            },
        }
        assert forall|p: int| 0 <= p < placements.len() implies (
        #[trigger] placements[p]).area.within(chunk) by {
            if p < k {
                assert(placements.take(k)[p] == placements[p]);
            } else {
                assert(placements.skip(k)[p - k] == placements[p]);
            }
        }
    }
}

/// Whatever a layout places lies inside the area that it divides.
pub proof fn lemma_placements_inside(
    layout: NestedWidgetLayout,
    direction: Direction,
    chunk: Rect,
    placements: Seq<Placement>,
)
    requires
        layout.places_in(direction, chunk, placements),
    ensures
        forall|p: int| 0 <= p < placements.len() ==> (#[trigger] placements[p]).area.within(chunk),
{
    let division = choose|division: Division|
        divides(division.strips, layout.spec_weights(), direction, chunk) && #[trigger] laid_out(
            layout.paired(),
            division,
            placements,
        );
    assert forall|i: int| 0 <= i < layout.paired().len() implies (
    #[trigger] division.strips[i]).within(chunk) by {
        if layout.paired().len() > 0 {
            assert(layout.paired().len() <= division.strips.len());
        }
    }
    lemma_laid_out_inside(layout.paired(), division, placements, chunk);
}

/// A node with one strip that is given to the widget in `slot` has that
/// slot as its only leaf.
pub proof fn lemma_single_leaf(layout: NestedWidgetLayout, slot: usize)
    requires
        layout.spec_weights().len() == 1,
        layout.spec_elements().len() == 1,
        layout.spec_elements()[0] == LayoutElement::WidgetIndex(slot),
    ensures
        layout.leaf_slots() == seq![slot],
        forall|n: nat| slot < n ==> layout.valid_for(n),
{
    let es = layout.paired();
    assert(es == layout.spec_elements());
    assert(es.len() == 1);
    assert(es.last() == LayoutElement::WidgetIndex(slot));
    assert(es.drop_last().len() == 0);
    assert(slots_of(es.drop_last()) =~= Seq::<usize>::empty());
    assert(slots_of(es) =~= seq![slot]);
}

/// The leaves of the first `k` elements come first among the leaves of all.
pub proof fn lemma_slots_of_prefix(elements: Seq<LayoutElement>, k: int)
    requires
        0 <= k <= elements.len(),
    ensures
        slots_of(elements.take(k)).len() <= slots_of(elements).len(),
        slots_of(elements.take(k)) == slots_of(elements).take(
            slots_of(elements.take(k)).len() as int,
        ),
    decreases elements.len() - k,
{
    if k == elements.len() {
        assert(elements.take(k) =~= elements);
        assert(slots_of(elements).take(slots_of(elements).len() as int) =~= slots_of(elements));
    } else {
        lemma_slots_of_prefix(elements, k + 1);
        let longer = elements.take(k + 1);
        assert(longer.drop_last() =~= elements.take(k));
        let short = slots_of(elements.take(k));
        assert(slots_of(longer).take(short.len() as int) =~= short);
        assert(slots_of(elements).take(slots_of(longer).len() as int).take(short.len() as int)
            =~= slots_of(elements).take(short.len() as int));
    }
}

/// `v` from its last element to its first.
fn reversed<T>(v: Vec<T>) -> (r: Vec<T>)
    ensures
        r@.len() == v@.len(),
        forall|i: int| 0 <= i < r@.len() ==> r@[i] == v@[v@.len() - 1 - i],
{
    let mut rest: Vec<T> = v;
    let mut out: Vec<T> = Vec::new();
    let ghost all = rest@;
    while rest.len() > 0
        invariant
            rest@.len() <= all.len(),
            rest@ == all.take(rest@.len() as int),
            out@.len() == all.len() - rest@.len(),
            forall|i: int| 0 <= i < out@.len() ==> out@[i] == all[all.len() - 1 - i],
        decreases rest.len(),
    {
        let ghost before = rest@;
        match rest.pop() {
            Some(x) => {
                assert(before.last() == all[before.len() - 1]);
                out.push(x);
            },
            None => {},
        }
    }
    out
}

} // verus!
