use kubetui::layout::{
    Direction, LayoutElement, NestedLayoutElement, NestedWidgetLayout, Placement,
};
use kubetui::rect::Rect;

fn flat(weights: &[u16]) -> NestedWidgetLayout {
    let elements = weights
        .iter()
        .enumerate()
        .map(|(slot, weight)| NestedLayoutElement(*weight, LayoutElement::WidgetIndex(slot)))
        .collect();
    NestedWidgetLayout::default().nested_widget_layout(elements)
}

fn inside(inner: Rect, outer: Rect) -> bool {
    let (ix, iy) = (u32::from(inner.x), u32::from(inner.y));
    let (ox, oy) = (u32::from(outer.x), u32::from(outer.y));
    ox <= ix
        && ix + u32::from(inner.width) <= ox + u32::from(outer.width)
        && oy <= iy
        && iy + u32::from(inner.height) <= oy + u32::from(outer.height)
}

#[test]
fn strips_span_the_area_and_lie_inside_it() {
    let starts = [0u16, 1, 7, 100, 40000, 65530, 65535];
    let sizes = [0u16, 1, 2, 3, 5, 10, 80, 1000, 65535];
    let weights: [&[u16]; 9] = [
        &[],
        &[1],
        &[0],
        &[1, 1],
        &[50, 50],
        &[1, 2, 3],
        &[0, 1, 0],
        &[65535, 1],
        &[3, 3, 3, 3, 3, 3, 3],
    ];
    for &x in &starts {
        for &y in &[0u16, 3, 65535] {
            for &width in &sizes {
                for &height in &[0u16, 1, 24, 65535] {
                    if u32::from(x) + u32::from(width) > 65535
                        || u32::from(y) + u32::from(height) > 65535
                    {
                        continue;
                    }
                    let area = Rect::new(x, y, width, height);
                    for w in &weights {
                        let layout = flat(w);
                        let across = layout.direction_split(Direction::Horizontal, area);
                        assert_eq!(across.len(), w.len());
                        for strip in &across {
                            assert_eq!((strip.y, strip.height), (y, height));
                            assert!(inside(*strip, area), "{:?} in {:?}", strip, area);
                        }
                        let down = layout.direction_split(Direction::Vertical, area);
                        assert_eq!(down.len(), w.len());
                        for strip in &down {
                            assert_eq!((strip.x, strip.width), (x, width));
                            assert!(inside(*strip, area), "{:?} in {:?}", strip, area);
                        }
                    }
                }
            }
        }
    }
}

#[test]
fn an_area_that_reaches_past_the_last_column_is_divided_up_to_it() {
    let area = Rect::new(65530, 0, 100, 4);
    let strips = flat(&[1, 1]).direction_split(Direction::Horizontal, area);
    assert_eq!(strips.len(), 2);
    for strip in &strips {
        assert!(inside(*strip, area));
        assert_eq!((strip.y, strip.height), (0, 4));
    }
}

#[test]
fn equal_weights_share_an_area_equally() {
    let area = Rect::new(0, 0, 40, 10);
    assert_eq!(
        flat(&[1, 1]).direction_split(Direction::Horizontal, area),
        vec![Rect::new(0, 0, 20, 10), Rect::new(20, 0, 20, 10)]
    );
    assert_eq!(
        flat(&[50, 50]).split(area),
        vec![Rect::new(0, 0, 40, 5), Rect::new(0, 5, 40, 5)]
    );
    assert_eq!(
        flat(&[1, 3]).direction_split(Direction::Horizontal, area),
        vec![Rect::new(0, 0, 10, 10), Rect::new(10, 0, 30, 10)]
    );
}

#[test]
fn a_nested_layout_places_its_leaves_inside_its_strip() {
    let inner = NestedWidgetLayout::default()
        .direction(Direction::Horizontal)
        .nested_widget_layout(vec![
            NestedLayoutElement(1, LayoutElement::WidgetIndex(1)),
            NestedLayoutElement(1, LayoutElement::WidgetIndex(2)),
        ]);
    let outer = NestedWidgetLayout::default().nested_widget_layout(vec![
        NestedLayoutElement(1, LayoutElement::WidgetIndex(0)),
        NestedLayoutElement(1, LayoutElement::NestedElement(inner)),
    ]);
    assert!(outer.is_valid_for(3));
    assert!(!outer.is_valid_for(2));
    let area = Rect::new(0, 0, 40, 10);
    let mut placements: Vec<Placement> = Vec::new();
    outer.place(area, &mut placements);
    assert_eq!(
        placements,
        vec![
            Placement { slot: 0, area: Rect::new(0, 0, 40, 5) },
            Placement { slot: 1, area: Rect::new(0, 5, 20, 5) },
            Placement { slot: 2, area: Rect::new(20, 5, 20, 5) },
        ]
    );
}
