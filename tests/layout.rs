use rust_macroquad_ui::arrange::layout_areas;
use rust_macroquad_ui::error::LayoutError;
use rust_macroquad_ui::factories::{
    height, height_stretch, horizontal_content, layers, vertical_content, width, width_no_stretch,
    width_stretch,
};
use rust_macroquad_ui::geometry::Rect;
use rust_macroquad_ui::node::{node, Component, Node, UiPathStep};
use rust_macroquad_ui::resolve::calc_size_dimension;
use rust_macroquad_ui::size::{Axis, CalculatedSize, Dimension};

fn leaf(w: i64, h: i64) -> Node<u32> {
    node().add_component(width(w)).add_component(height(h))
}

fn root_path() -> Vec<UiPathStep> {
    vec![UiPathStep::Name("root")]
}

#[test]
fn horizontal_group_sums_widths_and_takes_max_height() {
    let g = horizontal_content(vec![leaf(10, 5), leaf(20, 50), leaf(30, 5)]);
    let root = node::<u32>().add_component(Component::Group(g));
    let w = calc_size_dimension(&root, Axis::Horizontal, &root_path()).unwrap();
    let h = calc_size_dimension(&root, Axis::Vertical, &root_path()).unwrap();
    assert_eq!(w, CalculatedSize::Fixed(60));
    assert_eq!(h, CalculatedSize::Fixed(50));
}

#[test]
fn vertical_group_sums_heights_and_takes_max_width() {
    let g = vertical_content(vec![leaf(10, 5), leaf(20, 50), leaf(30, 5)]);
    let root = node::<u32>().add_component(Component::Group(g));
    assert_eq!(calc_size_dimension(&root, Axis::Horizontal, &root_path()).unwrap(), CalculatedSize::Fixed(30));
    assert_eq!(calc_size_dimension(&root, Axis::Vertical, &root_path()).unwrap(), CalculatedSize::Fixed(60));
}

#[test]
fn layered_group_takes_max_on_both_axes() {
    let g = layers(vec![leaf(10, 70), leaf(40, 5)]);
    let root = node::<u32>().add_component(Component::Group(g));
    assert_eq!(calc_size_dimension(&root, Axis::Horizontal, &root_path()).unwrap(), CalculatedSize::Fixed(40));
    assert_eq!(calc_size_dimension(&root, Axis::Vertical, &root_path()).unwrap(), CalculatedSize::Fixed(70));
}

#[test]
fn stretch_child_makes_the_sum_stretch() {
    let s = node::<u32>()
        .add_component(Component::Width(Dimension::Stretch { fixed_part: 7 }))
        .add_component(height(1));
    let g = horizontal_content(vec![leaf(10, 5), s]);
    let root = node::<u32>().add_component(Component::Group(g));
    assert_eq!(
        calc_size_dimension(&root, Axis::Horizontal, &root_path()).unwrap(),
        CalculatedSize::Stretch { fixed_part: 17 }
    );
}

#[test]
fn empty_group_is_a_zero_stretch() {
    let root = node::<u32>().add_component(Component::Group(horizontal_content(vec![])));
    assert_eq!(
        calc_size_dimension(&root, Axis::Horizontal, &root_path()).unwrap(),
        CalculatedSize::Stretch { fixed_part: 0 }
    );
}

#[test]
fn remove_stretch_reports_fixed_part() {
    let inner = node::<u32>()
        .add_component(Component::Width(Dimension::Stretch { fixed_part: 12 }))
        .add_component(height(3));
    let wrapped = node::<u32>()
        .add_component(width_no_stretch())
        .add_component(Component::Group(horizontal_content(vec![inner])));
    assert_eq!(
        calc_size_dimension(&wrapped, Axis::Horizontal, &root_path()).unwrap(),
        CalculatedSize::Fixed(12)
    );
    let parent = node::<u32>().add_component(Component::Group(horizontal_content(vec![wrapped, leaf(5, 1)])));
    assert_eq!(
        calc_size_dimension(&parent, Axis::Horizontal, &root_path()).unwrap(),
        CalculatedSize::Fixed(17)
    );
}

#[test]
fn latest_marker_wins() {
    let n = node::<u32>().add_component(width(10)).add_component(width(25));
    assert_eq!(calc_size_dimension(&n, Axis::Horizontal, &root_path()).unwrap(), CalculatedSize::Fixed(25));
}

#[test]
fn unsized_leaf_reports_its_path() {
    let bare = Node::<u32>::new("bare").add_component(height(3));
    let g = horizontal_content(vec![leaf(1, 1), bare]);
    let root = node::<u32>().add_component(Component::Group(g));
    match calc_size_dimension(&root, Axis::Horizontal, &root_path()) {
        Err(LayoutError::Unresolvable { axis, path }) => {
            assert_eq!(axis, Axis::Horizontal);
            assert_eq!(path.len(), 3);
            assert!(matches!(path[0], UiPathStep::Name("root")));
            assert!(matches!(path[1], UiPathStep::Index(1)));
            assert!(matches!(path[2], UiPathStep::Name("bare")));
        }
        other => panic!("unexpected {:?}", other),
    }
}

#[test]
fn sum_overflow_is_reported() {
    let g = horizontal_content(vec![leaf(i64::MAX, 1), leaf(1, 1)]);
    let root = node::<u32>().add_component(Component::Group(g));
    assert!(matches!(
        calc_size_dimension(&root, Axis::Horizontal, &root_path()),
        Err(LayoutError::SizeOverflow { axis: Axis::Horizontal, .. })
    ));
    assert_eq!(calc_size_dimension(&root, Axis::Vertical, &root_path()).unwrap(), CalculatedSize::Fixed(1));
}

#[test]
fn stretch_child_gets_the_leftover() {
    let sizes = vec![CalculatedSize::Fixed(20), CalculatedSize::Stretch { fixed_part: 0 }];
    let rects = layout_areas(Rect::new(0, 0, 100, 10), Axis::Horizontal, &sizes).unwrap();
    assert_eq!(rects, vec![Rect::new(0, 0, 20, 10), Rect::new(20, 0, 80, 10)]);
}

#[test]
fn stretch_share_is_split_equally_and_rounded_toward_zero() {
    let sizes = vec![
        CalculatedSize::Stretch { fixed_part: 5 },
        CalculatedSize::Fixed(10),
        CalculatedSize::Stretch { fixed_part: 0 },
    ];
    let rects = layout_areas(Rect::new(3, 4, 50, 60), Axis::Vertical, &sizes).unwrap();
    assert_eq!(
        rects,
        vec![Rect::new(3, 4, 50, 27), Rect::new(3, 31, 50, 10), Rect::new(3, 41, 50, 22)]
    );
}

#[test]
fn no_stretch_entries_keep_their_fixed_parts() {
    let sizes = vec![CalculatedSize::Fixed(20), CalculatedSize::Fixed(30)];
    let rects = layout_areas(Rect::new(0, 0, 100, 10), Axis::Horizontal, &sizes).unwrap();
    assert_eq!(rects, vec![Rect::new(0, 0, 20, 10), Rect::new(20, 0, 30, 10)]);
}

#[test]
fn content_larger_than_area_gives_negative_extent() {
    let sizes = vec![CalculatedSize::Fixed(80), CalculatedSize::Stretch { fixed_part: 0 }];
    let rects = layout_areas(Rect::new(0, 0, 50, 10), Axis::Horizontal, &sizes).unwrap();
    assert_eq!(rects[1], Rect::new(80, 0, -30, 10));
}

#[test]
fn negative_leftover_is_rounded_toward_zero() {
    let sizes = vec![
        CalculatedSize::Fixed(10),
        CalculatedSize::Stretch { fixed_part: 0 },
        CalculatedSize::Stretch { fixed_part: 0 },
    ];
    let rects = layout_areas(Rect::new(0, 0, 5, 1), Axis::Horizontal, &sizes).unwrap();
    assert_eq!(rects[1].w, -2);
    assert_eq!(rects[2], Rect::new(8, 0, -2, 1));
}

#[test]
fn arrangement_overflow_is_none() {
    let sizes = vec![CalculatedSize::Fixed(i64::MAX), CalculatedSize::Fixed(1), CalculatedSize::Fixed(1)];
    assert_eq!(layout_areas(Rect::new(1, 0, 0, 0), Axis::Horizontal, &sizes), None);
    let big = vec![CalculatedSize::Fixed(i64::MIN), CalculatedSize::Stretch { fixed_part: 0 }];
    assert_eq!(layout_areas(Rect::new(0, 0, i64::MAX, 0), Axis::Horizontal, &big), None);
}

#[test]
fn stretch_markers_resolve_as_stretch() {
    let n = node::<u32>().add_component(width_stretch()).add_component(height_stretch());
    assert_eq!(
        calc_size_dimension(&n, Axis::Vertical, &root_path()).unwrap(),
        CalculatedSize::Stretch { fixed_part: 0 }
    );
}

#[test]
fn unresolvable_message_names_axis_and_path() {
    let bare = Node::<u32>::new("bare").add_component(height(3));
    let g = horizontal_content(vec![leaf(1, 1), bare]);
    let root = node::<u32>().add_component(Component::Group(g));
    let e = calc_size_dimension(&root, Axis::Horizontal, &root_path()).unwrap_err();
    assert_eq!(e.message(), "failed to resolve horizontal size at /root/1/bare");
}

#[test]
fn backtrace_writes_indices_in_decimal() {
    let path = vec![UiPathStep::Name("root"), UiPathStep::Index(120), UiPathStep::Index(7)];
    assert_eq!(rust_macroquad_ui::error::backtrace(&path), "/root/120/7");
}
