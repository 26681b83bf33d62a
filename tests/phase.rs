use rust_macroquad_ui::error::LayoutError;
use rust_macroquad_ui::factories::{
    align, background, color_fill, conditional, flag_on_hover, height, horizontal_content,
    horizontal_node, layers, margin, no_stretch, on_click, on_hover, on_pressed, stretch_around,
    text, width,
};
use rust_macroquad_ui::geometry::{Color, Point, Rect};
use rust_macroquad_ui::layer::{collect_layer_events, draw_layer, UILayer};
use rust_macroquad_ui::node::{node, Component, ComponentKind, Composite, Flag, MouseButton, Node};
use rust_macroquad_ui::padding::{AlignX, AlignY, MarginOffset, NoStretchMode, StretchSide};
use rust_macroquad_ui::padding::{stretch_horizontal, stretch_vertical};
use rust_macroquad_ui::phase::{ButtonState, DrawCommand, Input};
use rust_macroquad_ui::size::{Dimension, Layout};

#[derive(Clone, Copy, Debug, PartialEq)]
enum Ev {
    Click(u32),
    Hover(u32),
}

const NONE: ButtonState = ButtonState { left: false, right: false, middle: false };
const LEFT: ButtonState = ButtonState { left: true, right: false, middle: false };

fn input_at(x: i64, y: i64, pressed: ButtonState) -> Input {
    Input { pointer: Point { x, y }, just_pressed: pressed, down: pressed }
}

fn rgb(r: u8) -> Color {
    Color { r, g: 0, b: 0, a: 255 }
}

fn filled(w: i64, h: i64, c: Color) -> Node<Ev> {
    node().add_component(width(w)).add_component(height(h)).add_component(color_fill(c))
}

fn rects(cmds: &[DrawCommand]) -> Vec<(Rect, Color)> {
    cmds.iter()
        .filter_map(|c| match c {
            DrawCommand::Rect { area, color } => Some((*area, *color)),
            _ => None,
        })
        .collect()
}

#[test]
fn stretch_child_is_drawn_over_the_leftover() {
    let stretch = node()
        .add_component(Component::Width(Dimension::Stretch { fixed_part: 0 }))
        .add_component(height(10))
        .add_component(color_fill(rgb(2)));
    let root = node().add_component(Component::Group(horizontal_content(vec![filled(20, 10, rgb(1)), stretch])));
    let cmds = draw_layer(&root, Rect::new(0, 0, 100, 40), 100, &input_at(-1, -1, NONE)).unwrap();
    assert_eq!(
        rects(&cmds),
        vec![(Rect::new(0, 0, 20, 40), rgb(1)), (Rect::new(20, 0, 80, 40), rgb(2))]
    );
}

#[test]
fn layered_children_share_the_area_in_order() {
    let root = node().add_component(Component::Group(layers(vec![filled(1, 1, rgb(1)), filled(1, 1, rgb(2))])));
    let cmds = draw_layer(&root, Rect::new(5, 6, 7, 8), 100, &input_at(0, 0, NONE)).unwrap();
    assert_eq!(rects(&cmds), vec![(Rect::new(5, 6, 7, 8), rgb(1)), (Rect::new(5, 6, 7, 8), rgb(2))]);
}

#[test]
fn margin_then_background_puts_background_inside() {
    let n: Node<Ev> = node()
        .add_component(width(10))
        .add_component(height(10))
        .pad(margin(MarginOffset::uniform(4)))
        .pad(background(rgb(9)));
    let r = n.expand_padding();
    assert!(r.paddings.is_empty());
    // outermost: the margin row of three
    let Component::Group(row) = &r.components.items[0] else { panic!("no margin row") };
    assert_eq!(row.layout, Layout::Horizontal);
    assert_eq!(row.children.len(), 3);
    let Component::Group(column) = &row.children[1].components.items[0] else { panic!("no column") };
    assert_eq!(column.layout, Layout::Vertical);
    let bg = &column.children[1];
    assert!(matches!(bg.components.items[0], Component::ColorFill(f) if f.color == rgb(9)));
    let Component::Group(inner) = &bg.components.items[1] else { panic!("no background group") };
    let content = &inner.children[0];
    assert_eq!(content.components.items.len(), 2);
    assert!(matches!(content.components.items[0], Component::Width(Dimension::Fixed(10))));
}

#[test]
fn margin_frame_adds_offsets_and_draws_inside() {
    let n: Node<Ev> = filled(10, 6, rgb(3)).pad(margin(MarginOffset::trbl(1, 2, 3, 4)));
    let root = node().add_component(Component::Group(layers(vec![n])));
    let stretchless = node().add_component(Component::Group(horizontal_content(vec![root])));
    let cmds = draw_layer(&stretchless, Rect::new(0, 0, 100, 100), 100, &input_at(0, 0, NONE)).unwrap();
    // the content sits 4 in from the left and 1 down from the top, at its own size
    assert_eq!(rects(&cmds), vec![(Rect::new(4, 1, 10, 6), rgb(3))]);
}

#[test]
fn hover_flag_selects_the_hover_variant_first() {
    let pressed = Flag(1);
    let hover = Flag(2);
    let cond = conditional(
        Some(filled(1, 1, rgb(3))),
        vec![(pressed, Some(filled(1, 1, rgb(1)))), (hover, Some(filled(1, 1, rgb(2))))],
    );
    let target = node().add_component(Component::Conditional(cond));
    let root: Node<Ev> = node().add_component(Component::HoverFlag(flag_on_hover(hover, target)));
    let area = Rect::new(0, 0, 50, 50);
    let over = draw_layer(&root, area, 100, &input_at(10, 10, NONE)).unwrap();
    assert_eq!(rects(&over), vec![(area, rgb(2))]);
    let away = draw_layer(&root, area, 100, &input_at(100, 100, NONE)).unwrap();
    assert_eq!(rects(&away), vec![(area, rgb(3))]);
}

#[test]
fn first_listed_active_flag_wins() {
    let a = Flag(1);
    let b = Flag(2);
    let cond = conditional(Some(filled(1, 1, rgb(3))), vec![(a, Some(filled(1, 1, rgb(1)))), (b, Some(filled(1, 1, rgb(2))))]);
    let inner = node().add_component(Component::Conditional(cond));
    let mid = node().add_component(Component::HoverFlag(flag_on_hover(b, inner)));
    let root: Node<Ev> = node().add_component(Component::HoverFlag(flag_on_hover(a, mid)));
    let area = Rect::new(0, 0, 10, 10);
    let cmds = draw_layer(&root, area, 100, &input_at(1, 1, NONE)).unwrap();
    assert_eq!(rects(&cmds), vec![(area, rgb(1))]);
}

#[test]
fn matching_entry_without_target_draws_nothing() {
    let a = Flag(1);
    let cond = conditional(Some(filled(1, 1, rgb(3))), vec![(a, None)]);
    let inner = node().add_component(Component::Conditional(cond));
    let root: Node<Ev> = node().add_component(Component::HoverFlag(flag_on_hover(a, inner)));
    let cmds = draw_layer(&root, Rect::new(0, 0, 10, 10), 100, &input_at(1, 1, NONE)).unwrap();
    assert!(cmds.is_empty());
}

#[test]
fn duplicate_flag_is_an_error() {
    let a = Flag(7);
    let inner = node().add_component(Component::HoverFlag(flag_on_hover(a, node())));
    let root: Node<Ev> = node().add_component(Component::HoverFlag(flag_on_hover(a, inner)));
    let r = draw_layer(&root, Rect::new(0, 0, 10, 10), 100, &input_at(1, 1, NONE));
    assert!(matches!(r, Err(LayoutError::DuplicateFlag { flag: Flag(7), .. })));
    // no flag is raised while collecting, so there is no error there
    assert!(collect_layer_events(&root, Rect::new(0, 0, 10, 10), 100, &input_at(1, 1, NONE)).is_ok());
}

#[test]
fn click_inside_emits_once() {
    let root: Node<Ev> = node().add_component(Component::Click(on_click(MouseButton::Left, Ev::Click(3))));
    let area = Rect::new(0, 0, 50, 50);
    let hit = collect_layer_events(&root, area, 100, &input_at(10, 10, LEFT)).unwrap();
    assert_eq!(hit, vec![Ev::Click(3)]);
    let miss = collect_layer_events(&root, area, 100, &input_at(100, 100, LEFT)).unwrap();
    assert!(miss.is_empty());
    let unpressed = collect_layer_events(&root, area, 100, &input_at(10, 10, NONE)).unwrap();
    assert!(unpressed.is_empty());
}

#[test]
fn right_and_bottom_edges_are_outside() {
    let root: Node<Ev> = node().add_component(Component::Hover(on_hover(Ev::Hover(1))));
    let area = Rect::new(0, 0, 50, 50);
    assert!(collect_layer_events(&root, area, 100, &input_at(50, 10, NONE)).unwrap().is_empty());
    assert_eq!(collect_layer_events(&root, area, 100, &input_at(0, 49, NONE)).unwrap(), vec![Ev::Hover(1)]);
}

#[test]
fn events_are_not_emitted_while_drawing() {
    let root: Node<Ev> = node()
        .add_component(Component::Click(on_click(MouseButton::Left, Ev::Click(1))))
        .add_component(Component::Pressed(on_pressed(MouseButton::Left, Ev::Click(2))));
    let cmds = draw_layer(&root, Rect::new(0, 0, 5, 5), 100, &input_at(1, 1, LEFT)).unwrap();
    assert!(cmds.is_empty());
    let ev = collect_layer_events(&root, Rect::new(0, 0, 5, 5), 100, &input_at(1, 1, LEFT)).unwrap();
    assert_eq!(ev, vec![Ev::Click(1), Ev::Click(2)]);
}

#[test]
fn collecting_twice_gives_the_same_events() {
    let a = node().add_component(width(30)).add_component(height(10))
        .add_component(Component::Hover(on_hover(Ev::Hover(1))));
    let b = node().add_component(width(30)).add_component(height(10))
        .add_component(Component::Click(on_click(MouseButton::Left, Ev::Click(2))));
    let root: Node<Ev> = node().add_component(Component::Group(horizontal_content(vec![a, b])));
    let input = input_at(40, 5, LEFT);
    let first = collect_layer_events(&root, Rect::new(0, 0, 100, 100), 100, &input).unwrap();
    let second = collect_layer_events(&root, Rect::new(0, 0, 100, 100), 100, &input).unwrap();
    assert_eq!(first, vec![Ev::Click(2)]);
    assert_eq!(first, second);
}

#[test]
fn layer_update_stores_events() {
    let root: Node<Ev> = node().add_component(Component::Hover(on_hover(Ev::Hover(4))));
    let mut layer = UILayer::new(100, root);
    assert!(layer.get_events().is_empty());
    layer.update(Rect::new(0, 0, 10, 10), &input_at(2, 2, NONE)).unwrap();
    assert_eq!(layer.get_events(), &vec![Ev::Hover(4)]);
    layer.update(Rect::new(0, 0, 10, 10), &input_at(20, 2, NONE)).unwrap();
    assert!(layer.get_events().is_empty());
}

#[test]
fn text_is_drawn_at_the_top_left_corner() {
    let t = text("hi".to_string(), 16, rgb(5));
    let root: Node<Ev> = node().add_component(Component::Text(t));
    let cmds = draw_layer(&root, Rect::new(3, 4, 10, 10), 100, &input_at(0, 0, NONE)).unwrap();
    match &cmds[0] {
        DrawCommand::Text { value, x, y, font_size, color } => {
            assert_eq!(value, "hi");
            assert_eq!((*x, *y, *font_size, *color), (3, 4, 16, rgb(5)));
        }
        other => panic!("unexpected {:?}", other),
    }
}

#[test]
fn unsized_child_fails_the_walk() {
    let root: Node<Ev> = node().add_component(Component::Group(horizontal_content(vec![Node::new("leaf")])));
    let r = collect_layer_events(&root, Rect::new(0, 0, 10, 10), 100, &input_at(0, 0, NONE));
    assert!(matches!(r, Err(LayoutError::Unresolvable { .. })));
}

#[test]
fn align_center_centers_the_content() {
    let n = filled(10, 10, rgb(1)).pad(align(AlignX::Center, AlignY::Bottom));
    let root: Node<Ev> = node().add_component(Component::Group(layers(vec![n])));
    let cmds = draw_layer(&root, Rect::new(0, 0, 100, 50), 100, &input_at(0, 0, NONE)).unwrap();
    assert_eq!(rects(&cmds), vec![(Rect::new(45, 40, 10, 10), rgb(1))]);
}

#[test]
fn no_stretch_keeps_the_content_size() {
    let stretchy = node()
        .add_component(Component::Width(Dimension::Stretch { fixed_part: 12 }))
        .add_component(height(5))
        .add_component(color_fill(rgb(1)));
    let wrapped = stretchy.pad(no_stretch(NoStretchMode::Horizontal));
    let root: Node<Ev> = horizontal_node(vec![wrapped, stretch_horizontal()]);
    let cmds = draw_layer(&root, Rect::new(0, 0, 100, 5), 100, &input_at(0, 0, NONE)).unwrap();
    assert_eq!(rects(&cmds), vec![(Rect::new(0, 0, 12, 5), rgb(1))]);
}

#[test]
fn stretch_around_pushes_content_to_the_corner() {
    let n = filled(10, 10, rgb(1)).pad(stretch_around(&vec![StretchSide::StretchLeft, StretchSide::StretchTop]));
    let root: Node<Ev> = node().add_component(Component::Group(layers(vec![n, stretch_vertical()])));
    let cmds = draw_layer(&root, Rect::new(0, 0, 100, 50), 100, &input_at(0, 0, NONE)).unwrap();
    assert_eq!(rects(&cmds), vec![(Rect::new(90, 40, 10, 10), rgb(1))]);
}

#[test]
fn composite_get_returns_components_of_a_kind_in_order() {
    let mut c: Composite<Ev> = Composite::new();
    c.insert(width(1));
    c.insert(height(2));
    c.insert(width(3));
    let ws = c.get(ComponentKind::Width);
    assert_eq!(ws.len(), 2);
    assert!(matches!(ws[0], Component::Width(Dimension::Fixed(1))));
    assert!(matches!(ws[1], Component::Width(Dimension::Fixed(3))));
    assert!(c.get(ComponentKind::Group).is_empty());
}

#[test]
fn layer_expands_the_root_wrappers() {
    let root: Node<Ev> = filled(10, 10, rgb(1)).pad(background(rgb(7)));
    let layer = UILayer::new(100, root);
    assert!(layer.root.paddings.is_empty());
    let area = Rect::new(0, 0, 30, 20);
    let cmds = layer.draw(area, &input_at(0, 0, NONE)).unwrap();
    assert_eq!(rects(&cmds), vec![(area, rgb(7)), (Rect::new(0, 0, 10, 20), rgb(1))]);
}

#[test]
fn conditional_targets_are_finalized() {
    let target = filled(1, 1, rgb(1)).pad(background(rgb(2)));
    let cond = conditional(Some(target), vec![(Flag(3), None)]);
    let default = cond.default.as_ref().unwrap();
    assert!(default.paddings.is_empty());
    assert!(matches!(default.components.items[0], Component::ColorFill(f) if f.color == rgb(2)));
}
