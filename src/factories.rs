use vstd::prelude::*;

use crate::geometry::Color;
use crate::node::{
    ColorFill, Component, Conditional, Flag, Group, MouseButton, MouseButtonHandler,
    MouseButtonPressedHandler, MouseHoverHandler, Node, StyleHoverTrigger, Text,
};
use crate::padding::{
    group_at, only_group, wraps, Align, AlignX, AlignY, Background, Margin, MarginOffset,
    NoStretch, NoStretchMode, NodePadding, StretchAround, StretchSide, frames, inner,
};
use crate::size::{Dimension, Layout};

verus! {

/// Each child is the finalized form of the given one: its queued wrappers
/// expanded, or the very node when nothing was queued.
pub open spec fn finalized_children<E>(r: Seq<Node<E>>, given: Seq<Node<E>>) -> bool {
    &&& r.len() == given.len()
    &&& forall|i: int|
        0 <= i < given.len() ==> wraps(#[trigger] r[i], given[i].paddings@, given[i]) && (
        given[i].paddings@.len() == 0 ==> r[i] == given[i])
}

impl<E> Group<E> {
    /// A group over the given children, each finalized.
    pub fn new(layout: Layout, children: Vec<Node<E>>) -> (r: Group<E>)
        ensures
            r.layout == layout,
            finalized_children(r.children@, children@),
    {
        let ghost given = children@;
        let mut rest = children;
        let mut done: Vec<Node<E>> = Vec::new();
        while rest.len() > 0
            invariant
                done@.len() + rest@.len() == given.len(),
                rest@ == given.subrange(done@.len() as int, given.len() as int),
                finalized_children(done@, given.subrange(0, done@.len() as int)),
            decreases rest@.len(),
        {
            let ghost k = done@.len() as int;
            let c = rest.remove(0);
            assert(c == given[k]);
            let f = c.expand_padding();
            done.push(f);
            assert(rest@ =~= given.subrange(k + 1, given.len() as int));
            assert(given.subrange(0, k + 1)[k] == given[k]);
            assert forall|i: int| 0 <= i < k + 1 implies wraps(#[trigger] done@[i], given.subrange(0, k + 1)[i].paddings@, given.subrange(0, k + 1)[i]) && (
                given.subrange(0, k + 1)[i].paddings@.len() == 0 ==> done@[i] == given.subrange(0, k + 1)[i]) by {
                if i < k {
                    assert(given.subrange(0, k + 1)[i] == given.subrange(0, k)[i]);
                }
            }
        }
        assert(given.subrange(0, given.len() as int) =~= given);
        Group { layout, children: done }
    }
}

/// A group that stacks its children on top of each other.
pub fn layers<E>(children: Vec<Node<E>>) -> (r: Group<E>)
    ensures
        r.layout == Layout::Layered,
        finalized_children(r.children@, children@),
{
    Group::new(Layout::Layered, children)
}

/// A group that flows its children left to right.
pub fn horizontal_content<E>(children: Vec<Node<E>>) -> (r: Group<E>)
    ensures
        r.layout == Layout::Horizontal,
        finalized_children(r.children@, children@),
{
    Group::new(Layout::Horizontal, children)
}

/// A group that flows its children top to bottom.
pub fn vertical_content<E>(children: Vec<Node<E>>) -> (r: Group<E>)
    ensures
        r.layout == Layout::Vertical,
        finalized_children(r.children@, children@),
{
    Group::new(Layout::Vertical, children)
}

/// A group of one child.
pub fn single_content<E>(child: Node<E>) -> (r: Group<E>)
    ensures
        r.layout == Layout::Horizontal,
        finalized_children(r.children@, seq![child]),
{
    let v = vec![child];
    Group::new(Layout::Horizontal, v)
}

/// A node named "horizontal node" whose group flows the items left to right.
pub fn horizontal_node<E>(items: Vec<Node<E>>) -> (r: Node<E>)
    ensures
        only_group(r, Layout::Horizontal, items@.len() as int),
        finalized_children(group_at(r, 0).children@, items@),
{
    let g = horizontal_content(items);
    let r = Node::new("horizontal node").add_component(Component::Group(g));
    r
}

/// A node named "vertical node" whose group flows the items top to bottom.
pub fn vertical_node<E>(items: Vec<Node<E>>) -> (r: Node<E>)
    ensures
        only_group(r, Layout::Vertical, items@.len() as int),
        finalized_children(group_at(r, 0).children@, items@),
{
    let g = vertical_content(items);
    let r = Node::new("vertical node").add_component(Component::Group(g));
    r
}

pub fn width<E>(value: i64) -> (r: Component<E>)
    ensures
        r == Component::<E>::Width(Dimension::Fixed(value)),
{
    Component::Width(Dimension::Fixed(value))
}

pub fn width_stretch<E>() -> (r: Component<E>)
    ensures
        r == Component::<E>::Width(Dimension::Stretch { fixed_part: 0 }),
{
    Component::Width(Dimension::Stretch { fixed_part: 0 })
}

pub fn width_no_stretch<E>() -> (r: Component<E>)
    ensures
        r == Component::<E>::Width(Dimension::RemoveStretch),
{
    Component::Width(Dimension::RemoveStretch)
}

pub fn height<E>(value: i64) -> (r: Component<E>)
    ensures
        r == Component::<E>::Height(Dimension::Fixed(value)),
{
    Component::Height(Dimension::Fixed(value))
}

pub fn height_stretch<E>() -> (r: Component<E>)
    ensures
        r == Component::<E>::Height(Dimension::Stretch { fixed_part: 0 }),
{
    Component::Height(Dimension::Stretch { fixed_part: 0 })
}

pub fn height_no_stretch<E>() -> (r: Component<E>)
    ensures
        r == Component::<E>::Height(Dimension::RemoveStretch),
{
    Component::Height(Dimension::RemoveStretch)
}

pub fn color_fill<E>(color: Color) -> (r: Component<E>)
    ensures
        r == Component::<E>::ColorFill(ColorFill { color }),
{
    Component::ColorFill(ColorFill { color })
}

pub fn text(value: String, font_size: u32, color: Color) -> (r: Text)
    ensures
        r == (Text { value, font_size, color }),
{
    Text { value, font_size, color }
}

pub fn on_click<E>(button: MouseButton, event: E) -> (r: MouseButtonHandler<E>)
    ensures
        r.on_click@ == seq![(button, event)],
{
    MouseButtonHandler { on_click: vec![(button, event)] }
}

pub fn on_pressed<E>(button: MouseButton, event: E) -> (r: MouseButtonPressedHandler<E>)
    ensures
        r.on_pressed@ == seq![(button, event)],
{
    MouseButtonPressedHandler { on_pressed: vec![(button, event)] }
}

pub fn on_hover<E>(event: E) -> (r: MouseHoverHandler<E>)
    ensures
        r.on_hover == event,
{
    MouseHoverHandler { on_hover: event }
}

/// Walks `target` with `flag` raised while the pointer is over it during drawing.
pub fn flag_on_hover<E>(flag: Flag, target: Node<E>) -> (r: StyleHoverTrigger<E>)
    ensures
        r.id == flag,
        wraps(r.target, target.paddings@, target),
{
    StyleHoverTrigger { target: target.expand_padding(), id: flag }
}

/// `r` is the finalized form of `given`, when there is one.
pub open spec fn finalized_option<E>(r: Option<Node<E>>, given: Option<Node<E>>) -> bool {
    match given {
        None => r is None,
        Some(n) => r is Some && wraps(r->Some_0, n.paddings@, n),
    }
}

/// The finalized form of an optional node.
pub fn finalize_option<E>(n: Option<Node<E>>) -> (r: Option<Node<E>>)
    ensures
        finalized_option(r, n),
{
    match n {
        None => None,
        Some(n) => Some(n.expand_padding()),
    }
}

/// A conditional over finalized targets, its entries kept in order.
pub fn conditional<E>(default: Option<Node<E>>, named: Vec<(Flag, Option<Node<E>>)>) -> (r: Conditional<E>)
    ensures
        finalized_option(r.default, default),
        r.named@.len() == named@.len(),
        forall|i: int|
            0 <= i < named@.len() ==> (#[trigger] r.named@[i]).0 == named@[i].0 && finalized_option(
                r.named@[i].1,
                named@[i].1,
            ),
{
    let ghost given = named@;
    let mut rest = named;
    let mut done: Vec<(Flag, Option<Node<E>>)> = Vec::new();
    while rest.len() > 0
        invariant
            done@.len() + rest@.len() == given.len(),
            rest@ == given.subrange(done@.len() as int, given.len() as int),
            forall|i: int|
                0 <= i < done@.len() ==> (#[trigger] done@[i]).0 == given[i].0 && finalized_option(
                    done@[i].1,
                    given[i].1,
                ),
        decreases rest@.len(),
    {
        let ghost k = done@.len() as int;
        let (flag, target) = rest.remove(0);
        assert(given[k] == (flag, target));
        done.push((flag, finalize_option(target)));
        assert(rest@ =~= given.subrange(k + 1, given.len() as int));
    }
    Conditional { default: finalize_option(default), named: done }
}

impl MarginOffset {
    /// The same space on all four sides.
    pub fn uniform(v: i64) -> (r: MarginOffset)
        ensures
            r == (MarginOffset { left: v, right: v, bottom: v, top: v }),
    {
        MarginOffset { left: v, right: v, bottom: v, top: v }
    }

    /// `h` left and right, `v` above and below.
    pub fn hv(h: i64, v: i64) -> (r: MarginOffset)
        ensures
            r == (MarginOffset { left: h, right: h, bottom: v, top: v }),
    {
        MarginOffset { left: h, right: h, bottom: v, top: v }
    }

    /// Top, right, bottom and left, in that order.
    pub fn trbl(top: i64, right: i64, bottom: i64, left: i64) -> (r: MarginOffset)
        ensures
            r == (MarginOffset { left, right, bottom, top }),
    {
        MarginOffset { left, right, bottom, top }
    }
}

pub fn margin(offset: MarginOffset) -> (r: NodePadding)
    ensures
        r == NodePadding::Margin(Margin { offset }),
{
    NodePadding::Margin(Margin { offset })
}

pub fn background(color: Color) -> (r: NodePadding)
    ensures
        r == NodePadding::Background(Background { color }),
{
    NodePadding::Background(Background { color })
}

pub fn align(x: AlignX, y: AlignY) -> (r: NodePadding)
    ensures
        r == NodePadding::Align(Align { x, y }),
{
    NodePadding::Align(Align { x, y })
}

pub fn no_stretch(mode: NoStretchMode) -> (r: NodePadding)
    ensures
        r == NodePadding::NoStretch(NoStretch { mode }),
{
    NodePadding::NoStretch(NoStretch { mode })
}

/// Stretching spacers on each side that `sides` names.
pub fn stretch_around(sides: &Vec<StretchSide>) -> (r: NodePadding)
    ensures
        r == NodePadding::StretchAround(StretchAround {
            top: sides@.contains(StretchSide::StretchTop),
            right: sides@.contains(StretchSide::StretchRight),
            bottom: sides@.contains(StretchSide::StretchBottom),
            left: sides@.contains(StretchSide::StretchLeft),
        }),
{
    let mut s = StretchAround { top: false, right: false, bottom: false, left: false };
    let mut i: usize = 0;
    while i < sides.len()
        invariant
            i <= sides@.len(),
            s.top == sides@.subrange(0, i as int).contains(StretchSide::StretchTop),
            s.right == sides@.subrange(0, i as int).contains(StretchSide::StretchRight),
            s.bottom == sides@.subrange(0, i as int).contains(StretchSide::StretchBottom),
            s.left == sides@.subrange(0, i as int).contains(StretchSide::StretchLeft),
        decreases sides@.len() - i,
    {
        let ghost pre = sides@.subrange(0, i as int);
        let ghost next = sides@.subrange(0, i as int + 1);
        assert(next =~= pre.push(sides@[i as int]));
        match sides[i] {
            StretchSide::StretchTop => { s.top = true; },
            StretchSide::StretchRight => { s.right = true; },
            StretchSide::StretchBottom => { s.bottom = true; },
            StretchSide::StretchLeft => { s.left = true; },
        }
        proof {
            assert forall|x: StretchSide| next.contains(x) == (pre.contains(x) || x == sides@[i as int]) by {
                if next.contains(x) {
                    let j = choose|j: int| 0 <= j < next.len() && next[j] == x;
                    if j < pre.len() {
                        assert(pre[j] == x);
                    }
                }
                if pre.contains(x) {
                    let j = choose|j: int| 0 <= j < pre.len() && pre[j] == x;
                    assert(next[j] == x);
                }
                if x == sides@[i as int] {
                    assert(next[i as int] == x);
                }
            }
        }
        i = i + 1;
    }
    assert(sides@.subrange(0, sides@.len() as int) =~= sides@);
    NodePadding::StretchAround(s)
}

/// The content wrapped by the given wrapper at once.
pub fn wrapped_node<E>(p: NodePadding, target: Node<E>) -> (r: Node<E>)
    ensures
        frames(p, r),
        inner(p, r) == target,
{
    p.expand(target)
}

/// The target inside a margin frame.
pub fn margin_node<E>(offset: MarginOffset, target: Node<E>) -> (r: Node<E>)
    ensures
        frames(NodePadding::Margin(Margin { offset }), r),
        inner(NodePadding::Margin(Margin { offset }), r) == target,
{
    wrapped_node(margin(offset), target)
}

/// The target inside a no-stretch frame.
pub fn no_stretch_node<E>(mode: NoStretchMode, target: Node<E>) -> (r: Node<E>)
    ensures
        frames(NodePadding::NoStretch(NoStretch { mode }), r),
        inner(NodePadding::NoStretch(NoStretch { mode }), r) == target,
{
    wrapped_node(no_stretch(mode), target)
}

/// The target over a background.
pub fn background_node<E>(color: Color, target: Node<E>) -> (r: Node<E>)
    ensures
        frames(NodePadding::Background(Background { color }), r),
        inner(NodePadding::Background(Background { color }), r) == target,
{
    wrapped_node(background(color), target)
}

/// A leaf of the given width and no height.
pub fn width_node<E>(value: i64) -> (r: Node<E>)
    ensures
        r.components.items@ == seq![Component::<E>::Width(Dimension::Fixed(value)), Component::<E>::Height(Dimension::Fixed(0))],
        r.paddings@.len() == 0,
{
    let r = Node::new("width").add_component(width(value)).add_component(height(0));
    assert(r.components.items@ =~= seq![Component::<E>::Width(Dimension::Fixed(value)), Component::<E>::Height(Dimension::Fixed(0))]);
    r
}

/// A leaf of the given height and no width.
pub fn height_node<E>(value: i64) -> (r: Node<E>)
    ensures
        r.components.items@ == seq![Component::<E>::Width(Dimension::Fixed(0)), Component::<E>::Height(Dimension::Fixed(value))],
        r.paddings@.len() == 0,
{
    let r = Node::new("height").add_component(width(0)).add_component(height(value));
    assert(r.components.items@ =~= seq![Component::<E>::Width(Dimension::Fixed(0)), Component::<E>::Height(Dimension::Fixed(value))]);
    r
}

} // verus!
