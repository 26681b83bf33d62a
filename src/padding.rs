use vstd::prelude::*;

use crate::geometry::Color;
use crate::node::{ColorFill, Component, Group, Node};
use crate::size::{Dimension, Layout};

verus! {

/// Space around a node: left, right, bottom and top.
#[derive(Debug, Clone, Copy, PartialEq, Eq, Structural)]
pub struct MarginOffset {
    pub left: i64,
    pub right: i64,
    pub bottom: i64,
    pub top: i64,
}

/// Surrounds the content with a frame of fixed-size spacers.
#[derive(Debug, Clone, Copy, PartialEq, Eq, Structural)]
pub struct Margin {
    pub offset: MarginOffset,
}

/// Draws a color behind the content.
#[derive(Debug, Clone, Copy, PartialEq, Eq, Structural)]
pub struct Background {
    pub color: Color,
}

#[derive(Debug, Clone, Copy, PartialEq, Eq, Structural)]
pub enum AlignX {
    Left,
    Center,
    Right,
}

#[derive(Debug, Clone, Copy, PartialEq, Eq, Structural)]
pub enum AlignY {
    Top,
    Center,
    Bottom,
}

/// Places the content inside the available space with stretching spacers.
#[derive(Debug, Clone, Copy, PartialEq, Eq, Structural)]
pub struct Align {
    pub x: AlignX,
    pub y: AlignY,
}

#[derive(Debug, Clone, Copy, PartialEq, Eq, Structural)]
pub enum NoStretchMode {
    Vertical,
    Horizontal,
    Both,
}

/// Reports the content's size as fixed, dropping any stretch inside it.
#[derive(Debug, Clone, Copy, PartialEq, Eq, Structural)]
pub struct NoStretch {
    pub mode: NoStretchMode,
}

#[derive(Debug, Clone, Copy, PartialEq, Eq, Structural)]
pub enum StretchSide {
    StretchTop,
    StretchRight,
    StretchBottom,
    StretchLeft,
}

/// Puts stretching spacers on the chosen sides of the content.
#[derive(Debug, Clone, Copy, PartialEq, Eq, Structural)]
pub struct StretchAround {
    pub top: bool,
    pub right: bool,
    pub bottom: bool,
    pub left: bool,
}

/// A deferred wrapper queued on a node.
#[derive(Debug, Clone, Copy, PartialEq, Eq, Structural)]
pub enum NodePadding {
    Margin(Margin),
    Background(Background),
    Align(Align),
    NoStretch(NoStretch),
    StretchAround(StretchAround),
}

/// The group attached at position `k` of a node.
pub open spec fn group_at<E>(n: Node<E>, k: int) -> Group<E> {
    n.components.items@[k]->Group_0
}

/// `n` holds exactly one component: a group with the given layout and
/// number of children.
pub open spec fn only_group<E>(n: Node<E>, layout: Layout, len: int) -> bool {
    &&& n.components.items@.len() == 1
    &&& n.components.items@[0] is Group
    &&& group_at(n, 0).layout == layout
    &&& group_at(n, 0).children@.len() == len
    &&& n.paddings@.len() == 0
}

/// The child at position `k` of the group of a node made by [`only_group`].
pub open spec fn child<E>(n: Node<E>, k: int) -> Node<E> {
    group_at(n, 0).children@[k]
}

/// A leaf that only carries a width and a height marker.
pub open spec fn spacer<E>(n: Node<E>, w: Dimension, h: Dimension) -> bool {
    &&& n.components.items@ == seq![Component::<E>::Width(w), Component::<E>::Height(h)]
    &&& n.paddings@.len() == 0
}

/// A leaf that only carries a height and a width marker, in that order.
pub open spec fn spacer_hw<E>(n: Node<E>, h: Dimension, w: Dimension) -> bool {
    &&& n.components.items@ == seq![Component::<E>::Height(h), Component::<E>::Width(w)]
    &&& n.paddings@.len() == 0
}

pub open spec fn stretch_x<E>(n: Node<E>) -> bool {
    spacer(n, Dimension::Stretch { fixed_part: 0 }, Dimension::Fixed(0))
}

pub open spec fn stretch_y<E>(n: Node<E>) -> bool {
    spacer_hw(n, Dimension::Stretch { fixed_part: 0 }, Dimension::Fixed(0))
}

/// A margin frame: a row of a left spacer, a central column and a right
/// spacer; the column holds a top spacer, the content and a bottom spacer.
pub open spec fn margin_frame<E>(m: Margin, r: Node<E>) -> bool {
    let o = m.offset;
    &&& only_group(r, Layout::Horizontal, 3)
    &&& spacer(child(r, 0), Dimension::Fixed(o.left), Dimension::Fixed(0))
    &&& only_group(child(r, 1), Layout::Vertical, 3)
    &&& spacer_hw(child(child(r, 1), 0), Dimension::Fixed(o.top), Dimension::Fixed(0))
    &&& spacer_hw(child(child(r, 1), 2), Dimension::Fixed(o.bottom), Dimension::Fixed(0))
    &&& spacer(child(r, 2), Dimension::Fixed(o.right), Dimension::Fixed(0))
}

/// A background frame: a color fill, then a row that holds the content.
pub open spec fn background_frame<E>(b: Background, r: Node<E>) -> bool {
    &&& r.components.items@.len() == 2
    &&& r.components.items@[0] == Component::<E>::ColorFill(ColorFill { color: b.color })
    &&& r.components.items@[1] is Group
    &&& group_at(r, 1).layout == Layout::Horizontal
    &&& group_at(r, 1).children@.len() == 1
    &&& r.paddings@.len() == 0
}

/// The markers that a no-stretch frame carries before its group.
pub open spec fn no_stretch_markers<E>(mode: NoStretchMode) -> Seq<Component<E>> {
    match mode {
        NoStretchMode::Vertical => seq![Component::<E>::Height(Dimension::RemoveStretch)],
        NoStretchMode::Horizontal => seq![Component::<E>::Width(Dimension::RemoveStretch)],
        NoStretchMode::Both => seq![
            Component::<E>::Height(Dimension::RemoveStretch),
            Component::<E>::Width(Dimension::RemoveStretch),
        ],
    }
}

/// A no-stretch frame: the `RemoveStretch` markers, then a row that holds the content.
pub open spec fn no_stretch_frame<E>(ns: NoStretch, r: Node<E>) -> bool {
    let k = no_stretch_markers::<E>(ns.mode).len() as int;
    &&& r.components.items@.len() == k + 1
    &&& r.components.items@.subrange(0, k) == no_stretch_markers::<E>(ns.mode)
    &&& r.components.items@[k] is Group
    &&& group_at(r, k).layout == Layout::Horizontal
    &&& group_at(r, k).children@.len() == 1
    &&& r.paddings@.len() == 0
}

/// Where the content sits among `len` children when a stretching spacer
/// comes before it (`before`) or after it (`after`).
pub open spec fn sandwich<E>(g: Group<E>, before: bool, after: bool, is_spacer: spec_fn(Node<E>) -> bool) -> bool {
    let k: int = if before { 1 } else { 0 };
    &&& g.children@.len() == k + 1 + if after { 1int } else { 0int }
    &&& before ==> is_spacer(g.children@[0])
    &&& after ==> is_spacer(g.children@[k + 1])
}

pub open spec fn content_pos(before: bool) -> int {
    if before { 1 } else { 0 }
}

pub open spec fn align_before_x(x: AlignX) -> bool {
    x != AlignX::Left
}

pub open spec fn align_after_x(x: AlignX) -> bool {
    x != AlignX::Right
}

pub open spec fn align_before_y(y: AlignY) -> bool {
    y != AlignY::Top
}

pub open spec fn align_after_y(y: AlignY) -> bool {
    y != AlignY::Bottom
}

/// The column of an alignment frame, and the row inside it.
pub open spec fn align_column<E>(r: Node<E>) -> Node<E> {
    child(r, 0)
}

pub open spec fn align_row<E>(a: Align, r: Node<E>) -> Node<E> {
    child(align_column(r), content_pos(align_before_y(a.y)))
}

/// An alignment frame: a row holding a column; the column puts stretching
/// spacers above and below a row as `y` asks, and the row puts stretching
/// spacers left and right of the content as `x` asks.
pub open spec fn align_frame<E>(a: Align, r: Node<E>) -> bool {
    let col = align_column(r);
    let row = align_row(a, r);
    &&& only_group(r, Layout::Horizontal, 1)
    &&& col.components.items@.len() == 1 && col.components.items@[0] is Group && col.paddings@.len() == 0
    &&& group_at(col, 0).layout == Layout::Vertical
    &&& sandwich(group_at(col, 0), align_before_y(a.y), align_after_y(a.y), |n: Node<E>| stretch_y(n))
    &&& row.components.items@.len() == 1 && row.components.items@[0] is Group && row.paddings@.len() == 0
    &&& group_at(row, 0).layout == Layout::Horizontal
    &&& sandwich(group_at(row, 0), align_before_x(a.x), align_after_x(a.x), |n: Node<E>| stretch_x(n))
}

/// The content inside a frame of the given wrapper.
pub open spec fn inner<E>(p: NodePadding, r: Node<E>) -> Node<E> {
    match p {
        NodePadding::Margin(_) => child(child(r, 1), 1),
        NodePadding::Background(_) => group_at(r, 1).children@[0],
        NodePadding::NoStretch(ns) => group_at(r, no_stretch_markers::<E>(ns.mode).len() as int).children@[0],
        NodePadding::Align(a) => child(align_row(a, r), content_pos(align_before_x(a.x))),
        NodePadding::StretchAround(s) => stretch_inner(s, r),
    }
}

/// Stretch-around first wraps the content in a row (left or right side
/// asked), then wraps that in a column (top or bottom side asked).
pub open spec fn stretch_inner<E>(s: StretchAround, r: Node<E>) -> Node<E> {
    let mid = if s.top || s.bottom { child(r, content_pos(s.top)) } else { r };
    if s.left || s.right { child(mid, content_pos(s.left)) } else { mid }
}

pub open spec fn stretch_frame<E>(s: StretchAround, r: Node<E>) -> bool {
    let mid = if s.top || s.bottom { child(r, content_pos(s.top)) } else { r };
    &&& (s.top || s.bottom) ==> r.components.items@.len() == 1 && r.components.items@[0] is Group
        && group_at(r, 0).layout == Layout::Vertical && r.paddings@.len() == 0
        && sandwich(group_at(r, 0), s.top, s.bottom, |n: Node<E>| stretch_y(n))
    &&& (s.left || s.right) ==> mid.components.items@.len() == 1 && mid.components.items@[0] is Group
        && group_at(mid, 0).layout == Layout::Horizontal && mid.paddings@.len() == 0
        && sandwich(group_at(mid, 0), s.left, s.right, |n: Node<E>| stretch_x(n))
}

/// `r` has the shape that the wrapper gives around its content.
pub open spec fn frames<E>(p: NodePadding, r: Node<E>) -> bool {
    match p {
        NodePadding::Margin(m) => margin_frame(m, r),
        NodePadding::Background(b) => background_frame(b, r),
        NodePadding::Align(a) => align_frame(a, r),
        NodePadding::NoStretch(ns) => no_stretch_frame(ns, r),
        NodePadding::StretchAround(s) => stretch_frame(s, r),
    }
}

/// `r` and `n` have the same name and components, and `r` has nothing queued.
pub open spec fn same_core<E>(r: Node<E>, n: Node<E>) -> bool {
    &&& r.name == n.name
    &&& r.components == n.components
    &&& r.paddings@.len() == 0
}

/// `r` is `n` wrapped by the wrappers `ps`, the first one outermost.
pub open spec fn wraps<E>(r: Node<E>, ps: Seq<NodePadding>, n: Node<E>) -> bool
    decreases ps.len(),
{
    if ps.len() == 0 {
        same_core(r, n)
    } else {
        frames(ps[0], r) && wraps(inner(ps[0], r), ps.drop_first(), n)
    }
}

/// A leaf with a width marker followed by a height marker.
pub fn spacer_node<E>(name: &'static str, w: Dimension, h: Dimension) -> (r: Node<E>)
    ensures
        spacer(r, w, h),
{
    let r = Node::new(name).add_component(Component::Width(w)).add_component(Component::Height(h));
    assert(r.components.items@ =~= seq![Component::<E>::Width(w), Component::<E>::Height(h)]);
    r
}

/// A leaf with a height marker followed by a width marker.
pub fn spacer_node_hw<E>(name: &'static str, h: Dimension, w: Dimension) -> (r: Node<E>)
    ensures
        spacer_hw(r, h, w),
{
    let r = Node::new(name).add_component(Component::Height(h)).add_component(Component::Width(w));
    assert(r.components.items@ =~= seq![Component::<E>::Height(h), Component::<E>::Width(w)]);
    r
}

/// A leaf that takes the leftover width and no height.
pub fn stretch_horizontal<E>() -> (r: Node<E>)
    ensures
        stretch_x(r),
{
    spacer_node("stretch_horizontal", Dimension::Stretch { fixed_part: 0 }, Dimension::Fixed(0))
}

/// A leaf that takes the leftover height and no width.
pub fn stretch_vertical<E>() -> (r: Node<E>)
    ensures
        stretch_y(r),
{
    spacer_node_hw("stretch_vertical", Dimension::Stretch { fixed_part: 0 }, Dimension::Fixed(0))
}

/// A named node whose only component is a group over the given children,
/// taken as they are.
pub fn group_node<E>(name: &'static str, layout: Layout, children: Vec<Node<E>>) -> (r: Node<E>)
    ensures
        only_group(r, layout, children@.len() as int),
        group_at(r, 0).children@ == children@,
        r.name == Some(name),
{
    Node::new(name).add_component(Component::Group(Group { layout, children }))
}

impl Margin {
    pub fn expand_padding<E>(&self, content: Node<E>) -> (r: Node<E>)
        ensures
            margin_frame(*self, r),
            inner(NodePadding::Margin(*self), r) == content,
    {
        let o = self.offset;
        let left = spacer_node("frame left", Dimension::Fixed(o.left), Dimension::Fixed(0));
        let top = spacer_node_hw("frame top", Dimension::Fixed(o.top), Dimension::Fixed(0));
        let bottom = spacer_node_hw("frame bottom", Dimension::Fixed(o.bottom), Dimension::Fixed(0));
        let right = spacer_node("frame right", Dimension::Fixed(o.right), Dimension::Fixed(0));
        let column = group_node("frame central column", Layout::Vertical, vec![top, content, bottom]);
        group_node("margin", Layout::Horizontal, vec![left, column, right])
    }
}

impl Background {
    pub fn expand_padding<E>(&self, content: Node<E>) -> (r: Node<E>)
        ensures
            background_frame(*self, r),
            inner(NodePadding::Background(*self), r) == content,
    {
        let r = Node::new("background")
            .add_component(Component::ColorFill(ColorFill { color: self.color }))
            .add_component(Component::Group(Group { layout: Layout::Horizontal, children: vec![content] }));
        r
    }
}

impl NoStretch {
    pub fn expand_padding<E>(&self, content: Node<E>) -> (r: Node<E>)
        ensures
            no_stretch_frame(*self, r),
            inner(NodePadding::NoStretch(*self), r) == content,
    {
        let n: Node<E> = Node::anon();
        let n = match self.mode {
            NoStretchMode::Vertical => n.add_component(Component::Height(Dimension::RemoveStretch)),
            NoStretchMode::Horizontal => n.add_component(Component::Width(Dimension::RemoveStretch)),
            NoStretchMode::Both => n.add_component(Component::Height(Dimension::RemoveStretch))
                .add_component(Component::Width(Dimension::RemoveStretch)),
        };
        let ghost k = n.components.items@.len() as int;
        assert(n.components.items@ =~= no_stretch_markers::<E>(self.mode));
        let r = n.add_component(Component::Group(Group { layout: Layout::Horizontal, children: vec![content] }));
        assert(r.components.items@.subrange(0, k) =~= no_stretch_markers::<E>(self.mode));
        r
    }
}

impl Align {
    pub fn expand_padding<E>(&self, content: Node<E>) -> (r: Node<E>)
        ensures
            align_frame(*self, r),
            inner(NodePadding::Align(*self), r) == content,
    {
        let row = match self.x {
            AlignX::Left => group_node("align left", Layout::Horizontal, vec![content, stretch_horizontal()]),
            AlignX::Center => group_node(
                "align center (x)",
                Layout::Horizontal,
                vec![stretch_horizontal(), content, stretch_horizontal()],
            ),
            AlignX::Right => group_node("align right", Layout::Horizontal, vec![stretch_horizontal(), content]),
        };
        let column = match self.y {
            AlignY::Top => group_node("align top", Layout::Vertical, vec![row, stretch_vertical()]),
            AlignY::Center => group_node(
                "align center (y)",
                Layout::Vertical,
                vec![stretch_vertical(), row, stretch_vertical()],
            ),
            AlignY::Bottom => group_node("align bottom", Layout::Vertical, vec![stretch_vertical(), row]),
        };
        group_node("align", Layout::Horizontal, vec![column])
    }
}

impl StretchAround {
    pub fn expand_padding<E>(&self, content: Node<E>) -> (r: Node<E>)
        ensures
            stretch_frame(*self, r),
            inner(NodePadding::StretchAround(*self), r) == content,
    {
        let mut n = content;
        if self.left || self.right {
            let mut items: Vec<Node<E>> = Vec::new();
            if self.left {
                items.push(stretch_horizontal());
            }
            items.push(n);
            if self.right {
                items.push(stretch_horizontal());
            }
            n = group_node("horizontal node", Layout::Horizontal, items);
        }
        let ghost mid = n;
        if self.top || self.bottom {
            let mut items: Vec<Node<E>> = Vec::new();
            if self.top {
                items.push(stretch_vertical());
            }
            items.push(n);
            if self.bottom {
                items.push(stretch_vertical());
            }
            n = group_node("vertical node", Layout::Vertical, items);
        }
        assert(mid == (if self.top || self.bottom { child(n, content_pos(self.top)) } else { n }));
        n
    }
}

impl NodePadding {
    /// Wraps `content` in the frame of this wrapper.
    pub fn expand<E>(&self, content: Node<E>) -> (r: Node<E>)
        ensures
            frames(*self, r),
            inner(*self, r) == content,
    {
        match self {
            NodePadding::Margin(m) => m.expand_padding(content),
            NodePadding::Background(b) => b.expand_padding(content),
            NodePadding::Align(a) => a.expand_padding(content),
            NodePadding::NoStretch(ns) => ns.expand_padding(content),
            NodePadding::StretchAround(s) => s.expand_padding(content),
        }
    }
}

impl<E> Node<E> {
    /// Expands the queued wrappers, the last queued innermost, and leaves
    /// the queue empty; a node with nothing queued is returned as it is.
    pub fn expand_padding(self) -> (r: Node<E>)
        ensures
            wraps(r, self.paddings@, self),
            self.paddings@.len() == 0 ==> r == self,
    {
        if self.paddings.len() == 0 {
            proof {
                assert(same_core(self, self));
            }
            return self;
        }
        let ghost orig = self;
        let Node { name, components, paddings } = self;
        let mut n = Node { name, components, paddings: Vec::new() };
        let mut i: usize = paddings.len();
        assert(paddings@.subrange(i as int, i as int).len() == 0);
        while i > 0
            invariant
                i <= paddings@.len(),
                paddings@ == orig.paddings@,
                wraps(n, paddings@.subrange(i as int, paddings@.len() as int), orig),
            decreases i,
        {
            let ghost prev = n;
            n = paddings[i - 1].expand(n);
            i = i - 1;
            proof {
                let s = paddings@.subrange(i as int, paddings@.len() as int);
                assert(s[0] == paddings@[i as int]);
                assert(s.drop_first() =~= paddings@.subrange(i + 1, paddings@.len() as int));
            }
        }
        assert(paddings@.subrange(0, paddings@.len() as int) =~= paddings@);
        n
    }
}

/// An expanded node has nothing left queued, so expanding it again gives
/// it back unchanged: finalizing twice is the same as finalizing once.
pub proof fn law_expanded_queue_is_empty<E>(r: Node<E>, ps: Seq<NodePadding>, n: Node<E>)
    requires
        wraps(r, ps, n),
    ensures
        r.paddings@.len() == 0,
    decreases ps.len(),
{
    if ps.len() > 0 {
        match ps[0] {
            NodePadding::StretchAround(s) => {
                if !(s.top || s.bottom || s.left || s.right) {
                    law_expanded_queue_is_empty(inner(ps[0], r), ps.drop_first(), n);
                }
            },
            _ => {},
        }
    }
}

/// Wrappers queued first end up outermost: a node given a margin and then
/// a background expands into a margin frame, around a background frame,
/// around the node itself.
pub proof fn law_decorator_order<E>(n: Node<E>, m: Margin, b: Background, r: Node<E>)
    requires
        wraps(r, seq![NodePadding::Margin(m), NodePadding::Background(b)], n),
    ensures
        margin_frame(m, r),
        background_frame(b, inner(NodePadding::Margin(m), r)),
        same_core(inner(NodePadding::Background(b), inner(NodePadding::Margin(m), r)), n),
{
    let ps = seq![NodePadding::Margin(m), NodePadding::Background(b)];
    assert(ps.drop_first() =~= seq![NodePadding::Background(b)]);
    assert(ps.drop_first().drop_first() =~= Seq::<NodePadding>::empty());
    let mid = inner(NodePadding::Margin(m), r);
    assert(wraps(mid, ps.drop_first(), n));
    assert(wraps(inner(NodePadding::Background(b), mid), ps.drop_first().drop_first(), n));
}

} // verus!
