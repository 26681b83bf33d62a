use vstd::prelude::*;

use crate::geometry::Color;
use crate::padding::NodePadding;
use crate::size::{Dimension, Layout};

verus! {

/// A named condition that is active for a subtree during one walk.
#[derive(Debug, Clone, Copy, PartialEq, Eq, Structural)]
pub struct Flag(pub u32);

/// A pointer button.
#[derive(Debug, Clone, Copy, PartialEq, Eq, Structural)]
pub enum MouseButton {
    Left,
    Right,
    Middle,
}

/// One step of the diagnostic path from the root to a node.
#[derive(Debug, Clone, Copy)]
pub enum UiPathStep {
    Name(&'static str),
    Index(usize),
}

/// An ordered child list with a layout mode.
#[derive(Debug)]
pub struct Group<E> {
    pub layout: Layout,
    pub children: Vec<Node<E>>,
}

/// Fills the node's area with one color.
#[derive(Debug, Clone, Copy, PartialEq, Eq, Structural)]
pub struct ColorFill {
    pub color: Color,
}

/// A line of text drawn at the top left corner of the node's area.
#[derive(Debug, Clone)]
pub struct Text {
    pub value: String,
    pub font_size: u32,
    pub color: Color,
}

/// A width and a height.
#[derive(Debug, Clone, Copy, PartialEq, Eq, Structural)]
pub struct Size2 {
    pub w: i64,
    pub h: i64,
}

/// An image, named by the host's handle, drawn at the top left corner of
/// the node's area, at the given size or its own.
#[derive(Debug, Clone, Copy, PartialEq, Eq, Structural)]
pub struct Texture {
    pub id: usize,
    pub color: Color,
    pub dst_size: Option<Size2>,
}

/// Emits an event for each `(button, event)` pair whose button was just
/// pressed while the pointer is over the node.
#[derive(Debug)]
pub struct MouseButtonHandler<E> {
    pub on_click: Vec<(MouseButton, E)>,
}

/// Emits an event for each `(button, event)` pair whose button is held
/// down while the pointer is over the node.
#[derive(Debug)]
pub struct MouseButtonPressedHandler<E> {
    pub on_pressed: Vec<(MouseButton, E)>,
}

/// Emits its event whenever the pointer is over the node.
#[derive(Debug)]
pub struct MouseHoverHandler<E> {
    pub on_hover: E,
}

/// Walks its target with `id` added to the active flags when the pointer
/// is over the node during drawing.
#[derive(Debug)]
pub struct StyleHoverTrigger<E> {
    pub target: Node<E>,
    pub id: Flag,
}

/// Picks among flag-keyed variants: the first entry whose flag is active
/// decides (a `None` target draws nothing); with no match the default is used.
#[derive(Debug)]
pub struct Conditional<E> {
    pub default: Option<Node<E>>,
    pub named: Vec<(Flag, Option<Node<E>>)>,
}

/// Everything that can be attached to a node.
#[derive(Debug)]
pub enum Component<E> {
    Width(Dimension),
    Height(Dimension),
    Group(Group<E>),
    ColorFill(ColorFill),
    Text(Text),
    Texture(Texture),
    Click(MouseButtonHandler<E>),
    Pressed(MouseButtonPressedHandler<E>),
    Hover(MouseHoverHandler<E>),
    HoverFlag(StyleHoverTrigger<E>),
    Conditional(Conditional<E>),
}

/// The kinds of component, to query a store by.
#[derive(Debug, Clone, Copy, PartialEq, Eq, Structural)]
pub enum ComponentKind {
    Width,
    Height,
    Group,
    ColorFill,
    Text,
    Texture,
    Click,
    Pressed,
    Hover,
    HoverFlag,
    Conditional,
}

impl<E> Component<E> {
    pub open spec fn spec_kind(self) -> ComponentKind {
        match self {
            Component::Width(_) => ComponentKind::Width,
            Component::Height(_) => ComponentKind::Height,
            Component::Group(_) => ComponentKind::Group,
            Component::ColorFill(_) => ComponentKind::ColorFill,
            Component::Text(_) => ComponentKind::Text,
            Component::Texture(_) => ComponentKind::Texture,
            Component::Click(_) => ComponentKind::Click,
            Component::Pressed(_) => ComponentKind::Pressed,
            Component::Hover(_) => ComponentKind::Hover,
            Component::HoverFlag(_) => ComponentKind::HoverFlag,
            Component::Conditional(_) => ComponentKind::Conditional,
        }
    }

    pub fn kind(&self) -> (r: ComponentKind)
        ensures
            r == self.spec_kind(),
    {
        match self {
            Component::Width(_) => ComponentKind::Width,
            Component::Height(_) => ComponentKind::Height,
            Component::Group(_) => ComponentKind::Group,
            Component::ColorFill(_) => ComponentKind::ColorFill,
            Component::Text(_) => ComponentKind::Text,
            Component::Texture(_) => ComponentKind::Texture,
            Component::Click(_) => ComponentKind::Click,
            Component::Pressed(_) => ComponentKind::Pressed,
            Component::Hover(_) => ComponentKind::Hover,
            Component::HoverFlag(_) => ComponentKind::HoverFlag,
            Component::Conditional(_) => ComponentKind::Conditional,
        }
    }
}

/// The positions, in insertion order, of the components of one kind.
pub open spec fn positions_of_kind<E>(items: Seq<Component<E>>, kind: ComponentKind) -> Seq<int>
    decreases items.len(),
{
    if items.len() == 0 {
        Seq::empty()
    } else {
        let rest = positions_of_kind(items.drop_last(), kind);
        if items.last().spec_kind() == kind {
            rest.push(items.len() - 1)
        } else {
            rest
        }
    }
}

/// The components of a node, in insertion order; zero or more of each kind.
#[derive(Debug)]
pub struct Composite<E> {
    pub items: Vec<Component<E>>,
}

impl<E> Composite<E> {
    pub fn new() -> (r: Composite<E>)
        ensures
            r.items@ == Seq::<Component<E>>::empty(),
    {
        Composite { items: Vec::new() }
    }

    /// Appends a component after all the others.
    pub fn insert(&mut self, value: Component<E>)
        ensures
            final(self).items@ == old(self).items@.push(value),
    {
        self.items.push(value);
    }

    /// The components of the given kind, in insertion order.
    pub fn get(&self, kind: ComponentKind) -> (r: Vec<&Component<E>>)
        ensures
            r@.len() == positions_of_kind(self.items@, kind).len(),
            forall|j: int|
                0 <= j < r@.len() ==> *r@[j] == self.items@[positions_of_kind(self.items@, kind)[j]],
    {
        let mut r: Vec<&Component<E>> = Vec::new();
        let mut i: usize = 0;
        while i < self.items.len()
            invariant
                i <= self.items@.len(),
                r@.len() == positions_of_kind(self.items@.subrange(0, i as int), kind).len(),
                forall|j: int|
                    0 <= j < r@.len() ==> *r@[j] == self.items@[positions_of_kind(
                        self.items@.subrange(0, i as int),
                        kind,
                    )[j]],
            decreases self.items@.len() - i,
        {
            proof {
                let s = self.items@.subrange(0, i as int + 1);
                assert(s.drop_last() =~= self.items@.subrange(0, i as int));
                assert(s.last() == self.items@[i as int]);
            }
            if self.items[i].kind() == kind {
                r.push(&self.items[i]);
            }
            i = i + 1;
        }
        assert(self.items@.subrange(0, self.items@.len() as int) =~= self.items@);
        r
    }
}

/// The unit of composition: an optional diagnostic name, the attached
/// components, and the queue of wrappers still to expand.
#[derive(Debug)]
pub struct Node<E> {
    pub name: Option<&'static str>,
    pub components: Composite<E>,
    pub paddings: Vec<NodePadding>,
}

impl<E> Node<E> {
    /// A node without a name.
    pub fn anon() -> (r: Node<E>)
        ensures
            r.name is None,
            r.components.items@.len() == 0,
            r.paddings@.len() == 0,
    {
        Node { name: None, components: Composite::new(), paddings: Vec::new() }
    }

    /// A node with a diagnostic name.
    pub fn new(name: &'static str) -> (r: Node<E>)
        ensures
            r.name == Some(name),
            r.components.items@.len() == 0,
            r.paddings@.len() == 0,
    {
        Node { name: Some(name), components: Composite::new(), paddings: Vec::new() }
    }

    /// Attaches a component after those already attached.
    pub fn add_component(self, component: Component<E>) -> (r: Node<E>)
        ensures
            r.name == self.name,
            r.components.items@ == self.components.items@.push(component),
            r.paddings@ == self.paddings@,
    {
        let mut n = self;
        n.components.insert(component);
        n
    }

    /// Queues a wrapper; the wrappers queued first end up outermost.
    pub fn pad(self, padding: NodePadding) -> (r: Node<E>)
        ensures
            r.name == self.name,
            r.components == self.components,
            r.paddings@ == self.paddings@.push(padding),
    {
        let mut n = self;
        n.paddings.push(padding);
        n
    }

    /// Sets the diagnostic name.
    pub fn name(self, name: &'static str) -> (r: Node<E>)
        ensures
            r.name == Some(name),
            r.components == self.components,
            r.paddings == self.paddings,
    {
        let mut n = self;
        n.name = Some(name);
        n
    }

    pub fn get_name(&self) -> (r: Option<&'static str>)
        ensures
            r == self.name,
    {
        self.name
    }
}

/// A node without a name.
pub fn node<E>() -> (r: Node<E>)
    ensures
        r.name is None,
        r.components.items@.len() == 0,
        r.paddings@.len() == 0,
{
    Node::anon()
}

} // verus!
