use vstd::prelude::*;

use crate::arrange::{arranged_rect, arrangement_fits, layout_areas};
use crate::error::{copy_path, copy_vec, step_down, LayoutError, LayoutFault};
use crate::geometry::{Color, Point, Rect};
use crate::node::{Component, Conditional, Flag, MouseButton, Node, Size2, UiPathStep};
use crate::resolve::{calc_size_dimension, named_path, resolve};
use crate::size::{Axis, CalculatedSize, Layout};

verus! {

/// The kind of walk: drawing, or collecting the events that input produces.
#[derive(Debug, Clone, Copy, PartialEq, Eq, Structural)]
pub enum Phase {
    Draw,
    CollectEvents,
}

/// Which pointer buttons are in a given state.
#[derive(Debug, Clone, Copy, PartialEq, Eq, Structural)]
pub struct ButtonState {
    pub left: bool,
    pub right: bool,
    pub middle: bool,
}

impl ButtonState {
    pub open spec fn spec_get(self, b: MouseButton) -> bool {
        match b {
            MouseButton::Left => self.left,
            MouseButton::Right => self.right,
            MouseButton::Middle => self.middle,
        }
    }

    pub fn get(&self, b: MouseButton) -> (r: bool)
        ensures
            r == self.spec_get(b),
    {
        match b {
            MouseButton::Left => self.left,
            MouseButton::Right => self.right,
            MouseButton::Middle => self.middle,
        }
    }
}

/// A snapshot of the input for one frame.
#[derive(Debug, Clone, Copy, PartialEq, Eq, Structural)]
pub struct Input {
    pub pointer: Point,
    /// Buttons pressed since the previous frame.
    pub just_pressed: ButtonState,
    /// Buttons held down.
    pub down: ButtonState,
}

/// A drawing request for the host's renderer.
#[derive(Debug, Clone)]
pub enum DrawCommand {
    Rect { area: Rect, color: Color },
    Text { value: String, x: i64, y: i64, font_size: u32, color: Color },
    Texture { id: usize, x: i64, y: i64, color: Color, size: Option<Size2> },
}

/// What a walk hands to a node: its area, the scale, the active flags, the
/// phase and the diagnostic path from the root.
#[derive(Debug)]
pub struct Ctx {
    pub area: Rect,
    pub scale: u32,
    pub flags: Vec<Flag>,
    pub phase: Phase,
    pub path: Vec<UiPathStep>,
}

pub ghost struct CtxView {
    pub area: Rect,
    pub scale: u32,
    pub flags: Seq<Flag>,
    pub phase: Phase,
    pub path: Seq<UiPathStep>,
}

impl View for Ctx {
    type V = CtxView;

    open spec fn view(&self) -> CtxView {
        CtxView {
            area: self.area,
            scale: self.scale,
            flags: self.flags@,
            phase: self.phase,
            path: self.path@,
        }
    }
}

/// What a walk produces: drawing requests and events, in walk order.
#[derive(Debug)]
pub struct Output<E> {
    pub draws: Vec<DrawCommand>,
    pub events: Vec<E>,
}

pub ghost struct Emitted<E> {
    pub draws: Seq<DrawCommand>,
    pub events: Seq<E>,
}

pub open spec fn nothing<E>() -> Emitted<E> {
    Emitted { draws: Seq::empty(), events: Seq::empty() }
}

pub open spec fn joined<E>(a: Emitted<E>, b: Emitted<E>) -> Emitted<E> {
    Emitted { draws: a.draws + b.draws, events: a.events + b.events }
}

/// Sequencing of two walk results: the first error wins.
pub open spec fn chain<E>(a: Result<Emitted<E>, LayoutFault>, b: Result<Emitted<E>, LayoutFault>) -> Result<Emitted<E>, LayoutFault> {
    match a {
        Err(e) => Err(e),
        Ok(x) => match b {
            Err(e) => Err(e),
            Ok(y) => Ok(joined(x, y)),
        },
    }
}

/// `out` grew by exactly `em`.
pub open spec fn appended<E>(before: Output<E>, after: Output<E>, em: Emitted<E>) -> bool {
    &&& after.draws@ == before.draws@ + em.draws
    &&& after.events@ == before.events@ + em.events
}

pub open spec fn with_area(ctx: CtxView, area: Rect, path: Seq<UiPathStep>) -> CtxView {
    CtxView { area, path, ..ctx }
}

/// The sizes of the children along an axis, the child at position `i`
/// reached by `path` followed by `Index(i)`; the first error stops.
pub open spec fn child_sizes<E>(children: Seq<Node<E>>, axis: Axis, path: Seq<UiPathStep>) -> Result<
    Seq<CalculatedSize>,
    LayoutFault,
>
    decreases children.len(),
{
    if children.len() == 0 {
        Ok(Seq::empty())
    } else {
        let last = children.len() - 1;
        match child_sizes(children.subrange(0, last), axis, path) {
            Err(e) => Err(e),
            Ok(ss) => match resolve(children[last], axis, path.push(UiPathStep::Index(last as usize))) {
                Err(e) => Err(e),
                Ok(s) => Ok(ss.push(s)),
            },
        }
    }
}

/// The events of button handlers whose button is in the given state, when
/// the pointer is over the area.
pub open spec fn button_events<E>(pairs: Seq<(MouseButton, E)>, hit: bool, state: ButtonState) -> Seq<E>
    decreases pairs.len(),
{
    if pairs.len() == 0 {
        Seq::empty()
    } else {
        let rest = button_events(pairs.drop_last(), hit, state);
        if hit && state.spec_get(pairs.last().0) {
            rest.push(pairs.last().1)
        } else {
            rest
        }
    }
}

/// The position of the first entry whose flag is active, or -1.
pub open spec fn first_active<E>(named: Seq<(Flag, Option<Node<E>>)>, flags: Seq<Flag>) -> int
    decreases named.len(),
{
    if named.len() == 0 {
        -1
    } else {
        let p = first_active(named.drop_last(), flags);
        if p >= 0 {
            p
        } else if flags.contains(named.last().0) {
            named.len() - 1
        } else {
            -1
        }
    }
}

/// A walk over a node: each component in insertion order, with the same context.
pub open spec fn walk_node<E>(node: Node<E>, ctx: CtxView, input: Input) -> Result<Emitted<E>, LayoutFault>
    decreases node, 3nat,
{
    walk_items(node.components.items@, ctx, input)
}

pub open spec fn walk_items<E>(items: Seq<Component<E>>, ctx: CtxView, input: Input) -> Result<Emitted<E>, LayoutFault>
    decreases items, 2nat,
{
    if items.len() == 0 {
        Ok(nothing())
    } else {
        let last = items.len() - 1;
        chain(walk_items(items.subrange(0, last), ctx, input), walk_component(items[last], ctx, input))
    }
}

/// What one component does in a walk.
pub open spec fn walk_component<E>(c: Component<E>, ctx: CtxView, input: Input) -> Result<Emitted<E>, LayoutFault>
    decreases c, 1nat,
{
    let draw = ctx.phase == Phase::Draw;
    let hit = ctx.area.spec_contains(input.pointer);
    match c {
        Component::Width(_) | Component::Height(_) => Ok(nothing()),
        Component::Group(g) => match g.layout {
            Layout::Layered => walk_layered(g.children@, ctx, input),
            _ => {
                let axis = if g.layout == Layout::Horizontal { Axis::Horizontal } else { Axis::Vertical };
                match child_sizes(g.children@, axis, ctx.path) {
                    Err(e) => Err(e),
                    Ok(sizes) => if arrangement_fits(ctx.area, axis, sizes) {
                        walk_arranged(g.children@, sizes, axis, ctx, input)
                    } else {
                        Err(LayoutFault::SizeOverflow { axis, path: ctx.path })
                    },
                }
            },
        },
        Component::ColorFill(f) => if draw {
            Ok(Emitted { draws: seq![DrawCommand::Rect { area: ctx.area, color: f.color }], events: Seq::empty() })
        } else {
            Ok(nothing())
        },
        Component::Text(t) => if draw {
            Ok(Emitted {
                draws: seq![DrawCommand::Text { value: t.value, x: ctx.area.x, y: ctx.area.y, font_size: t.font_size, color: t.color }],
                events: Seq::empty(),
            })
        } else {
            Ok(nothing())
        },
        Component::Texture(t) => if draw {
            Ok(Emitted {
                draws: seq![DrawCommand::Texture { id: t.id, x: ctx.area.x, y: ctx.area.y, color: t.color, size: t.dst_size }],
                events: Seq::empty(),
            })
        } else {
            Ok(nothing())
        },
        Component::Click(h) => if draw {
            Ok(nothing())
        } else {
            Ok(Emitted { draws: Seq::empty(), events: button_events(h.on_click@, hit, input.just_pressed) })
        },
        Component::Pressed(h) => if draw {
            Ok(nothing())
        } else {
            Ok(Emitted { draws: Seq::empty(), events: button_events(h.on_pressed@, hit, input.down) })
        },
        Component::Hover(h) => if !draw && hit {
            Ok(Emitted { draws: Seq::empty(), events: seq![h.on_hover] })
        } else {
            Ok(nothing())
        },
        Component::HoverFlag(t) => if draw && hit {
            if ctx.flags.contains(t.id) {
                Err(LayoutFault::DuplicateFlag { flag: t.id, path: ctx.path })
            } else {
                walk_node(t.target, CtxView { flags: ctx.flags.push(t.id), ..ctx }, input)
            }
        } else {
            walk_node(t.target, ctx, input)
        },
        Component::Conditional(cd) => {
            let p = first_active(cd.named@, ctx.flags);
            if 0 <= p < cd.named@.len() {
                match cd.named@[p].1 {
                    Some(n) => walk_node(n, ctx, input),
                    None => Ok(nothing()),
                }
            } else {
                match cd.default {
                    Some(n) => walk_node(n, ctx, input),
                    None => Ok(nothing()),
                }
            }
        },
    }
}

/// Every child walked over the same context, in order.
pub open spec fn walk_layered<E>(children: Seq<Node<E>>, ctx: CtxView, input: Input) -> Result<Emitted<E>, LayoutFault>
    decreases children, 0nat,
{
    if children.len() == 0 {
        Ok(nothing())
    } else {
        let last = children.len() - 1;
        chain(walk_layered(children.subrange(0, last), ctx, input), walk_node(children[last], ctx, input))
    }
}

/// Every child walked over its arranged rectangle, reached by the path
/// `Index(i)` and its name.
pub open spec fn walk_arranged<E>(
    children: Seq<Node<E>>,
    sizes: Seq<CalculatedSize>,
    axis: Axis,
    ctx: CtxView,
    input: Input,
) -> Result<Emitted<E>, LayoutFault>
    decreases children, 0nat,
{
    if children.len() == 0 {
        Ok(nothing())
    } else {
        let last = children.len() - 1;
        chain(
            walk_arranged(children.subrange(0, last), sizes, axis, ctx, input),
            walk_node(
                children[last],
                with_area(
                    ctx,
                    arranged_rect(ctx.area, axis, sizes, last),
                    named_path(children[last], ctx.path.push(UiPathStep::Index(last as usize))),
                ),
                input,
            ),
        )
    }
}

impl Ctx {
    /// The same context over another area and path.
    pub fn clone_with(&self, area: Rect, path: Vec<UiPathStep>) -> (r: Ctx)
        ensures
            r@ == with_area(self@, area, path@),
    {
        Ctx { area, scale: self.scale, flags: copy_vec(&self.flags), phase: self.phase, path }
    }
}

/// Whether `flag` is among `flags`.
pub fn has_flag(flags: &Vec<Flag>, flag: Flag) -> (r: bool)
    ensures
        r == flags@.contains(flag),
{
    let mut i: usize = 0;
    while i < flags.len()
        invariant
            i <= flags@.len(),
            forall|k: int| 0 <= k < i ==> flags@[k] != flag,
        decreases flags@.len() - i,
    {
        if flags[i] == flag {
            return true;
        }
        i = i + 1;
    }
    false
}

proof fn lemma_first_active_prefix<E>(named: Seq<(Flag, Option<Node<E>>)>, flags: Seq<Flag>, k: int)
    requires
        0 <= k <= named.len(),
        first_active(named.subrange(0, k), flags) >= 0,
    ensures
        first_active(named, flags) == first_active(named.subrange(0, k), flags),
    decreases named.len() - k,
{
    if k < named.len() {
        let pre = named.subrange(0, k + 1);
        assert(pre.drop_last() =~= named.subrange(0, k));
        lemma_first_active_prefix(named, flags, k + 1);
    } else {
        assert(named.subrange(0, k) =~= named);
    }
}

proof fn lemma_first_active_is_first<E>(named: Seq<(Flag, Option<Node<E>>)>, flags: Seq<Flag>, k: int)
    requires
        0 <= k < named.len(),
        flags.contains(named[k].0),
        forall|j: int| 0 <= j < k ==> !flags.contains(#[trigger] named[j].0),
    ensures
        first_active(named, flags) == k,
    decreases named.len(),
{
    if k < named.len() - 1 {
        let pre = named.drop_last();
        assert forall|j: int| 0 <= j < k implies !flags.contains(#[trigger] pre[j].0) by {
            assert(pre[j] == named[j]);
        }
        lemma_first_active_is_first(pre, flags, k);
    } else {
        lemma_first_active_none(named.drop_last(), flags);
    }
}

proof fn lemma_first_active_none<E>(named: Seq<(Flag, Option<Node<E>>)>, flags: Seq<Flag>)
    requires
        forall|j: int| 0 <= j < named.len() ==> !flags.contains(#[trigger] named[j].0),
    ensures
        first_active(named, flags) == -1,
    decreases named.len(),
{
    if named.len() > 0 {
        let pre = named.drop_last();
        assert forall|j: int| 0 <= j < pre.len() implies !flags.contains(#[trigger] pre[j].0) by {
            assert(pre[j] == named[j]);
        }
        lemma_first_active_none(pre, flags);
        assert(!flags.contains(named[named.len() - 1].0));
    }
}

/// A conditional walks the target of its first entry whose flag is active,
/// whatever entries come later and whatever their flags; a `None` target
/// walks nothing. With no active entry it walks its default.
pub proof fn law_conditional_precedence<E>(cd: Conditional<E>, ctx: CtxView, input: Input)
    ensures
        forall|k: int|
            0 <= k < cd.named@.len() && ctx.flags.contains(#[trigger] cd.named@[k].0) && (forall|j: int|
                0 <= j < k ==> !ctx.flags.contains(#[trigger] cd.named@[j].0)) ==> walk_component(
                Component::Conditional(cd),
                ctx,
                input,
            ) == match cd.named@[k].1 {
                Some(n) => walk_node(n, ctx, input),
                None => Ok(nothing()),
            },
        (forall|j: int| 0 <= j < cd.named@.len() ==> !ctx.flags.contains(#[trigger] cd.named@[j].0))
            ==> walk_component(Component::Conditional(cd), ctx, input) == match cd.default {
            Some(n) => walk_node(n, ctx, input),
            None => Ok(nothing()),
        },
{
    assert forall|k: int|
        0 <= k < cd.named@.len() && ctx.flags.contains(#[trigger] cd.named@[k].0) && (forall|j: int|
            0 <= j < k ==> !ctx.flags.contains(#[trigger] cd.named@[j].0)) implies walk_component(
            Component::Conditional(cd),
            ctx,
            input,
        ) == match cd.named@[k].1 {
            Some(n) => walk_node(n, ctx, input),
            None => Ok(nothing()),
        } by {
        lemma_first_active_is_first(cd.named@, ctx.flags, k);
    }
    if forall|j: int| 0 <= j < cd.named@.len() ==> !ctx.flags.contains(#[trigger] cd.named@[j].0) {
        lemma_first_active_none(cd.named@, ctx.flags);
    }
}

/// The position of the first entry whose flag is active.
pub fn select_entry<E>(cd: &Conditional<E>, flags: &Vec<Flag>) -> (r: Option<usize>)
    ensures
        match r {
            Some(i) => i == first_active(cd.named@, flags@) && i < cd.named@.len(),
            None => first_active(cd.named@, flags@) == -1,
        },
{
    let mut i: usize = 0;
    assert(cd.named@.subrange(0, 0).len() == 0);
    while i < cd.named.len()
        invariant
            i <= cd.named@.len(),
            first_active(cd.named@.subrange(0, i as int), flags@) == -1,
        decreases cd.named@.len() - i,
    {
        let ghost pre = cd.named@.subrange(0, i as int + 1);
        assert(pre.drop_last() =~= cd.named@.subrange(0, i as int));
        assert(pre.last() == cd.named@[i as int]);
        if has_flag(flags, cd.named[i].0) {
            proof {
                lemma_first_active_prefix(cd.named@, flags@, i as int + 1);
            }
            return Some(i);
        }
        i = i + 1;
    }
    assert(cd.named@.subrange(0, cd.named@.len() as int) =~= cd.named@);
    None
}

/// Appends the events of the pairs whose button is in `state`, when `hit`.
pub fn push_button_events<E: Copy>(pairs: &Vec<(MouseButton, E)>, hit: bool, state: ButtonState, out: &mut Output<E>)
    ensures
        appended(*old(out), *final(out), Emitted { draws: Seq::empty(), events: button_events(pairs@, hit, state) }),
{
    let ghost start = out.events@;
    let mut i: usize = 0;
    assert(pairs@.subrange(0, 0).len() == 0);
    assert(out.events@ =~= start + button_events(pairs@.subrange(0, 0), hit, state));
    while i < pairs.len()
        invariant
            i <= pairs@.len(),
            out.draws@ == old(out).draws@,
            start == old(out).events@,
            out.events@ == start + button_events(pairs@.subrange(0, i as int), hit, state),
        decreases pairs@.len() - i,
    {
        let ghost pre = pairs@.subrange(0, i as int + 1);
        assert(pre.drop_last() =~= pairs@.subrange(0, i as int));
        assert(pre.last() == pairs@[i as int]);
        let (b, e) = pairs[i];
        if hit && state.get(b) {
            out.events.push(e);
        }
        i = i + 1;
        assert(out.events@ =~= start + button_events(pairs@.subrange(0, i as int), hit, state));
    }
    assert(pairs@.subrange(0, pairs@.len() as int) =~= pairs@);
    assert(out.draws@ =~= old(out).draws@ + Seq::<DrawCommand>::empty());
}

/// The sizes of the children along an axis.
pub fn size_list<E>(children: &Vec<Node<E>>, axis: Axis, path: &Vec<UiPathStep>) -> (r: Result<Vec<CalculatedSize>, LayoutError>)
    ensures
        match r {
            Ok(v) => child_sizes(children@, axis, path@) == Ok::<Seq<CalculatedSize>, LayoutFault>(v@),
            Err(e) => child_sizes(children@, axis, path@) == Err::<Seq<CalculatedSize>, LayoutFault>(e@),
        },
{
    let mut sizes: Vec<CalculatedSize> = Vec::new();
    let mut i: usize = 0;
    assert(children@.subrange(0, 0).len() == 0);
    while i < children.len()
        invariant
            i <= children@.len(),
            child_sizes(children@.subrange(0, i as int), axis, path@) == Ok::<Seq<CalculatedSize>, LayoutFault>(sizes@),
        decreases children@.len() - i,
    {
        let ghost pre = children@.subrange(0, i as int + 1);
        assert(pre.subrange(0, i as int) =~= children@.subrange(0, i as int));
        assert(pre[i as int] == children@[i as int]);
        let p = step_down(path, UiPathStep::Index(i));
        match calc_size_dimension(&children[i], axis, &p) {
            Err(e) => {
                proof {
                    lemma_sizes_err_prefix(children@, axis, path@, i as int + 1, e@);
                }
                return Err(e);
            },
            Ok(s) => {
                sizes.push(s);
            },
        }
        i = i + 1;
    }
    assert(children@.subrange(0, children@.len() as int) =~= children@);
    Ok(sizes)
}

proof fn lemma_sizes_len<E>(children: Seq<Node<E>>, axis: Axis, path: Seq<UiPathStep>)
    ensures
        child_sizes(children, axis, path) is Ok ==> child_sizes(children, axis, path)->Ok_0.len() == children.len(),
    decreases children.len(),
{
    if children.len() > 0 {
        lemma_sizes_len(children.subrange(0, children.len() - 1), axis, path);
    }
}

proof fn lemma_sizes_err_prefix<E>(children: Seq<Node<E>>, axis: Axis, path: Seq<UiPathStep>, k: int, e: LayoutFault)
    requires
        0 <= k <= children.len(),
        child_sizes(children.subrange(0, k), axis, path) == Err::<Seq<CalculatedSize>, LayoutFault>(e),
    ensures
        child_sizes(children, axis, path) == Err::<Seq<CalculatedSize>, LayoutFault>(e),
    decreases children.len() - k,
{
    if k < children.len() {
        let pre = children.subrange(0, k + 1);
        assert(pre.subrange(0, k) =~= children.subrange(0, k));
        lemma_sizes_err_prefix(children, axis, path, k + 1, e);
    } else {
        assert(children.subrange(0, k) =~= children);
    }
}

/// Runs one phase over a node: every component, in insertion order.
pub fn do_phase<E: Copy>(node: &Node<E>, ctx: &Ctx, input: &Input, out: &mut Output<E>) -> (r: Result<(), LayoutError>)
    ensures
        match r {
            Ok(_) => walk_node(*node, ctx@, *input) is Ok && appended(*old(out), *final(out), walk_node(*node, ctx@, *input)->Ok_0),
            Err(e) => walk_node(*node, ctx@, *input) == Err::<Emitted<E>, LayoutFault>(e@),
        },
    decreases *node, 3nat,
{
    let items = &node.components.items;
    let ghost em: Emitted<E> = nothing();
    let mut i: usize = 0;
    assert(items@.subrange(0, 0).len() == 0);
    assert(out.draws@ =~= old(out).draws@ + em.draws);
    assert(out.events@ =~= old(out).events@ + em.events);
    while i < items.len()
        invariant
            items == &node.components.items,
            i <= items@.len(),
            walk_items(items@.subrange(0, i as int), ctx@, *input) == Ok::<Emitted<E>, LayoutFault>(em),
            appended(*old(out), *out, em),
        decreases items@.len() - i,
    {
        let ghost pre = items@.subrange(0, i as int + 1);
        assert(pre.subrange(0, i as int) =~= items@.subrange(0, i as int));
        assert(pre[i as int] == items@[i as int]);
        let ghost mid = *out;
        match component_phase(&items[i], ctx, input, out) {
            Err(e) => {
                proof {
                    lemma_items_err_prefix(items@, ctx@, *input, i as int + 1, e@);
                }
                return Err(e);
            },
            Ok(_) => {},
        }
        proof {
            let c = walk_component(items@[i as int], ctx@, *input)->Ok_0;
            assert(out.draws@ =~= old(out).draws@ + joined(em, c).draws);
            assert(out.events@ =~= old(out).events@ + joined(em, c).events);
            em = joined(em, c);
        }
        i = i + 1;
    }
    assert(items@.subrange(0, items@.len() as int) =~= items@);
    Ok(())
}

proof fn lemma_items_err_prefix<E>(items: Seq<Component<E>>, ctx: CtxView, input: Input, k: int, e: LayoutFault)
    requires
        0 <= k <= items.len(),
        walk_items(items.subrange(0, k), ctx, input) == Err::<Emitted<E>, LayoutFault>(e),
    ensures
        walk_items(items, ctx, input) == Err::<Emitted<E>, LayoutFault>(e),
    decreases items.len() - k,
{
    if k < items.len() {
        let pre = items.subrange(0, k + 1);
        assert(pre.subrange(0, k) =~= items.subrange(0, k));
        lemma_items_err_prefix(items, ctx, input, k + 1, e);
    } else {
        assert(items.subrange(0, k) =~= items);
    }
}

/// What one component does in a phase.
pub fn component_phase<E: Copy>(c: &Component<E>, ctx: &Ctx, input: &Input, out: &mut Output<E>) -> (r: Result<(), LayoutError>)
    ensures
        match r {
            Ok(_) => walk_component(*c, ctx@, *input) is Ok && appended(*old(out), *final(out), walk_component(*c, ctx@, *input)->Ok_0),
            Err(e) => walk_component(*c, ctx@, *input) == Err::<Emitted<E>, LayoutFault>(e@),
        },
    decreases *c, 1nat,
{
    let draw = ctx.phase == Phase::Draw;
    match c {
        Component::Width(_) | Component::Height(_) => {
            assert(out.draws@ =~= old(out).draws@ + nothing::<E>().draws);
            assert(out.events@ =~= old(out).events@ + nothing::<E>().events);
            Ok(())
        },
        Component::Group(g) => {
            match g.layout {
                Layout::Layered => layered_phase(&g.children, ctx, input, out),
                Layout::Horizontal => arranged_phase(&g.children, Axis::Horizontal, ctx, input, out),
                Layout::Vertical => arranged_phase(&g.children, Axis::Vertical, ctx, input, out),
            }
        },
        Component::ColorFill(f) => {
            if draw {
                out.draws.push(DrawCommand::Rect { area: ctx.area, color: f.color });
            }
            assert(out.draws@ =~= old(out).draws@ + walk_component(*c, ctx@, *input)->Ok_0.draws);
            assert(out.events@ =~= old(out).events@ + walk_component(*c, ctx@, *input)->Ok_0.events);
            Ok(())
        },
        Component::Text(t) => {
            if draw {
                out.draws.push(DrawCommand::Text { value: t.value.clone(), x: ctx.area.x, y: ctx.area.y, font_size: t.font_size, color: t.color });
            }
            assert(out.draws@ =~= old(out).draws@ + walk_component(*c, ctx@, *input)->Ok_0.draws);
            assert(out.events@ =~= old(out).events@ + walk_component(*c, ctx@, *input)->Ok_0.events);
            Ok(())
        },
        Component::Texture(t) => {
            if draw {
                out.draws.push(DrawCommand::Texture { id: t.id, x: ctx.area.x, y: ctx.area.y, color: t.color, size: t.dst_size });
            }
            assert(out.draws@ =~= old(out).draws@ + walk_component(*c, ctx@, *input)->Ok_0.draws);
            assert(out.events@ =~= old(out).events@ + walk_component(*c, ctx@, *input)->Ok_0.events);
            Ok(())
        },
        Component::Click(h) => {
            if !draw {
                let hit = ctx.area.contains(input.pointer);
                push_button_events(&h.on_click, hit, input.just_pressed, out);
            } else {
                assert(out.draws@ =~= old(out).draws@ + nothing::<E>().draws);
                assert(out.events@ =~= old(out).events@ + nothing::<E>().events);
            }
            Ok(())
        },
        Component::Pressed(h) => {
            if !draw {
                let hit = ctx.area.contains(input.pointer);
                push_button_events(&h.on_pressed, hit, input.down, out);
            } else {
                assert(out.draws@ =~= old(out).draws@ + nothing::<E>().draws);
                assert(out.events@ =~= old(out).events@ + nothing::<E>().events);
            }
            Ok(())
        },
        Component::Hover(h) => {
            if !draw && ctx.area.contains(input.pointer) {
                out.events.push(h.on_hover);
            }
            assert(out.draws@ =~= old(out).draws@ + walk_component(*c, ctx@, *input)->Ok_0.draws);
            assert(out.events@ =~= old(out).events@ + walk_component(*c, ctx@, *input)->Ok_0.events);
            Ok(())
        },
        Component::HoverFlag(t) => {
            if draw && ctx.area.contains(input.pointer) {
                if has_flag(&ctx.flags, t.id) {
                    return Err(LayoutError::DuplicateFlag { flag: t.id, path: copy_path(&ctx.path) });
                }
                let mut flags = copy_vec(&ctx.flags);
                flags.push(t.id);
                let inner = Ctx { area: ctx.area, scale: ctx.scale, flags, phase: ctx.phase, path: copy_path(&ctx.path) };
                assert(inner@ == (CtxView { flags: ctx@.flags.push(t.id), ..ctx@ }));
                do_phase(&t.target, &inner, input, out)
            } else {
                do_phase(&t.target, ctx, input, out)
            }
        },
        Component::Conditional(cd) => {
            match select_entry(cd, &ctx.flags) {
                Some(i) => {
                    match &cd.named[i].1 {
                        Some(n) => do_phase(n, ctx, input, out),
                        None => {
                            assert(out.draws@ =~= old(out).draws@ + nothing::<E>().draws);
                            assert(out.events@ =~= old(out).events@ + nothing::<E>().events);
                            Ok(())
                        },
                    }
                },
                None => {
                    match &cd.default {
                        Some(n) => do_phase(n, ctx, input, out),
                        None => {
                            assert(out.draws@ =~= old(out).draws@ + nothing::<E>().draws);
                            assert(out.events@ =~= old(out).events@ + nothing::<E>().events);
                            Ok(())
                        },
                    }
                },
            }
        },
    }
}

/// Every child of a layered group over the same context.
pub fn layered_phase<E: Copy>(children: &Vec<Node<E>>, ctx: &Ctx, input: &Input, out: &mut Output<E>) -> (r: Result<(), LayoutError>)
    ensures
        match r {
            Ok(_) => walk_layered(children@, ctx@, *input) is Ok && appended(*old(out), *final(out), walk_layered(children@, ctx@, *input)->Ok_0),
            Err(e) => walk_layered(children@, ctx@, *input) == Err::<Emitted<E>, LayoutFault>(e@),
        },
    decreases children@, 0nat,
{
    let ghost em: Emitted<E> = nothing();
    let mut i: usize = 0;
    assert(children@.subrange(0, 0).len() == 0);
    assert(out.draws@ =~= old(out).draws@ + em.draws);
    assert(out.events@ =~= old(out).events@ + em.events);
    while i < children.len()
        invariant
            i <= children@.len(),
            walk_layered(children@.subrange(0, i as int), ctx@, *input) == Ok::<Emitted<E>, LayoutFault>(em),
            appended(*old(out), *out, em),
        decreases children@.len() - i,
    {
        let ghost pre = children@.subrange(0, i as int + 1);
        assert(pre.subrange(0, i as int) =~= children@.subrange(0, i as int));
        assert(pre[i as int] == children@[i as int]);
        match do_phase(&children[i], ctx, input, out) {
            Err(e) => {
                proof {
                    lemma_layered_err_prefix(children@, ctx@, *input, i as int + 1, e@);
                }
                return Err(e);
            },
            Ok(_) => {},
        }
        proof {
            let c = walk_node(children@[i as int], ctx@, *input)->Ok_0;
            assert(out.draws@ =~= old(out).draws@ + joined(em, c).draws);
            assert(out.events@ =~= old(out).events@ + joined(em, c).events);
            em = joined(em, c);
        }
        i = i + 1;
    }
    assert(children@.subrange(0, children@.len() as int) =~= children@);
    Ok(())
}

proof fn lemma_layered_err_prefix<E>(children: Seq<Node<E>>, ctx: CtxView, input: Input, k: int, e: LayoutFault)
    requires
        0 <= k <= children.len(),
        walk_layered(children.subrange(0, k), ctx, input) == Err::<Emitted<E>, LayoutFault>(e),
    ensures
        walk_layered(children, ctx, input) == Err::<Emitted<E>, LayoutFault>(e),
    decreases children.len() - k,
{
    if k < children.len() {
        let pre = children.subrange(0, k + 1);
        assert(pre.subrange(0, k) =~= children.subrange(0, k));
        lemma_layered_err_prefix(children, ctx, input, k + 1, e);
    } else {
        assert(children.subrange(0, k) =~= children);
    }
}

/// Sizes the children along the axis, arranges them over the context's
/// area, and runs the phase over each child in its own rectangle.
pub fn arranged_phase<E: Copy>(children: &Vec<Node<E>>, axis: Axis, ctx: &Ctx, input: &Input, out: &mut Output<E>) -> (r: Result<(), LayoutError>)
    ensures
        ({
            let w = match child_sizes(children@, axis, ctx@.path) {
                Err(e) => Err(e),
                Ok(sizes) => if arrangement_fits(ctx@.area, axis, sizes) {
                    walk_arranged(children@, sizes, axis, ctx@, *input)
                } else {
                    Err(LayoutFault::SizeOverflow { axis, path: ctx@.path })
                },
            };
            match r {
                Ok(_) => w is Ok && appended(*old(out), *final(out), w->Ok_0),
                Err(e) => w == Err::<Emitted<E>, LayoutFault>(e@),
            }
        }),
    decreases children@, 0nat,
{
    let sizes = match size_list(children, axis, &ctx.path) {
        Err(e) => return Err(e),
        Ok(s) => s,
    };
    let rects = match layout_areas(ctx.area, axis, &sizes) {
        None => return Err(LayoutError::SizeOverflow { axis, path: copy_path(&ctx.path) }),
        Some(r) => r,
    };
    proof {
        lemma_sizes_len(children@, axis, ctx@.path);
    }
    let ghost em: Emitted<E> = nothing();
    let mut i: usize = 0;
    assert(children@.subrange(0, 0).len() == 0);
    assert(out.draws@ =~= old(out).draws@ + em.draws);
    assert(out.events@ =~= old(out).events@ + em.events);
    while i < children.len()
        invariant
            i <= children@.len(),
            sizes@.len() == children@.len(),
            child_sizes(children@, axis, ctx@.path) == Ok::<Seq<CalculatedSize>, LayoutFault>(sizes@),
            arrangement_fits(ctx.area, axis, sizes@),
            rects@.len() == sizes@.len(),
            forall|k: int| 0 <= k < sizes@.len() ==> #[trigger] rects@[k] == arranged_rect(ctx.area, axis, sizes@, k),
            walk_arranged(children@.subrange(0, i as int), sizes@, axis, ctx@, *input) == Ok::<Emitted<E>, LayoutFault>(em),
            appended(*old(out), *out, em),
        decreases children@.len() - i,
    {
        let ghost pre = children@.subrange(0, i as int + 1);
        assert(pre.subrange(0, i as int) =~= children@.subrange(0, i as int));
        assert(pre[i as int] == children@[i as int]);
        let child = &children[i];
        let p = step_down(&ctx.path, UiPathStep::Index(i));
        let p = match child.name {
            Some(n) => step_down(&p, UiPathStep::Name(n)),
            None => p,
        };
        let sub = ctx.clone_with(rects[i], p);
        match do_phase(child, &sub, input, out) {
            Err(e) => {
                proof {
                    lemma_arranged_err_prefix(children@, sizes@, axis, ctx@, *input, i as int + 1, e@);
                }
                return Err(e);
            },
            Ok(_) => {},
        }
        proof {
            let c = walk_node(children@[i as int], sub@, *input)->Ok_0;
            assert(out.draws@ =~= old(out).draws@ + joined(em, c).draws);
            assert(out.events@ =~= old(out).events@ + joined(em, c).events);
            em = joined(em, c);
        }
        i = i + 1;
    }
    assert(children@.subrange(0, children@.len() as int) =~= children@);
    Ok(())
}

proof fn lemma_arranged_err_prefix<E>(children: Seq<Node<E>>, sizes: Seq<CalculatedSize>, axis: Axis, ctx: CtxView, input: Input, k: int, e: LayoutFault)
    requires
        0 <= k <= children.len(),
        walk_arranged(children.subrange(0, k), sizes, axis, ctx, input) == Err::<Emitted<E>, LayoutFault>(e),
    ensures
        walk_arranged(children, sizes, axis, ctx, input) == Err::<Emitted<E>, LayoutFault>(e),
    decreases children.len() - k,
{
    if k < children.len() {
        let pre = children.subrange(0, k + 1);
        assert(pre.subrange(0, k) =~= children.subrange(0, k));
        lemma_arranged_err_prefix(children, sizes, axis, ctx, input, k + 1, e);
    } else {
        assert(children.subrange(0, k) =~= children);
    }
}

} // verus!
