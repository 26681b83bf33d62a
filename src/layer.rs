use vstd::prelude::*;

use crate::error::{LayoutError, LayoutFault};
use crate::geometry::Rect;
use crate::node::{Node, UiPathStep};
use crate::padding::wraps;
use crate::phase::{do_phase, walk_node, Ctx, CtxView, DrawCommand, Input, Output, Phase};

verus! {

/// The context a walk starts from: the whole viewport, no active flag, and
/// a path made of the step `root`.
pub open spec fn root_ctx(area: Rect, scale: u32, phase: Phase) -> CtxView {
    CtxView { area, scale, flags: Seq::empty(), phase, path: seq![UiPathStep::Name("root")] }
}

/// The events that one collecting walk over the viewport emits.
pub open spec fn collected<E>(root: Node<E>, viewport: Rect, scale: u32, input: Input) -> Result<Seq<E>, LayoutFault> {
    match walk_node(root, root_ctx(viewport, scale, Phase::CollectEvents), input) {
        Ok(em) => Ok(em.events),
        Err(e) => Err(e),
    }
}

/// The drawing requests of one drawing walk over the viewport.
pub open spec fn drawn<E>(root: Node<E>, viewport: Rect, scale: u32, input: Input) -> Result<Seq<DrawCommand>, LayoutFault> {
    match walk_node(root, root_ctx(viewport, scale, Phase::Draw), input) {
        Ok(em) => Ok(em.draws),
        Err(e) => Err(e),
    }
}

impl Ctx {
    pub fn new(area: Rect, scale: u32, phase: Phase) -> (r: Ctx)
        ensures
            r@ == root_ctx(area, scale, phase),
    {
        let mut path: Vec<UiPathStep> = Vec::new();
        path.push(UiPathStep::Name("root"));
        assert(path@ =~= seq![UiPathStep::Name("root")]);
        Ctx { area, scale, flags: Vec::new(), phase, path }
    }
}

/// Runs one collecting walk over the viewport and returns the events, in walk order.
pub fn collect_layer_events<E: Copy>(root: &Node<E>, viewport: Rect, scale: u32, input: &Input) -> (r: Result<Vec<E>, LayoutError>)
    ensures
        match r {
            Ok(v) => collected(*root, viewport, scale, *input) == Ok::<Seq<E>, LayoutFault>(v@),
            Err(e) => collected(*root, viewport, scale, *input) == Err::<Seq<E>, LayoutFault>(e@),
        },
{
    let ctx = Ctx::new(viewport, scale, Phase::CollectEvents);
    let mut out = Output { draws: Vec::new(), events: Vec::new() };
    match do_phase(root, &ctx, input, &mut out) {
        Ok(_) => {
            assert(out.events@ =~= walk_node(*root, ctx@, *input)->Ok_0.events);
            Ok(out.events)
        },
        Err(e) => Err(e),
    }
}

/// Runs one drawing walk over the viewport and returns the drawing requests, in walk order.
pub fn draw_layer<E: Copy>(root: &Node<E>, viewport: Rect, scale: u32, input: &Input) -> (r: Result<Vec<DrawCommand>, LayoutError>)
    ensures
        match r {
            Ok(v) => drawn(*root, viewport, scale, *input) == Ok::<Seq<DrawCommand>, LayoutFault>(v@),
            Err(e) => drawn(*root, viewport, scale, *input) == Err::<Seq<DrawCommand>, LayoutFault>(e@),
        },
{
    let ctx = Ctx::new(viewport, scale, Phase::Draw);
    let mut out: Output<E> = Output { draws: Vec::new(), events: Vec::new() };
    match do_phase(root, &ctx, input, &mut out) {
        Ok(_) => {
            assert(out.draws@ =~= walk_node(*root, ctx@, *input)->Ok_0.draws);
            Ok(out.draws)
        },
        Err(e) => Err(e),
    }
}

/// Collecting twice over the same tree, viewport and input gives the same
/// events, or the same error: the walk depends on nothing else.
pub proof fn law_collect_events_idempotent<E>(
    root: Node<E>,
    viewport: Rect,
    scale: u32,
    input: Input,
    first: Result<Seq<E>, LayoutFault>,
    second: Result<Seq<E>, LayoutFault>,
)
    requires
        first == collected(root, viewport, scale, input),
        second == collected(root, viewport, scale, input),
    ensures
        first == second,
{
}

/// A root node and the events its last collecting walk produced.
pub struct UILayer<E> {
    pub events: Vec<E>,
    pub scale: u32,
    pub root: Node<E>,
}

impl<E: Copy> UILayer<E> {
    /// A layer over the finalized root: its queued wrappers expanded.
    pub fn new(scale: u32, root: Node<E>) -> (r: UILayer<E>)
        ensures
            r.events@.len() == 0,
            r.scale == scale,
            wraps(r.root, root.paddings@, root),
            root.paddings@.len() == 0 ==> r.root == root,
    {
        UILayer { events: Vec::new(), scale, root: root.expand_padding() }
    }

    /// The events of the last collecting walk.
    pub fn get_events(&self) -> (r: &Vec<E>)
        ensures
            r == &self.events,
    {
        &self.events
    }

    /// Replaces the stored events by those of a new collecting walk. On an
    /// error the stored events are cleared.
    pub fn update(&mut self, viewport: Rect, input: &Input) -> (r: Result<(), LayoutError>)
        ensures
            final(self).root == old(self).root,
            final(self).scale == old(self).scale,
            match r {
                Ok(_) => collected(old(self).root, viewport, old(self).scale, *input) == Ok::<Seq<E>, LayoutFault>(final(self).events@),
                Err(e) => collected(old(self).root, viewport, old(self).scale, *input) == Err::<Seq<E>, LayoutFault>(e@)
                    && final(self).events@.len() == 0,
            },
    {
        match collect_layer_events(&self.root, viewport, self.scale, input) {
            Ok(v) => {
                self.events = v;
                Ok(())
            },
            Err(e) => {
                self.events = Vec::new();
                Err(e)
            },
        }
    }

    /// The drawing requests of a drawing walk.
    pub fn draw(&self, viewport: Rect, input: &Input) -> (r: Result<Vec<DrawCommand>, LayoutError>)
        ensures
            match r {
                Ok(v) => drawn(self.root, viewport, self.scale, *input) == Ok::<Seq<DrawCommand>, LayoutFault>(v@),
                Err(e) => drawn(self.root, viewport, self.scale, *input) == Err::<Seq<DrawCommand>, LayoutFault>(e@),
            },
    {
        draw_layer(&self.root, viewport, self.scale, input)
    }
}

} // verus!
