use vstd::prelude::*;

use crate::error::{step_down, copy_path, LayoutError, LayoutFault};
use crate::node::{Component, Group, Node, UiPathStep};
use crate::size::{
    merge_mode, spec_merge_mode, Axis, CalculatedSize, Dimension, MergeMode,
};

verus! {

/// The size marker a component carries for an axis, if any.
pub open spec fn marker_of<E>(c: Component<E>, axis: Axis) -> Option<Dimension> {
    match (c, axis) {
        (Component::Width(d), Axis::Horizontal) => Some(d),
        (Component::Height(d), Axis::Vertical) => Some(d),
        _ => None,
    }
}

/// The most recently attached size marker for the axis.
pub open spec fn find_marker<E>(items: Seq<Component<E>>, axis: Axis) -> Option<Dimension>
    decreases items.len(),
{
    if items.len() == 0 {
        None
    } else {
        match marker_of(items.last(), axis) {
            Some(d) => Some(d),
            None => find_marker(items.drop_last(), axis),
        }
    }
}

/// The position of the most recently attached group, or -1.
pub open spec fn last_group_index<E>(items: Seq<Component<E>>) -> int
    decreases items.len(),
{
    if items.len() == 0 {
        -1
    } else if items.last() is Group {
        items.len() - 1
    } else {
        last_group_index(items.drop_last())
    }
}

/// The path of a node: the path it was reached by, then its own name.
pub open spec fn named_path<E>(node: Node<E>, path: Seq<UiPathStep>) -> Seq<UiPathStep> {
    match node.name {
        Some(n) => path.push(UiPathStep::Name(n)),
        None => path,
    }
}

/// The size of a node along an axis. A `Fixed` or `Stretch` marker is the
/// answer; otherwise the node's group is sized from its children, and a
/// `RemoveStretch` marker turns that result into a fixed size. A node with
/// neither marker nor group cannot be sized.
pub open spec fn resolve<E>(node: Node<E>, axis: Axis, path: Seq<UiPathStep>) -> Result<
    CalculatedSize,
    LayoutFault,
>
    decreases node, 1nat,
{
    let items = node.components.items@;
    let here = named_path(node, path);
    match find_marker(items, axis) {
        Some(Dimension::Fixed(v)) => Ok(CalculatedSize::Fixed(v)),
        Some(Dimension::Stretch { fixed_part }) => Ok(CalculatedSize::Stretch { fixed_part }),
        m => {
            let gi = last_group_index(items);
            if 0 <= gi < items.len() && items[gi] is Group {
                let g = items[gi]->Group_0;
                match resolve_children(g.children@, axis, spec_merge_mode(g.layout, axis), here) {
                    Err(e) => Err(e),
                    Ok(s) => {
                        let s = match s {
                            Some(s) => s,
                            None => CalculatedSize::Stretch { fixed_part: 0 },
                        };
                        if m is Some {
                            Ok(CalculatedSize::Fixed(s.spec_fixed_part() as i64))
                        } else {
                            Ok(s)
                        }
                    },
                }
            } else {
                Err(LayoutFault::Unresolvable { axis, path: here })
            }
        },
    }
}

/// Sizes the children in order and merges the results left to right;
/// `None` for no children. The child at position `i` is reached by the
/// path `path` followed by `Index(i)`.
pub open spec fn resolve_children<E>(
    children: Seq<Node<E>>,
    axis: Axis,
    mode: MergeMode,
    path: Seq<UiPathStep>,
) -> Result<Option<CalculatedSize>, LayoutFault>
    decreases children, 0nat,
{
    if children.len() == 0 {
        Ok(None)
    } else {
        let last = children.len() - 1;
        match resolve_children(children.subrange(0, last), axis, mode, path) {
            Err(e) => Err(e),
            Ok(acc) => match resolve(children[last], axis, path.push(UiPathStep::Index(last as usize))) {
                Err(e) => Err(e),
                Ok(s) => match acc {
                    None => Ok(Some(s)),
                    Some(a) => match CalculatedSize::spec_merge(mode, a, s) {
                        Some(m) => Ok(Some(m)),
                        None => Err(LayoutFault::SizeOverflow { axis, path }),
                    },
                },
            },
        }
    }
}

/// A node whose marker for the axis is `RemoveStretch` never reports a
/// stretching size: when its content merges to `Stretch { fixed_part }` it
/// reports `Fixed(fixed_part)`, and whatever it reports is fixed.
pub proof fn law_remove_stretch_collapses<E>(node: Node<E>, axis: Axis, path: Seq<UiPathStep>)
    requires
        find_marker(node.components.items@, axis) == Some(Dimension::RemoveStretch),
    ensures
        resolve(node, axis, path) is Ok ==> resolve(node, axis, path)->Ok_0 is Fixed,
        ({
            let items = node.components.items@;
            let gi = last_group_index(items);
            let g = items[gi]->Group_0;
            forall|fixed_part: i64|
                0 <= gi < items.len() && items[gi] is Group && resolve_children(
                    g.children@,
                    axis,
                    spec_merge_mode(g.layout, axis),
                    named_path(node, path),
                ) == Ok::<Option<CalculatedSize>, LayoutFault>(Some(CalculatedSize::Stretch { fixed_part }))
                    ==> resolve(node, axis, path) == Ok::<CalculatedSize, LayoutFault>(
                    CalculatedSize::Fixed(fixed_part),
                )
        }),
{
}

/// The most recently attached size marker for the axis.
pub fn get_marker<E>(node: &Node<E>, axis: Axis) -> (r: Option<Dimension>)
    ensures
        r == find_marker(node.components.items@, axis),
{
    let items = &node.components.items;
    let mut i: usize = items.len();
    assert(items@.subrange(0, i as int) =~= items@);
    while i > 0
        invariant
            items == &node.components.items,
            i <= items@.len(),
            find_marker(items@, axis) == find_marker(items@.subrange(0, i as int), axis),
        decreases i,
    {
        let ghost pre = items@.subrange(0, i as int);
        assert(pre.drop_last() =~= items@.subrange(0, i - 1));
        assert(pre.last() == items@[i - 1]);
        let found = match (&items[i - 1], axis) {
            (Component::Width(d), Axis::Horizontal) => Some(*d),
            (Component::Height(d), Axis::Vertical) => Some(*d),
            _ => None,
        };
        assert(found == marker_of(items@[i - 1], axis));
        if found.is_some() {
            assert(find_marker(pre, axis) == found);
            return found;
        }
        i = i - 1;
    }
    assert(items@.subrange(0, 0).len() == 0);
    None
}

/// The position of the most recently attached group.
pub fn get_group_index<E>(node: &Node<E>) -> (r: Option<usize>)
    ensures
        match r {
            Some(i) => i == last_group_index(node.components.items@) && i
                < node.components.items@.len() && node.components.items@[i as int] is Group,
            None => last_group_index(node.components.items@) == -1,
        },
{
    let items = &node.components.items;
    let mut i: usize = items.len();
    assert(items@.subrange(0, i as int) =~= items@);
    while i > 0
        invariant
            items == &node.components.items,
            i <= items@.len(),
            last_group_index(items@) == last_group_index(items@.subrange(0, i as int)),
        decreases i,
    {
        let ghost pre = items@.subrange(0, i as int);
        assert(pre.drop_last() =~= items@.subrange(0, i - 1));
        assert(pre.last() == items@[i - 1]);
        if let Component::Group(_) = &items[i - 1] {
            assert(last_group_index(pre) == i - 1);
            return Some(i - 1);
        }
        i = i - 1;
    }
    assert(items@.subrange(0, 0).len() == 0);
    None
}

/// Sizes a node along an axis; `path` is how the node was reached.
pub fn calc_size_dimension<E>(node: &Node<E>, axis: Axis, path: &Vec<UiPathStep>) -> (r: Result<
    CalculatedSize,
    LayoutError,
>)
    ensures
        match r {
            Ok(s) => resolve(*node, axis, path@) == Ok::<CalculatedSize, LayoutFault>(s),
            Err(e) => resolve(*node, axis, path@) == Err::<CalculatedSize, LayoutFault>(e@),
        },
    decreases *node, 1nat,
{
    let marker = get_marker(node, axis);
    match marker {
        Some(Dimension::Fixed(v)) => return Ok(CalculatedSize::Fixed(v)),
        Some(Dimension::Stretch { fixed_part }) => return Ok(
            CalculatedSize::Stretch { fixed_part },
        ),
        _ => {},
    }
    let here = match node.name {
        Some(n) => step_down(path, UiPathStep::Name(n)),
        None => copy_path(path),
    };
    let gi = get_group_index(node);
    match gi {
        None => Err(LayoutError::Unresolvable { axis, path: here }),
        Some(gi) => {
            if let Component::Group(g) = &node.components.items[gi] {
                let mode = merge_mode(g.layout, axis);
                let s = size_children(&g.children, axis, mode, &here);
                match s {
                    Err(e) => Err(e),
                    Ok(s) => {
                        let s = match s {
                            Some(s) => s,
                            None => CalculatedSize::Stretch { fixed_part: 0 },
                        };
                        if marker.is_some() {
                            Ok(CalculatedSize::Fixed(s.get_fixed_part()))
                        } else {
                            Ok(s)
                        }
                    },
                }
            } else {
                Err(LayoutError::Unresolvable { axis, path: here })
            }
        },
    }
}

/// Sizes each child (the child at position `i` reached by `path` then
/// `Index(i)`) and merges the results left to right.
pub fn size_children<E>(
    children: &Vec<Node<E>>,
    axis: Axis,
    mode: MergeMode,
    path: &Vec<UiPathStep>,
) -> (r: Result<Option<CalculatedSize>, LayoutError>)
    ensures
        match r {
            Ok(s) => resolve_children(children@, axis, mode, path@) == Ok::<
                Option<CalculatedSize>,
                LayoutFault,
            >(s),
            Err(e) => resolve_children(children@, axis, mode, path@) == Err::<
                Option<CalculatedSize>,
                LayoutFault,
            >(e@),
        },
    decreases children@, 0nat,
{
    let mut acc: Option<CalculatedSize> = None;
    let mut i: usize = 0;
    assert(children@.subrange(0, 0).len() == 0);
    while i < children.len()
        invariant
            i <= children@.len(),
            resolve_children(children@.subrange(0, i as int), axis, mode, path@) == Ok::<
                Option<CalculatedSize>,
                LayoutFault,
            >(acc),
        decreases children@.len() - i,
    {
        let ghost pre = children@.subrange(0, i as int + 1);
        assert(pre.subrange(0, i as int) =~= children@.subrange(0, i as int));
        assert(pre[i as int] == children@[i as int]);
        let child_path = step_down(path, UiPathStep::Index(i));
        let s = calc_size_dimension(&children[i], axis, &child_path);
        match s {
            Err(e) => {
                proof {
                    lemma_children_err_prefix(children@, axis, mode, path@, i as int + 1, e@);
                }
                return Err(e);
            },
            Ok(s) => {
                match acc {
                    None => {
                        acc = Some(s);
                    },
                    Some(a) => {
                        match CalculatedSize::merge(mode, a, s) {
                            Some(m) => {
                                acc = Some(m);
                            },
                            None => {
                                let e = LayoutError::SizeOverflow { axis, path: copy_path(path) };
                                proof {
                                    lemma_children_err_prefix(
                                        children@,
                                        axis,
                                        mode,
                                        path@,
                                        i as int + 1,
                                        e@,
                                    );
                                }
                                return Err(e);
                            },
                        }
                    },
                }
            },
        }
        i = i + 1;
    }
    assert(children@.subrange(0, children@.len() as int) =~= children@);
    Ok(acc)
}

/// An error on a prefix of the children is the error of the whole list.
proof fn lemma_children_err_prefix<E>(
    children: Seq<Node<E>>,
    axis: Axis,
    mode: MergeMode,
    path: Seq<UiPathStep>,
    k: int,
    e: LayoutFault,
)
    requires
        0 <= k <= children.len(),
        resolve_children(children.subrange(0, k), axis, mode, path) == Err::<
            Option<CalculatedSize>,
            LayoutFault,
        >(e),
    ensures
        resolve_children(children, axis, mode, path) == Err::<Option<CalculatedSize>, LayoutFault>(
            e,
        ),
    decreases children.len() - k,
{
    if k < children.len() {
        let pre = children.subrange(0, k + 1);
        assert(pre.subrange(0, k) =~= children.subrange(0, k));
        lemma_children_err_prefix(children, axis, mode, path, k + 1, e);
    } else {
        assert(children.subrange(0, k) =~= children);
    }
}

} // verus!
