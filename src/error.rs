use vstd::prelude::*;

use crate::node::{Flag, UiPathStep};
use crate::size::Axis;

verus! {

/// A malformed tree, found while resolving sizes or walking it. Each error
/// carries the diagnostic path from the root to the node at fault.
#[derive(Debug)]
pub enum LayoutError {
    /// A node has neither a size marker nor a group for the axis.
    Unresolvable { axis: Axis, path: Vec<UiPathStep> },
    /// A size or offset does not fit in an `i64`.
    SizeOverflow { axis: Axis, path: Vec<UiPathStep> },
    /// A flag is raised for a subtree where it is already active.
    DuplicateFlag { flag: Flag, path: Vec<UiPathStep> },
}

/// The mathematical counterpart of [`LayoutError`].
pub ghost enum LayoutFault {
    Unresolvable { axis: Axis, path: Seq<UiPathStep> },
    SizeOverflow { axis: Axis, path: Seq<UiPathStep> },
    DuplicateFlag { flag: Flag, path: Seq<UiPathStep> },
}

impl View for LayoutError {
    type V = LayoutFault;

    open spec fn view(&self) -> LayoutFault {
        match self {
            LayoutError::Unresolvable { axis, path } => LayoutFault::Unresolvable {
                axis: *axis,
                path: path@,
            },
            LayoutError::SizeOverflow { axis, path } => LayoutFault::SizeOverflow {
                axis: *axis,
                path: path@,
            },
            LayoutError::DuplicateFlag { flag, path } => LayoutFault::DuplicateFlag {
                flag: *flag,
                path: path@,
            },
        }
    }
}

/// The decimal digit of `d`, below ten.
pub open spec fn digit_char(d: nat) -> char {
    if d == 0 { '0' } else if d == 1 { '1' } else if d == 2 { '2' } else if d == 3 { '3' } else if d
        == 4 { '4' } else if d == 5 { '5' } else if d == 6 { '6' } else if d == 7 { '7' } else if d
        == 8 { '8' } else { '9' }
}

/// `n` written in decimal, without leading zeros.
pub open spec fn decimal(n: nat) -> Seq<char>
    decreases n,
{
    if n < 10 {
        seq![digit_char(n)]
    } else {
        decimal(n / 10).push(digit_char(n % 10))
    }
}

/// The text of a path: each step after a slash, names as they are and
/// indices in decimal.
pub open spec fn path_text(path: Seq<UiPathStep>) -> Seq<char>
    decreases path.len(),
{
    if path.len() == 0 {
        Seq::empty()
    } else {
        let step = match path.last() {
            UiPathStep::Name(n) => n@,
            UiPathStep::Index(i) => decimal(i as nat),
        };
        path_text(path.drop_last()) + "/"@ + step
    }
}

pub open spec fn axis_text(axis: Axis) -> Seq<char> {
    match axis {
        Axis::Horizontal => "horizontal"@,
        Axis::Vertical => "vertical"@,
    }
}

impl LayoutError {
    /// A one-line description naming the fault and the path to the node.
    pub open spec fn spec_message(self) -> Seq<char> {
        match self@ {
            LayoutFault::Unresolvable { axis, path } => "failed to resolve "@ + axis_text(axis)
                + " size at "@ + path_text(path),
            LayoutFault::SizeOverflow { axis, path } => "size overflow along "@ + axis_text(axis)
                + " at "@ + path_text(path),
            LayoutFault::DuplicateFlag { flag, path } => "duplicate flag "@ + decimal(flag.0 as nat)
                + " at "@ + path_text(path),
        }
    }

    pub fn message(&self) -> (r: String)
        ensures
            r@ == self.spec_message(),
    {
        let mut s = String::new();
        match self {
            LayoutError::Unresolvable { axis, path } => {
                s.append("failed to resolve ");
                append_axis(&mut s, *axis);
                s.append(" size at ");
                append_path(&mut s, path);
            },
            LayoutError::SizeOverflow { axis, path } => {
                s.append("size overflow along ");
                append_axis(&mut s, *axis);
                s.append(" at ");
                append_path(&mut s, path);
            },
            LayoutError::DuplicateFlag { flag, path } => {
                s.append("duplicate flag ");
                append_decimal(&mut s, flag.0 as usize);
                s.append(" at ");
                append_path(&mut s, path);
            },
        }
        assert(s@ =~= self.spec_message());
        s
    }
}

fn append_axis(s: &mut String, axis: Axis)
    ensures
        final(s)@ == old(s)@ + axis_text(axis),
{
    match axis {
        Axis::Horizontal => s.append("horizontal"),
        Axis::Vertical => s.append("vertical"),
    }
}

fn digit_str(d: usize) -> (r: &'static str)
    requires
        d < 10,
    ensures
        r@ == seq![digit_char(d as nat)],
{
    proof {
        reveal_strlit("0");
        reveal_strlit("1");
        reveal_strlit("2");
        reveal_strlit("3");
        reveal_strlit("4");
        reveal_strlit("5");
        reveal_strlit("6");
        reveal_strlit("7");
        reveal_strlit("8");
        reveal_strlit("9");
    }
    let r = if d == 0 { "0" } else if d == 1 { "1" } else if d == 2 { "2" } else if d == 3 { "3" } else if d
        == 4 { "4" } else if d == 5 { "5" } else if d == 6 { "6" } else if d == 7 { "7" } else if d
        == 8 { "8" } else { "9" };
    assert(r@ =~= seq![digit_char(d as nat)]);
    r
}

/// Appends `n` in decimal.
pub fn append_decimal(s: &mut String, n: usize)
    ensures
        final(s)@ == old(s)@ + decimal(n as nat),
    decreases n,
{
    if n >= 10 {
        append_decimal(s, n / 10);
    }
    s.append(digit_str(n % 10));
    assert(final(s)@ =~= old(s)@ + decimal(n as nat));
}

/// Appends the text of a path.
pub fn append_path(s: &mut String, path: &Vec<UiPathStep>)
    ensures
        final(s)@ == old(s)@ + path_text(path@),
{
    let mut i: usize = 0;
    assert(path@.subrange(0, 0).len() == 0);
    assert(s@ =~= old(s)@ + path_text(path@.subrange(0, 0)));
    while i < path.len()
        invariant
            i <= path@.len(),
            s@ == old(s)@ + path_text(path@.subrange(0, i as int)),
        decreases path@.len() - i,
    {
        let ghost pre = path@.subrange(0, i as int + 1);
        assert(pre.drop_last() =~= path@.subrange(0, i as int));
        assert(pre.last() == path@[i as int]);
        s.append("/");
        match path[i] {
            UiPathStep::Name(n) => s.append(n),
            UiPathStep::Index(k) => append_decimal(s, k),
        }
        i = i + 1;
        assert(s@ =~= old(s)@ + path_text(path@.subrange(0, i as int)));
    }
    assert(path@.subrange(0, path@.len() as int) =~= path@);
}

/// The diagnostic path as text, root first: `/root/0/name`.
pub fn backtrace(path: &Vec<UiPathStep>) -> (r: String)
    ensures
        r@ == path_text(path@),
{
    let mut s = String::new();
    append_path(&mut s, path);
    assert(s@ =~= path_text(path@));
    s
}

/// A copy of `path` with `step` added at its end.
pub fn step_down(path: &Vec<UiPathStep>, step: UiPathStep) -> (r: Vec<UiPathStep>)
    ensures
        r@ == path@.push(step),
{
    let mut r = copy_vec(path);
    r.push(step);
    r
}

/// A copy of `path`.
pub fn copy_path(path: &Vec<UiPathStep>) -> (r: Vec<UiPathStep>)
    ensures
        r@ == path@,
{
    copy_vec(path)
}

/// An element by element copy.
pub fn copy_vec<T: Copy>(v: &Vec<T>) -> (r: Vec<T>)
    ensures
        r@ == v@,
{
    let mut r: Vec<T> = Vec::new();
    let mut i: usize = 0;
    while i < v.len()
        invariant
            i <= v@.len(),
            r@ == v@.subrange(0, i as int),
        decreases v@.len() - i,
    {
        r.push(v[i]);
        i = i + 1;
        assert(r@ =~= v@.subrange(0, i as int));
    }
    assert(v@.subrange(0, v@.len() as int) =~= v@);
    r
}

} // verus!
