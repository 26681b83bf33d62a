use vstd::prelude::*;

verus! {

/// The two axes along which a node is sized and arranged.
#[derive(Debug, Clone, Copy, PartialEq, Eq, Structural)]
pub enum Axis {
    Horizontal,
    Vertical,
}

/// How a group places its children.
#[derive(Debug, Clone, Copy, PartialEq, Eq, Structural)]
pub enum Layout {
    /// Children are stacked on top of each other, each one over the whole area.
    Layered,
    /// Children flow top to bottom.
    Vertical,
    /// Children flow left to right.
    Horizontal,
}

/// A size request attached to a node for one axis.
#[derive(Debug, Clone, Copy, PartialEq, Eq, Structural)]
pub enum Dimension {
    Fixed(i64),
    Stretch { fixed_part: i64 },
    /// Compute the content's size and report its fixed part as a fixed size.
    RemoveStretch,
}

/// A size request after resolution: a fixed extent, or a share of the
/// leftover space on top of a fixed floor.
#[derive(Debug, Clone, Copy, PartialEq, Eq, Structural)]
pub enum CalculatedSize {
    Fixed(i64),
    Stretch { fixed_part: i64 },
}

/// Whether children sizes are added up or the largest one is taken.
#[derive(Debug, Clone, Copy, PartialEq, Eq, Structural)]
pub enum MergeMode {
    Sum,
    Max,
}

pub open spec fn fits_i64(v: int) -> bool {
    i64::MIN <= v <= i64::MAX
}

impl CalculatedSize {
    pub open spec fn spec_fixed_part(self) -> int {
        match self {
            CalculatedSize::Fixed(v) => v as int,
            CalculatedSize::Stretch { fixed_part } => fixed_part as int,
        }
    }

    pub open spec fn spec_is_stretch(self) -> bool {
        self is Stretch
    }

    pub fn is_stretch(&self) -> (r: bool)
        ensures
            r == self.spec_is_stretch(),
    {
        match self {
            CalculatedSize::Fixed(_) => false,
            CalculatedSize::Stretch { .. } => true,
        }
    }

    pub fn get_fixed_part(&self) -> (r: i64)
        ensures
            r as int == self.spec_fixed_part(),
    {
        match self {
            CalculatedSize::Fixed(v) => *v,
            CalculatedSize::Stretch { fixed_part } => *fixed_part,
        }
    }

    /// A size with the given fixed part, stretching when either operand stretches.
    pub open spec fn with_part(a: CalculatedSize, b: CalculatedSize, part: int) -> CalculatedSize {
        if a.spec_is_stretch() || b.spec_is_stretch() {
            CalculatedSize::Stretch { fixed_part: part as i64 }
        } else {
            CalculatedSize::Fixed(part as i64)
        }
    }

    /// The merge of two sizes: the fixed parts are added up (`Sum`) or the
    /// larger one is kept (`Max`); the result stretches when either operand
    /// does. `None` when the sum does not fit in an `i64`.
    pub open spec fn spec_merge(mode: MergeMode, a: CalculatedSize, b: CalculatedSize) -> Option<
        CalculatedSize,
    > {
        let part = match mode {
            MergeMode::Sum => a.spec_fixed_part() + b.spec_fixed_part(),
            MergeMode::Max => if a.spec_fixed_part() >= b.spec_fixed_part() {
                a.spec_fixed_part()
            } else {
                b.spec_fixed_part()
            },
        };
        if fits_i64(part) {
            Some(Self::with_part(a, b, part))
        } else {
            None
        }
    }

    /// Adds the fixed parts; `None` on overflow.
    pub fn sum(a: CalculatedSize, b: CalculatedSize) -> (r: Option<CalculatedSize>)
        ensures
            r == Self::spec_merge(MergeMode::Sum, a, b),
    {
        let pa = a.get_fixed_part();
        let pb = b.get_fixed_part();
        match pa.checked_add(pb) {
            None => None,
            Some(part) => {
                if a.is_stretch() || b.is_stretch() {
                    Some(CalculatedSize::Stretch { fixed_part: part })
                } else {
                    Some(CalculatedSize::Fixed(part))
                }
            },
        }
    }

    /// Keeps the larger fixed part.
    pub fn max(a: CalculatedSize, b: CalculatedSize) -> (r: CalculatedSize)
        ensures
            Self::spec_merge(MergeMode::Max, a, b) == Some(r),
    {
        let pa = a.get_fixed_part();
        let pb = b.get_fixed_part();
        let part = if pa >= pb {
            pa
        } else {
            pb
        };
        if a.is_stretch() || b.is_stretch() {
            CalculatedSize::Stretch { fixed_part: part }
        } else {
            CalculatedSize::Fixed(part)
        }
    }

    pub fn merge(mode: MergeMode, a: CalculatedSize, b: CalculatedSize) -> (r: Option<
        CalculatedSize,
    >)
        ensures
            r == Self::spec_merge(mode, a, b),
    {
        match mode {
            MergeMode::Sum => Self::sum(a, b),
            MergeMode::Max => Some(Self::max(a, b)),
        }
    }
}

/// Children sizes are added up along the group's own direction and the
/// largest is taken across it; a layered group takes the largest on both axes.
pub open spec fn spec_merge_mode(layout: Layout, axis: Axis) -> MergeMode {
    match (layout, axis) {
        (Layout::Horizontal, Axis::Horizontal) => MergeMode::Sum,
        (Layout::Vertical, Axis::Vertical) => MergeMode::Sum,
        _ => MergeMode::Max,
    }
}

pub fn merge_mode(layout: Layout, axis: Axis) -> (r: MergeMode)
    ensures
        r == spec_merge_mode(layout, axis),
{
    match (layout, axis) {
        (Layout::Horizontal, Axis::Horizontal) => MergeMode::Sum,
        (Layout::Vertical, Axis::Vertical) => MergeMode::Sum,
        _ => MergeMode::Max,
    }
}

} // verus!
