//! Rows and columns, and the two kinds of index along them.

use std::fmt::Debug;
use std::ops::{Add, Index, IndexMut};
use vstd::prelude::*;
use vstd::std_specs::ops::AddSpecImpl;

verus! {

/// One of the two directions of a table.
#[derive(Clone, Copy, Debug, PartialEq, Eq, Structural)]
pub enum TableAxis {
    Rows,
    Columns,
}

impl TableAxis {
    /// The other direction.
    pub open spec fn spec_cross_axis(&self) -> TableAxis {
        match *self {
            TableAxis::Rows => TableAxis::Columns,
            TableAxis::Columns => TableAxis::Rows,
        }
    }

    /// The other direction.
    #[verifier::when_used_as_spec(spec_cross_axis)]
    pub fn cross_axis(&self) -> (other: TableAxis)
        ensures
            other == self.spec_cross_axis(),
    {
        match self {
            TableAxis::Rows => TableAxis::Columns,
            TableAxis::Columns => TableAxis::Rows,
        }
    }

    /// Crossing an axis twice leads back to it.
    pub proof fn lemma_cross_axis_involution(self)
        ensures
            self.cross_axis().cross_axis() == self,
            self.cross_axis() != self,
    {
    }
}

/// A position in the stored, unpermuted data.
#[derive(Clone, Copy, Debug, Hash, PartialEq, Eq, PartialOrd, Ord, Structural)]
pub struct LogIdx(pub usize);

impl Default for LogIdx {
    fn default() -> (idx: LogIdx)
        ensures
            idx == LogIdx(0),
    {
        LogIdx(0)
    }
}

/// A signed number of steps along an axis.
#[derive(Clone, Copy, Debug, PartialEq, Eq, PartialOrd, Ord, Structural)]
pub struct VisOffset(pub isize);

impl Default for VisOffset {
    fn default() -> (offset: VisOffset)
        ensures
            offset == VisOffset(0),
    {
        VisOffset(0)
    }
}

/// A position in the order in which the data is shown.
#[derive(Clone, Copy, Debug, Hash, PartialEq, Eq, PartialOrd, Ord, Structural)]
pub struct VisIdx(pub usize);

impl Default for VisIdx {
    fn default() -> (idx: VisIdx)
        ensures
            idx == VisIdx(0),
    {
        VisIdx(0)
    }
}

impl VisIdx {
    /// The position `amount` steps from this one, held within the range of
    /// positions: a step below the first position stays on the first, and a
    /// step beyond the last representable position stays on that.
    pub open spec fn offset_by(self, amount: VisOffset) -> VisIdx {
        let target = self.0 + amount.0;
        if target < 0 {
            VisIdx(0)
        } else if target > usize::MAX {
            VisIdx(usize::MAX)
        } else {
            VisIdx(target as usize)
        }
    }

    /// The two positions, smaller first.
    pub open spec fn spec_ascending(a: VisIdx, b: VisIdx) -> (VisIdx, VisIdx) {
        if a.0 < b.0 {
            (a, b)
        } else {
            (b, a)
        }
    }

    /// The two positions, smaller first: the ends of a range that does not
    /// depend on which of the two was given first.
    #[verifier::when_used_as_spec(spec_ascending)]
    pub fn ascending(a: VisIdx, b: VisIdx) -> (ends: (VisIdx, VisIdx))
        ensures
            ends == VisIdx::spec_ascending(a, b),
    {
        if a.0 < b.0 {
            (a, b)
        } else {
            (b, a)
        }
    }

    /// The positions from `from_inc` to `to_inc`, both included, in rising
    /// order; none where `to_inc` lies before `from_inc`.
    pub open spec fn spec_range_inc(from_inc: VisIdx, to_inc: VisIdx) -> Seq<VisIdx> {
        if from_inc.0 <= to_inc.0 {
            Seq::new((to_inc.0 - from_inc.0 + 1) as nat, |i: int| VisIdx((from_inc.0 + i) as usize))
        } else {
            Seq::empty()
        }
    }

    /// The positions from `from_inc` to `to_inc`, both included, in rising
    /// order. Their number has to be one that a vector can hold.
    pub fn range_inc(from_inc: VisIdx, to_inc: VisIdx) -> (range: Vec<VisIdx>)
        requires
            to_inc.0 - from_inc.0 < usize::MAX,
        ensures
            range@ == VisIdx::spec_range_inc(from_inc, to_inc),
    {
        let mut range: Vec<VisIdx> = Vec::new();
        if from_inc.0 <= to_inc.0 {
            let count: usize = to_inc.0 - from_inc.0 + 1;
            let mut i: usize = 0;
            while i < count
                invariant
                    from_inc.0 <= to_inc.0,
                    count == to_inc.0 - from_inc.0 + 1,
                    i <= count,
                    range@.len() == i,
                    forall|k: int| 0 <= k < i ==> #[trigger] range@[k] == VisIdx((from_inc.0 + k) as usize),
                decreases count - i,
            {
                range.push(VisIdx(from_inc.0 + i));
                i += 1;
            }
        }
        range
    }

    /// `ascending` gives the same ends for either order of its arguments, and
    /// the first end never lies after the second.
    pub proof fn lemma_ascending_normalizes(a: VisIdx, b: VisIdx)
        ensures
            VisIdx::ascending(a, b) == VisIdx::ascending(b, a),
            VisIdx::ascending(a, b).0.0 <= VisIdx::ascending(a, b).1.0,
    {
    }
}

impl Add<VisOffset> for VisIdx {
    type Output = VisIdx;

    /// Moves the position by `rhs` steps, stopping at the first and at the
    /// last representable position.
    fn add(self, rhs: VisOffset) -> (moved: VisIdx) {
        match self.0.checked_add_signed(rhs.0) {
            Some(target) => VisIdx(target),
            None => if rhs.0 < 0 {
                VisIdx(0)
            } else {
                VisIdx(usize::MAX)
            },
        }
    }
}

impl AddSpecImpl<VisOffset> for VisIdx {
    open spec fn obeys_add_spec() -> bool {
        true
    }

    open spec fn add_req(self, rhs: VisOffset) -> bool {
        true
    }

    open spec fn add_spec(self, rhs: VisOffset) -> VisIdx {
        self.offset_by(rhs)
    }
}

/// One value for the rows and one for the columns: the address of a cell, or
/// anything else of which a table has one along each axis.
#[derive(Clone, Copy, Debug, PartialEq, Eq, Structural)]
pub struct AxisPair<T: Debug> {
    pub row: T,
    pub col: T,
}

impl<T: Debug> AxisPair<T> {
    /// The value held for `axis`.
    pub open spec fn at(self, axis: TableAxis) -> T {
        match axis {
            TableAxis::Rows => self.row,
            TableAxis::Columns => self.col,
        }
    }

    /// The pair with the value for `axis` replaced.
    pub open spec fn with(self, axis: TableAxis, value: T) -> AxisPair<T> {
        match axis {
            TableAxis::Rows => AxisPair { row: value, col: self.col },
            TableAxis::Columns => AxisPair { row: self.row, col: value },
        }
    }

    /// A pair from its two values.
    pub fn new(row: T, col: T) -> (pair: AxisPair<T>)
        ensures
            pair == (AxisPair { row, col }),
    {
        AxisPair { row, col }
    }

    /// A pair that holds `main` for `axis` and `cross` for the other axis.
    pub fn new_for_axis(axis: TableAxis, main: T, cross: T) -> (pair: AxisPair<T>) where T: Default
        ensures
            pair.at(axis) == main,
            pair.at(axis.cross_axis()) == cross,
    {
        match axis {
            TableAxis::Rows => AxisPair { row: main, col: cross },
            TableAxis::Columns => AxisPair { row: cross, col: main },
        }
    }

    /// The value held for `axis`.
    pub fn get(&self, axis: TableAxis) -> (value: &T)
        ensures
            *value == self.at(axis),
    {
        match axis {
            TableAxis::Rows => &self.row,
            TableAxis::Columns => &self.col,
        }
    }

    /// Replaces the value held for `axis` and leaves the other as it is.
    pub fn set(&mut self, axis: TableAxis, value: T)
        ensures
            *final(self) == old(self).with(axis, value),
    {
        match axis {
            TableAxis::Rows => {
                self.row = value;
            },
            TableAxis::Columns => {
                self.col = value;
            },
        }
    }
}

impl<T: Debug> Index<TableAxis> for AxisPair<T> {
    type Output = T;

    /// The value held for `axis`.
    fn index(&self, axis: TableAxis) -> (value: &T)
        ensures
            *value == self.at(axis),
    {
        match axis {
            TableAxis::Rows => &self.row,
            TableAxis::Columns => &self.col,
        }
    }
}

impl<T: Debug> vstd::std_specs::core::IndexSpecImpl<TableAxis> for AxisPair<T> {
    open spec fn index_req(&self, index: &TableAxis) -> bool {
        true
    }
}

impl<T: Debug> IndexMut<TableAxis> for AxisPair<T> {
    /// The place of the value held for `axis`.
    fn index_mut(&mut self, axis: TableAxis) -> (value: &mut T)
        ensures
            *value == old(self).at(axis),
            *final(self) == old(self).with(axis, *final(value)),
    {
        match axis {
            TableAxis::Rows => &mut self.row,
            TableAxis::Columns => &mut self.col,
        }
    }
}

impl AxisPair<VisIdx> {
    /// The address `amount` steps along `axis` from this one.
    pub open spec fn spec_move_by(&self, axis: TableAxis, amount: VisOffset) -> AxisPair<VisIdx> {
        self.with(axis, self.at(axis).offset_by(amount))
    }

    /// The address `amount` steps along `axis` from this one. The other
    /// coordinate stays, and the moved one stops at the ends of the range of
    /// positions.
    #[verifier::when_used_as_spec(spec_move_by)]
    pub fn move_by(&self, axis: TableAxis, amount: VisOffset) -> (moved: AxisPair<VisIdx>)
        ensures
            moved == self.spec_move_by(axis, amount),
    {
        let mut moved = *self;
        let target = *self.get(axis) + amount;
        moved.set(axis, target);
        moved
    }
}

} // verus!
