//! Layout styles handed to the flexbox solver, held as plain values.
use vstd::prelude::*;

verus! {

/// The main axis along which a container lays out its children.
#[derive(Clone, Copy, Debug, PartialEq, Eq, Structural)]
pub enum FlexDirection {
    /// Left to right.
    Row,
    /// Top to bottom.
    Column,
    /// Right to left.
    RowReverse,
    /// Bottom to top.
    ColumnReverse,
}

/// The part of a node's flexbox style that components set: everything else
/// keeps the solver's defaults.
#[derive(Clone, Copy, Debug, PartialEq, Eq, Structural)]
pub struct LayoutStyle {
    pub flex_direction: FlexDirection,
}

impl LayoutStyle {
    /// The solver's default style: children laid out in a row.
    pub fn row() -> (r: LayoutStyle)
        ensures
            r.flex_direction == FlexDirection::Row,
    {
        LayoutStyle { flex_direction: FlexDirection::Row }
    }

    /// The default style with children stacked top to bottom.
    pub fn column() -> (r: LayoutStyle)
        ensures
            r.flex_direction == FlexDirection::Column,
    {
        LayoutStyle { flex_direction: FlexDirection::Column }
    }
}

} // verus!
