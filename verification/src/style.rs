use vstd::prelude::*;

verus! {

/// A sizing directive a user may attach to one column. A column holds at
/// most one constraint.
#[derive(Clone, Copy, Debug, PartialEq, Eq, Structural)]
pub enum ColumnConstraint {
    /// The column is exactly as wide as its widest cell.
    ContentWidth,
    /// Total column width (content plus padding) fixed to the given value.
    Width(u16),
    /// Lower bound on the total column width.
    MinWidth(u16),
    /// Upper bound on the total column width; resolved only once the
    /// overall budget is known.
    MaxWidth(u16),
    /// Total column width fixed to this percentage of the table width.
    Percentage(u16),
    /// Lower bound given as a percentage of the table width.
    MinPercentage(u16),
    /// Upper bound given as a percentage of the table width.
    MaxPercentage(u16),
    /// The column takes part in no layout at all.
    Hidden,
}

/// How cell content is aligned inside its column. Passed through unchanged
/// for the rendering layer.
#[derive(Clone, Copy, Debug, PartialEq, Eq, Structural)]
pub enum CellAlignment {
    Left,
    Center,
    Right,
}

/// Which arrangement strategy runs over the columns.
#[derive(Clone, Copy, Debug, PartialEq, Eq, Structural)]
pub enum ContentArrangement {
    /// Ignore the global budget and size every column by its content and
    /// per-column constraints only.
    Disabled,
    /// Fit all columns into the known target table width.
    Dynamic,
}

} // verus!
