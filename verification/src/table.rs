use crate::style::{CellAlignment, ColumnConstraint, ContentArrangement};
use vstd::prelude::*;

verus! {

/// One column of the table description handed to the arrangement pass.
///
/// `max_content_width` is the widest rendered cell of the column, as
/// measured by the content layer; how cell text is measured or wrapped is
/// outside this crate.
#[derive(Clone, Copy, Debug)]
pub struct Column {
    /// Fixed (left, right) spacing added around the content width.
    pub padding: (u16, u16),
    /// Optional delimiter for cell splitting, passed through unchanged.
    pub delimiter: Option<char>,
    /// The widest rendered cell among all rows of this column.
    pub max_content_width: u16,
    /// The sizing directive for this column, if any.
    pub constraint: Option<ColumnConstraint>,
    /// Content alignment, passed through unchanged.
    pub cell_alignment: Option<CellAlignment>,
}

/// The table description consumed by one arrangement pass.
#[derive(Debug)]
pub struct Table {
    /// The ordered columns of the table.
    pub columns: Vec<Column>,
    /// The target total display width; absent when the caller has no width
    /// signal, which forces disabled arrangement.
    pub table_width: Option<u16>,
    /// Which arrangement strategy to run.
    pub arrangement: ContentArrangement,
    /// Whether a left border (one character wide) is drawn.
    pub draw_left_border: bool,
    /// Whether a right border (one character wide) is drawn.
    pub draw_right_border: bool,
    /// Whether a vertical separator (one character wide) is drawn between
    /// each adjacent pair of visible columns.
    pub draw_vertical_lines: bool,
}

/// A column's padding and natural width stay representable: the padding
/// leaves room for the minimum content width of one, and the natural total
/// width (content plus padding) fits the width type.
pub open spec fn column_wf(column: Column) -> bool {
    &&& column.padding.0 + column.padding.1 < u16::MAX
    &&& column.padding.0 + column.padding.1 + column.max_content_width <= u16::MAX
}

} // verus!
