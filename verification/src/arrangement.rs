use crate::style::{CellAlignment, ColumnConstraint, ContentArrangement};
use crate::table::{column_wf, Column, Table};
use vstd::prelude::*;

verus! {

/// Per-column scratchpad used by one arrangement pass. It is built fresh
/// from the column description on every render, consumed entirely within
/// that render, and discarded afterwards.
#[derive(Clone, Copy, Debug)]
pub struct ColumnDisplayInfo {
    /// Fixed (left, right) spacing added around the content width.
    pub padding: (u16, u16),
    /// Optional delimiter for cell splitting, passed through unchanged.
    pub delimiter: Option<char>,
    /// The widest rendered cell among all rows of this column.
    pub max_content_width: u16,
    /// The resolved width for content only, excluding padding.
    pub content_width: u16,
    /// True once `content_width` is final for this render pass.
    pub fixed: bool,
    /// The residual constraint carried into arrangement; only `MaxWidth`
    /// and `Hidden` survive constraint evaluation.
    pub constraint: Option<ColumnConstraint>,
    /// Content alignment, passed through unchanged.
    pub cell_alignment: Option<CellAlignment>,
    /// Whether cell text must be wrapped to fit the resolved width; set at
    /// the rendering boundary, not by arrangement.
    pub needs_splitting: bool,
}

/// The combined left and right padding of a column.
pub open spec fn padding_total(info: ColumnDisplayInfo) -> int {
    info.padding.0 + info.padding.1
}

/// The natural total width of a column: its widest cell plus padding.
pub open spec fn natural_width(info: ColumnDisplayInfo) -> int {
    info.max_content_width + padding_total(info)
}

/// The resolved total width of a column: its content width plus padding.
pub open spec fn total_width(info: ColumnDisplayInfo) -> int {
    info.content_width + padding_total(info)
}

/// A column is hidden exactly when it carries the `Hidden` residual
/// constraint.
pub open spec fn is_hidden_spec(info: ColumnDisplayInfo) -> bool {
    info.constraint == Some(ColumnConstraint::Hidden)
}

/// The padding leaves room for the minimum content width of one, and the
/// natural total width fits the width type.
pub open spec fn wf(info: ColumnDisplayInfo) -> bool {
    &&& padding_total(info) < u16::MAX
    &&& natural_width(info) <= u16::MAX
}

/// The resolved total width fits the width type.
pub open spec fn fits(info: ColumnDisplayInfo) -> bool {
    total_width(info) <= u16::MAX
}

/// Invariant carried through the whole arrangement pass.
pub open spec fn inv(info: ColumnDisplayInfo) -> bool {
    wf(info) && fits(info)
}

/// A content width of zero is disallowed and coerced to one.
pub open spec fn clamp_positive(width: int) -> int {
    if width == 0 {
        1
    } else {
        width
    }
}

/// The content width left over when the padding is taken out of a total
/// width, never less than one.
pub open spec fn shrunk_by_padding(info: ColumnDisplayInfo, width: int) -> int {
    if padding_total(info) >= width {
        1
    } else {
        width - padding_total(info)
    }
}

/// The column with its content width finalized to `width`.
pub open spec fn fixed_to(info: ColumnDisplayInfo, width: int) -> ColumnDisplayInfo {
    ColumnDisplayInfo { content_width: width as u16, fixed: true, ..info }
}

/// The fresh scratchpad built from a column description at the start of a
/// render: nothing resolved yet.
pub open spec fn fresh_info(column: Column) -> ColumnDisplayInfo {
    ColumnDisplayInfo {
        padding: column.padding,
        delimiter: column.delimiter,
        max_content_width: column.max_content_width,
        content_width: 0,
        fixed: false,
        constraint: None,
        cell_alignment: column.cell_alignment,
        needs_splitting: false,
    }
}

impl ColumnDisplayInfo {
    /// Build the fresh scratchpad for one column.
    pub fn new(column: &Column) -> (info: ColumnDisplayInfo)
        ensures
            info == fresh_info(*column),
    {
        ColumnDisplayInfo {
            padding: column.padding,
            delimiter: column.delimiter,
            max_content_width: column.max_content_width,
            content_width: 0,
            fixed: false,
            constraint: None::<ColumnConstraint>,
            cell_alignment: column.cell_alignment,
            needs_splitting: false,
        }
    }

    /// The combined left and right padding.
    pub fn padding_width(&self) -> (width: u16)
        requires
            padding_total(*self) <= u16::MAX,
        ensures
            width == padding_total(*self),
    {
        self.padding.0 + self.padding.1
    }

    /// The resolved width for content only.
    pub fn content_width(&self) -> (width: u16)
        ensures
            width == self.content_width,
    {
        self.content_width
    }

    /// Record a resolved content width; a width of zero is coerced to one.
    pub fn set_content_width(&mut self, width: u16)
        ensures
            *final(self) == (ColumnDisplayInfo {
                content_width: clamp_positive(width as int) as u16,
                ..*old(self)
            }),
    {
        // Don't allow content widths of 0.
        if width == 0 {
            self.content_width = 1;

            return;
        }
        self.content_width = width;
    }

    /// The natural total width: the widest cell plus padding.
    pub fn max_width(&self) -> (width: u16)
        requires
            natural_width(*self) <= u16::MAX,
        ensures
            width == natural_width(*self),
    {
        self.max_content_width + self.padding.0 + self.padding.1
    }

    /// The resolved total width: content width plus padding.
    pub fn width(&self) -> (width: u16)
        requires
            total_width(*self) <= u16::MAX,
        ensures
            width == total_width(*self),
    {
        self.content_width + self.padding.0 + self.padding.1
    }

    /// Whether the column is excluded from layout entirely.
    pub fn is_hidden(&self) -> (hidden_col: bool)
        ensures
            hidden_col == is_hidden_spec(*self),
    {
        match self.constraint {
            Some(ColumnConstraint::Hidden) => true,
            _ => false,
        }
    }

    /// The remaining value after subtracting the padding width, never less
    /// than the minimum content width of one.
    pub fn without_padding(&self, width: u16) -> (content: u16)
        requires
            padding_total(*self) <= u16::MAX,
        ensures
            content == shrunk_by_padding(*self, width as int),
    {
        let padding = self.padding_width();
        // Default minimum content width has to be 1
        if padding >= width {
            return 1;
        }

        width - padding
    }
}

/// A percentage of the table width, by integer division, reduced into the
/// width type the way a narrowing cast reduces it.
pub open spec fn percent_width(table_width: u16, percent: u16) -> int {
    (table_width * percent / 100) % 0x10000
}

/// The display state of one column after its declared constraint has been
/// evaluated against the (possibly unknown) table width: either the column
/// is fixed at once, or the constraint is reduced to a residual `MaxWidth`
/// or `Hidden` form, or nothing can be decided yet.
pub open spec fn evaluated(
    info: ColumnDisplayInfo,
    constraint: ColumnConstraint,
    table_width: Option<u16>,
) -> ColumnDisplayInfo {
    match constraint {
        ColumnConstraint::ContentWidth => fixed_to(
            info,
            clamp_positive(info.max_content_width as int),
        ),
        ColumnConstraint::Width(width) => fixed_to(info, shrunk_by_padding(info, width as int)),
        ColumnConstraint::MinWidth(min_width) => {
            if natural_width(info) <= min_width {
                fixed_to(info, shrunk_by_padding(info, min_width as int))
            } else {
                info
            }
        },
        ColumnConstraint::MaxWidth(max_width) => ColumnDisplayInfo {
            constraint: Some(ColumnConstraint::MaxWidth(max_width)),
            ..info
        },
        ColumnConstraint::Percentage(percent) => match table_width {
            Some(width) => fixed_to(info, shrunk_by_padding(info, percent_width(width, percent))),
            None => info,
        },
        ColumnConstraint::MinPercentage(percent) => match table_width {
            Some(width) => {
                if natural_width(info) <= percent_width(width, percent) {
                    fixed_to(info, shrunk_by_padding(info, percent_width(width, percent)))
                } else {
                    info
                }
            },
            None => info,
        },
        ColumnConstraint::MaxPercentage(percent) => match table_width {
            Some(width) => ColumnDisplayInfo {
                constraint: Some(
                    ColumnConstraint::MaxWidth(percent_width(width, percent) as u16),
                ),
                ..info
            },
            None => info,
        },
        ColumnConstraint::Hidden => ColumnDisplayInfo {
            constraint: Some(ColumnConstraint::Hidden),
            ..info
        },
    }
}

/// Compute a percentage of the table width, by integer division, narrowed
/// into the width type.
fn percentage_target(table_width: u16, percent: u16) -> (target: u16)
    ensures
        target == percent_width(table_width, percent),
{
    proof {
        assert((table_width as int) * (percent as int) <= 0xFFFF * 0xFFFF) by (nonlinear_arith)
            requires
                table_width <= 0xFFFF,
                percent <= 0xFFFF,
        ;
    }
    let target: u32 = (table_width as u32) * (percent as u32) / 100;
    proof {
        assert(target as u16 == target % 0x10000) by (bit_vector);
    }
    #[verifier::truncate] (target as u16)
}

/// Look at the given constraint of a column and populate its display state
/// accordingly: fix the width right away where it can be decided, or store
/// the residual constraint for the arrangement strategies.
pub fn evaluate_constraint(
    info: &mut ColumnDisplayInfo,
    constraint: ColumnConstraint,
    table_width: Option<u16>,
)
    requires
        inv(*old(info)),
    ensures
        *final(info) == evaluated(*old(info), constraint, table_width),
        inv(*final(info)),
{
    match constraint {
        ColumnConstraint::ContentWidth => {
            let width = info.max_content_width;
            info.set_content_width(width);
            info.fixed = true;
        },
        ColumnConstraint::Width(width) => {
            let width = info.without_padding(width);
            info.set_content_width(width);
            info.fixed = true;
        },
        ColumnConstraint::MinWidth(min_width) => {
            // With a minimum width the column can be fixed right away,
            // since the natural content width is already known.
            if info.max_width() <= min_width {
                let width = info.without_padding(min_width);
                info.set_content_width(width);
                info.fixed = true;
            }
        },
        ColumnConstraint::MaxWidth(max_width) => {
            info.constraint = Some(ColumnConstraint::MaxWidth(max_width));
        },
        ColumnConstraint::Percentage(percent) => {
            if let Some(table_width) = table_width {
                let target = percentage_target(table_width, percent);
                let width = info.without_padding(target);
                info.set_content_width(width);
                info.fixed = true;
            }
        },
        ColumnConstraint::MinPercentage(percent) => {
            if let Some(table_width) = table_width {
                let min_width = percentage_target(table_width, percent);
                if info.max_width() <= min_width {
                    let width = info.without_padding(min_width);
                    info.set_content_width(width);
                    info.fixed = true;
                }
            }
        },
        ColumnConstraint::MaxPercentage(percent) => {
            if let Some(table_width) = table_width {
                let max_width = percentage_target(table_width, percent);
                info.constraint = Some(ColumnConstraint::MaxWidth(max_width));
            }
        },
        ColumnConstraint::Hidden => {
            info.constraint = Some(ColumnConstraint::Hidden);
        },
    }
}

/// The display state of one column after disabled arrangement: a column
/// that is already fixed or hidden is left untouched; one with a residual
/// `MaxWidth` cap smaller than its natural width is fixed to the cap; every
/// other column is fixed to its natural content width.
pub open spec fn disabled_fix(info: ColumnDisplayInfo) -> ColumnDisplayInfo {
    if info.fixed || is_hidden_spec(info) {
        info
    } else {
        match info.constraint {
            Some(ColumnConstraint::MaxWidth(max_width)) => {
                if max_width < natural_width(info) {
                    fixed_to(info, shrunk_by_padding(info, max_width as int))
                } else {
                    fixed_to(info, clamp_positive(info.max_content_width as int))
                }
            },
            _ => fixed_to(info, clamp_positive(info.max_content_width as int)),
        }
    }
}

/// When dynamic arrangement is turned off, or no table width is known,
/// simply fix every unresolved visible column to its natural content width,
/// capped only by its own residual `MaxWidth` constraint.
pub fn disabled_arrangement(infos: &mut Vec<ColumnDisplayInfo>)
    requires
        forall|i: int| 0 <= i < old(infos)@.len() ==> wf(#[trigger] old(infos)@[i]),
    ensures
        final(infos)@.len() == old(infos)@.len(),
        forall|i: int| 0 <= i < old(infos)@.len() ==> final(infos)@[i] == disabled_fix(
            #[trigger] old(infos)@[i],
        ),
{
    let ghost orig = infos@;
    let n = infos.len();
    let mut i: usize = 0;
    while i < n
        invariant
            n == infos@.len(),
            orig.len() == n,
            i <= n,
            forall|j: int| 0 <= j < i ==> infos@[j] == disabled_fix(#[trigger] orig[j]),
            forall|j: int| i <= j < n ==> infos@[j] == orig[j],
            forall|j: int| 0 <= j < n ==> wf(#[trigger] orig[j]),
        decreases n - i,
    {
        let info = infos[i];
        if !info.fixed && !info.is_hidden() {
            let mut updated = info;
            assert(info == orig[i as int]);
            let natural = updated.max_width();
            let mut capped = false;
            match info.constraint {
                Some(ColumnConstraint::MaxWidth(max_width)) => {
                    if max_width < natural {
                        let width = updated.without_padding(max_width);
                        updated.set_content_width(width);
                        updated.fixed = true;
                        capped = true;
                    }
                },
                _ => {},
            }
            if !capped {
                let width = updated.max_content_width;
                updated.set_content_width(width);
                updated.fixed = true;
            }
            infos[i] = updated;
        }
        i = i + 1;
    }
}

/// Fixing widths without a budget settles every column for good: a second
/// disabled arrangement over the same columns changes nothing, since each
/// column comes out of the first one fixed or hidden.
pub proof fn lemma_disabled_fix_idempotent(info: ColumnDisplayInfo)
    ensures
        disabled_fix(disabled_fix(info)) == disabled_fix(info),
{
}

/// Running disabled arrangement twice yields the same widths as running it
/// once: `once` is the element-wise disabled fix of `before`, and `twice`
/// of `once`, as disabled arrangement ensures; then `twice` equals `once`.
pub proof fn lemma_disabled_arrangement_idempotent(
    before: Seq<ColumnDisplayInfo>,
    once: Seq<ColumnDisplayInfo>,
    twice: Seq<ColumnDisplayInfo>,
)
    requires
        once.len() == before.len(),
        forall|i: int| 0 <= i < before.len() ==> once[i] == disabled_fix(#[trigger] before[i]),
        twice.len() == once.len(),
        forall|i: int| 0 <= i < once.len() ==> twice[i] == disabled_fix(#[trigger] once[i]),
    ensures
        twice == once,
{
    assert forall|i: int| 0 <= i < once.len() implies twice[i] == once[i] by {
        lemma_disabled_fix_idempotent(before[i]);
    }
    assert(twice =~= once);
}

/// How many of the first `n` columns are visible (not hidden).
pub open spec fn visible_count(infos: Seq<ColumnDisplayInfo>, n: int) -> int
    decreases n,
{
    if n <= 0 {
        0
    } else {
        visible_count(infos, n - 1) + if is_hidden_spec(infos[n - 1]) {
            0int
        } else {
            1int
        }
    }
}

/// Count the columns that take part in layout at all.
pub fn count_visible_columns(infos: &Vec<ColumnDisplayInfo>) -> (count: usize)
    ensures
        count == visible_count(infos@, infos@.len() as int),
        count <= infos@.len(),
{
    let mut count: usize = 0;
    let mut i: usize = 0;
    let n = infos.len();
    while i < n
        invariant
            n == infos@.len(),
            i <= n,
            count == visible_count(infos@, i as int),
            count <= i,
        decreases n - i,
    {
        if !infos[i].is_hidden() {
            count = count + 1;
        }
        i = i + 1;
    }
    count
}

/// How many of the first `n` columns are still open: visible and not yet
/// fixed.
pub open spec fn open_count(infos: Seq<ColumnDisplayInfo>, n: int) -> int
    decreases n,
{
    if n <= 0 {
        0
    } else {
        open_count(infos, n - 1) + open_indicator(infos[n - 1])
    }
}

/// One when the column is visible and not yet fixed, zero otherwise.
pub open spec fn open_indicator(info: ColumnDisplayInfo) -> int {
    if !info.fixed && !is_hidden_spec(info) {
        1
    } else {
        0
    }
}

/// Count the visible columns whose width is not yet fixed.
pub fn count_remaining_columns(infos: &Vec<ColumnDisplayInfo>) -> (count: usize)
    ensures
        count == open_count(infos@, infos@.len() as int),
        count <= infos@.len(),
{
    let mut count: usize = 0;
    let mut i: usize = 0;
    let n = infos.len();
    while i < n
        invariant
            n == infos@.len(),
            i <= n,
            count == open_count(infos@, i as int),
            count <= i,
        decreases n - i,
    {
        if !infos[i].fixed && !infos[i].is_hidden() {
            count = count + 1;
        }
        i = i + 1;
    }
    count
}

proof fn lemma_open_count_bounds(infos: Seq<ColumnDisplayInfo>, n: int)
    requires
        n >= 0,
    ensures
        0 <= open_count(infos, n) <= n,
    decreases n,
{
    if n > 0 {
        lemma_open_count_bounds(infos, n - 1);
    }
}

proof fn lemma_open_count_update(infos: Seq<ColumnDisplayInfo>, k: int, v: ColumnDisplayInfo, n: int)
    requires
        0 <= k < infos.len(),
        n <= infos.len(),
    ensures
        open_count(infos.update(k, v), n) == open_count(infos, n) + if k < n {
            open_indicator(v) - open_indicator(infos[k])
        } else {
            0int
        },
    decreases n,
{
    if n > 0 {
        lemma_open_count_update(infos, k, v, n - 1);
        if k == n - 1 {
            assert(infos.update(k, v)[n - 1] == v);
        } else {
            assert(infos.update(k, v)[n - 1] == infos[n - 1]);
        }
    }
}

/// The width a newly fixed column takes out of the remaining budget.
pub open spec fn newly_fixed_term(before: ColumnDisplayInfo, after: ColumnDisplayInfo) -> int {
    if after.fixed && !before.fixed {
        total_width(after)
    } else {
        0
    }
}

/// The total width that the first `n` columns of `after` reserve beyond
/// what they already reserved in `before`: the sum of the widths of the
/// columns that `after` fixed and `before` had not.
pub open spec fn newly_fixed_width_sum(
    before: Seq<ColumnDisplayInfo>,
    after: Seq<ColumnDisplayInfo>,
    n: int,
) -> int
    decreases n,
{
    if n <= 0 {
        0
    } else {
        newly_fixed_width_sum(before, after, n - 1) + newly_fixed_term(before[n - 1], after[n - 1])
    }
}

proof fn lemma_newly_fixed_sum_self(infos: Seq<ColumnDisplayInfo>, n: int)
    ensures
        newly_fixed_width_sum(infos, infos, n) == 0,
    decreases n,
{
    if n > 0 {
        lemma_newly_fixed_sum_self(infos, n - 1);
    }
}

proof fn lemma_newly_fixed_sum_update(
    before: Seq<ColumnDisplayInfo>,
    cur: Seq<ColumnDisplayInfo>,
    k: int,
    v: ColumnDisplayInfo,
    n: int,
)
    requires
        0 <= k < cur.len(),
        n <= cur.len(),
    ensures
        newly_fixed_width_sum(before, cur.update(k, v), n) == newly_fixed_width_sum(
            before,
            cur,
            n,
        ) + if k < n {
            newly_fixed_term(before[k], v) - newly_fixed_term(before[k], cur[k])
        } else {
            0int
        },
    decreases n,
{
    if n > 0 {
        lemma_newly_fixed_sum_update(before, cur, k, v, n - 1);
        if k == n - 1 {
            assert(cur.update(k, v)[n - 1] == v);
        } else {
            assert(cur.update(k, v)[n - 1] == cur[n - 1]);
        }
    }
}

proof fn lemma_newly_fixed_sum_bounds(
    before: Seq<ColumnDisplayInfo>,
    after: Seq<ColumnDisplayInfo>,
    n: int,
)
    requires
        n >= 0,
        forall|j: int| 0 <= j < n ==> inv(#[trigger] after[j]),
    ensures
        0 <= newly_fixed_width_sum(before, after, n) <= n * 0x10000,
    decreases n,
{
    if n > 0 {
        lemma_newly_fixed_sum_bounds(before, after, n - 1);
    }
}

/// The residual `MaxWidth` cap of a column, if it carries one.
pub open spec fn max_width_cap(info: ColumnDisplayInfo) -> Option<u16> {
    match info.constraint {
        Some(ColumnConstraint::MaxWidth(max_width)) => Some(max_width),
        _ => None,
    }
}

/// Whether the column's `MaxWidth` cap binds within the given average: the
/// cap is within the average remaining space and the natural width reaches
/// the cap.
pub open spec fn cap_condition(info: ColumnDisplayInfo, average_space: int) -> bool {
    match max_width_cap(info) {
        Some(max_width) => max_width <= average_space && natural_width(info) >= max_width,
        None => false,
    }
}

/// Whether the narrowing pass fixes a column when the average remaining
/// space per open column is `average_space`: either its `MaxWidth` cap
/// binds within the average, or its natural width is strictly below the
/// average.
pub open spec fn fix_condition(info: ColumnDisplayInfo, average_space: int) -> bool {
    cap_condition(info, average_space) || natural_width(info) < average_space
}

/// Whether column `i` is open and would be fixed by a pass at the given
/// average.
pub open spec fn fix_condition_at(
    infos: Seq<ColumnDisplayInfo>,
    i: int,
    average_space: int,
) -> bool {
    &&& !infos[i].fixed
    &&& !is_hidden_spec(infos[i])
    &&& fix_condition(infos[i], average_space)
}

/// A narrowing pass at the given average fixes no column at all.
pub open spec fn pass_fixes_nothing(infos: Seq<ColumnDisplayInfo>, average_space: int) -> bool {
    forall|i: int| 0 <= i < infos.len() ==> !fix_condition_at(infos, i, average_space)
}

/// The narrowing loop leaves the given columns untouched: either there is
/// no space to hand out, or no open column needs less than the average
/// share of the remaining width.
pub open spec fn narrowing_noop(infos: Seq<ColumnDisplayInfo>, remaining_width: int) -> bool {
    let open = open_count(infos, infos.len() as int);
    open > 0 && (remaining_width / open <= 0 || pass_fixes_nothing(
        infos,
        remaining_width / open,
    ))
}

/// The narrowing loop has run to completion: no open column is left, or no
/// open column would be fixed by one more pass at the average share of the
/// remaining width.
pub open spec fn narrowing_fixed_point(infos: Seq<ColumnDisplayInfo>, remaining: int) -> bool {
    let open = open_count(infos, infos.len() as int);
    open == 0 || remaining / open <= 0 || pass_fixes_nothing(infos, remaining / open)
}

/// The per-column envelope of the narrowing loop: a column it touches is
/// fixed either to its own `MaxWidth` cap or to its natural content width,
/// and nothing else changes. The exact choice, pass by pass, is `narrowed`.
pub open spec fn narrowing_step(before: ColumnDisplayInfo, after: ColumnDisplayInfo) -> bool {
    &&& !before.fixed
    &&& !is_hidden_spec(before)
    &&& (after == fixed_to(before, clamp_positive(before.max_content_width as int)) || (
    match max_width_cap(before) {
        Some(max_width) => after == fixed_to(before, shrunk_by_padding(before, max_width as int)),
        None => false,
    }))
}

/// What one narrowing pass at the given average does to one column: an
/// open column whose `MaxWidth` cap binds within the average is fixed to
/// the cap; otherwise an open column whose natural width is strictly below
/// the average is fixed to its natural content width; every other column is
/// left alone.
pub open spec fn pass_fix(info: ColumnDisplayInfo, average_space: int) -> ColumnDisplayInfo {
    if !info.fixed && !is_hidden_spec(info) {
        match max_width_cap(info) {
            Some(max_width) => {
                if max_width <= average_space && natural_width(info) >= max_width {
                    fixed_to(info, shrunk_by_padding(info, max_width as int))
                } else if natural_width(info) < average_space {
                    fixed_to(info, clamp_positive(info.max_content_width as int))
                } else {
                    info
                }
            },
            None => {
                if natural_width(info) < average_space {
                    fixed_to(info, clamp_positive(info.max_content_width as int))
                } else {
                    info
                }
            },
        }
    } else {
        info
    }
}

/// One full narrowing pass over all columns, at one fixed average.
pub open spec fn pass_result(
    infos: Seq<ColumnDisplayInfo>,
    average_space: int,
) -> Seq<ColumnDisplayInfo> {
    Seq::new(infos.len(), |j: int| pass_fix(infos[j], average_space))
}

/// The narrowing loop, run to its fixed point: as long as open columns and
/// a positive average share remain, run one pass at the current average,
/// take the widths the pass fixed out of the budget, and start over; stop
/// when a pass changes nothing. Returns the columns and the remaining
/// budget. Every productive pass fixes at least one column, so any fuel
/// beyond the column count leaves the result unchanged.
pub open spec fn narrowed(
    infos: Seq<ColumnDisplayInfo>,
    remaining_width: int,
    fuel: nat,
) -> (Seq<ColumnDisplayInfo>, int)
    decreases fuel,
{
    if fuel == 0 {
        (infos, remaining_width)
    } else {
        let open = open_count(infos, infos.len() as int);
        if open <= 0 || remaining_width / open <= 0 {
            (infos, remaining_width)
        } else {
            let next = pass_result(infos, remaining_width / open);
            if next == infos {
                (infos, remaining_width)
            } else {
                narrowed(
                    next,
                    remaining_width - newly_fixed_width_sum(infos, next, infos.len() as int),
                    (fuel - 1) as nat,
                )
            }
        }
    }
}

proof fn lemma_narrowed_at_fixed_point(
    infos: Seq<ColumnDisplayInfo>,
    remaining_width: int,
    fuel: nat,
)
    requires
        narrowing_fixed_point(infos, remaining_width),
    ensures
        narrowed(infos, remaining_width, fuel) == (infos, remaining_width),
{
    if fuel > 0 {
        let open = open_count(infos, infos.len() as int);
        if open > 0 && remaining_width / open > 0 {
            let average_space = remaining_width / open;
            assert forall|j: int| 0 <= j < infos.len() implies pass_result(infos, average_space)[j]
                == infos[j] by {
                assert(!fix_condition_at(infos, j, average_space));
            }
            assert(pass_result(infos, average_space) =~= infos);
        }
    }
}

proof fn lemma_newly_fixed_sum_additive(
    first: Seq<ColumnDisplayInfo>,
    second: Seq<ColumnDisplayInfo>,
    third: Seq<ColumnDisplayInfo>,
    n: int,
)
    requires
        0 <= n,
        forall|j: int|
            0 <= j < n ==> newly_fixed_term(first[j], #[trigger] third[j]) == newly_fixed_term(
                first[j],
                second[j],
            ) + newly_fixed_term(second[j], third[j]),
    ensures
        newly_fixed_width_sum(first, third, n) == newly_fixed_width_sum(first, second, n)
            + newly_fixed_width_sum(second, third, n),
    decreases n,
{
    if n > 0 {
        lemma_newly_fixed_sum_additive(first, second, third, n - 1);
    }
}

/// A residual `MaxWidth` cap that leaves room for the minimum content
/// width of one is honored: a column that entered arrangement unresolved
/// never comes out wider than its cap.
pub open spec fn cap_respected(before: ColumnDisplayInfo, after: ColumnDisplayInfo) -> bool {
    match max_width_cap(before) {
        Some(max_width) => (!before.fixed && max_width > padding_total(before))
            ==> total_width(after) <= max_width,
        None => true,
    }
}

proof fn lemma_narrowed_respects_caps(
    infos: Seq<ColumnDisplayInfo>,
    remaining_width: int,
    fuel: nat,
)
    ensures
        narrowed(infos, remaining_width, fuel).0.len() == infos.len(),
        forall|j: int|
            0 <= j < infos.len() ==> ((#[trigger] infos[j]).fixed ==> narrowed(
                infos,
                remaining_width,
                fuel,
            ).0[j] == infos[j]),
        forall|j: int|
            0 <= j < infos.len() ==> ((#[trigger] narrowed(infos, remaining_width, fuel).0[j])
                == infos[j] || (narrowed(infos, remaining_width, fuel).0[j].fixed
                && cap_respected(infos[j], narrowed(infos, remaining_width, fuel).0[j]))),
    decreases fuel,
{
    let step = narrowed(infos, remaining_width, fuel);
    if fuel > 0 {
        let open = open_count(infos, infos.len() as int);
        if open > 0 && remaining_width / open > 0 {
            let average_space = remaining_width / open;
            let next = pass_result(infos, average_space);
            if next != infos {
                let rest = remaining_width - newly_fixed_width_sum(
                    infos,
                    next,
                    infos.len() as int,
                );
                lemma_narrowed_respects_caps(next, rest, (fuel - 1) as nat);
                assert forall|j: int|
                    0 <= j < infos.len() implies ((#[trigger] step.0[j]) == infos[j] || (
                step.0[j].fixed && cap_respected(infos[j], step.0[j]))) by {
                    if next[j] != infos[j] {
                        assert(next[j] == pass_fix(infos[j], average_space));
                        assert(next[j].fixed);
                        assert(step.0[j] == next[j]);
                        assert(cap_respected(infos[j], next[j]));
                    }
                }
            }
        }
    }
}

/// The greedy water-filling pass of dynamic arrangement: repeatedly fix
/// every open column that needs no more than the average remaining space
/// per open column (because its `MaxWidth` cap binds within the average, or
/// its natural width is below the average), subtract its width from the
/// remaining budget, and start over, until a full pass changes nothing.
/// Computes exactly `narrowed`: the returned budget is the input minus the
/// total width of every column this loop fixed.
pub fn find_columns_less_than_average(
    remaining_width: i64,
    infos: &mut Vec<ColumnDisplayInfo>,
) -> (remaining: i64)
    requires
        forall|j: int| 0 <= j < old(infos)@.len() ==> inv(#[trigger] old(infos)@[j]),
        old(infos)@.len() <= 0xFFFF,
        -0x2_0000_0000 <= remaining_width <= 0x2_0000_0000,
    ensures
        final(infos)@.len() == old(infos)@.len(),
        forall|j: int|
            0 <= j < old(infos)@.len() ==> ((#[trigger] final(infos)@[j]) == old(infos)@[j]
                || narrowing_step(old(infos)@[j], final(infos)@[j])),
        forall|j: int|
            0 <= j < old(infos)@.len() ==> ((old(infos)@[j].fixed || is_hidden_spec(
                old(infos)@[j],
            )) ==> (#[trigger] final(infos)@[j]) == old(infos)@[j]),
        forall|j: int| 0 <= j < old(infos)@.len() ==> inv(#[trigger] final(infos)@[j]),
        remaining == remaining_width - newly_fixed_width_sum(
            old(infos)@,
            final(infos)@,
            old(infos)@.len() as int,
        ),
        remaining <= remaining_width,
        narrowing_noop(old(infos)@, remaining_width as int) ==> (final(infos)@ == old(infos)@
            && remaining == remaining_width),
        open_count(old(infos)@, old(infos)@.len() as int) == 0 ==> (final(infos)@ == old(infos)@
            && remaining == remaining_width),
        narrowing_fixed_point(final(infos)@, remaining as int),
        (final(infos)@, remaining as int) == narrowed(
            old(infos)@,
            remaining_width as int,
            (old(infos)@.len() + 1) as nat,
        ),
{
    let ghost orig = infos@;
    let n = infos.len();
    let mut remaining = remaining_width;
    let mut found_smaller = true;
    let ghost mut fuel_left: int = n as int + 1;
    proof {
        lemma_newly_fixed_sum_self(orig, n as int);
        lemma_open_count_bounds(orig, n as int);
    }
    while found_smaller
        invariant
            infos@.len() == n,
            orig.len() == n,
            n <= 0xFFFF,
            -0x2_0000_0000 <= remaining_width <= 0x2_0000_0000,
            forall|j: int| 0 <= j < n ==> inv(#[trigger] infos@[j]),
            forall|j: int|
                0 <= j < n ==> ((#[trigger] infos@[j]) == orig[j] || narrowing_step(
                    orig[j],
                    infos@[j],
                )),
            remaining == remaining_width - newly_fixed_width_sum(orig, infos@, n as int),
            remaining <= remaining_width,
            0 <= open_count(infos@, n as int),
            narrowing_noop(orig, remaining_width as int) ==> (infos@ == orig && remaining
                == remaining_width),
            open_count(orig, n as int) == 0 ==> (infos@ == orig && remaining == remaining_width),
            !found_smaller ==> narrowing_fixed_point(infos@, remaining as int),
            1 <= fuel_left <= n + 1,
            fuel_left >= open_count(infos@, n as int) + 1,
            narrowed(orig, remaining_width as int, (n + 1) as nat) == narrowed(
                infos@,
                remaining as int,
                fuel_left as nat,
            ),
        decreases 2 * open_count(infos@, n as int) + (if found_smaller {
            1int
        } else {
            0int
        }),
    {
        found_smaller = false;
        let ghost pass_start = infos@;
        let ghost pass_open = open_count(pass_start, n as int);
        let ghost pass_remaining = remaining as int;
        let rem_cols = count_remaining_columns(infos);

        // No open column is left, or no space at all: nothing to narrow.
        if rem_cols > 0 && remaining > 0 {
            let average_space = (remaining as u64) / (rem_cols as u64);
            if average_space > 0 {
                let mut id: usize = 0;
                while id < n
                    invariant
                        infos@.len() == n,
                        orig.len() == n,
                        n <= 0xFFFF,
                        -0x2_0000_0000 <= remaining_width <= 0x2_0000_0000,
                        id <= n,
                        1 <= average_space,
                        forall|j: int| 0 <= j < n ==> inv(#[trigger] infos@[j]),
                        forall|j: int|
                            0 <= j < n ==> ((#[trigger] infos@[j]) == orig[j] || narrowing_step(
                                orig[j],
                                infos@[j],
                            )),
                        remaining == remaining_width - newly_fixed_width_sum(
                            orig,
                            infos@,
                            n as int,
                        ),
                        remaining <= remaining_width,
                        0 <= open_count(infos@, n as int) <= pass_open,
                        found_smaller ==> open_count(infos@, n as int) < pass_open,
                        narrowing_noop(orig, remaining_width as int) ==> (infos@ == orig
                            && remaining == remaining_width && !found_smaller && average_space
                            == remaining_width as int / open_count(orig, n as int)),
                        rem_cols as int == open_count(pass_start, n as int),
                        rem_cols > 0,
                        average_space as int == pass_remaining / (rem_cols as int),
                        pass_start.len() == n,
                        pass_remaining == remaining_width - newly_fixed_width_sum(
                            orig,
                            pass_start,
                            n as int,
                        ),
                        forall|j: int|
                            0 <= j < n ==> ((#[trigger] pass_start[j]) == orig[j]
                                || narrowing_step(orig[j], pass_start[j])),
                        forall|j: int|
                            0 <= j < id ==> (#[trigger] infos@[j]) == pass_fix(
                                pass_start[j],
                                average_space as int,
                            ),
                        forall|j: int| id <= j < n ==> (#[trigger] infos@[j]) == pass_start[j],
                        !found_smaller ==> (infos@ == pass_start && remaining == pass_remaining
                            && (forall|j: int|
                            0 <= j < id ==> !fix_condition_at(
                                pass_start,
                                j,
                                average_space as int,
                            ))),
                    decreases n - id,
                {
                    let info = infos[id];
                    if !info.fixed && !info.is_hidden() {
                        proof {
                            assert(!orig[id as int].fixed);
                            if narrowing_noop(orig, remaining_width as int) {
                                assert(!fix_condition_at(
                                    orig,
                                    id as int,
                                    remaining_width as int / open_count(orig, n as int),
                                ));
                            }
                        }
                        let natural = info.max_width();
                        let mut fixed_now = false;
                        match info.constraint {
                            Some(ColumnConstraint::MaxWidth(max_width)) => {
                                // The column's cap is within the average
                                // remaining space and its content is wide
                                // enough for the cap to bind: fix it to the
                                // cap.
                                if max_width as u64 <= average_space && natural >= max_width {
                                    let width = info.without_padding(max_width);
                                    let mut updated = info;
                                    updated.set_content_width(width);
                                    updated.fixed = true;
                                    let ghost pre = infos@;
                                    proof {
                                        lemma_newly_fixed_sum_bounds(orig, pre, n as int);
                                    }
                                    let col_width = updated.width();
                                    remaining = remaining - col_width as i64;
                                    infos[id] = updated;
                                    found_smaller = true;
                                    fixed_now = true;
                                    proof {
                                        lemma_newly_fixed_sum_update(
                                            orig,
                                            pre,
                                            id as int,
                                            updated,
                                            n as int,
                                        );
                                        lemma_open_count_update(pre, id as int, updated, n as int);
                                        lemma_open_count_bounds(infos@, n as int);
                                    }
                                }
                            },
                            _ => {},
                        }
                        // The column needs less than the average space:
                        // fix it to its natural content width.
                        if !fixed_now && (natural as u64) < average_space {
                            let mut updated = info;
                            let width = updated.max_content_width;
                            updated.set_content_width(width);
                            updated.fixed = true;
                            let ghost pre = infos@;
                            proof {
                                lemma_newly_fixed_sum_bounds(orig, pre, n as int);
                            }
                            let col_width = updated.width();
                            remaining = remaining - col_width as i64;
                            infos[id] = updated;
                            found_smaller = true;
                            proof {
                                lemma_newly_fixed_sum_update(orig, pre, id as int, updated, n as int);
                                lemma_open_count_update(pre, id as int, updated, n as int);
                                lemma_open_count_bounds(infos@, n as int);
                            }
                        }
                    }
                    id = id + 1;
                }
                proof {
                    let avg = average_space as int;
                    assert forall|j: int| 0 <= j < n implies infos@[j] == pass_result(
                        pass_start,
                        avg,
                    )[j] by {}
                    assert(infos@ =~= pass_result(pass_start, avg));
                    if found_smaller {
                        assert forall|j: int|
                            0 <= j < n implies newly_fixed_term(orig[j], #[trigger] infos@[j])
                            == newly_fixed_term(orig[j], pass_start[j]) + newly_fixed_term(
                            pass_start[j],
                            infos@[j],
                        ) by {
                            if infos@[j] != pass_start[j] {
                                assert(!pass_start[j].fixed);
                                assert(pass_start[j] == orig[j]);
                            }
                        }
                        lemma_newly_fixed_sum_additive(orig, pass_start, infos@, n as int);
                        assert(open_count(infos@, n as int) < pass_open);
                        assert(infos@ != pass_start);
                        assert(narrowed(pass_start, pass_remaining, fuel_left as nat) == narrowed(
                            infos@,
                            remaining as int,
                            (fuel_left - 1) as nat,
                        ));
                        fuel_left = fuel_left - 1;
                    } else {
                        assert(pass_fixes_nothing(infos@, average_space as int));
                        assert(narrowing_fixed_point(infos@, remaining as int));
                    }
                }
            } else {
                // Less than one unit of space per open column: the loop has
                // no space left to hand out.
                proof {
                    assert(narrowing_fixed_point(infos@, remaining as int));
                }
            }
        } else {
            proof {
                if rem_cols == 0 {
                    assert(narrowing_fixed_point(infos@, remaining as int));
                } else {
                    let open = open_count(infos@, n as int);
                    assert(remaining as int / open <= 0) by (nonlinear_arith)
                        requires
                            remaining <= 0,
                            open > 0,
                    ;
                    assert(narrowing_fixed_point(infos@, remaining as int));
                }
            }
        }
    }
    proof {
        lemma_narrowed_at_fixed_point(infos@, remaining as int, fuel_left as nat);
    }
    remaining
}

/// The total width handed to the open column of the given rank (its
/// position, left to right, among the open columns) when `budget` is split
/// over `columns` open columns: everyone gets the floor average, and the
/// leftover units of the integer division go to the leftmost ranks, one
/// each.
pub open spec fn share(budget: int, columns: int, rank: int) -> int {
    if rank < budget % columns {
        budget / columns + 1
    } else {
        budget / columns
    }
}

/// The widths handed out by fair distribution, summed over the open columns
/// of rank `0` up to `n`.
pub open spec fn share_sum(budget: int, columns: int, n: int) -> int
    decreases n,
{
    if n <= 0 {
        0
    } else {
        share_sum(budget, columns, n - 1) + share(budget, columns, n - 1)
    }
}

proof fn lemma_share_sum_prefix(budget: int, columns: int, n: int)
    requires
        0 < columns,
        0 <= budget,
        0 <= n <= columns,
    ensures
        share_sum(budget, columns, n) == n * (budget / columns) + (if n <= budget % columns {
            n
        } else {
            budget % columns
        }),
    decreases n,
{
    let quotient = budget / columns;
    let leftover = budget % columns;
    assert(0 <= leftover) by (nonlinear_arith)
        requires
            leftover == budget % columns,
            0 < columns,
            0 <= budget,
    ;
    if n > 0 {
        lemma_share_sum_prefix(budget, columns, n - 1);
        assert(n * quotient == (n - 1) * quotient + quotient) by (nonlinear_arith);
        assert(share_sum(budget, columns, n) == share_sum(budget, columns, n - 1) + share(
            budget,
            columns,
            n - 1,
        ));
        assert(share_sum(budget, columns, n - 1) == (n - 1) * quotient + (if n - 1 <= leftover {
            n - 1
        } else {
            leftover
        }));
        if n - 1 < leftover {
            assert(share(budget, columns, n - 1) == quotient + 1);
            assert(share_sum(budget, columns, n) == n * quotient + n);
        } else {
            assert(share(budget, columns, n - 1) == quotient);
            assert(share_sum(budget, columns, n) == n * quotient + leftover);
        }
    } else {
        assert(n * quotient == 0) by (nonlinear_arith)
            requires
                n == 0,
        ;
    }
}

/// Fair leftover distribution is exact: splitting a budget over `columns`
/// open columns hands out the whole budget; every column receives the floor
/// average or one unit more, and the columns that receive the extra unit
/// are exactly the leftmost `budget % columns` of them.
pub proof fn lemma_distribution_exact(budget: int, columns: int)
    requires
        0 < columns,
        0 <= budget,
    ensures
        share_sum(budget, columns, columns) == budget,
        forall|rank: int|
            0 <= rank < columns ==> #[trigger] share(budget, columns, rank) == budget / columns + (
            if rank < budget % columns {
                1int
            } else {
                0int
            }),
{
    lemma_share_sum_prefix(budget, columns, columns);
    assert(columns * (budget / columns) + budget % columns == budget && 0 <= budget % columns
        < columns) by (nonlinear_arith)
        requires
            0 < columns,
            0 <= budget,
    ;
}

/// Step five of dynamic arrangement: split the remaining width equally over
/// the still-open columns. Every open column is fixed to the floor average
/// of `remaining_width` over `remaining_columns` (less its padding, at
/// least one); the leftover units of the integer division go to the
/// leftmost open columns, one extra unit each. Fixed and hidden columns are
/// left untouched.
pub fn distribute_remaining_width(
    infos: &mut Vec<ColumnDisplayInfo>,
    remaining_width: u16,
    remaining_columns: u16,
)
    requires
        forall|j: int| 0 <= j < old(infos)@.len() ==> inv(#[trigger] old(infos)@[j]),
        remaining_columns as int == open_count(old(infos)@, old(infos)@.len() as int),
        remaining_columns > 0,
    ensures
        final(infos)@.len() == old(infos)@.len(),
        forall|j: int|
            0 <= j < old(infos)@.len() ==> ((old(infos)@[j].fixed || is_hidden_spec(
                old(infos)@[j],
            )) ==> (#[trigger] final(infos)@[j]) == old(infos)@[j]),
        forall|j: int|
            0 <= j < old(infos)@.len() ==> ((!old(infos)@[j].fixed && !is_hidden_spec(
                old(infos)@[j],
            )) ==> (#[trigger] final(infos)@[j]) == fixed_to(
                old(infos)@[j],
                shrunk_by_padding(
                    old(infos)@[j],
                    share(
                        remaining_width as int,
                        remaining_columns as int,
                        open_count(old(infos)@, j),
                    ),
                ),
            )),
        forall|j: int|
            0 <= j < old(infos)@.len() ==> ((!old(infos)@[j].fixed && !is_hidden_spec(
                old(infos)@[j],
            )) ==> (#[trigger] final(infos)@[j]).content_width >= 1),
        forall|j: int| 0 <= j < old(infos)@.len() ==> inv(#[trigger] final(infos)@[j]),
{
    let ghost orig = infos@;
    let n = infos.len();
    let average_space = remaining_width / remaining_columns;
    proof {
        let budget = remaining_width as int;
        let cols = remaining_columns as int;
        assert(budget % cols == budget - average_space * cols && 0 <= budget % cols < cols
            && average_space * cols <= budget) by (nonlinear_arith)
            requires
                average_space as int == budget / cols,
                cols > 0,
        ;
    }
    // The integer division loses a little space; distribute it as fairly as
    // possible, from left to right.
    let mut excess = remaining_width - average_space * remaining_columns;
    let mut id: usize = 0;
    while id < n
        invariant
            n == infos@.len(),
            orig.len() == n,
            id <= n,
            remaining_columns as int == open_count(orig, n as int),
            remaining_columns > 0,
            average_space as int == remaining_width as int / remaining_columns as int,
            forall|j: int| 0 <= j < n ==> inv(#[trigger] orig[j]),
            forall|j: int| id <= j < n ==> (#[trigger] infos@[j]) == orig[j],
            forall|j: int|
                0 <= j < id ==> ((orig[j].fixed || is_hidden_spec(orig[j])) ==> (
                #[trigger] infos@[j]) == orig[j]),
            forall|j: int|
                0 <= j < id ==> ((!orig[j].fixed && !is_hidden_spec(orig[j])) ==> (
                #[trigger] infos@[j]) == fixed_to(
                    orig[j],
                    shrunk_by_padding(
                        orig[j],
                        share(remaining_width as int, remaining_columns as int, open_count(orig, j)),
                    ),
                )),
            forall|j: int| 0 <= j < n ==> inv(#[trigger] infos@[j]),
            forall|j: int|
                0 <= j < id ==> ((!orig[j].fixed && !is_hidden_spec(orig[j])) ==> (
                #[trigger] infos@[j]).content_width >= 1),
            excess as int == if open_count(orig, id as int) < (remaining_width as int) % (
            remaining_columns as int) {
                (remaining_width as int) % (remaining_columns as int) - open_count(
                    orig,
                    id as int,
                )
            } else {
                0int
            },
        decreases n - id,
    {
        let info = infos[id];
        // Hidden columns take no space; already checked columns keep the
        // width they were fixed to.
        if !info.is_hidden() && !info.fixed {
            proof {
                lemma_open_count_bounds(orig, id as int);
                assert(open_count(orig, id as int + 1) == open_count(orig, id as int) + 1);
                lemma_open_count_mono(orig, id as int + 1, n as int);
            }
            // Distribute the excess until nothing is left.
            let width = if excess > 0 {
                proof {
                    let budget = remaining_width as int;
                    let cols = remaining_columns as int;
                    assert(average_space as int + 1 <= u16::MAX) by (nonlinear_arith)
                        requires
                            average_space as int == budget / cols,
                            budget % cols > 0,
                            cols > 0,
                            budget <= u16::MAX,
                    ;
                }
                excess = excess - 1;
                average_space + 1
            } else {
                average_space
            };

            let content = info.without_padding(width);
            let mut updated = info;
            updated.set_content_width(content);
            updated.fixed = true;
            infos[id] = updated;
        }
        id = id + 1;
    }
}

proof fn lemma_open_count_mono(infos: Seq<ColumnDisplayInfo>, m: int, n: int)
    requires
        0 <= m <= n,
    ensures
        open_count(infos, m) <= open_count(infos, n),
    decreases n,
{
    if n > m {
        lemma_open_count_mono(infos, m, n - 1);
    }
}

proof fn lemma_open_count_zero(infos: Seq<ColumnDisplayInfo>, n: int)
    requires
        0 <= n,
        open_count(infos, n) == 0,
    ensures
        forall|j: int| 0 <= j < n ==> ((#[trigger] infos[j]).fixed || is_hidden_spec(infos[j])),
{
    assert forall|j: int| 0 <= j < n implies ((#[trigger] infos[j]).fixed || is_hidden_spec(
        infos[j],
    )) by {
        lemma_open_count_bounds(infos, j);
        lemma_open_count_mono(infos, j + 1, n);
    }
}

proof fn lemma_open_count_full(infos: Seq<ColumnDisplayInfo>, n: int)
    requires
        0 <= n,
        forall|j: int| 0 <= j < n ==> (!(#[trigger] infos[j]).fixed && !is_hidden_spec(infos[j])),
    ensures
        open_count(infos, n) == n,
    decreases n,
{
    if n > 0 {
        lemma_open_count_full(infos, n - 1);
    }
}

proof fn lemma_open_le_visible(infos: Seq<ColumnDisplayInfo>, n: int)
    requires
        0 <= n,
    ensures
        open_count(infos, n) <= visible_count(infos, n),
    decreases n,
{
    if n > 0 {
        lemma_open_le_visible(infos, n - 1);
    }
}

proof fn lemma_visible_count_congruent(
    a: Seq<ColumnDisplayInfo>,
    b: Seq<ColumnDisplayInfo>,
    n: int,
)
    requires
        0 <= n,
        forall|j: int| 0 <= j < n ==> is_hidden_spec(#[trigger] a[j]) == is_hidden_spec(b[j]),
    ensures
        visible_count(a, n) == visible_count(b, n),
    decreases n,
{
    if n > 0 {
        lemma_visible_count_congruent(a, b, n - 1);
    }
}

/// The total width already reserved by the first `n` columns whose width a
/// constraint fixed before arrangement proper.
pub open spec fn fixed_width_sum(infos: Seq<ColumnDisplayInfo>, n: int) -> int
    decreases n,
{
    if n <= 0 {
        0
    } else {
        fixed_width_sum(infos, n - 1) + if infos[n - 1].fixed {
            total_width(infos[n - 1])
        } else {
            0int
        }
    }
}

proof fn lemma_fixed_width_sum_bounds(infos: Seq<ColumnDisplayInfo>, n: int)
    requires
        n >= 0,
        forall|j: int| 0 <= j < n ==> inv(#[trigger] infos[j]),
    ensures
        0 <= fixed_width_sum(infos, n) <= n * 0x10000,
    decreases n,
{
    if n > 0 {
        lemma_fixed_width_sum_bounds(infos, n - 1);
    }
}

proof fn lemma_fixed_width_sum_none(infos: Seq<ColumnDisplayInfo>, n: int)
    requires
        0 <= n,
        forall|j: int| 0 <= j < n ==> !(#[trigger] infos[j]).fixed,
    ensures
        fixed_width_sum(infos, n) == 0,
    decreases n,
{
    if n > 0 {
        lemma_fixed_width_sum_none(infos, n - 1);
    }
}

/// The width reserved for the table frame: one character for each drawn
/// side border, and one separator between each adjacent pair of visible
/// columns when vertical lines are drawn.
pub open spec fn border_overhead(table: Table, visible: int) -> int {
    (if table.draw_left_border {
        1int
    } else {
        0int
    }) + (if table.draw_right_border {
        1int
    } else {
        0int
    }) + (if table.draw_vertical_lines {
        visible - 1
    } else {
        0int
    })
}

/// The final display states of dynamic arrangement, given the columns and
/// the budget that the narrowing loop left behind: nothing more to do when
/// no column is open; otherwise the leftover budget (raised to one unit per
/// open column when it falls short) is split fairly over the open columns,
/// the extra units of the integer division going to the leftmost of them.
pub open spec fn arranged_after_narrowing(
    mid: Seq<ColumnDisplayInfo>,
    remaining: int,
) -> Seq<ColumnDisplayInfo> {
    let open = open_count(mid, mid.len() as int);
    if open == 0 {
        mid
    } else {
        let budget = if remaining < open {
            open
        } else {
            remaining
        };
        Seq::new(
            mid.len(),
            |j: int|
                if !mid[j].fixed && !is_hidden_spec(mid[j]) {
                    fixed_to(
                        mid[j],
                        shrunk_by_padding(mid[j], share(budget, open, open_count(mid, j))),
                    )
                } else {
                    mid[j]
                },
        )
    }
}

/// Everything dynamic arrangement does, as a function of its inputs: the
/// budget is the target width minus the frame of the visible columns and
/// minus the widths already fixed by constraint evaluation; the narrowing
/// loop runs to its fixed point on that budget; fair distribution settles
/// whatever stays open.
pub open spec fn dynamic_outcome(
    infos: Seq<ColumnDisplayInfo>,
    table: Table,
    table_width: u16,
) -> Seq<ColumnDisplayInfo> {
    let n = infos.len() as int;
    let budget = table_width - border_overhead(table, visible_count(infos, n)) - fixed_width_sum(
        infos,
        n,
    );
    let step = narrowed(infos, budget, (infos.len() + 1) as nat);
    arranged_after_narrowing(step.0, step.1)
}

/// Arrangement only resolves widths: everything but `content_width` and
/// `fixed` is carried over from the column's earlier state.
pub open spec fn same_column_shape(before: ColumnDisplayInfo, after: ColumnDisplayInfo) -> bool {
    after == (ColumnDisplayInfo {
        content_width: after.content_width,
        fixed: after.fixed,
        ..before
    })
}

/// The pass-through fields of a column: padding, delimiter, content size,
/// alignment and the splitting flag all come out of the arrangement pass as
/// they went in; only the resolved width, the fixed flag and the residual
/// constraint are arrangement's own.
pub open spec fn same_column_core(before: ColumnDisplayInfo, after: ColumnDisplayInfo) -> bool {
    &&& after.padding == before.padding
    &&& after.delimiter == before.delimiter
    &&& after.max_content_width == before.max_content_width
    &&& after.cell_alignment == before.cell_alignment
    &&& after.needs_splitting == before.needs_splitting
}

/// The premise of the exact-fit law: every column is visible, unresolved
/// and unconstrained with at least one character of content, all natural
/// widths are equal, and the target width is exactly the sum of the natural
/// widths plus the border overhead.
///
/// The law holds only for such uniform columns. With mixed natural widths
/// an exactly-matching budget does not return every column its own width:
/// the narrowing loop compares natural widths to the average by strict
/// less-than, so columns at or above the average stay open, and fair
/// distribution then hands the leftover units to the leftmost open columns
/// regardless of need (widths 5 and 6 under a budget of 11 come out as 6
/// and 5).
pub open spec fn exact_fit_premise(
    infos: Seq<ColumnDisplayInfo>,
    table: Table,
    table_width: u16,
) -> bool {
    let n = infos.len() as int;
    &&& n > 0
    &&& forall|j: int| 0 <= j < n ==> (#[trigger] infos[j]).constraint is None
    &&& forall|j: int| 0 <= j < n ==> !(#[trigger] infos[j]).fixed
    &&& forall|j: int| 0 <= j < n ==> (#[trigger] infos[j]).max_content_width >= 1
    &&& forall|j: int|
        0 <= j < n ==> natural_width(#[trigger] infos[j]) == natural_width(infos[0])
    &&& table_width == border_overhead(table, n) + n * natural_width(infos[0])
}

/// Find the best fit for the given columns within the target table width:
/// subtract the frame and the widths fixed by constraint evaluation from
/// the budget, let the narrowing loop fix every column that needs less than
/// its fair share, and split what is left equally over the rest. Computes
/// exactly `dynamic_outcome`. Residual `MaxWidth` caps that leave room for
/// one character of content are honored. When the target is exactly the
/// frame plus the natural widths of uniform, unconstrained columns, every
/// column receives exactly its natural content width (for uniform columns
/// only: see `exact_fit_premise`).
pub fn dynamic_arrangement(table: &Table, infos: &mut Vec<ColumnDisplayInfo>, table_width: u16)
    requires
        forall|j: int| 0 <= j < old(infos)@.len() ==> inv(#[trigger] old(infos)@[j]),
        forall|j: int|
            0 <= j < old(infos)@.len() ==> (is_hidden_spec(#[trigger] old(infos)@[j]) ==> !old(
                infos,
            )@[j].fixed),
        old(infos)@.len() <= 0xFFFF,
    ensures
        final(infos)@.len() == old(infos)@.len(),
        forall|j: int|
            0 <= j < old(infos)@.len() ==> same_column_shape(
                old(infos)@[j],
                #[trigger] final(infos)@[j],
            ),
        forall|j: int|
            0 <= j < old(infos)@.len() ==> ((old(infos)@[j].fixed || is_hidden_spec(
                old(infos)@[j],
            )) ==> (#[trigger] final(infos)@[j]) == old(infos)@[j]),
        forall|j: int|
            0 <= j < old(infos)@.len() ==> (!is_hidden_spec(old(infos)@[j]) ==> (
            #[trigger] final(infos)@[j]).fixed),
        forall|j: int|
            0 <= j < old(infos)@.len() ==> ((!old(infos)@[j].fixed && !is_hidden_spec(
                old(infos)@[j],
            )) ==> (#[trigger] final(infos)@[j]).content_width >= 1),
        forall|j: int| 0 <= j < old(infos)@.len() ==> inv(#[trigger] final(infos)@[j]),
        final(infos)@ == dynamic_outcome(old(infos)@, *table, table_width),
        forall|j: int|
            0 <= j < old(infos)@.len() ==> cap_respected(
                old(infos)@[j],
                #[trigger] final(infos)@[j],
            ),
        exact_fit_premise(old(infos)@, *table, table_width) ==> forall|j: int|
            0 <= j < old(infos)@.len() ==> (#[trigger] final(infos)@[j]).content_width == old(
                infos,
            )@[j].max_content_width,
{
    let ghost orig = infos@;
    let n = infos.len();
    let column_count = count_visible_columns(infos);
    // Work with a signed budget: a tiny target with many borders may push
    // it below zero.
    let mut remaining_width: i64 = table_width as i64;

    // Remove the space occupied by borders from the budget.
    if table.draw_left_border {
        remaining_width = remaining_width - 1;
    }
    if table.draw_right_border {
        remaining_width = remaining_width - 1;
    }
    if table.draw_vertical_lines {
        remaining_width = remaining_width - (column_count as i64 - 1);
    }
    let ghost start_budget = remaining_width as int;
    assert(start_budget == table_width - border_overhead(*table, visible_count(orig, n as int)));

    // Step one: take every width that a constraint already fixed out of the
    // budget.
    let mut i: usize = 0;
    while i < n
        invariant
            infos@ == orig,
            n == infos@.len(),
            orig.len() == n,
            n <= 0xFFFF,
            i <= n,
            -0x10002 <= start_budget <= 0x10000,
            forall|j: int| 0 <= j < n ==> inv(#[trigger] orig[j]),
            remaining_width == start_budget - fixed_width_sum(orig, i as int),
            remaining_width >= start_budget - (i as int) * 0x10000,
            remaining_width <= start_budget,
        decreases n - i,
    {
        let info = infos[i];
        // This column's width was fixed by its constraint: its share of the
        // budget is spoken for.
        if info.fixed {
            let width = info.width();
            remaining_width = remaining_width - width as i64;
        }
        i = i + 1;
    }

    // Steps two to four: fix all columns that need less than the average
    // remaining space.
    let remaining_width = find_columns_less_than_average(remaining_width, infos);
    let ghost mid = infos@;
    proof {
        assert((mid, remaining_width as int) == narrowed(
            orig,
            table_width - border_overhead(*table, visible_count(orig, n as int))
                - fixed_width_sum(orig, n as int),
            (n + 1) as nat,
        ));
        assert forall|j: int| 0 <= j < n implies is_hidden_spec(#[trigger] mid[j])
            == is_hidden_spec(orig[j]) && same_column_shape(orig[j], mid[j]) && (is_hidden_spec(
            orig[j],
        ) ==> !mid[j].fixed) by {
            assert(mid[j] == orig[j] || narrowing_step(orig[j], mid[j]));
        }
    }

    let remaining_columns = count_remaining_columns(infos);
    // The content of every column already fits into the table width.
    if remaining_columns == 0 {
        proof {
            lemma_open_count_zero(mid, n as int);
            assert(infos@ == arranged_after_narrowing(mid, remaining_width as int));
            assert(infos@ == dynamic_outcome(orig, *table, table_width));
            lemma_narrowed_respects_caps(
                orig,
                table_width - border_overhead(*table, visible_count(orig, n as int))
                    - fixed_width_sum(orig, n as int),
                (n + 1) as nat,
            );
            assert forall|j: int| 0 <= j < n implies cap_respected(
                orig[j],
                infos@[j],
            ) by {
                if infos@[j] == orig[j] {
                    match max_width_cap(orig[j]) {
                        Some(max_width) => {
                            if !orig[j].fixed && max_width > padding_total(orig[j]) {
                                assert(!is_hidden_spec(orig[j]));
                                assert(false);
                            }
                        },
                        None => {},
                    }
                }
            }
            if exact_fit_premise(orig, *table, table_width) {
                lemma_fixed_width_sum_none(orig, n as int);
                lemma_exact_fit_noop(orig, *table, table_width, start_budget);
                lemma_open_count_full(orig, n as int);
                assert(false);
            }
        }
        return ;
    }
    proof {
        lemma_open_le_visible(mid, n as int);
        lemma_visible_count_congruent(mid, orig, n as int);
        lemma_fixed_width_sum_bounds(orig, n as int);
    }

    // Step five: split the remaining budget equally over the remaining
    // columns. With less than one unit of space per column, still hand one
    // out to each: a column is never narrower than one character.
    let mut budget = remaining_width;
    if budget < remaining_columns as i64 {
        budget = remaining_columns as i64;
    }
    let budget = budget as u16;
    let remaining_columns = remaining_columns as u16;

    proof {
        if exact_fit_premise(orig, *table, table_width) {
            lemma_fixed_width_sum_none(orig, n as int);
            lemma_exact_fit_noop(orig, *table, table_width, start_budget);
            lemma_open_count_full(orig, n as int);
            let width_each = natural_width(orig[0]);
            assert(mid == orig);
            assert(remaining_columns as int == n as int);
            assert((n as int) * width_each >= n as int) by (nonlinear_arith)
                requires
                    n as int > 0,
                    width_each >= 1,
            ;
            assert(budget as int == (n as int) * width_each);
        }
    }
    distribute_remaining_width(infos, budget, remaining_columns);
    proof {
        let outcome = arranged_after_narrowing(mid, remaining_width as int);
        let open = open_count(mid, n as int);
        assert(open == remaining_columns as int);
        assert(budget as int == (if (remaining_width as int) < open {
            open
        } else {
            remaining_width as int
        }));
        assert forall|j: int| 0 <= j < n implies infos@[j] == outcome[j] by {
            lemma_open_count_bounds(mid, j);
        }
        assert(infos@ =~= outcome);
        assert(infos@ == dynamic_outcome(orig, *table, table_width));
        lemma_narrowed_respects_caps(
            orig,
            table_width - border_overhead(*table, visible_count(orig, n as int))
                - fixed_width_sum(orig, n as int),
            (n + 1) as nat,
        );
        assert forall|j: int| 0 <= j < n implies cap_respected(orig[j], infos@[j]) by {
            lemma_open_count_bounds(mid, j);
            match max_width_cap(orig[j]) {
                Some(max_width) => {
                    if !orig[j].fixed && max_width > padding_total(orig[j]) {
                        if mid[j] != orig[j] {
                            assert(mid[j].fixed);
                            assert(infos@[j] == mid[j]);
                        } else if !mid[j].fixed {
                            let rem = remaining_width as int;
                            let rank = open_count(mid, j);
                            if rem < open {
                                assert(open / open == 1 && open % open == 0) by (nonlinear_arith)
                                    requires
                                        open > 0,
                                ;
                                assert(share(open, open, rank) == 1);
                            } else {
                                assert(rem / open >= 1 && 0 <= rem % open) by (nonlinear_arith)
                                    requires
                                        rem >= open,
                                        open > 0,
                                ;
                                assert(!fix_condition_at(mid, j, rem / open));
                                assert(max_width > rem / open);
                            }
                        }
                    }
                },
                None => {},
            }
        }
        if exact_fit_premise(orig, *table, table_width) {
            lemma_open_count_full(orig, n as int);
            let width_each = natural_width(orig[0]);
            assert((n as int) * width_each % (n as int) == 0 && (n as int) * width_each / (
            n as int) == width_each) by (nonlinear_arith)
                requires
                    n as int > 0,
                    width_each >= 1,
            ;
            assert forall|j: int| 0 <= j < n implies (#[trigger] infos@[j]).content_width
                == orig[j].max_content_width by {
                lemma_open_count_bounds(orig, j);
                assert(share(budget as int, remaining_columns as int, open_count(orig, j))
                    == width_each);
                assert(padding_total(orig[j]) < width_each);
            }
        }
    }
}

/// Under the exact-fit premise the narrowing loop has nothing to do: the
/// average share of the budget is exactly every column's natural width, and
/// no column needs strictly less.
proof fn lemma_exact_fit_noop(
    infos: Seq<ColumnDisplayInfo>,
    table: Table,
    table_width: u16,
    start_budget: int,
)
    requires
        exact_fit_premise(infos, table, table_width),
        start_budget == table_width - border_overhead(table, visible_count(infos, infos.len() as int)),
    ensures
        narrowing_noop(infos, start_budget),
        start_budget == infos.len() * natural_width(infos[0]),
{
    let n = infos.len() as int;
    lemma_open_count_full(infos, n);
    lemma_open_le_visible(infos, n);
    lemma_visible_count_bounded(infos, n);
    let width_each = natural_width(infos[0]);
    assert(visible_count(infos, n) == n);
    assert(start_budget == n * width_each);
    assert(n * width_each / n == width_each && n * width_each >= n) by (nonlinear_arith)
        requires
            n > 0,
            width_each >= 1,
    ;
    assert forall|i: int| 0 <= i < n implies !fix_condition_at(infos, i, width_each) by {
        assert(max_width_cap(infos[i]) is None);
        assert(natural_width(infos[i]) == width_each);
    }
    assert(pass_fixes_nothing(infos, start_budget / n));
}

proof fn lemma_visible_count_bounded(infos: Seq<ColumnDisplayInfo>, n: int)
    requires
        0 <= n,
    ensures
        visible_count(infos, n) <= n,
    decreases n,
{
    if n > 0 {
        lemma_visible_count_bounded(infos, n - 1);
    }
}

/// The display state of one column after its constraint, if it declared
/// one, has been evaluated.
pub open spec fn after_evaluation(column: Column, table_width: Option<u16>) -> ColumnDisplayInfo {
    match column.constraint {
        Some(constraint) => evaluated(fresh_info(column), constraint, table_width),
        None => fresh_info(column),
    }
}

/// Constraint evaluation keeps a column well formed, touches nothing but
/// the resolved width, the fixed flag and the residual constraint, hides
/// exactly the columns that declare `Hidden`, never fixes a hidden column,
/// and gives every column it fixes a content width of at least one.
pub proof fn lemma_after_evaluation(column: Column, table_width: Option<u16>)
    requires
        column_wf(column),
    ensures
        inv(after_evaluation(column, table_width)),
        same_column_core(fresh_info(column), after_evaluation(column, table_width)),
        is_hidden_spec(after_evaluation(column, table_width)) == (column.constraint == Some(
            ColumnConstraint::Hidden,
        )),
        is_hidden_spec(after_evaluation(column, table_width)) ==> !after_evaluation(
            column,
            table_width,
        ).fixed,
        after_evaluation(column, table_width).fixed ==> after_evaluation(
            column,
            table_width,
        ).content_width >= 1,
        after_evaluation(column, table_width).padding == column.padding,
        after_evaluation(column, table_width).max_content_width == column.max_content_width,
{
    let info = after_evaluation(column, table_width);
    match column.constraint {
        Some(constraint) => {
            match constraint {
                ColumnConstraint::ContentWidth => {},
                ColumnConstraint::Width(width) => {},
                ColumnConstraint::MinWidth(min_width) => {},
                ColumnConstraint::MaxWidth(max_width) => {},
                ColumnConstraint::Percentage(percent) => {},
                ColumnConstraint::MinPercentage(percent) => {},
                ColumnConstraint::MaxPercentage(percent) => {},
                ColumnConstraint::Hidden => {},
            }
        },
        None => {},
    }
}

/// The display states of all columns right after constraint evaluation,
/// before an arrangement strategy runs.
pub open spec fn evaluated_infos(table: Table) -> Seq<ColumnDisplayInfo> {
    Seq::new(
        table.columns@.len(),
        |i: int| after_evaluation(table.columns@[i], table.table_width),
    )
}

/// Determine the width of each column from the content and the constraints
/// of the given table: evaluate each column's constraint once, then run one
/// arrangement strategy over all columns collectively. Without a target
/// table width there is no budget to fit, so disabled arrangement runs
/// whatever strategy was asked for. Every visible column comes out fixed,
/// at least one character wide; a column fixed by its constraint keeps
/// exactly the width the constraint gave it, whatever the strategy; in
/// particular a `Width` constraint resolves to exactly the declared total
/// width (or to the padding plus one character when the declared width
/// does not even cover the padding).
pub fn arrange_content(table: &Table) -> (infos: Vec<ColumnDisplayInfo>)
    requires
        forall|i: int| 0 <= i < table.columns@.len() ==> column_wf(#[trigger] table.columns@[i]),
        table.columns@.len() <= 0xFFFF,
    ensures
        infos@.len() == table.columns@.len(),
        forall|i: int| 0 <= i < infos@.len() ==> inv(#[trigger] infos@[i]),
        forall|i: int|
            0 <= i < infos@.len() ==> same_column_core(
                fresh_info(table.columns@[i]),
                #[trigger] infos@[i],
            ),
        forall|i: int|
            0 <= i < infos@.len() ==> is_hidden_spec(#[trigger] infos@[i]) == (
            table.columns@[i].constraint == Some(ColumnConstraint::Hidden)),
        forall|i: int|
            0 <= i < infos@.len() ==> (!is_hidden_spec(#[trigger] infos@[i]) ==> infos@[i].fixed
                && infos@[i].content_width >= 1),
        forall|i: int|
            0 <= i < infos@.len() ==> (after_evaluation(
                table.columns@[i],
                table.table_width,
            ).fixed ==> (#[trigger] infos@[i]) == after_evaluation(
                table.columns@[i],
                table.table_width,
            )),
        forall|i: int|
            0 <= i < infos@.len() ==> (is_hidden_spec(#[trigger] infos@[i]) ==> infos@[i]
                == after_evaluation(table.columns@[i], table.table_width)),
        forall|i: int|
            0 <= i < infos@.len() ==> ((#[trigger] table.columns@[i]).constraint matches Some(
                ColumnConstraint::Width(w),
            ) ==> total_width(infos@[i]) == (if w > padding_total(infos@[i]) {
                w as int
            } else {
                padding_total(infos@[i]) + 1
            })),
        (table.table_width is None || table.arrangement == ContentArrangement::Disabled)
            ==> forall|i: int|
            0 <= i < infos@.len() ==> (#[trigger] infos@[i]) == disabled_fix(
                after_evaluation(table.columns@[i], table.table_width),
            ),
        table.table_width matches Some(width) ==> (table.arrangement
            == ContentArrangement::Dynamic ==> infos@ == dynamic_outcome(
            evaluated_infos(*table),
            *table,
            width,
        )),
{
    let table_width = table.table_width;
    let mut display_infos: Vec<ColumnDisplayInfo> = Vec::new();
    let n = table.columns.len();
    let mut i: usize = 0;
    while i < n
        invariant
            n == table.columns@.len(),
            n <= 0xFFFF,
            i <= n,
            table_width == table.table_width,
            forall|j: int| 0 <= j < n ==> column_wf(#[trigger] table.columns@[j]),
            display_infos@.len() == i,
            forall|j: int|
                0 <= j < i ==> (#[trigger] display_infos@[j]) == after_evaluation(
                    table.columns@[j],
                    table_width,
                ),
            forall|j: int| 0 <= j < i ==> inv(#[trigger] display_infos@[j]),
            forall|j: int|
                0 <= j < i ==> (is_hidden_spec(#[trigger] display_infos@[j]) ==> !display_infos@[j].fixed),
        decreases n - i,
    {
        let column = table.columns[i];
        let mut info = ColumnDisplayInfo::new(&column);

        match column.constraint {
            Some(constraint) => {
                evaluate_constraint(&mut info, constraint, table_width);
            },
            None => {},
        }
        proof {
            lemma_after_evaluation(column, table_width);
        }
        display_infos.push(info);
        i = i + 1;
    }
    let ghost infos_after_evaluation = display_infos@;

    match table.table_width {
        // Without any information on how wide the table should be, fall
        // back to disabled arrangement.
        None => {
            disabled_arrangement(&mut display_infos);
        },
        Some(width) => {
            match table.arrangement {
                ContentArrangement::Disabled => {
                    disabled_arrangement(&mut display_infos);
                },
                ContentArrangement::Dynamic => {
                    proof {
                        assert(display_infos@ =~= evaluated_infos(*table));
                    }
                    dynamic_arrangement(table, &mut display_infos, width);
                },
            }
        },
    }
    proof {
        assert forall|i: int| 0 <= i < infos_after_evaluation.len() implies inv(
            #[trigger] display_infos@[i],
        ) && same_column_core(fresh_info(table.columns@[i]), display_infos@[i]) && (
        is_hidden_spec(display_infos@[i]) == is_hidden_spec(infos_after_evaluation[i])) && (
        !is_hidden_spec(display_infos@[i]) ==> display_infos@[i].fixed
            && display_infos@[i].content_width >= 1) && (infos_after_evaluation[i].fixed
            ==> display_infos@[i] == infos_after_evaluation[i]) by {
            lemma_after_evaluation(table.columns@[i], table.table_width);
        }
    }
    display_infos
}

} // verus!

