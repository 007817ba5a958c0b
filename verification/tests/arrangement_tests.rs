use table_layout::arrangement::{arrange_content, disabled_arrangement, evaluate_constraint, ColumnDisplayInfo};
use table_layout::style::{ColumnConstraint, ContentArrangement};
use table_layout::table::{Column, Table};

fn column(max_content_width: u16, padding: (u16, u16), constraint: Option<ColumnConstraint>) -> Column {
    Column {
        padding,
        delimiter: None,
        max_content_width,
        constraint,
        cell_alignment: None,
    }
}

fn table(columns: Vec<Column>, table_width: Option<u16>, arrangement: ContentArrangement) -> Table {
    Table {
        columns,
        table_width,
        arrangement,
        draw_left_border: true,
        draw_right_border: true,
        draw_vertical_lines: true,
    }
}

fn frameless(columns: Vec<Column>, table_width: Option<u16>) -> Table {
    Table {
        columns,
        table_width,
        arrangement: ContentArrangement::Dynamic,
        draw_left_border: false,
        draw_right_border: false,
        draw_vertical_lines: false,
    }
}

#[test]
fn test_disabled_arrangement() {
    let header = ["head", "head", "head"];
    let row = ["four", "fivef", "sixsix"];
    let mut columns = Vec::new();
    for i in 0..3 {
        let max_content_width = header[i].len().max(row[i].len()) as u16;
        columns.push(column(max_content_width, (1, 1), None));
    }
    let table = table(columns, None, ContentArrangement::Dynamic);

    let display_infos = arrange_content(&table);
    // The max width should just be copied from the column
    let max_widths: Vec<u16> = display_infos
        .iter()
        .map(|info| info.max_content_width)
        .collect();
    assert_eq!(max_widths, vec![4, 5, 6]);

    // In default mode without any constraints
    let widths: Vec<u16> = display_infos.iter().map(|info| info.width()).collect();
    assert_eq!(widths, vec![6, 7, 8]);
}

#[test]
fn disabled_arrangement_is_idempotent() {
    let columns = vec![
        column(4, (1, 1), None),
        column(9, (0, 2), Some(ColumnConstraint::MaxWidth(5))),
        column(0, (1, 1), None),
        column(3, (1, 1), Some(ColumnConstraint::Hidden)),
    ];
    let table = table(columns, None, ContentArrangement::Disabled);
    let mut display_infos = arrange_content(&table);
    let once: Vec<(u16, bool)> = display_infos
        .iter()
        .map(|info| (info.content_width(), info.fixed))
        .collect();

    disabled_arrangement(&mut display_infos);
    let twice: Vec<(u16, bool)> = display_infos
        .iter()
        .map(|info| (info.content_width(), info.fixed))
        .collect();
    assert_eq!(once, twice);
    // Unconstrained columns got their natural width, the capped one its cap.
    assert_eq!(once[0], (4, true));
    assert_eq!(once[1], (3, true));
}

#[test]
fn max_percentage_becomes_residual_max_width() {
    let mut info = ColumnDisplayInfo::new(&column(15, (1, 1), None));
    evaluate_constraint(&mut info, ColumnConstraint::MaxPercentage(50), Some(20));
    assert_eq!(info.constraint, Some(ColumnConstraint::MaxWidth(10)));
    assert!(!info.fixed);
}

#[test]
fn absolute_width_is_honored_in_both_modes() {
    for (width, mode) in [
        (Some(30), ContentArrangement::Dynamic),
        (Some(30), ContentArrangement::Disabled),
        (None, ContentArrangement::Dynamic),
    ] {
        let columns = vec![
            column(2, (1, 1), Some(ColumnConstraint::Width(8))),
            column(5, (1, 1), None),
        ];
        let t = table(columns, width, mode);
        let display_infos = arrange_content(&t);
        assert_eq!(display_infos[0].width(), 8);
        assert_eq!(display_infos[0].content_width(), 6);
    }
}

#[test]
fn absolute_width_below_padding_keeps_one_content_column() {
    let columns = vec![column(5, (1, 1), Some(ColumnConstraint::Width(1)))];
    let t = table(columns, None, ContentArrangement::Disabled);
    let display_infos = arrange_content(&t);
    assert_eq!(display_infos[0].content_width(), 1);
    assert_eq!(display_infos[0].width(), 3);
}

#[test]
fn dynamic_exact_fit_gives_every_column_its_content() {
    // Two uniform columns, one separator, no side borders: the target is
    // exactly the sum of the natural widths plus the separator.
    let columns = vec![column(4, (1, 1), None), column(4, (1, 1), None)];
    let t = Table {
        columns,
        table_width: Some(13),
        arrangement: ContentArrangement::Dynamic,
        draw_left_border: false,
        draw_right_border: false,
        draw_vertical_lines: true,
    };
    let display_infos = arrange_content(&t);
    let contents: Vec<u16> = display_infos.iter().map(|info| info.content_width()).collect();
    assert_eq!(contents, vec![4, 4]);
}

#[test]
fn dynamic_two_columns_fit_with_separator() {
    let columns = vec![column(10, (0, 0), None), column(3, (0, 0), None)];
    let t = Table {
        columns,
        table_width: Some(12),
        arrangement: ContentArrangement::Dynamic,
        draw_left_border: false,
        draw_right_border: false,
        draw_vertical_lines: true,
    };
    let display_infos = arrange_content(&t);
    let widths: Vec<u16> = display_infos.iter().map(|info| info.width()).collect();
    // The narrow column keeps its natural width, the wide one gets the rest;
    // the widths plus the one separator sum to exactly the target.
    assert_eq!(widths, vec![8, 3]);
    assert_eq!(widths[0] + widths[1] + 1, 12);
}

#[test]
fn dynamic_excess_goes_to_the_leftmost_columns() {
    let columns = vec![
        column(20, (0, 0), None),
        column(20, (0, 0), None),
        column(20, (0, 0), None),
    ];
    let t = frameless(columns, Some(17));
    let display_infos = arrange_content(&t);
    let widths: Vec<u16> = display_infos.iter().map(|info| info.width()).collect();
    // 17 over three columns: average 5, two leftover units for the two
    // leftmost columns.
    assert_eq!(widths, vec![6, 6, 5]);
    assert_eq!(widths.iter().sum::<u16>(), 17);
}

#[test]
fn dynamic_boundary_natural_width_equal_to_average_is_not_narrowed() {
    // Average space is 11 / 2 = 5; the first column's natural width equals
    // the average and the comparison is strictly less, so neither column is
    // narrowed and fair distribution decides: 6 for the leftmost, 5 next.
    let columns = vec![column(5, (0, 0), None), column(6, (0, 0), None)];
    let t = frameless(columns, Some(11));
    let display_infos = arrange_content(&t);
    let widths: Vec<u16> = display_infos.iter().map(|info| info.width()).collect();
    assert_eq!(widths, vec![6, 5]);
}

#[test]
fn hidden_columns_take_no_space_and_count_no_separator() {
    let columns = vec![
        column(3, (0, 0), None),
        column(9, (0, 0), Some(ColumnConstraint::Hidden)),
        column(3, (0, 0), None),
    ];
    let t = Table {
        columns,
        table_width: Some(9),
        arrangement: ContentArrangement::Dynamic,
        draw_left_border: false,
        draw_right_border: false,
        draw_vertical_lines: true,
    };
    let display_infos = arrange_content(&t);
    assert!(display_infos[1].is_hidden());
    assert!(!display_infos[1].fixed);
    // Only one separator is reserved, between the two visible columns: both
    // fit at their natural width.
    assert_eq!(display_infos[0].content_width(), 3);
    assert_eq!(display_infos[2].content_width(), 3);
    let visible: Vec<bool> = display_infos.iter().map(|info| info.is_hidden()).collect();
    assert_eq!(visible, vec![false, true, false]);
}

#[test]
fn hidden_columns_left_untouched_in_disabled_mode() {
    let columns = vec![
        column(3, (1, 1), None),
        column(9, (1, 1), Some(ColumnConstraint::Hidden)),
    ];
    let t = table(columns, None, ContentArrangement::Disabled);
    let display_infos = arrange_content(&t);
    assert_eq!(display_infos[0].content_width(), 3);
    assert!(display_infos[1].is_hidden());
    assert!(!display_infos[1].fixed);
    assert_eq!(display_infos[1].content_width(), 0);
}

#[test]
fn percentage_fixes_width_when_table_width_is_known() {
    let columns = vec![column(15, (1, 1), Some(ColumnConstraint::Percentage(50)))];
    let t = table(columns, Some(20), ContentArrangement::Dynamic);
    let display_infos = arrange_content(&t);
    assert_eq!(display_infos[0].width(), 10);
    assert_eq!(display_infos[0].content_width(), 8);
}

#[test]
fn percentage_above_hundred_is_accepted() {
    let columns = vec![column(15, (1, 1), Some(ColumnConstraint::Percentage(200)))];
    let t = table(columns, Some(20), ContentArrangement::Dynamic);
    let display_infos = arrange_content(&t);
    // Twice the table width: the column simply overflows the target.
    assert_eq!(display_infos[0].width(), 40);
}

#[test]
fn percentage_left_unresolved_without_table_width() {
    let columns = vec![column(5, (1, 1), Some(ColumnConstraint::Percentage(50)))];
    let t = table(columns, None, ContentArrangement::Dynamic);
    let display_infos = arrange_content(&t);
    // No width signal: the percentage cannot resolve and disabled
    // arrangement sizes the column by content.
    assert_eq!(display_infos[0].content_width(), 5);
}

#[test]
fn min_width_fixes_only_when_it_exceeds_the_content() {
    let columns = vec![
        column(4, (1, 1), Some(ColumnConstraint::MinWidth(10))),
        column(4, (1, 1), Some(ColumnConstraint::MinWidth(5))),
    ];
    let t = table(columns, None, ContentArrangement::Disabled);
    let display_infos = arrange_content(&t);
    // Natural width 6 <= 10: fixed to the minimum right away.
    assert_eq!(display_infos[0].width(), 10);
    // Natural width 6 > 5: the minimum is already satisfied; content decides.
    assert_eq!(display_infos[1].width(), 6);
}

#[test]
fn min_percentage_acts_like_min_width_of_the_resolved_threshold() {
    let columns = vec![column(4, (1, 1), Some(ColumnConstraint::MinPercentage(50)))];
    let t = table(columns, Some(20), ContentArrangement::Dynamic);
    let display_infos = arrange_content(&t);
    assert_eq!(display_infos[0].width(), 10);
}

#[test]
fn content_width_constraint_fixes_to_the_content() {
    let columns = vec![column(7, (1, 1), Some(ColumnConstraint::ContentWidth))];
    let t = table(columns, Some(30), ContentArrangement::Dynamic);
    let display_infos = arrange_content(&t);
    assert_eq!(display_infos[0].content_width(), 7);
    assert_eq!(display_infos[0].width(), 9);
}

#[test]
fn empty_column_still_gets_one_character() {
    let columns = vec![column(0, (1, 1), None)];
    let t = table(columns, None, ContentArrangement::Disabled);
    let display_infos = arrange_content(&t);
    assert_eq!(display_infos[0].content_width(), 1);
    assert_eq!(display_infos[0].width(), 3);
}

#[test]
fn narrow_target_clamps_every_column_to_one() {
    let columns = vec![column(5, (0, 0), None), column(5, (0, 0), None)];
    let t = table(columns, Some(3), ContentArrangement::Dynamic);
    let display_infos = arrange_content(&t);
    let contents: Vec<u16> = display_infos.iter().map(|info| info.content_width()).collect();
    // The frame alone eats the whole target: the columns get the minimum
    // width of one each and the table overflows the requested width.
    assert_eq!(contents, vec![1, 1]);
    assert!(display_infos.iter().all(|info| info.content_width() >= 1));
}

#[test]
fn max_width_caps_only_when_below_the_natural_width() {
    let columns = vec![
        column(5, (0, 0), Some(ColumnConstraint::MaxWidth(3))),
        column(5, (0, 0), Some(ColumnConstraint::MaxWidth(9))),
    ];
    let t = frameless(columns, None);
    let display_infos = arrange_content(&t);
    assert_eq!(display_infos[0].content_width(), 3);
    assert_eq!(display_infos[1].content_width(), 5);
}

#[test]
fn dynamic_max_width_frees_space_for_the_others() {
    let columns = vec![
        column(10, (0, 0), Some(ColumnConstraint::MaxWidth(4))),
        column(10, (0, 0), None),
    ];
    let t = frameless(columns, Some(12));
    let display_infos = arrange_content(&t);
    let widths: Vec<u16> = display_infos.iter().map(|info| info.width()).collect();
    // The capped column is fixed to its cap; the freed space goes to the
    // other column.
    assert_eq!(widths, vec![4, 8]);
}

#[test]
fn loose_fit_leaves_surplus_unused() {
    let columns = vec![column(2, (0, 0), None), column(2, (0, 0), None)];
    let t = frameless(columns, Some(99));
    let display_infos = arrange_content(&t);
    let contents: Vec<u16> = display_infos.iter().map(|info| info.content_width()).collect();
    // Both columns need far less than the average: they are fixed at their
    // natural width and the surplus stays unused.
    assert_eq!(contents, vec![2, 2]);
}

#[test]
fn missing_table_width_forces_disabled_arrangement() {
    let columns = vec![column(12, (1, 1), None), column(2, (1, 1), None)];
    let t = table(columns, None, ContentArrangement::Dynamic);
    let display_infos = arrange_content(&t);
    let contents: Vec<u16> = display_infos.iter().map(|info| info.content_width()).collect();
    assert_eq!(contents, vec![12, 2]);
}

#[test]
fn delimiter_and_alignment_pass_through() {
    let mut col = column(4, (1, 1), None);
    col.delimiter = Some('-');
    let t = table(vec![col], None, ContentArrangement::Disabled);
    let display_infos = arrange_content(&t);
    assert_eq!(display_infos[0].delimiter, Some('-'));
    assert_eq!(display_infos[0].padding, (1, 1));
    assert!(!display_infos[0].needs_splitting);
}
