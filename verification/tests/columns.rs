use druid_table::{
    AxisPair, CellCtx, LogIdx, SingleCell, SortDirection, SortSpec, TableAxis, VisIdx,
};

fn cell_in_column(col: usize) -> SingleCell {
    SingleCell::new(
        AxisPair::new(VisIdx(0), VisIdx(col)),
        AxisPair::new(LogIdx(0), LogIdx(col)),
    )
}

#[test]
fn column_dispatch_uses_the_logical_column() {
    let cell = SingleCell::new(
        AxisPair::new(VisIdx(9), VisIdx(0)),
        AxisPair::new(LogIdx(4), LogIdx(2)),
    );
    assert_eq!(CellCtx::Cell(&cell).column_in(3), Some(2));
}

#[test]
fn out_of_range_column_dispatch_is_inert() {
    let cell = cell_in_column(5);
    assert_eq!(CellCtx::Cell(&cell).column_in(3), None);
    let last = cell_in_column(3);
    assert_eq!(CellCtx::Cell(&last).column_in(3), None);
    assert_eq!(CellCtx::Cell(&last).column_in(0), None);
}

#[test]
fn only_cells_are_dispatched_to_a_column() {
    let key = SortSpec::new(1, SortDirection::Ascending);
    assert_eq!(CellCtx::Absent.column_in(3), None);
    assert_eq!(CellCtx::Header(&TableAxis::Columns, LogIdx(1), Some(&key)).column_in(3), None);
    assert_eq!(CellCtx::Header(&TableAxis::Columns, LogIdx(1), None).column_in(3), None);
}

#[test]
fn sort_mark_is_the_direction_of_a_sorted_heading() {
    let up = SortSpec::new(1, SortDirection::Ascending);
    let down = up.descending();
    let cell = cell_in_column(1);
    assert_eq!(
        CellCtx::Header(&TableAxis::Columns, LogIdx(1), Some(&up)).sort_mark(),
        Some(SortDirection::Ascending)
    );
    assert_eq!(
        CellCtx::Header(&TableAxis::Columns, LogIdx(1), Some(&down)).sort_mark(),
        Some(SortDirection::Descending)
    );
    assert_eq!(CellCtx::Header(&TableAxis::Columns, LogIdx(1), None).sort_mark(), None);
    assert_eq!(CellCtx::Cell(&cell).sort_mark(), None);
    assert_eq!(CellCtx::Absent.sort_mark(), None);
}
