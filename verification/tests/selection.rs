use druid_table::{
    AxisPair, CellDemap, CellRange, CellRect, DrawableSelections, IndicesSelection, LogIdx,
    SingleCell, SingleSlice, SliceRange, TableAxis, TableSelection, TableSelectionMod, VisIdx,
    VisOffset,
};

/// A table of `rows` by `cols` cells whose rows are shown in reverse order.
struct Reversed {
    rows: usize,
    cols: usize,
}

impl CellDemap for Reversed {
    fn get_log_idx(&self, axis: TableAxis, vis: &VisIdx) -> Option<LogIdx> {
        match axis {
            TableAxis::Rows => {
                if vis.0 < self.rows {
                    Some(LogIdx(self.rows - 1 - vis.0))
                } else {
                    None
                }
            }
            TableAxis::Columns => {
                if vis.0 < self.cols {
                    Some(LogIdx(vis.0))
                } else {
                    None
                }
            }
        }
    }
}

/// A table of `rows` by `cols` cells that is shown as it is stored.
struct Plain {
    rows: usize,
    cols: usize,
}

impl CellDemap for Plain {
    fn get_log_idx(&self, axis: TableAxis, vis: &VisIdx) -> Option<LogIdx> {
        let len = match axis {
            TableAxis::Rows => self.rows,
            TableAxis::Columns => self.cols,
        };
        if vis.0 < len {
            Some(LogIdx(vis.0))
        } else {
            None
        }
    }
}

/// A table that shows the one cell at the origin.
struct OriginOnly;

impl CellDemap for OriginOnly {
    fn get_log_idx(&self, _axis: TableAxis, vis: &VisIdx) -> Option<LogIdx> {
        if vis.0 == 0 {
            Some(LogIdx(0))
        } else {
            None
        }
    }
}

/// A table without cells.
struct Empty;

impl CellDemap for Empty {
    fn get_log_idx(&self, _axis: TableAxis, _vis: &VisIdx) -> Option<LogIdx> {
        None
    }
}

fn vis(row: usize, col: usize) -> AxisPair<VisIdx> {
    AxisPair::new(VisIdx(row), VisIdx(col))
}

fn cell(row: usize, col: usize) -> SingleCell {
    SingleCell::new(vis(row, col), AxisPair::new(LogIdx(row), LogIdx(col)))
}

fn rect(rows: (usize, usize), cols: (usize, usize)) -> CellRect {
    CellRect::new((VisIdx(rows.0), VisIdx(rows.1)), (VisIdx(cols.0), VisIdx(cols.1)))
}

#[test]
fn demap_composes_both_axes() {
    let demap = Reversed { rows: 4, cols: 3 };
    assert_eq!(demap.get_log_cell(&vis(0, 2)), Some(AxisPair::new(LogIdx(3), LogIdx(2))));
    assert_eq!(demap.get_log_cell(&vis(4, 2)), None);
    assert_eq!(demap.get_log_cell(&vis(0, 3)), None);
}

#[test]
fn move_focus_from_none_snaps_to_origin() {
    let sel = TableSelection::NoSelection;
    let moved = sel.move_focus(TableAxis::Rows, VisOffset(1), &OriginOnly);
    assert_eq!(moved, Some(TableSelection::SingleCell(cell(0, 0))));
}

#[test]
fn move_focus_from_none_fails_without_origin() {
    let sel = TableSelection::NoSelection;
    assert_eq!(sel.move_focus(TableAxis::Rows, VisOffset(1), &Empty), None);
}

#[test]
fn move_focus_moves_a_single_cell() {
    let demap = Reversed { rows: 4, cols: 3 };
    let sel = TableSelection::SingleCell(cell(1, 1));
    let moved = sel.move_focus(TableAxis::Rows, VisOffset(2), &demap);
    let expected = SingleCell::new(vis(3, 1), AxisPair::new(LogIdx(0), LogIdx(1)));
    assert_eq!(moved, Some(TableSelection::SingleCell(expected)));
    assert_eq!(sel.move_focus(TableAxis::Rows, VisOffset(3), &demap), None);
    assert_eq!(sel.move_focus(TableAxis::Columns, VisOffset(2), &demap), None);
}

#[test]
fn move_focus_keeps_the_axis_of_a_slice() {
    let demap = Plain { rows: 4, cols: 4 };
    let sel = TableSelection::SingleSlice(SingleSlice::new(TableAxis::Columns, cell(0, 1)));
    let moved = sel.move_focus(TableAxis::Columns, VisOffset(1), &demap);
    assert_eq!(
        moved,
        Some(TableSelection::SingleSlice(SingleSlice::new(TableAxis::Columns, cell(0, 2))))
    );
}

#[test]
fn move_focus_collapses_cell_range() {
    let demap = Plain { rows: 1, cols: 5 };
    let sel = TableSelection::CellRange(CellRange::new(cell(0, 0), cell(2, 2)));
    let moved = sel.move_focus(TableAxis::Columns, VisOffset(1), &demap);
    assert_eq!(moved, Some(TableSelection::SingleCell(cell(0, 1))));
}

#[test]
fn move_focus_collapses_slice_range_along_the_given_axis() {
    let demap = Plain { rows: 9, cols: 9 };
    let sel = TableSelection::SliceRange(SliceRange {
        axis: TableAxis::Rows,
        range: CellRange::new(cell(2, 3), cell(5, 0)),
    });
    let across = sel.move_focus(TableAxis::Columns, VisOffset(1), &demap);
    assert_eq!(
        across,
        Some(TableSelection::SingleSlice(SingleSlice::new(TableAxis::Rows, cell(2, 4))))
    );
    let along = sel.move_focus(TableAxis::Rows, VisOffset(1), &demap);
    assert_eq!(
        along,
        Some(TableSelection::SingleSlice(SingleSlice::new(TableAxis::Rows, cell(3, 3))))
    );
}

#[test]
fn move_focus_moves_a_slice_across_its_axis() {
    let demap = Plain { rows: 9, cols: 9 };
    let sel = TableSelection::SingleSlice(SingleSlice::new(TableAxis::Columns, cell(1, 2)));
    let moved = sel.move_focus(TableAxis::Rows, VisOffset(-1), &demap);
    assert_eq!(
        moved,
        Some(TableSelection::SingleSlice(SingleSlice::new(TableAxis::Columns, cell(0, 2))))
    );
}

#[test]
fn focus_moved_follows_what_was_found() {
    let range = TableSelection::CellRange(CellRange::new(cell(0, 0), cell(2, 2)));
    assert_eq!(range.focus_moved(Some(cell(4, 4))), Some(TableSelection::SingleCell(cell(4, 4))));
    assert_eq!(range.focus_moved(None), None);
    let slice = TableSelection::SingleSlice(SingleSlice::new(TableAxis::Rows, cell(1, 0)));
    assert_eq!(
        slice.focus_moved(Some(cell(2, 0))),
        Some(TableSelection::SingleSlice(SingleSlice::new(TableAxis::Rows, cell(2, 0))))
    );
}

#[test]
fn move_extent_forms_and_reshapes_a_range() {
    let single = TableSelection::SingleCell(cell(1, 1));
    let extended = single.move_extent(TableSelection::SingleCell(cell(3, 2)));
    assert_eq!(extended, Some(TableSelection::CellRange(CellRange::new(cell(1, 1), cell(3, 2)))));
    let again = extended.unwrap().move_extent(TableSelection::SingleCell(cell(0, 0)));
    assert_eq!(again, Some(TableSelection::CellRange(CellRange::new(cell(1, 1), cell(0, 0)))));
}

#[test]
fn move_extent_rejects_other_combinations() {
    let single = TableSelection::SingleCell(cell(1, 1));
    let slice = TableSelection::SingleSlice(SingleSlice::new(TableAxis::Rows, cell(1, 0)));
    let range = TableSelection::CellRange(CellRange::new(cell(1, 1), cell(3, 2)));
    assert_eq!(TableSelection::NoSelection.move_extent(single), None);
    assert_eq!(slice.move_extent(single), None);
    assert_eq!(single.move_extent(slice), None);
    assert_eq!(single.move_extent(range), None);
    assert_eq!(single.move_extent(TableSelection::NoSelection), None);
    assert_eq!(range.move_extent(range), None);
}

#[test]
fn select_in_axis_replaces_the_selection() {
    let demap = Reversed { rows: 4, cols: 3 };
    let mut sel = TableSelection::CellRange(CellRange::new(cell(1, 1), cell(3, 2)));
    sel.select_in_axis(TableAxis::Rows, VisIdx(1), &demap);
    let focus = SingleCell::new(vis(1, 0), AxisPair::new(LogIdx(2), LogIdx(0)));
    assert_eq!(sel, TableSelection::SingleSlice(SingleSlice::new(TableAxis::Rows, focus)));
    sel.select_in_axis(TableAxis::Columns, VisIdx(2), &demap);
    let focus = SingleCell::new(vis(0, 2), AxisPair::new(LogIdx(3), LogIdx(2)));
    assert_eq!(sel, TableSelection::SingleSlice(SingleSlice::new(TableAxis::Columns, focus)));
}

#[test]
fn select_in_axis_leaves_selection_when_unmapped() {
    let demap = Reversed { rows: 4, cols: 3 };
    let before = TableSelection::SingleCell(cell(1, 1));
    let mut sel = before;
    sel.select_in_axis(TableAxis::Rows, VisIdx(4), &demap);
    assert_eq!(sel, before);
    let mut none = TableSelection::NoSelection;
    none.select_in_axis(TableAxis::Columns, VisIdx(0), &Empty);
    assert_eq!(none, TableSelection::NoSelection);
}

#[test]
fn extend_in_axis_builds_a_slice_range_from_the_focus() {
    let demap = Plain { rows: 5, cols: 5 };
    let mut sel = TableSelection::SingleSlice(SingleSlice::new(TableAxis::Rows, cell(1, 0)));
    sel.extend_in_axis(TableAxis::Rows, VisIdx(3), &demap);
    assert_eq!(
        sel,
        TableSelection::SliceRange(SliceRange {
            axis: TableAxis::Rows,
            range: CellRange::new(cell(1, 0), cell(3, 0)),
        })
    );
    let mut from_cell = TableSelection::SingleCell(cell(2, 2));
    from_cell.extend_in_axis(TableAxis::Columns, VisIdx(4), &demap);
    assert_eq!(
        from_cell,
        TableSelection::SliceRange(SliceRange {
            axis: TableAxis::Columns,
            range: CellRange::new(cell(2, 2), cell(0, 4)),
        })
    );
}

#[test]
fn extend_in_axis_without_focus_selects() {
    let demap = Plain { rows: 5, cols: 5 };
    let mut sel = TableSelection::NoSelection;
    sel.extend_in_axis(TableAxis::Rows, VisIdx(3), &demap);
    assert_eq!(sel, TableSelection::SingleSlice(SingleSlice::new(TableAxis::Rows, cell(3, 0))));
}

#[test]
fn extend_in_axis_leaves_selection_when_unmapped() {
    let demap = Plain { rows: 5, cols: 5 };
    let before = TableSelection::SingleCell(cell(2, 2));
    let mut sel = before;
    sel.extend_in_axis(TableAxis::Rows, VisIdx(5), &demap);
    assert_eq!(sel, before);
}

#[test]
fn extended_and_selected_follow_what_was_found() {
    let single = TableSelection::SingleCell(cell(2, 2));
    assert_eq!(single.extended_in_axis(TableAxis::Rows, None), single);
    assert_eq!(single.selected_in_axis(TableAxis::Rows, None), single);
    assert_eq!(
        single.selected_in_axis(TableAxis::Rows, Some(cell(4, 0))),
        TableSelection::SingleSlice(SingleSlice::new(TableAxis::Rows, cell(4, 0)))
    );
    assert_eq!(
        TableSelection::slice_through(TableAxis::Columns, Some(cell(1, 3))),
        Some(TableSelection::SingleSlice(SingleSlice::new(TableAxis::Columns, cell(1, 3))))
    );
    assert_eq!(TableSelection::slice_through(TableAxis::Columns, None), None);
}

#[test]
fn extend_from_focus_does_not_change_the_selection() {
    let demap = Reversed { rows: 4, cols: 3 };
    let sel = TableSelection::SingleCell(cell(1, 1));
    let slice = sel.extend_from_focus_in_axis(&TableAxis::Columns, &demap);
    let focus = SingleCell::new(vis(1, 1), AxisPair::new(LogIdx(2), LogIdx(1)));
    assert_eq!(slice, Some(TableSelection::SingleSlice(SingleSlice::new(TableAxis::Columns, focus))));
    assert_eq!(sel, TableSelection::SingleCell(cell(1, 1)));
    assert_eq!(TableSelection::NoSelection.extend_from_focus_in_axis(&TableAxis::Rows, &demap), None);
    assert_eq!(sel.extend_from_focus_in_axis(&TableAxis::Rows, &Empty), None);
}

#[test]
fn add_selection_takes_the_new_selection() {
    let sel = TableSelection::SingleCell(cell(1, 1));
    let other = TableSelection::SingleSlice(SingleSlice::new(TableAxis::Rows, cell(2, 0)));
    assert_eq!(sel.add_selection(other), Some(other));
}

#[test]
fn every_selection_but_the_empty_one_has_a_focus() {
    let range = CellRange::new(cell(1, 2), cell(3, 4));
    let all = [
        TableSelection::SingleCell(cell(1, 2)),
        TableSelection::SingleSlice(SingleSlice::new(TableAxis::Rows, cell(1, 2))),
        TableSelection::CellRange(range),
        TableSelection::SliceRange(SliceRange { axis: TableAxis::Columns, range }),
    ];
    for sel in all {
        assert!(sel.has_focus());
        assert_eq!(sel.focus(), Some(&cell(1, 2)));
        assert_eq!(sel.vis_focus(), Some(&vis(1, 2)));
    }
    assert!(!TableSelection::NoSelection.has_focus());
    assert_eq!(TableSelection::NoSelection.focus(), None);
    assert_eq!(TableSelection::NoSelection.vis_focus(), None);
    assert_eq!(TableSelection::default(), TableSelection::NoSelection);
    assert_eq!(TableSelection::from(cell(1, 2)), TableSelection::SingleCell(cell(1, 2)));
}

#[test]
fn to_axis_selection_projects_onto_an_axis() {
    let demap = Empty;
    let range = CellRange::new(cell(1, 2), cell(3, 4));
    assert_eq!(
        TableSelection::NoSelection.to_axis_selection(TableAxis::Rows, &demap),
        IndicesSelection::NoSelection
    );
    let single = TableSelection::SingleCell(cell(1, 2));
    assert_eq!(single.to_axis_selection(TableAxis::Rows, &demap), IndicesSelection::Single(VisIdx(1)));
    assert_eq!(
        single.to_axis_selection(TableAxis::Columns, &demap),
        IndicesSelection::Single(VisIdx(2))
    );
    let slice = TableSelection::SingleSlice(SingleSlice::new(TableAxis::Rows, cell(1, 2)));
    assert_eq!(slice.to_axis_selection(TableAxis::Rows, &demap), IndicesSelection::Single(VisIdx(1)));
    assert_eq!(slice.to_axis_selection(TableAxis::Columns, &demap), IndicesSelection::NoSelection);
    let cells = TableSelection::CellRange(range);
    assert_eq!(
        cells.to_axis_selection(TableAxis::Columns, &demap),
        IndicesSelection::Range { focus: VisIdx(2), extent: VisIdx(4) }
    );
    let slices = TableSelection::SliceRange(SliceRange { axis: TableAxis::Columns, range });
    assert_eq!(
        slices.to_axis_selection(TableAxis::Columns, &demap),
        IndicesSelection::Range { focus: VisIdx(2), extent: VisIdx(4) }
    );
    assert_eq!(slices.to_axis_selection(TableAxis::Rows, &demap), IndicesSelection::NoSelection);
}

#[test]
fn vis_index_selected_ignores_the_direction_of_a_range() {
    assert!(!IndicesSelection::NoSelection.vis_index_selected(VisIdx(0)));
    assert!(IndicesSelection::Single(VisIdx(3)).vis_index_selected(VisIdx(3)));
    assert!(!IndicesSelection::Single(VisIdx(3)).vis_index_selected(VisIdx(4)));
    for range in [
        IndicesSelection::Range { focus: VisIdx(2), extent: VisIdx(5) },
        IndicesSelection::Range { focus: VisIdx(5), extent: VisIdx(2) },
    ] {
        assert!(!range.vis_index_selected(VisIdx(1)));
        assert!(range.vis_index_selected(VisIdx(2)));
        assert!(range.vis_index_selected(VisIdx(4)));
        assert!(range.vis_index_selected(VisIdx(5)));
        assert!(!range.vis_index_selected(VisIdx(6)));
    }
}

#[test]
fn cell_rect_contains_its_borders() {
    let r = rect((1, 3), (2, 8));
    assert_eq!(r.range(TableAxis::Rows), (VisIdx(1), VisIdx(3)));
    assert_eq!(r.range(TableAxis::Columns), (VisIdx(2), VisIdx(8)));
    assert!(r.contains_idx(TableAxis::Rows, VisIdx(1)));
    assert!(r.contains_idx(TableAxis::Rows, VisIdx(3)));
    assert!(!r.contains_idx(TableAxis::Rows, VisIdx(4)));
    assert!(!r.contains_idx(TableAxis::Columns, VisIdx(1)));
    assert!(r.contains_cell(&vis(3, 8)));
    assert!(!r.contains_cell(&vis(3, 9)));
    assert!(!r.contains_cell(&vis(0, 5)));
    assert_eq!(r.rows(), vec![VisIdx(1), VisIdx(2), VisIdx(3)]);
    assert_eq!(r.cols().len(), 7);
    assert_eq!(r.cols()[0], VisIdx(2));
    assert_eq!(r.cols()[6], VisIdx(8));
}

#[test]
fn slice_rect_has_a_margin_across() {
    let row = SingleSlice::new(TableAxis::Rows, cell(5, 0));
    assert_eq!(row.to_cell_rect((VisIdx(2), VisIdx(8))), rect((5, 5), (1, 9)));
    assert_eq!(row.to_cell_rect((VisIdx(0), VisIdx(8))), rect((5, 5), (0, 9)));
    let col = SingleSlice::new(TableAxis::Columns, cell(0, 3));
    assert_eq!(col.to_cell_rect((VisIdx(4), VisIdx(6))), rect((3, 7), (3, 3)));
    let rows = SliceRange { axis: TableAxis::Rows, range: CellRange::new(cell(7, 0), cell(4, 0)) };
    assert_eq!(rows.to_cell_rect((VisIdx(2), VisIdx(8))), rect((4, 7), (1, 9)));
}

fn drawn(sel: &TableSelection, bounding: &CellRect) -> (Option<AxisPair<VisIdx>>, Vec<CellRect>) {
    let DrawableSelections { focus, ranges } = sel.get_drawable_selections(bounding);
    (focus, ranges)
}

#[test]
fn drawable_slice_is_clipped_to_the_visible_cross_axis() {
    let sel = TableSelection::SingleSlice(SingleSlice::new(TableAxis::Rows, cell(5, 3)));
    let (focus, ranges) = drawn(&sel, &rect((0, 10), (2, 8)));
    assert_eq!(focus, Some(vis(5, 3)));
    assert_eq!(ranges, vec![rect((5, 5), (1, 9))]);
    let (focus, ranges) = drawn(&sel, &rect((6, 10), (2, 8)));
    assert_eq!(focus, None);
    assert_eq!(ranges, Vec::new());
}

#[test]
fn drawable_focus_is_given_only_among_the_shown_cells() {
    // The row of the slice is shown, the column of its focus is not.
    let slice = TableSelection::SingleSlice(SingleSlice::new(TableAxis::Rows, cell(5, 0)));
    let (focus, ranges) = drawn(&slice, &rect((0, 10), (2, 8)));
    assert_eq!(focus, None);
    assert_eq!(ranges, vec![rect((5, 5), (1, 9))]);
    // A block that reaches into the shown cells from a focus outside them.
    let block = TableSelection::CellRange(CellRange::new(cell(20, 20), cell(3, 4)));
    let (focus, ranges) = drawn(&block, &rect((0, 10), (0, 10)));
    assert_eq!(focus, None);
    assert_eq!(ranges, vec![rect((3, 20), (4, 20))]);
    // A run of slices whose extent is shown and whose focus is not.
    let run = TableSelection::SliceRange(SliceRange {
        axis: TableAxis::Columns,
        range: CellRange::new(cell(0, 12), cell(0, 6)),
    });
    let (focus, ranges) = drawn(&run, &rect((1, 10), (5, 9)));
    assert_eq!(focus, None);
    assert_eq!(ranges, vec![rect((0, 11), (6, 12))]);
}

#[test]
fn drawable_single_cell_has_no_ranges() {
    let sel = TableSelection::SingleCell(cell(3, 3));
    assert_eq!(drawn(&sel, &rect((0, 10), (0, 10))), (Some(vis(3, 3)), Vec::new()));
    assert_eq!(drawn(&sel, &rect((4, 10), (0, 10))), (None, Vec::new()));
    assert_eq!(drawn(&TableSelection::NoSelection, &rect((0, 10), (0, 10))), (None, Vec::new()));
}

#[test]
fn drawable_cell_range_is_drawn_where_it_is_shown() {
    let sel = TableSelection::CellRange(CellRange::new(cell(6, 1), cell(2, 4)));
    let whole = vec![rect((2, 6), (1, 4))];
    assert_eq!(drawn(&sel, &rect((0, 10), (0, 10))), (Some(vis(6, 1)), whole.clone()));
    // One corner of the block is shown, its focus is not.
    assert_eq!(drawn(&sel, &rect((0, 3), (3, 9))), (None, whole.clone()));
    // Nothing of the block is shown.
    assert_eq!(drawn(&sel, &rect((20, 30), (20, 30))), (None, Vec::new()));
    assert_eq!(drawn(&sel, &rect((0, 10), (5, 9))), (None, Vec::new()));
    // Shown cells that are none at all hold nothing of it.
    assert_eq!(drawn(&sel, &rect((5, 3), (0, 10))), (None, Vec::new()));
}

#[test]
fn drawable_slice_range_needs_a_visible_end() {
    let sel = TableSelection::SliceRange(SliceRange {
        axis: TableAxis::Columns,
        range: CellRange::new(cell(3, 6), cell(0, 2)),
    });
    let block = vec![rect((0, 11), (2, 6))];
    assert_eq!(drawn(&sel, &rect((1, 10), (5, 9))), (Some(vis(3, 6)), block.clone()));
    assert_eq!(drawn(&sel, &rect((1, 10), (0, 3))), (None, block.clone()));
    assert_eq!(drawn(&sel, &rect((1, 10), (3, 5))), (None, Vec::new()));
}

#[test]
fn blocks_overlap_where_they_share_a_cell() {
    let a = rect((2, 6), (1, 4));
    assert!(a.overlaps(&rect((6, 9), (4, 9))));
    assert!(rect((6, 9), (4, 9)).overlaps(&a));
    assert!(a.overlaps(&rect((0, 10), (0, 10))));
    assert!(a.overlaps(&a));
    assert!(!a.overlaps(&rect((7, 9), (1, 4))));
    assert!(!a.overlaps(&rect((2, 6), (5, 9))));
    assert!(!a.overlaps(&rect((6, 2), (1, 4))));
    let range = CellRange::new(cell(6, 1), cell(2, 4));
    assert_eq!(range.to_cell_rect(), a);
    assert_eq!(CellRange::new(cell(2, 4), cell(6, 1)).to_cell_rect(), a);
}

#[test]
fn drawable_selections_are_the_same_when_asked_twice() {
    let bounding = rect((0, 10), (2, 8));
    let range = CellRange::new(cell(1, 2), cell(3, 4));
    let all = [
        TableSelection::NoSelection,
        TableSelection::SingleCell(cell(1, 2)),
        TableSelection::SingleSlice(SingleSlice::new(TableAxis::Rows, cell(1, 2))),
        TableSelection::CellRange(range),
        TableSelection::SliceRange(SliceRange { axis: TableAxis::Columns, range }),
    ];
    for sel in all {
        assert_eq!(drawn(&sel, &bounding), drawn(&sel, &bounding));
    }
}

#[test]
fn drawable_selections_default_to_nothing() {
    let nothing = DrawableSelections::default();
    assert_eq!(nothing.focus, None);
    assert!(nothing.ranges.is_empty());
    let some = DrawableSelections::new(Some(vis(1, 1)), vec![rect((0, 1), (0, 1))]);
    assert_eq!(some.focus, Some(vis(1, 1)));
    assert_eq!(some.ranges, vec![rect((0, 1), (0, 1))]);
}

#[test]
fn a_function_is_a_selection_change() {
    let to_origin = |sel: &TableSelection| -> Option<TableSelection> {
        if sel.has_focus() {
            Some(TableSelection::SingleCell(cell(0, 0)))
        } else {
            None
        }
    };
    assert_eq!(to_origin.new_selection(&TableSelection::NoSelection), None);
    assert_eq!(
        to_origin.new_selection(&TableSelection::SingleCell(cell(4, 4))),
        Some(TableSelection::SingleCell(cell(0, 0)))
    );
}

/// A change that clears the selection.
struct Clear;

impl TableSelectionMod for Clear {
    fn new_selection(&self, _sel: &TableSelection) -> Option<TableSelection> {
        Some(TableSelection::NoSelection)
    }
}

#[test]
fn a_change_can_be_a_type_of_its_own() {
    let before = TableSelection::SingleCell(cell(4, 4));
    assert_eq!(Clear.new_selection(&before), Some(TableSelection::NoSelection));
}
