//! What is selected in a table, and how a selection changes.

use crate::axis_measure::{AxisPair, LogIdx, TableAxis, VisIdx, VisOffset};
use vstd::prelude::*;

verus! {

/// A block of cells: the visual rows from `start_row` to `end_row` and the
/// visual columns from `start_col` to `end_col`, all four included. A block
/// exists in visual order only: under a reordering the same cells need not
/// lie together in the logical order.
#[derive(Clone, Copy, Debug, PartialEq, Eq, Structural)]
pub struct CellRect {
    pub start_row: VisIdx,
    pub end_row: VisIdx,
    pub start_col: VisIdx,
    pub end_col: VisIdx,
}

impl CellRect {
    /// The two ends of the block along `axis`, first then last.
    pub open spec fn spec_range(&self, axis: TableAxis) -> (VisIdx, VisIdx) {
        match axis {
            TableAxis::Rows => (self.start_row, self.end_row),
            TableAxis::Columns => (self.start_col, self.end_col),
        }
    }

    /// Whether position `idx` along `axis` lies within the block.
    pub open spec fn spec_contains_idx(&self, axis: TableAxis, idx: VisIdx) -> bool {
        self.spec_range(axis).0.0 <= idx.0 <= self.spec_range(axis).1.0
    }

    /// Whether the cell at `cell_addr` lies within the block.
    pub open spec fn spec_contains_cell(&self, cell_addr: &AxisPair<VisIdx>) -> bool {
        self.spec_contains_idx(TableAxis::Columns, cell_addr.col) && self.spec_contains_idx(
            TableAxis::Rows,
            cell_addr.row,
        )
    }

    /// Whether the block and `other` have a position along `axis` in common.
    pub open spec fn shares_idx(&self, axis: TableAxis, other: &CellRect) -> bool {
        &&& self.spec_range(axis).0.0 <= self.spec_range(axis).1.0
        &&& other.spec_range(axis).0.0 <= other.spec_range(axis).1.0
        &&& self.spec_range(axis).0.0 <= other.spec_range(axis).1.0
        &&& other.spec_range(axis).0.0 <= self.spec_range(axis).1.0
    }

    /// Whether the block and `other` have a cell in common.
    pub open spec fn spec_overlaps(&self, other: &CellRect) -> bool {
        self.shares_idx(TableAxis::Rows, other) && self.shares_idx(TableAxis::Columns, other)
    }

    /// Two blocks overlap exactly where some cell lies within both.
    pub proof fn lemma_overlap_is_a_common_cell(&self, other: &CellRect)
        ensures
            self.spec_overlaps(other) <==> exists|cell: AxisPair<VisIdx>|
                self.spec_contains_cell(&cell) && other.spec_contains_cell(&cell),
    {
        if self.spec_overlaps(other) {
            let row = if self.start_row.0 <= other.start_row.0 {
                other.start_row
            } else {
                self.start_row
            };
            let col = if self.start_col.0 <= other.start_col.0 {
                other.start_col
            } else {
                self.start_col
            };
            let cell = AxisPair { row, col };
            assert(self.spec_contains_cell(&cell) && other.spec_contains_cell(&cell));
        }
    }

    /// Whether the block and `other` have a cell in common.
    #[verifier::when_used_as_spec(spec_overlaps)]
    pub fn overlaps(&self, other: &CellRect) -> (common: bool)
        ensures
            common == self.spec_overlaps(other),
    {
        self.start_row.0 <= self.end_row.0 && other.start_row.0 <= other.end_row.0
            && self.start_row.0 <= other.end_row.0 && other.start_row.0 <= self.end_row.0
            && self.start_col.0 <= self.end_col.0 && other.start_col.0 <= other.end_col.0
            && self.start_col.0 <= other.end_col.0 && other.start_col.0 <= self.end_col.0
    }

    /// The block between the given first and last rows and first and last
    /// columns.
    pub fn new(rows: (VisIdx, VisIdx), cols: (VisIdx, VisIdx)) -> (rect: CellRect)
        ensures
            rect == (CellRect {
                start_row: rows.0,
                end_row: rows.1,
                start_col: cols.0,
                end_col: cols.1,
            }),
    {
        CellRect { start_row: rows.0, end_row: rows.1, start_col: cols.0, end_col: cols.1 }
    }

    /// The visual rows of the block, in rising order. Their number has to be
    /// one that a vector can hold.
    pub fn rows(&self) -> (rows: Vec<VisIdx>)
        requires
            self.end_row.0 - self.start_row.0 < usize::MAX,
        ensures
            rows@ == VisIdx::spec_range_inc(self.start_row, self.end_row),
    {
        VisIdx::range_inc(self.start_row, self.end_row)
    }

    /// The visual columns of the block, in rising order. Their number has to
    /// be one that a vector can hold.
    pub fn cols(&self) -> (cols: Vec<VisIdx>)
        requires
            self.end_col.0 - self.start_col.0 < usize::MAX,
        ensures
            cols@ == VisIdx::spec_range_inc(self.start_col, self.end_col),
    {
        VisIdx::range_inc(self.start_col, self.end_col)
    }

    /// Whether the cell at `cell_addr` lies within the block.
    #[verifier::when_used_as_spec(spec_contains_cell)]
    pub fn contains_cell(&self, cell_addr: &AxisPair<VisIdx>) -> (inside: bool)
        ensures
            inside == self.spec_contains_cell(cell_addr),
    {
        self.contains_idx(TableAxis::Columns, cell_addr.col) && self.contains_idx(
            TableAxis::Rows,
            cell_addr.row,
        )
    }

    /// The two ends of the block along `axis`, first then last.
    #[verifier::when_used_as_spec(spec_range)]
    pub fn range(&self, axis: TableAxis) -> (ends: (VisIdx, VisIdx))
        ensures
            ends == self.spec_range(axis),
    {
        match axis {
            TableAxis::Rows => (self.start_row, self.end_row),
            TableAxis::Columns => (self.start_col, self.end_col),
        }
    }

    /// Whether position `idx` along `axis` lies within the block.
    #[verifier::when_used_as_spec(spec_contains_idx)]
    pub fn contains_idx(&self, axis: TableAxis, idx: VisIdx) -> (inside: bool)
        ensures
            inside == self.spec_contains_idx(axis, idx),
    {
        let (start, end) = self.range(axis);
        start.0 <= idx.0 && end.0 >= idx.0
    }
}

/// One cell, by its visual and by its logical address. The two are taken
/// together when the cell is looked up and are not changed apart.
#[derive(Clone, Copy, Debug, PartialEq, Eq, Structural)]
pub struct SingleCell {
    pub vis: AxisPair<VisIdx>,
    pub log: AxisPair<LogIdx>,
}

impl SingleCell {
    /// The cell with the given visual and logical address.
    pub fn new(vis: AxisPair<VisIdx>, log: AxisPair<LogIdx>) -> (cell: SingleCell)
        ensures
            cell == (SingleCell { vis, log }),
    {
        SingleCell { vis, log }
    }
}

/// The cells between two corners: `focus`, the corner that was chosen last,
/// and `extent`, the corner opposite to it.
#[derive(Clone, Copy, Debug, PartialEq, Eq, Structural)]
pub struct CellRange {
    pub focus: SingleCell,
    pub extent: SingleCell,
}

impl CellRange {
    /// The block of the cells of the range: from the smaller to the larger of
    /// the rows of its two corners, and likewise of their columns.
    pub open spec fn spec_to_cell_rect(&self) -> CellRect {
        CellRect {
            start_row: VisIdx::ascending(self.focus.vis.row, self.extent.vis.row).0,
            end_row: VisIdx::ascending(self.focus.vis.row, self.extent.vis.row).1,
            start_col: VisIdx::ascending(self.focus.vis.col, self.extent.vis.col).0,
            end_col: VisIdx::ascending(self.focus.vis.col, self.extent.vis.col).1,
        }
    }

    /// The range between the two corners.
    pub fn new(focus: SingleCell, extent: SingleCell) -> (range: CellRange)
        ensures
            range == (CellRange { focus, extent }),
    {
        CellRange { focus, extent }
    }

    /// The block of the cells of the range, whichever of its corners is the
    /// focus. Both corners lie within it.
    #[verifier::when_used_as_spec(spec_to_cell_rect)]
    pub fn to_cell_rect(&self) -> (rect: CellRect)
        ensures
            rect == self.spec_to_cell_rect(),
            rect.contains_cell(&self.focus.vis),
            rect.contains_cell(&self.extent.vis),
    {
        let row = VisIdx::ascending(
            self.focus.vis[TableAxis::Rows],
            self.extent.vis[TableAxis::Rows],
        );
        let col = VisIdx::ascending(
            self.focus.vis[TableAxis::Columns],
            self.extent.vis[TableAxis::Columns],
        );
        CellRect::new(row, col)
    }
}

/// The margin by which a slice is drawn beyond the visible cells of its cross
/// axis, so that its border falls outside them: one cell before the first and
/// one after the last, as far as there are positions.
pub open spec fn cross_with_margin(cross: (VisIdx, VisIdx)) -> (VisIdx, VisIdx) {
    (cross.0.offset_by(VisOffset(-1isize)), cross.1.offset_by(VisOffset(1isize)))
}

/// The block that takes `main` along `axis` and `cross` along the other axis.
pub open spec fn rect_for_axis(axis: TableAxis, main: (VisIdx, VisIdx), cross: (VisIdx, VisIdx)) -> CellRect {
    match axis {
        TableAxis::Rows => CellRect {
            start_row: main.0,
            end_row: main.1,
            start_col: cross.0,
            end_col: cross.1,
        },
        TableAxis::Columns => CellRect {
            start_row: cross.0,
            end_row: cross.1,
            start_col: main.0,
            end_col: main.1,
        },
    }
}

/// A whole row or a whole column: the one along `axis` that holds `focus`.
#[derive(Clone, Copy, Debug, PartialEq, Eq, Structural)]
pub struct SingleSlice {
    pub axis: TableAxis,
    pub focus: SingleCell,
}

impl SingleSlice {
    /// The block that the slice covers where the cross axis shows the
    /// positions `cross.0` to `cross.1`.
    pub open spec fn spec_to_cell_rect(&self, cross: (VisIdx, VisIdx)) -> CellRect {
        let main = self.focus.vis.at(self.axis);
        rect_for_axis(self.axis, (main, main), cross_with_margin(cross))
    }

    /// The slice along `axis` through `focus`.
    pub fn new(axis: TableAxis, focus: SingleCell) -> (slice: SingleSlice)
        ensures
            slice == (SingleSlice { axis, focus }),
    {
        SingleSlice { axis, focus }
    }

    /// The block that the slice covers where the cross axis shows the
    /// positions `cross.0` to `cross.1`: the one position of the slice along
    /// its own axis, and the shown positions with their margin along the
    /// other.
    #[verifier::when_used_as_spec(spec_to_cell_rect)]
    pub fn to_cell_rect(&self, cross: (VisIdx, VisIdx)) -> (rect: CellRect)
        ensures
            rect == self.spec_to_cell_rect(cross),
    {
        let main = self.focus.vis[self.axis];
        let main = (main, main);
        let cross = (cross.0 + VisOffset(-1), cross.1 + VisOffset(1));
        match self.axis {
            TableAxis::Rows => CellRect::new(main, cross),
            TableAxis::Columns => CellRect::new(cross, main),
        }
    }
}

/// A run of whole rows or whole columns: the slices along `axis` from the
/// one through the focus of `range` to the one through its extent.
#[derive(Clone, Copy, Debug, PartialEq, Eq, Structural)]
pub struct SliceRange {
    pub axis: TableAxis,
    pub range: CellRange,
}

impl SliceRange {
    /// The block that the run covers where the cross axis shows the
    /// positions `cross.0` to `cross.1`.
    pub open spec fn spec_to_cell_rect(&self, cross: (VisIdx, VisIdx)) -> CellRect {
        let main = VisIdx::ascending(
            self.range.focus.vis.at(self.axis),
            self.range.extent.vis.at(self.axis),
        );
        rect_for_axis(self.axis, main, cross_with_margin(cross))
    }

    /// The block that the run covers where the cross axis shows the
    /// positions `cross.0` to `cross.1`: along its own axis from the smaller
    /// to the larger of its two ends, and the shown positions with their
    /// margin along the other.
    #[verifier::when_used_as_spec(spec_to_cell_rect)]
    pub fn to_cell_rect(&self, cross: (VisIdx, VisIdx)) -> (rect: CellRect)
        ensures
            rect == self.spec_to_cell_rect(cross),
    {
        let main = VisIdx::ascending(
            self.range.focus.vis[self.axis],
            self.range.extent.vis[self.axis],
        );
        let cross = (cross.0 + VisOffset(-1), cross.1 + VisOffset(1));
        match self.axis {
            TableAxis::Rows => CellRect::new(main, cross),
            TableAxis::Columns => CellRect::new(cross, main),
        }
    }
}

/// What a selection selects along one axis.
#[derive(Clone, Copy, Debug, PartialEq, Eq, Structural)]
pub enum IndicesSelection {
    NoSelection,
    Single(VisIdx),
    Range { focus: VisIdx, extent: VisIdx },
}

impl IndicesSelection {
    /// Whether position `vis_idx` is selected.
    pub open spec fn spec_vis_index_selected(&self, vis_idx: VisIdx) -> bool {
        match *self {
            IndicesSelection::NoSelection => false,
            IndicesSelection::Single(sel_vis) => sel_vis == vis_idx,
            IndicesSelection::Range { focus, extent } => {
                let ends = VisIdx::ascending(focus, extent);
                ends.0.0 <= vis_idx.0 <= ends.1.0
            },
        }
    }

    /// Whether position `vis_idx` is selected: it is the single position, or
    /// it lies between the two ends of the range, whichever of them is the
    /// focus.
    #[verifier::when_used_as_spec(spec_vis_index_selected)]
    pub fn vis_index_selected(&self, vis_idx: VisIdx) -> (selected: bool)
        ensures
            selected == self.spec_vis_index_selected(vis_idx),
    {
        match self {
            IndicesSelection::Single(sel_vis) => sel_vis.0 == vis_idx.0,
            IndicesSelection::Range { focus, extent } => {
                let (min, max) = VisIdx::ascending(*focus, *extent);
                vis_idx.0 >= min.0 && vis_idx.0 <= max.0
            },
            _ => false,
        }
    }
}

/// The selection of a table: nothing, one cell, one whole row or column, a
/// block of cells, or a run of whole rows or columns. Every selection but the
/// empty one has a focus, the cell that was chosen last.
#[derive(Clone, Copy, Debug, PartialEq, Eq, Structural)]
pub enum TableSelection {
    NoSelection,
    SingleCell(SingleCell),
    SingleSlice(SingleSlice),
    CellRange(CellRange),
    SliceRange(SliceRange),
}

impl Default for TableSelection {
    /// The empty selection, with which a table starts.
    fn default() -> (sel: TableSelection)
        ensures
            sel == TableSelection::NoSelection,
    {
        TableSelection::NoSelection
    }
}

/// The address made of a row and a column, where both are known.
pub open spec fn both_axes(row: Option<LogIdx>, col: Option<LogIdx>) -> Option<AxisPair<LogIdx>> {
    match (row, col) {
        (Some(row), Some(col)) => Some(AxisPair { row, col }),
        _ => None,
    }
}

/// The lookup from where a cell is shown to where its data is stored. The
/// table that owns the data provides it and keeps it in step with the current
/// order of the rows; a selection stores no such mapping and asks each time.
///
/// An implementation may give the lookup a model, `log_idx`, and say so in
/// `obeys_log_idx_spec`; its answers are then held to the model. Of an
/// implementation that gives none, nothing is taken for granted.
pub trait CellDemap {
    /// Whether `log_idx` is a model of this lookup: whether `get_log_idx`
    /// answers as `log_idx` says. It is not, unless an implementation says
    /// that it is.
    open spec fn obeys_log_idx_spec(&self) -> bool {
        false
    }

    /// The model of the lookup, where it has one (see `obeys_log_idx_spec`):
    /// the logical position that is shown at visual position `vis` along
    /// `axis`, if the table has such a position.
    open spec fn log_idx(&self, axis: TableAxis, vis: VisIdx) -> Option<LogIdx> {
        arbitrary()
    }

    /// The logical position that is shown at visual position `vis` along
    /// `axis`, or `None` where the table has no such position.
    fn get_log_idx(&self, axis: TableAxis, vis: &VisIdx) -> (log: Option<LogIdx>)
        ensures
            self.obeys_log_idx_spec() ==> log == self.log_idx(axis, *vis),
    ;

    /// The logical address of the cell shown at `vis`. As provided here it is
    /// made of what `get_log_idx` answers for the row and for the column, and
    /// is `None` where either answer is.
    fn get_log_cell(&self, vis: &AxisPair<VisIdx>) -> (log: Option<AxisPair<LogIdx>>)
        ensures
            self.obeys_log_idx_spec() ==> log == both_axes(
                self.log_idx(TableAxis::Rows, vis.row),
                self.log_idx(TableAxis::Columns, vis.col),
            ),
        default_ensures
            match log {
                Some(cell) => {
                    &&& call_ensures(
                        Self::get_log_idx,
                        (self, TableAxis::Rows, &vis.row),
                        Some(cell.row),
                    )
                    &&& call_ensures(
                        Self::get_log_idx,
                        (self, TableAxis::Columns, &vis.col),
                        Some(cell.col),
                    )
                },
                None => {
                    ||| call_ensures(Self::get_log_idx, (self, TableAxis::Rows, &vis.row), None)
                    ||| call_ensures(Self::get_log_idx, (self, TableAxis::Columns, &vis.col), None)
                },
            },
    {
        match self.get_log_idx(TableAxis::Rows, &vis.row) {
            Some(row) => match self.get_log_idx(TableAxis::Columns, &vis.col) {
                Some(col) => Some(AxisPair::new(row, col)),
                None => None,
            },
            None => None,
        }
    }
}

/// Whether `found` is an answer of `demap` to the question which cell is
/// shown at `vis`: the cell at `vis` with a logical address that `demap`
/// gives for it, or `None` where `demap` says that there is no such cell.
pub open spec fn may_find<D: CellDemap>(
    demap: &D,
    vis: AxisPair<VisIdx>,
    found: Option<SingleCell>,
) -> bool {
    match found {
        Some(cell) => cell.vis == vis && call_ensures(
            D::get_log_cell,
            (demap, &vis),
            Some(cell.log),
        ),
        None => call_ensures(D::get_log_cell, (demap, &vis), None),
    }
}

/// The cell that is shown at `vis` by the model of `demap`, with both of its
/// addresses: none where the model lacks the row or the column.
pub open spec fn cell_at<D: CellDemap>(demap: &D, vis: AxisPair<VisIdx>) -> Option<SingleCell> {
    match both_axes(
        demap.log_idx(TableAxis::Rows, vis.row),
        demap.log_idx(TableAxis::Columns, vis.col),
    ) {
        Some(log) => Some(SingleCell { vis, log }),
        None => None,
    }
}

/// A lookup that has a model finds what the model says, and nothing else.
pub proof fn lemma_model_decides<D: CellDemap>(
    demap: &D,
    vis: AxisPair<VisIdx>,
    found: Option<SingleCell>,
)
    requires
        demap.obeys_log_idx_spec(),
        may_find(demap, vis, found),
    ensures
        found == cell_at(demap, vis),
{
}

/// What is to be drawn of a selection: the address of its focus, and the
/// blocks of cells to highlight.
#[derive(Debug)]
pub struct DrawableSelections {
    pub focus: Option<AxisPair<VisIdx>>,
    pub ranges: Vec<CellRect>,
}

impl Default for DrawableSelections {
    /// Nothing to draw.
    fn default() -> (drawable: DrawableSelections)
        ensures
            drawable.focus.is_none(),
            drawable.ranges@ == Seq::<CellRect>::empty(),
    {
        DrawableSelections { focus: None, ranges: Vec::new() }
    }
}

impl DrawableSelections {
    /// The given focus and blocks, to be drawn.
    pub fn new(focus: Option<AxisPair<VisIdx>>, ranges: Vec<CellRect>) -> (drawable:
        DrawableSelections)
        ensures
            drawable.focus == focus,
            drawable.ranges == ranges,
    {
        DrawableSelections { focus, ranges }
    }
}

impl TableSelection {
    /// The cell that was chosen last, if anything is selected.
    pub open spec fn spec_focus(&self) -> Option<SingleCell> {
        match *self {
            TableSelection::NoSelection => None,
            TableSelection::SingleCell(cell) => Some(cell),
            TableSelection::SingleSlice(slice) => Some(slice.focus),
            TableSelection::CellRange(range) => Some(range.focus),
            TableSelection::SliceRange(slices) => Some(slices.range.focus),
        }
    }

    /// The visual address of the focus, if anything is selected.
    pub open spec fn spec_vis_focus(&self) -> Option<AxisPair<VisIdx>> {
        match self.spec_focus() {
            Some(cell) => Some(cell.vis),
            None => None,
        }
    }

    /// Whether anything is selected.
    pub open spec fn spec_has_focus(&self) -> bool {
        !(*self is NoSelection)
    }

    /// The visual address at which the focus is to be after a move by
    /// `amount` along `axis`. With nothing selected the focus goes to the
    /// first cell, whatever the axis and the amount. Every other selection
    /// moves its focus by the amount along `axis`, and along no other axis.
    pub open spec fn focus_target(&self, axis: TableAxis, amount: VisOffset) -> AxisPair<VisIdx> {
        match self.spec_vis_focus() {
            Some(vis) => vis.move_by(axis, amount),
            None => AxisPair { row: VisIdx(0), col: VisIdx(0) },
        }
    }

    /// The selection that a move of the focus to `cell` leaves: a single cell
    /// where there was nothing, a cell or a block of cells, and a single slice
    /// of the same axis where there was a slice or a run of slices. An extent
    /// is dropped.
    pub open spec fn refocused(&self, cell: SingleCell) -> TableSelection {
        match *self {
            TableSelection::NoSelection => TableSelection::SingleCell(cell),
            TableSelection::SingleCell(_) => TableSelection::SingleCell(cell),
            TableSelection::SingleSlice(slice) => TableSelection::SingleSlice(
                SingleSlice { axis: slice.axis, focus: cell },
            ),
            TableSelection::CellRange(_) => TableSelection::SingleCell(cell),
            TableSelection::SliceRange(slices) => TableSelection::SingleSlice(
                SingleSlice { axis: slices.axis, focus: cell },
            ),
        }
    }

    /// The selection after a move of the focus that led to `found`: none
    /// where the target is no cell of the table.
    pub open spec fn spec_focus_moved(&self, found: Option<SingleCell>) -> Option<TableSelection> {
        match found {
            Some(cell) => Some(self.refocused(cell)),
            None => None,
        }
    }

    /// The selection that stretches this one to `sel`: the block from the
    /// focus of this selection to the cell `sel`, where this selection is a
    /// cell or a block of cells and `sel` is a single cell. Nothing else can
    /// be stretched.
    pub open spec fn spec_move_extent(&self, sel: TableSelection) -> Option<TableSelection> {
        match (*self, sel) {
            (TableSelection::SingleCell(cur), TableSelection::SingleCell(ext)) => Some(
                TableSelection::CellRange(CellRange { focus: cur, extent: ext }),
            ),
            (TableSelection::CellRange(range), TableSelection::SingleCell(ext)) => Some(
                TableSelection::CellRange(CellRange { focus: range.focus, extent: ext }),
            ),
            _ => None,
        }
    }

    /// The address of the first cell of the slice at position `vis` along
    /// `axis`.
    pub open spec fn slice_start(axis: TableAxis, vis: VisIdx) -> AxisPair<VisIdx> {
        (AxisPair { row: VisIdx(0), col: VisIdx(0) }).with(axis, vis)
    }

    /// The selection after the slice at position `vis` along `axis` was
    /// chosen, where `found` is the first cell of that slice: the slice, or
    /// the selection as it was where the table has no such cell.
    pub open spec fn spec_selected_in_axis(
        &self,
        axis: TableAxis,
        found: Option<SingleCell>,
    ) -> TableSelection {
        match found {
            Some(cell) => TableSelection::SingleSlice(SingleSlice { axis, focus: cell }),
            None => *self,
        }
    }

    /// The selection after it was stretched to the slice at position `vis`
    /// along `axis`, where `found` is the first cell of that slice: the run
    /// of slices from the focus to that cell where there is a focus, the
    /// single slice where there is none, and the selection as it was where
    /// the table has no such cell.
    pub open spec fn spec_extended_in_axis(
        &self,
        axis: TableAxis,
        found: Option<SingleCell>,
    ) -> TableSelection {
        match (self.spec_focus(), found) {
            (Some(focus), Some(cell)) => TableSelection::SliceRange(
                SliceRange { axis, range: CellRange { focus, extent: cell } },
            ),
            (None, Some(cell)) => TableSelection::SingleSlice(SingleSlice { axis, focus: cell }),
            (_, None) => *self,
        }
    }

    /// The slice along `axis` through the cell `found`, as a selection.
    pub open spec fn spec_slice_through(axis: TableAxis, found: Option<SingleCell>) -> Option<
        TableSelection,
    > {
        match found {
            Some(cell) => Some(TableSelection::SingleSlice(SingleSlice { axis, focus: cell })),
            None => None,
        }
    }

    /// What the selection selects along `for_axis`: the position of a cell,
    /// the two ends of a block, and of a slice or a run of slices their
    /// positions along their own axis. A slice selects nothing along the
    /// other axis.
    pub open spec fn spec_to_axis_selection(&self, for_axis: TableAxis) -> IndicesSelection {
        match *self {
            TableSelection::NoSelection => IndicesSelection::NoSelection,
            TableSelection::SingleCell(cell) => IndicesSelection::Single(cell.vis.at(for_axis)),
            TableSelection::SingleSlice(slice) => if for_axis == slice.axis {
                IndicesSelection::Single(slice.focus.vis.at(slice.axis))
            } else {
                IndicesSelection::NoSelection
            },
            TableSelection::CellRange(range) => IndicesSelection::Range {
                focus: range.focus.vis.at(for_axis),
                extent: range.extent.vis.at(for_axis),
            },
            TableSelection::SliceRange(slices) => if for_axis == slices.axis {
                IndicesSelection::Range {
                    focus: slices.range.focus.vis.at(slices.axis),
                    extent: slices.range.extent.vis.at(slices.axis),
                }
            } else {
                IndicesSelection::NoSelection
            },
        }
    }

    /// Whether the selection is highlighted while the cells of `bounding` are
    /// shown: a cell that lies among them, a slice whose position along its
    /// own axis is shown, a run of slices of which either end is shown, and a
    /// block of cells of which some cell is shown.
    pub open spec fn is_drawn_in(&self, bounding: &CellRect) -> bool {
        match *self {
            TableSelection::NoSelection => false,
            TableSelection::SingleCell(cell) => bounding.contains_cell(&cell.vis),
            TableSelection::SingleSlice(slice) => bounding.contains_idx(
                slice.axis,
                slice.focus.vis.at(slice.axis),
            ),
            TableSelection::CellRange(range) => bounding.overlaps(&range.to_cell_rect()),
            TableSelection::SliceRange(slices) => bounding.contains_idx(
                slices.axis,
                slices.range.focus.vis.at(slices.axis),
            ) || bounding.contains_idx(slices.axis, slices.range.extent.vis.at(slices.axis)),
        }
    }

    /// The focus to draw while the cells of `bounding` are shown: the focus
    /// of the selection, where it lies among the shown cells.
    pub open spec fn drawable_focus(&self, bounding: &CellRect) -> Option<AxisPair<VisIdx>> {
        match self.spec_vis_focus() {
            Some(vis) => if bounding.contains_cell(&vis) {
                Some(vis)
            } else {
                None
            },
            None => None,
        }
    }

    /// The blocks to highlight while the cells of `bounding` are shown: none
    /// where the selection is not highlighted (see `is_drawn_in`) and none for
    /// a single cell; for a slice or a run of slices its block across what is
    /// shown of the other axis; for a block of cells the block itself.
    pub open spec fn drawable_ranges(&self, bounding: &CellRect) -> Seq<CellRect> {
        if !self.is_drawn_in(bounding) {
            Seq::empty()
        } else {
            match *self {
                TableSelection::NoSelection => Seq::empty(),
                TableSelection::SingleCell(_) => Seq::empty(),
                TableSelection::SingleSlice(slice) => seq![
                    slice.to_cell_rect(bounding.range(slice.axis.cross_axis())),
                ],
                TableSelection::CellRange(range) => seq![range.to_cell_rect()],
                TableSelection::SliceRange(slices) => seq![
                    slices.to_cell_rect(bounding.range(slices.axis.cross_axis())),
                ],
            }
        }
    }

    /// Whether `drawable` is what is to be drawn of the selection while the
    /// cells of `bounding` are shown.
    pub open spec fn draws(&self, bounding: &CellRect, drawable: &DrawableSelections) -> bool {
        &&& drawable.focus == self.drawable_focus(bounding)
        &&& drawable.ranges@ == self.drawable_ranges(bounding)
    }

    /// A focus is drawn only where it is shown, and with it the selection is
    /// highlighted: the focus to draw is the focus of the selection, it lies
    /// among the shown cells, and the selection is highlighted there.
    pub proof fn lemma_drawn_focus_is_shown(&self, bounding: &CellRect)
        ensures
            self.drawable_focus(bounding) matches Some(vis) ==> {
                &&& self.spec_vis_focus() == Some(vis)
                &&& bounding.spec_contains_cell(&vis)
                &&& self.is_drawn_in(bounding)
            },
            self.drawable_focus(bounding).is_some() <==> (self.spec_vis_focus() matches Some(vis)
                && bounding.spec_contains_cell(&vis)),
    {
    }

    /// The selection after the focus was moved to the cell `found`, or was to
    /// be moved to a place where the table has no cell (`None`). The shape of
    /// the selection follows from what was selected before: see `refocused`.
    pub fn focus_moved(&self, found: Option<SingleCell>) -> (moved: Option<TableSelection>)
        ensures
            moved == self.spec_focus_moved(found),
    {
        match found {
            Some(cell) => Some(
                match self {
                    TableSelection::NoSelection => TableSelection::SingleCell(cell),
                    TableSelection::SingleCell(_) => TableSelection::SingleCell(cell),
                    TableSelection::SingleSlice(slice) => TableSelection::SingleSlice(
                        SingleSlice::new(slice.axis, cell),
                    ),
                    TableSelection::CellRange(_) => TableSelection::SingleCell(cell),
                    TableSelection::SliceRange(slices) => TableSelection::SingleSlice(
                        SingleSlice::new(slices.axis, cell),
                    ),
                },
            ),
            None => None,
        }
    }

    /// The selection after its focus moved by `amount` along `axis`, or
    /// `None` where `cell_demap` knows no cell at the target, and then
    /// the selection is to stay as it is. The target is `focus_target`; it is
    /// not held within the table here beyond what `cell_demap` reports.
    pub fn move_focus<D: CellDemap>(
        &self,
        axis: TableAxis,
        amount: VisOffset,
        cell_demap: &D,
    ) -> (moved: Option<TableSelection>)
        ensures
            exists|found: Option<SingleCell>|
                {
                    &&& #[trigger] may_find(cell_demap, self.focus_target(axis, amount), found)
                    &&& moved == self.spec_focus_moved(found)
                },
            cell_demap.obeys_log_idx_spec() ==> moved == self.spec_focus_moved(
                cell_at(cell_demap, self.focus_target(axis, amount)),
            ),
    {
        let new_vis = match self.vis_focus() {
            Some(vis) => vis.move_by(axis, amount),
            None => AxisPair::new(VisIdx(0), VisIdx(0)),
        };
        assert(new_vis == self.focus_target(axis, amount));
        let found = TableSelection::look_up(new_vis, cell_demap);
        self.focus_moved(found)
    }

    /// The selection stretched to `sel`, or `None` where this selection
    /// cannot be stretched to it: see `spec_move_extent`. The selection
    /// itself is left as it is.
    #[verifier::when_used_as_spec(spec_move_extent)]
    pub fn move_extent(&self, sel: TableSelection) -> (extended: Option<TableSelection>)
        ensures
            extended == self.spec_move_extent(sel),
    {
        match (self, &sel) {
            (TableSelection::SingleCell(cur), TableSelection::SingleCell(ext)) => Some(
                TableSelection::CellRange(CellRange::new(*cur, *ext)),
            ),
            (TableSelection::CellRange(range), TableSelection::SingleCell(ext)) => Some(
                TableSelection::CellRange(CellRange::new(range.focus, *ext)),
            ),
            _ => None,
        }
    }

    /// The selection after the slice along `axis` whose first cell is
    /// `found` was chosen in place of whatever was selected, or after such a
    /// slice was asked for where the table has none (`None`): then the
    /// selection is as it was.
    pub fn selected_in_axis(&self, axis: TableAxis, found: Option<SingleCell>) -> (selected:
        TableSelection)
        ensures
            selected == self.spec_selected_in_axis(axis, found),
    {
        match found {
            Some(cell) => TableSelection::SingleSlice(SingleSlice::new(axis, cell)),
            None => *self,
        }
    }

    /// The selection after it was stretched to the slice along `axis` whose
    /// first cell is `found`: the run of slices from the focus to that cell
    /// or, with nothing selected, that slice alone. Where the table has no
    /// such slice (`None`) the selection is as it was.
    pub fn extended_in_axis(&self, axis: TableAxis, found: Option<SingleCell>) -> (extended:
        TableSelection)
        ensures
            extended == self.spec_extended_in_axis(axis, found),
    {
        match self.focus() {
            Some(focus) => match found {
                Some(cell) => TableSelection::SliceRange(
                    SliceRange { axis, range: CellRange::new(*focus, cell) },
                ),
                None => *self,
            },
            None => self.selected_in_axis(axis, found),
        }
    }

    /// The slice along `axis` through the cell `found`, as a selection; none
    /// where there is no cell.
    pub fn slice_through(axis: TableAxis, found: Option<SingleCell>) -> (slice: Option<
        TableSelection,
    >)
        ensures
            slice == TableSelection::spec_slice_through(axis, found),
    {
        match found {
            Some(cell) => Some(TableSelection::SingleSlice(SingleSlice::new(axis, cell))),
            None => None,
        }
    }

    /// Asks `cell_demap` for the cell that is shown at `vis`.
    fn look_up<D: CellDemap>(vis: AxisPair<VisIdx>, cell_demap: &D) -> (found: Option<SingleCell>)
        ensures
            may_find(cell_demap, vis, found),
            cell_demap.obeys_log_idx_spec() ==> found == cell_at(cell_demap, vis),
    {
        match cell_demap.get_log_cell(&vis) {
            Some(log) => Some(SingleCell::new(vis, log)),
            None => None,
        }
    }

    /// Stretches the selection to the slice at position `vis` along `axis`:
    /// to the run of slices from the focus to the first cell of that slice
    /// or, with nothing selected, to that slice alone. Where `cell_demap`
    /// knows no such cell the selection stays as it is.
    pub fn extend_in_axis<D: CellDemap>(&mut self, axis: TableAxis, vis: VisIdx, cell_demap: &D)
        ensures
            exists|found: Option<SingleCell>|
                {
                    &&& #[trigger] may_find(
                        cell_demap,
                        TableSelection::slice_start(axis, vis),
                        found,
                    )
                    &&& *final(self) == old(self).spec_extended_in_axis(axis, found)
                },
            cell_demap.obeys_log_idx_spec() ==> *final(self) == old(self).spec_extended_in_axis(
                axis,
                cell_at(cell_demap, TableSelection::slice_start(axis, vis)),
            ),
    {
        if self.has_focus() {
            let vis_addr = AxisPair::new_for_axis(axis, vis, VisIdx(0));
            assert(vis_addr == TableSelection::slice_start(axis, vis));
            let found = TableSelection::look_up(vis_addr, cell_demap);
            *self = self.extended_in_axis(axis, found);
        } else {
            self.select_in_axis(axis, vis, cell_demap);
        }
    }

    /// Selects the slice at position `vis` along `axis` in place of whatever
    /// was selected. Where `cell_demap` knows no first cell of that slice the
    /// selection stays as it is.
    pub fn select_in_axis<D: CellDemap>(&mut self, axis: TableAxis, vis: VisIdx, cell_demap: &D)
        ensures
            exists|found: Option<SingleCell>|
                {
                    &&& #[trigger] may_find(
                        cell_demap,
                        TableSelection::slice_start(axis, vis),
                        found,
                    )
                    &&& *final(self) == old(self).spec_selected_in_axis(axis, found)
                },
            cell_demap.obeys_log_idx_spec() ==> *final(self) == old(self).spec_selected_in_axis(
                axis,
                cell_at(cell_demap, TableSelection::slice_start(axis, vis)),
            ),
    {
        let vis_addr = AxisPair::new_for_axis(axis, vis, VisIdx(0));
        assert(vis_addr == TableSelection::slice_start(axis, vis));
        let found = TableSelection::look_up(vis_addr, cell_demap);
        *self = self.selected_in_axis(axis, found);
    }

    /// The slice along `axis` through the focus, looked up anew: `None`
    /// where nothing is selected or `cell_demap` no longer knows the cell at
    /// the focus. The selection itself is left as it is.
    pub fn extend_from_focus_in_axis<D: CellDemap>(&self, axis: &TableAxis, cell_demap: &D) -> (slice:
        Option<TableSelection>)
        ensures
            self.spec_vis_focus().is_none() ==> slice.is_none(),
            self.spec_vis_focus().is_some() ==> exists|found: Option<SingleCell>|
                {
                    &&& #[trigger] may_find(cell_demap, self.spec_vis_focus().unwrap(), found)
                    &&& slice == TableSelection::spec_slice_through(*axis, found)
                },
            cell_demap.obeys_log_idx_spec() && self.spec_vis_focus().is_some() ==> slice
                == TableSelection::spec_slice_through(
                *axis,
                cell_at(cell_demap, self.spec_vis_focus().unwrap()),
            ),
    {
        match self.vis_focus() {
            Some(vis_focus) => {
                let vis = *vis_focus;
                let found = TableSelection::look_up(vis, cell_demap);
                let slice = TableSelection::slice_through(*axis, found);
                assert(may_find(cell_demap, self.spec_vis_focus().unwrap(), found));
                slice
            },
            None => None,
        }
    }

    /// The selection with `sel` added to it, which for now is `sel` alone.
    pub fn add_selection(&self, sel: TableSelection) -> (added: Option<TableSelection>)
        ensures
            added == Some(sel),
    {
        Some(sel)
    }

    /// Whether anything is selected.
    #[verifier::when_used_as_spec(spec_has_focus)]
    pub fn has_focus(&self) -> (has: bool)
        ensures
            has == self.spec_has_focus(),
            has == self.spec_focus().is_some(),
    {
        match self {
            TableSelection::NoSelection => false,
            _ => true,
        }
    }

    /// The cell that was chosen last, if anything is selected.
    pub fn focus(&self) -> (focus: Option<&SingleCell>)
        ensures
            match focus {
                Some(cell) => self.spec_focus() == Some(*cell),
                None => self.spec_focus().is_none(),
            },
    {
        match self {
            TableSelection::NoSelection => None,
            TableSelection::SingleCell(cell) => Some(cell),
            TableSelection::SingleSlice(slice) => Some(&slice.focus),
            TableSelection::CellRange(range) => Some(&range.focus),
            TableSelection::SliceRange(slices) => Some(&slices.range.focus),
        }
    }

    /// The visual address of the focus, if anything is selected.
    pub fn vis_focus(&self) -> (focus: Option<&AxisPair<VisIdx>>)
        ensures
            match focus {
                Some(vis) => self.spec_vis_focus() == Some(*vis),
                None => self.spec_vis_focus().is_none(),
            },
    {
        match self.focus() {
            Some(cell) => Some(&cell.vis),
            None => None,
        }
    }

    /// What the selection selects along `for_axis`: see
    /// `spec_to_axis_selection`. The lookup is not consulted.
    pub fn to_axis_selection<D: CellDemap>(&self, for_axis: TableAxis, _cell_demap: &D) -> (along:
        IndicesSelection)
        ensures
            along == self.spec_to_axis_selection(for_axis),
    {
        match self {
            TableSelection::NoSelection => IndicesSelection::NoSelection,
            TableSelection::SingleCell(cell) => IndicesSelection::Single(cell.vis[for_axis]),
            TableSelection::SingleSlice(slice) => {
                if for_axis == slice.axis {
                    IndicesSelection::Single(slice.focus.vis[slice.axis])
                } else {
                    IndicesSelection::NoSelection
                }
            },
            TableSelection::CellRange(range) => IndicesSelection::Range {
                focus: range.focus.vis[for_axis],
                extent: range.extent.vis[for_axis],
            },
            TableSelection::SliceRange(slices) => {
                if for_axis == slices.axis {
                    IndicesSelection::Range {
                        focus: slices.range.focus.vis[slices.axis],
                        extent: slices.range.extent.vis[slices.axis],
                    }
                } else {
                    IndicesSelection::NoSelection
                }
            },
        }
    }

    /// What is to be drawn of the selection while the cells of `bounding`
    /// are shown. The focus is given where it lies among the shown cells, and
    /// nowhere else. The blocks to highlight are given where the selection is
    /// highlighted (see `is_drawn_in`): a slice is drawn across the shown
    /// positions of its cross axis and one position beyond them on either
    /// side, a block of cells as it is.
    pub fn get_drawable_selections(&self, bounding: &CellRect) -> (drawable: DrawableSelections)
        ensures
            self.draws(bounding, &drawable),
            drawable.focus matches Some(vis) ==> bounding.spec_contains_cell(&vis)
                && self.spec_vis_focus() == Some(vis),
    {
        let focus = match self.vis_focus() {
            Some(vis) => {
                if bounding.contains_cell(vis) {
                    Some(*vis)
                } else {
                    None
                }
            },
            None => None,
        };
        let mut ranges: Vec<CellRect> = Vec::new();
        match self {
            TableSelection::NoSelection => {},
            TableSelection::SingleCell(_) => {},
            TableSelection::SingleSlice(slice) => {
                if bounding.contains_idx(slice.axis, slice.focus.vis[slice.axis]) {
                    ranges.push(slice.to_cell_rect(bounding.range(slice.axis.cross_axis())));
                }
            },
            TableSelection::CellRange(range) => {
                let block = range.to_cell_rect();
                if bounding.overlaps(&block) {
                    ranges.push(block);
                }
            },
            TableSelection::SliceRange(slices) => {
                if bounding.contains_idx(slices.axis, slices.range.focus.vis[slices.axis])
                    || bounding.contains_idx(slices.axis, slices.range.extent.vis[slices.axis]) {
                    ranges.push(slices.to_cell_rect(bounding.range(slices.axis.cross_axis())));
                }
            },
        }
        DrawableSelections::new(focus, ranges)
    }
}

impl From<SingleCell> for TableSelection {
    /// The selection of the one cell.
    fn from(sc: SingleCell) -> (sel: TableSelection) {
        TableSelection::SingleCell(sc)
    }
}

impl vstd::std_specs::convert::FromSpecImpl<SingleCell> for TableSelection {
    open spec fn obeys_from_spec() -> bool {
        true
    }

    open spec fn from_spec(sc: SingleCell) -> TableSelection {
        TableSelection::SingleCell(sc)
    }
}

/// A change to a selection: from the selection as it is to the selection
/// that is to take its place, or to `None` where it is to stay.
pub trait TableSelectionMod {
    /// Whether the change can be asked of `sel`: as a rule, of every
    /// selection.
    open spec fn applies_to(&self, sel: &TableSelection) -> bool {
        true
    }

    /// Whether `changed` may be an outcome of the change on `sel`: as a rule,
    /// nothing is known of the outcome.
    open spec fn may_yield(&self, sel: &TableSelection, changed: Option<TableSelection>) -> bool {
        true
    }

    /// The selection that is to take the place of `sel`, if any.
    fn new_selection(&self, sel: &TableSelection) -> (changed: Option<TableSelection>)
        requires
            self.applies_to(sel),
        ensures
            self.may_yield(sel, changed),
    ;
}

/// Every function from a selection to an optional selection is a change: it
/// can be asked of what the function accepts, and yields what the function
/// returns.
impl<F: Fn(&TableSelection) -> Option<TableSelection>> TableSelectionMod for F {
    open spec fn applies_to(&self, sel: &TableSelection) -> bool {
        call_requires(*self, (sel,))
    }

    open spec fn may_yield(&self, sel: &TableSelection, changed: Option<TableSelection>) -> bool {
        call_ensures(*self, (sel,), changed)
    }

    fn new_selection(&self, sel: &TableSelection) -> (changed: Option<TableSelection>) {
        self(sel)
    }
}

/// What is drawn of a selection depends on the selection and on the shown
/// cells alone: any two answers to the same question hold the same focus and
/// the same blocks.
pub proof fn lemma_drawable_selections_deterministic(
    sel: TableSelection,
    bounding: CellRect,
    first: DrawableSelections,
    second: DrawableSelections,
)
    requires
        sel.draws(&bounding, &first),
        sel.draws(&bounding, &second),
    ensures
        first.focus == second.focus,
        first.ranges@ == second.ranges@,
{
}

/// A move of the focus never leaves a range behind: whatever was selected,
/// the outcome is a single cell or a single slice whose focus is the cell
/// that was found.
pub proof fn lemma_focus_move_collapses(sel: TableSelection, cell: SingleCell)
    ensures
        sel.refocused(cell) is SingleCell || sel.refocused(cell) is SingleSlice,
        sel.refocused(cell).spec_focus() == Some(cell),
        sel.refocused(cell) is SingleSlice <==> (sel is SingleSlice || sel is SliceRange),
{
}

/// Every selection but the empty one has a focus.
pub proof fn lemma_focus_unless_empty(sel: TableSelection)
    ensures
        sel.spec_focus().is_some() <==> !(sel is NoSelection),
        sel.spec_vis_focus().is_some() <==> !(sel is NoSelection),
{
}

} // verus!
