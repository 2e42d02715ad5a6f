//! Coordinates, selection and ordering for a table of rows and columns.
//!
//! A table shows its data in a *visual* order that may differ from the
//! *logical* order in which the data is stored. This crate holds the part of a
//! table widget that can be reasoned about without a screen: the two kinds of
//! index, the selection and how it changes, and the computation of the visual
//! order from a sort specification.

pub mod axis_measure;
pub mod columns;
pub mod data;
pub mod selection;

pub use axis_measure::{AxisPair, LogIdx, TableAxis, VisIdx, VisOffset};
pub use columns::{
    CellCtx, DataCompare, FuncWrapped, Projection, ProvidedColumns, TableColumn,
};
pub use data::{
    IndexedItems, Remap, RemapDetails, RemapSpec, Remapper, SortDirection, SortSpec,
};
pub use selection::{
    CellDemap, CellRange, CellRect, DrawableSelections, IndicesSelection, SingleCell, SingleSlice,
    SliceRange, TableSelection, TableSelectionMod,
};
