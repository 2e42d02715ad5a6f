//! The columns of a table: how each orders the rows, and what comes of that
//! for the order in which the rows are shown.

use crate::axis_measure::{LogIdx, TableAxis};
use crate::data::{
    item_at, lemma_rearranged_rows_once, lemma_rising_order_is_unique, lemma_stored_rows_once,
    reversed, rises_by, shows_each_row_once, stored_row_vector, stored_rows, vector_items,
    IndexedItems, Remap, RemapDetails, RemapSpec, Remapper, SortDirection, SortSpec,
};
use crate::selection::SingleCell;
use im::Vector;
use std::cmp::Ordering;
use std::marker::PhantomData;
use vstd::prelude::*;

verus! {

/// For what a cell is drawn, measured or edited.
#[derive(Debug)]
pub enum CellCtx<'a> {
    /// For no cell in particular, as for a background.
    Absent,
    /// For the given cell of the table.
    Cell(&'a SingleCell),
    /// For the heading of the row or column at the given logical position
    /// along the given axis, with the key by which the table is sorted on it,
    /// if it is.
    Header(&'a TableAxis, LogIdx, Option<&'a SortSpec>),
}

impl<'a> CellCtx<'a> {
    /// The column, out of `columns` of them, that answers for this context:
    /// the logical column of the cell, where the context is a cell in one of
    /// the columns.
    pub open spec fn spec_column_in(&self, columns: usize) -> Option<usize> {
        match *self {
            CellCtx::Cell(cell) => if cell.log.col.0 < columns {
                Some(cell.log.col.0)
            } else {
                None
            },
            _ => None,
        }
    }

    /// The column, out of `columns` of them held one per logical column, that
    /// answers for this context: the logical column of the cell. A context
    /// that is no cell, or a cell beyond the last column, has no column to
    /// answer for it, and nothing is to be done for it.
    #[verifier::when_used_as_spec(spec_column_in)]
    pub fn column_in(&self, columns: usize) -> (column: Option<usize>)
        ensures
            column == self.spec_column_in(columns),
    {
        match self {
            CellCtx::Cell(cell) => {
                if cell.log.col.0 < columns {
                    Some(cell.log.col.0)
                } else {
                    None
                }
            },
            _ => None,
        }
    }

    /// The direction to mark on a heading: that of the key by which the table
    /// is sorted on it. Anything but a heading with a key is marked with none.
    pub open spec fn spec_sort_mark(&self) -> Option<SortDirection> {
        match *self {
            CellCtx::Header(_, _, Some(key)) => Some(key.direction),
            _ => None,
        }
    }

    /// The direction to mark on a heading: that of the key by which the table
    /// is sorted on it. Anything but a heading with a key is marked with none.
    #[verifier::when_used_as_spec(spec_sort_mark)]
    pub fn sort_mark(&self) -> (mark: Option<SortDirection>)
        ensures
            mark == self.spec_sort_mark(),
    {
        match self {
            CellCtx::Header(_, _, Some(key)) => Some(key.direction),
            _ => None,
        }
    }
}

/// An order of the items of a table, as one column sees them.
///
/// An implementation may give the order a model, `order_of`, and say so in
/// `obeys_compare_spec`; its answers are then held to the model. Of an
/// implementation that gives none, nothing is taken for granted.
pub trait DataCompare<Item> {
    /// Whether `order_of` is a model of this order: whether `compare`
    /// answers as `order_of` says. It is not, unless an implementation says
    /// that it is.
    open spec fn obeys_compare_spec(&self) -> bool {
        false
    }

    /// The model of the order, where it has one (see `obeys_compare_spec`):
    /// whether `a` comes before `b`, with it or after it.
    open spec fn order_of(&self, a: &Item, b: &Item) -> Ordering {
        arbitrary()
    }

    /// Whether `a` comes before `b`, with it or after it.
    fn compare(&self, a: &Item, b: &Item) -> (answer: Ordering)
        ensures
            self.obeys_compare_spec() ==> answer == self.order_of(a, b),
    ;
}

/// One column: its heading, what orders its cells, and its part in the
/// order in which a table is first shown.
pub struct TableColumn<CD> {
    /// The text of the heading.
    pub header: String,
    /// What compares the items of the table by this column.
    pub cell_delegate: CD,
    /// The rank of the column among the keys of the first order; columns
    /// without a rank follow those that have one.
    pub sort_order: Option<usize>,
    /// Whether the direction of the column is fixed.
    pub sort_fixed: bool,
    /// The direction in which the column sorts at first, if it does.
    pub sort_dir: Option<SortDirection>,
}

impl<CD> TableColumn<CD> {
    /// A column with the given heading that takes no part in the first order.
    pub fn new(header: String, cell_delegate: CD) -> (column: Self)
        ensures
            column.header == header,
            column.cell_delegate == cell_delegate,
            column.sort_order.is_none(),
            !column.sort_fixed,
            column.sort_dir.is_none(),
    {
        TableColumn {
            header,
            cell_delegate,
            sort_order: None,
            sort_fixed: false,
            sort_dir: None,
        }
    }

    /// The column, sorting at first in direction `sort`.
    pub fn sort(self, sort: SortDirection) -> (column: Self)
        ensures
            column.sort_dir == Some(sort),
            column.header == self.header,
            column.cell_delegate == self.cell_delegate,
            column.sort_order == self.sort_order,
            column.sort_fixed == self.sort_fixed,
    {
        let mut column = self;
        column.sort_dir = Some(sort);
        column
    }

    /// The column, with rank `order` among the keys of the first order.
    pub fn sort_order(self, order: usize) -> (column: Self)
        ensures
            column.sort_order == Some(order),
            column.header == self.header,
            column.cell_delegate == self.cell_delegate,
            column.sort_fixed == self.sort_fixed,
            column.sort_dir == self.sort_dir,
    {
        let mut column = self;
        column.sort_order = Some(order);
        column
    }

    /// The column, with its direction fixed.
    pub fn fix_sort(self) -> (column: Self)
        ensures
            column.sort_fixed,
            column.header == self.header,
            column.cell_delegate == self.cell_delegate,
            column.sort_order == self.sort_order,
            column.sort_dir == self.sort_dir,
    {
        let mut column = self;
        column.sort_fixed = true;
        column
    }
}

/// Whether `answer` is an answer of `column` to the question which of `a`
/// and `b` comes first.
pub open spec fn may_compare<T, CD: DataCompare<T>>(
    column: &TableColumn<CD>,
    a: &T,
    b: &T,
    answer: Ordering,
) -> bool {
    call_ensures(CD::compare, (&column.cell_delegate, a, b), answer)
}

impl<T, CD: DataCompare<T>> DataCompare<T> for TableColumn<CD> {
    /// A column has a model where what it compares by has one.
    open spec fn obeys_compare_spec(&self) -> bool {
        self.cell_delegate.obeys_compare_spec()
    }

    /// The model of what the column compares by.
    open spec fn order_of(&self, a: &T, b: &T) -> Ordering {
        self.cell_delegate.order_of(a, b)
    }

    /// The answer of what the column compares by.
    fn compare(&self, a: &T, b: &T) -> (answer: Ordering)
        ensures
            may_compare(self, a, b, answer),
    {
        let answer = self.cell_delegate.compare(a, b);
        assert(self.obeys_compare_spec() == self.cell_delegate.obeys_compare_spec());
        assert(self.order_of(a, b) == self.cell_delegate.order_of(a, b));
        answer
    }
}

/// A function that derives a value `U` from an item `T` and can be called on
/// every item.
#[verifier::reject_recursive_types(T)]
#[verifier::reject_recursive_types(U)]
#[verifier::reject_recursive_types(W)]
pub struct Projection<T, U, W: Fn(&T) -> U> {
    func: W,
    phantom_u: PhantomData<U>,
    phantom_t: PhantomData<T>,
}

impl<T, U, W: Fn(&T) -> U> Projection<T, U, W> {
    /// The function can be called on every item.
    #[verifier::type_invariant]
    spec fn takes_every_item(&self) -> bool {
        forall|item: &T| call_requires(self.func, (item,))
    }

    /// The function itself.
    pub closed spec fn spec_func(&self) -> W {
        self.func
    }

    /// Whether the function derives one value only from each item.
    pub open spec fn is_single_valued(&self) -> bool {
        forall|item: &T, one: U, other: U|
            #![trigger
                call_ensures(self.spec_func(), (item,), one),
                call_ensures(self.spec_func(), (item,), other),
            ]
            call_ensures(self.spec_func(), (item,), one) && call_ensures(
                self.spec_func(),
                (item,),
                other,
            ) ==> one == other
    }

    /// A value that the function derives from `item`: the value, where the
    /// function is single-valued.
    pub open spec fn value_of(&self, item: &T) -> U {
        choose|value: U| call_ensures(self.spec_func(), (item,), value)
    }

    /// The projection by `func`, which has to be a function that can be
    /// called on every item.
    pub fn new(func: W) -> (projection: Self)
        requires
            forall|item: &T| call_requires(func, (item,)),
        ensures
            projection.spec_func() == func,
    {
        Projection { func, phantom_u: PhantomData, phantom_t: PhantomData }
    }

    /// The function itself.
    pub fn func(&self) -> (func: &W)
        ensures
            *func == self.spec_func(),
    {
        &self.func
    }

    /// The value that the function derives from `item`.
    pub fn derive(&self, item: &T) -> (value: U)
        ensures
            call_ensures(self.spec_func(), (item,), value),
            self.is_single_valued() ==> value == self.value_of(item),
    {
        proof {
            use_type_invariant(self);
        }
        (self.func)(item)
    }
}

/// A column of items `T` made of a column of values `U` and a function that
/// derives a `U` from a `T`: it treats an item as the inner column treats the
/// value derived from it. It reads the item and cannot write to it.
#[verifier::reject_recursive_types(T)]
#[verifier::reject_recursive_types(U)]
#[verifier::reject_recursive_types(W)]
pub struct FuncWrapped<T, U, W: Fn(&T) -> U, I> {
    /// The column of the derived values.
    pub inner: I,
    /// The function that derives the values.
    pub wrapper: Projection<T, U, W>,
}

impl<T, U, W: Fn(&T) -> U, I> FuncWrapped<T, U, W, I> {
    /// The column that treats an item as `inner` treats what `wrapper` derives
    /// from it. `wrapper` has to be a function that can be called on every
    /// item.
    pub fn new(inner: I, wrapper: W) -> (wrapped: Self)
        requires
            forall|item: &T| call_requires(wrapper, (item,)),
        ensures
            wrapped.inner == inner,
            wrapped.wrapper.spec_func() == wrapper,
    {
        FuncWrapped { inner, wrapper: Projection::new(wrapper) }
    }
}

/// Whether `answer` is an answer of `wrapped` to the question which of `a`
/// and `b` comes first: an answer of its inner column about a value derived
/// from `a` and a value derived from `b`.
pub open spec fn may_compare_derived<T, U, W: Fn(&T) -> U, I: DataCompare<U>>(
    wrapped: &FuncWrapped<T, U, W, I>,
    a: &T,
    b: &T,
    answer: Ordering,
) -> bool {
    exists|of_a: U, of_b: U|
        {
            &&& call_ensures(wrapped.wrapper.spec_func(), (a,), of_a)
            &&& call_ensures(wrapped.wrapper.spec_func(), (b,), of_b)
            &&& #[trigger] call_ensures(I::compare, (&wrapped.inner, &of_a, &of_b), answer)
        }
}

impl<T, U, W: Fn(&T) -> U, I: DataCompare<U>> DataCompare<T> for FuncWrapped<T, U, W, I> {
    /// The wrapped column has a model where the inner column has one and the
    /// function derives one value only from each item.
    open spec fn obeys_compare_spec(&self) -> bool {
        self.inner.obeys_compare_spec() && self.wrapper.is_single_valued()
    }

    /// The model of the wrapped column: what the model of the inner column
    /// says of the values derived from `a` and from `b`.
    open spec fn order_of(&self, a: &T, b: &T) -> Ordering {
        self.inner.order_of(&self.wrapper.value_of(a), &self.wrapper.value_of(b))
    }

    /// The answer of the inner column about the values derived from `a` and
    /// from `b`.
    fn compare(&self, a: &T, b: &T) -> (answer: Ordering)
        ensures
            may_compare_derived(self, a, b, answer),
    {
        let of_a = self.wrapper.derive(a);
        let of_b = self.wrapper.derive(b);
        let answer = self.inner.compare(&of_a, &of_b);
        assert(call_ensures(I::compare, (&self.inner, &of_a, &of_b), answer));
        answer
    }
}

/// A column that orders the derived values consistently orders the items
/// consistently, where one value only is derived from each item.
pub proof fn lemma_wrapped_order_is_consistent<T, U, W: Fn(&T) -> U, I: DataCompare<U>>(
    wrapped: &FuncWrapped<T, U, W, I>,
)
    requires
        is_consistent_order::<U, I>(&wrapped.inner),
        wrapped.wrapper.is_single_valued(),
    ensures
        is_consistent_order::<T, FuncWrapped<T, U, W, I>>(wrapped),
{
    let inner = &wrapped.inner;
    assert forall|x: &T, y: &T| #[trigger] wrapped.order_of(x, y) == reversed(
        wrapped.order_of(y, x),
    ) by {
        let of_x = wrapped.wrapper.value_of(x);
        let of_y = wrapped.wrapper.value_of(y);
        assert(inner.order_of(&of_x, &of_y) == reversed(inner.order_of(&of_y, &of_x)));
    }
    assert forall|x: &T, y: &T, z: &T|
        #![trigger wrapped.order_of(x, y), wrapped.order_of(y, z)]
        wrapped.order_of(x, y) != Ordering::Greater && wrapped.order_of(y, z)
            != Ordering::Greater implies wrapped.order_of(x, z) == (if wrapped.order_of(x, y)
        == Ordering::Equal && wrapped.order_of(y, z) == Ordering::Equal {
        Ordering::Equal
    } else {
        Ordering::Less
    }) by {
        let of_x = wrapped.wrapper.value_of(x);
        let of_y = wrapped.wrapper.value_of(y);
        let of_z = wrapped.wrapper.value_of(z);
        assert(inner.order_of(&of_x, &of_y) == wrapped.order_of(x, y));
        assert(inner.order_of(&of_y, &of_z) == wrapped.order_of(y, z));
        assert(inner.order_of(&of_x, &of_z) == wrapped.order_of(x, z));
    }
}

/// The columns of a table, held one per logical column, in their order.
pub struct ProvidedColumns<ColumnType> {
    pub cols: Vec<TableColumn<ColumnType>>,
}

/// The place `k`, as a number.
pub open spec fn place(k: usize) -> int {
    k as int
}

impl<ColumnType> ProvidedColumns<ColumnType> {
    /// The column with index `idx`.
    pub open spec fn column(&self, idx: usize) -> TableColumn<ColumnType> {
        self.cols@[idx as int]
    }

    /// Whether every key of `keys` names one of the columns.
    pub open spec fn has_keys(&self, keys: Seq<SortSpec>) -> bool {
        forall|k: int| 0 <= k < keys.len() ==> (#[trigger] keys[k]).idx < self.cols@.len()
    }

    /// The given columns.
    pub fn new(cols: Vec<TableColumn<ColumnType>>) -> (columns: Self)
        ensures
            columns.cols == cols,
    {
        ProvidedColumns { cols }
    }

    /// Whether the direction of the column with index `idx` is fixed, which
    /// it is for no column beyond the last. What follows from that for the
    /// user is for the table to decide.
    pub fn sort_fixed(&self, idx: usize) -> (fixed: bool)
        ensures
            fixed == (idx < self.cols@.len() && self.column(idx).sort_fixed),
    {
        if idx < self.cols.len() {
            self.cols[idx].sort_fixed
        } else {
            false
        }
    }

    /// The number of columns, whatever the data.
    pub fn number_of_columns_in_data<TableData>(&self, _data: &TableData) -> (columns: usize)
        ensures
            columns == self.cols@.len(),
    {
        self.cols.len()
    }
}

impl<ColumnType> ProvidedColumns<ColumnType> {
    /// Whether the column of the key at place `k` may call `a` and `b` equal.
    pub open spec fn may_tie_at<T>(&self, keys: Seq<SortSpec>, a: &T, b: &T, k: int) -> bool where
        ColumnType: DataCompare<T>,
     {
        may_compare(&self.column(keys[k].idx), a, b, Ordering::Equal)
    }

    /// Whether `answer` may come of `key` alone: the column of the key tells
    /// `a` and `b` apart, and `answer` is what it says, taken in the direction
    /// of the key.
    pub open spec fn may_decide<T>(&self, key: SortSpec, a: &T, b: &T, answer: Ordering) -> bool where
        ColumnType: DataCompare<T>,
     {
        &&& answer != Ordering::Equal
        &&& may_compare(&self.column(key.idx), a, b, key.direction.directed(answer))
    }

    /// Whether `answer` may come of the keys with the one at place `decisive`
    /// deciding: the columns of all keys before it call `a` and `b` equal, and
    /// `answer` comes of that key. With `decisive` behind the last key, no key
    /// decides and the answer is that `a` and `b` are equal.
    pub open spec fn may_decide_at<T>(
        &self,
        keys: Seq<SortSpec>,
        a: &T,
        b: &T,
        answer: Ordering,
        decisive: int,
    ) -> bool where ColumnType: DataCompare<T> {
        &&& 0 <= decisive <= keys.len()
        &&& forall|j: int| 0 <= j < decisive ==> #[trigger] self.may_tie_at(keys, a, b, j)
        &&& if decisive < keys.len() {
            self.may_decide(keys[decisive], a, b, answer)
        } else {
            answer == Ordering::Equal
        }
    }

    /// Whether `answer` is an answer of the columns to the question which of
    /// the items `a` and `b` comes first by `keys`: the answer of the first
    /// key whose column tells them apart, in the direction of that key, and
    /// equality where no column does.
    pub open spec fn may_order_items<T>(
        &self,
        keys: Seq<SortSpec>,
        a: &T,
        b: &T,
        answer: Ordering,
    ) -> bool where ColumnType: DataCompare<T> {
        exists|decisive: int| self.may_decide_at(keys, a, b, answer, decisive)
    }

    /// Whether the column of every key of `keys` has a model.
    pub open spec fn keys_modelled<T>(&self, keys: Seq<SortSpec>) -> bool where
        ColumnType: DataCompare<T>,
     {
        forall|k: int|
            0 <= k < keys.len() ==> self.column(
                (#[trigger] keys[k]).idx,
            ).cell_delegate.obeys_compare_spec()
    }

    /// Which of the items `a` and `b` comes first by `key`, where the columns
    /// have a model: what the column of the key says by its model, taken in
    /// the direction of the key.
    pub open spec fn key_order<T>(&self, key: SortSpec, a: &T, b: &T) -> Ordering where
        ColumnType: DataCompare<T>,
     {
        key.direction.directed(self.column(key.idx).cell_delegate.order_of(a, b))
    }

    /// Which of the items `a` and `b` comes first by the keys of `keys` from
    /// place `from` on, where the columns have a model: what the first key
    /// says that tells the items apart, and equality where none does.
    pub open spec fn items_order_from<T>(
        &self,
        keys: Seq<SortSpec>,
        a: &T,
        b: &T,
        from: int,
    ) -> Ordering where ColumnType: DataCompare<T>
        decreases keys.len() - from,
    {
        if 0 <= from < keys.len() {
            if self.key_order(keys[from], a, b) == Ordering::Equal {
                self.items_order_from(keys, a, b, from + 1)
            } else {
                self.key_order(keys[from], a, b)
            }
        } else {
            Ordering::Equal
        }
    }

    /// Which of the items `a` and `b` comes first by `keys`, where the columns
    /// have a model: the order by all the keys, the first being the most
    /// significant.
    pub open spec fn items_order<T>(&self, keys: Seq<SortSpec>, a: &T, b: &T) -> Ordering where
        ColumnType: DataCompare<T>,
     {
        self.items_order_from(keys, a, b, 0)
    }

    /// Which of the items `a` and `b` comes first by the keys `sort_by`. The
    /// keys are asked in turn, and the first whose column tells the items
    /// apart decides, in its direction; the keys after it are not asked.
    /// Items that no key tells apart are equal. Every key has to name one of
    /// the columns.
    pub fn compare_items<T>(&self, sort_by: &Vec<SortSpec>, a: &T, b: &T) -> (answer: Ordering) where
        ColumnType: DataCompare<T>,

        requires
            self.has_keys(sort_by@),
        ensures
            self.may_order_items(sort_by@, a, b, answer),
            self.keys_modelled::<T>(sort_by@) ==> answer == self.items_order(sort_by@, a, b),
    {
        let mut k: usize = 0;
        while k < sort_by.len()
            invariant
                k <= sort_by@.len(),
                self.has_keys(sort_by@),
                forall|j: int| 0 <= j < place(k) ==> #[trigger] self.may_tie_at(sort_by@, a, b, j),
                self.keys_modelled::<T>(sort_by@) ==> self.items_order(sort_by@, a, b)
                    == self.items_order_from(sort_by@, a, b, place(k)),
            decreases sort_by@.len() - k,
        {
            let key = &sort_by[k];
            assert(*key == sort_by@[place(k)]);
            let told = self.cols[key.idx].compare(a, b);
            match told {
                Ordering::Equal => {},
                _ => {
                    let answer = key.direction.apply(told);
                    assert(self.may_decide_at(sort_by@, a, b, answer, place(k)));
                    return answer;
                },
            }
            k += 1;
        }
        assert(self.may_decide_at(sort_by@, a, b, Ordering::Equal, place(k)));
        Ordering::Equal
    }
}

/// Which of two logical positions is stored first.
pub open spec fn stored_order(a: LogIdx, b: LogIdx) -> Ordering {
    if a.0 < b.0 {
        Ordering::Less
    } else if a.0 == b.0 {
        Ordering::Equal
    } else {
        Ordering::Greater
    }
}

/// Which of the rows at `a` and `b` is shown first, where `by_keys` is what
/// the keys say of them: what the keys say where they tell the rows apart,
/// and else the stored order, so that rows which the keys call equal, or of
/// which they say nothing, stay as they are stored.
pub open spec fn settled(by_keys: Option<Ordering>, a: LogIdx, b: LogIdx) -> Ordering {
    match by_keys {
        Some(Ordering::Less) => Ordering::Less,
        Some(Ordering::Greater) => Ordering::Greater,
        _ => stored_order(a, b),
    }
}

/// Which of the rows at `a` and `b` is shown first, where `by_keys` is what
/// the keys say of them: see `settled`. Two different rows are never left
/// equal.
pub fn settle_row_order(by_keys: Option<Ordering>, a: LogIdx, b: LogIdx) -> (answer: Ordering)
    ensures
        answer == settled(by_keys, a, b),
        answer == Ordering::Equal ==> a == b,
{
    match by_keys {
        Some(Ordering::Less) => Ordering::Less,
        Some(Ordering::Greater) => Ordering::Greater,
        _ => {
            if a.0 < b.0 {
                Ordering::Less
            } else if a.0 == b.0 {
                Ordering::Equal
            } else {
                Ordering::Greater
            }
        },
    }
}

impl<ColumnType> ProvidedColumns<ColumnType> {
    /// Whether `by_keys` may be what the keys say of two rows of a table of
    /// `TableData`: an answer of the columns about two of its items, or
    /// nothing.
    pub open spec fn may_say<TableData: IndexedItems>(
        &self,
        keys: Seq<SortSpec>,
        by_keys: Option<Ordering>,
    ) -> bool where ColumnType: DataCompare<TableData::Item> {
        by_keys matches Some(answer) ==> exists|a: &TableData::Item, b: &TableData::Item|
            self.may_order_items(keys, a, b, answer)
    }

    /// Whether `answer` is an answer to the question which of the rows at `a`
    /// and `b` is shown first by `keys`: what the keys say of the two rows,
    /// settled by the stored order.
    pub open spec fn may_order_rows<TableData: IndexedItems>(
        &self,
        keys: Seq<SortSpec>,
        a: LogIdx,
        b: LogIdx,
        answer: Ordering,
    ) -> bool where ColumnType: DataCompare<TableData::Item> {
        exists|by_keys: Option<Ordering>| #[trigger]
            self.may_say::<TableData>(keys, by_keys) && answer == settled(by_keys, a, b)
    }

    /// What the keys say of the rows at `a` and `b` of `items`, where the
    /// columns have a model: the order of the two items by `keys`, and nothing
    /// where either row is none of `items`.
    pub open spec fn keys_say<T>(
        &self,
        items: Seq<T>,
        keys: Seq<SortSpec>,
        a: LogIdx,
        b: LogIdx,
    ) -> Option<Ordering> where ColumnType: DataCompare<T> {
        if a.0 < items.len() && b.0 < items.len() {
            Some(self.items_order(keys, &item_at(items, a), &item_at(items, b)))
        } else {
            None
        }
    }

    /// Which of the rows at `a` and `b` of `items` is shown first by `keys`,
    /// where the columns have a model: what the keys say of the two rows,
    /// settled by the stored order.
    pub open spec fn rows_order<T>(
        &self,
        items: Seq<T>,
        keys: Seq<SortSpec>,
        a: LogIdx,
        b: LogIdx,
    ) -> Ordering where ColumnType: DataCompare<T> {
        settled(self.keys_say(items, keys, a, b), a, b)
    }

    /// Which of the rows at `a` and `b` of `table_data` is shown first by the
    /// keys `sort_by`. The two items are read and compared by the keys (see
    /// `compare_items`); where the keys call them equal, or an item cannot be
    /// read, the row that is stored first is shown first. Every key has to
    /// name one of the columns.
    pub fn compare_rows<TableData: IndexedItems>(
        &self,
        table_data: &TableData,
        sort_by: &Vec<SortSpec>,
        a: LogIdx,
        b: LogIdx,
    ) -> (answer: Ordering) where ColumnType: DataCompare<TableData::Item>
        requires
            self.has_keys(sort_by@),
        ensures
            self.may_order_rows::<TableData>(sort_by@, a, b, answer),
            answer == Ordering::Equal ==> a == b,
            table_data.obeys_items_spec() && self.keys_modelled::<TableData::Item>(sort_by@)
                ==> answer == self.rows_order(table_data.items(), sort_by@, a, b),
    {
        let ghost modelled = table_data.obeys_items_spec() && self.keys_modelled::<
            TableData::Item,
        >(sort_by@);
        let ghost items = table_data.items();
        let read = table_data.with(
            a,
            |item_a: &TableData::Item| -> (said: Option<Ordering>)
                ensures
                    self.may_say::<TableData>(sort_by@, said),
                    modelled ==> said == (if b.0 < items.len() {
                        Some(self.items_order(sort_by@, item_a, &item_at(items, b)))
                    } else {
                        None
                    })
            {
                table_data.with(
                    b,
                    |item_b: &TableData::Item| -> (answer: Ordering)
                        ensures
                            self.may_order_items(sort_by@, item_a, item_b, answer),
                            self.keys_modelled::<TableData::Item>(sort_by@) ==> answer
                                == self.items_order(sort_by@, item_a, item_b)
                    {
                        self.compare_items(sort_by, item_a, item_b)
                    },
                )
            },
        );
        let by_keys = match read {
            Some(Some(answer)) => Some(answer),
            _ => None,
        };
        assert(self.may_say::<TableData>(sort_by@, by_keys));
        settle_row_order(by_keys, a, b)
    }
}

/// Whether `rows` is a number that `table_data` gives as the number of its
/// items.
pub open spec fn may_count<TableData: IndexedItems>(table_data: &TableData, rows: usize) -> bool {
    call_ensures(TableData::idx_len, (table_data,), rows)
}

/// Whether `order` puts the rows of `among` in a row, one after the other:
/// asked the other way round it says the opposite, it calls no two rows
/// equal, and where it has a first row before a second and the second before
/// a third, it has the first before the third.
pub open spec fn is_strict_order_on(
    among: Seq<LogIdx>,
    order: spec_fn(LogIdx, LogIdx) -> Ordering,
) -> bool {
    &&& forall|a: LogIdx, b: LogIdx|
        among.contains(a) && among.contains(b) ==> #[trigger] order(a, b) == reversed(order(b, a))
    &&& forall|a: LogIdx, b: LogIdx|
        among.contains(a) && among.contains(b) && #[trigger] order(a, b) == Ordering::Equal ==> a
            == b
    &&& forall|a: LogIdx, b: LogIdx, c: LogIdx|
        among.contains(a) && among.contains(b) && among.contains(c) && #[trigger] order(a, b)
            == Ordering::Less && #[trigger] order(b, c) == Ordering::Less ==> order(a, c)
            == Ordering::Less
}

/// Whether `shown` has each of its rows before all that follow it by
/// `order`.
pub open spec fn is_in_order(shown: Seq<LogIdx>, order: spec_fn(LogIdx, LogIdx) -> Ordering) -> bool {
    forall|i: int, j: int|
        0 <= i < j < shown.len() ==> order(#[trigger] shown[i], #[trigger] shown[j])
            == Ordering::Less
}

/// Whether `shown` has no row behind one that follows it by `order`.
pub open spec fn has_none_late(
    shown: Seq<LogIdx>,
    order: spec_fn(LogIdx, LogIdx) -> Ordering,
) -> bool {
    forall|i: int, j: int|
        0 <= i < j < shown.len() ==> order(#[trigger] shown[i], #[trigger] shown[j])
            != Ordering::Greater
}

impl<ColumnType> ProvidedColumns<ColumnType> {
    /// Whether `answer` is an answer of `compare_rows` to the question which
    /// of the rows at `a` and `b` of `table_data` is shown first by the keys
    /// `sort_by`.
    pub open spec fn may_answer<TableData: IndexedItems>(
        &self,
        table_data: &TableData,
        sort_by: &Vec<SortSpec>,
        a: LogIdx,
        b: LogIdx,
        answer: Ordering,
    ) -> bool where ColumnType: DataCompare<TableData::Item> {
        call_ensures(
            ProvidedColumns::<ColumnType>::compare_rows::<TableData>,
            (self, table_data, sort_by, a, b),
            answer,
        )
    }

    /// Whether the rows of `among` are compared as `order` has them: `order`
    /// puts them in a row, and every comparison of two of them answers as
    /// `order` says.
    pub open spec fn ordered_by<TableData: IndexedItems>(
        &self,
        table_data: &TableData,
        sort_by: &Vec<SortSpec>,
        among: Seq<LogIdx>,
        order: spec_fn(LogIdx, LogIdx) -> Ordering,
    ) -> bool where ColumnType: DataCompare<TableData::Item> {
        &&& is_strict_order_on(among, order)
        &&& forall|a: LogIdx, b: LogIdx, answer: Ordering|
            among.contains(a) && among.contains(b) && #[trigger] self.may_answer(
                table_data,
                sort_by,
                a,
                b,
                answer,
            ) ==> answer == order(a, b)
    }

    /// Whether the rows of `among` are compared as one order of them would
    /// have it: asked twice, a comparison answers the same; asked the other
    /// way round, the opposite; and what it says of three rows fits together.
    pub open spec fn orders_rows<TableData: IndexedItems>(
        &self,
        table_data: &TableData,
        sort_by: &Vec<SortSpec>,
        among: Seq<LogIdx>,
    ) -> bool where ColumnType: DataCompare<TableData::Item> {
        exists|order: spec_fn(LogIdx, LogIdx) -> Ordering| #[trigger]
            self.ordered_by(table_data, sort_by, among, order)
    }

    /// Whether `shown` is in the order of the keys `sort_by`: it has each of
    /// its rows before all that follow it, by whatever order it is that the
    /// `rows` first rows are compared in.
    pub open spec fn shows_in_order<TableData: IndexedItems>(
        &self,
        table_data: &TableData,
        sort_by: &Vec<SortSpec>,
        rows: usize,
        shown: Seq<LogIdx>,
    ) -> bool where ColumnType: DataCompare<TableData::Item> {
        forall|order: spec_fn(LogIdx, LogIdx) -> Ordering| #[trigger]
            self.ordered_by(table_data, sort_by, stored_rows(rows), order) ==> is_in_order(
                shown,
                order,
            )
    }
}

/// `im::Vector::sort_by`, with `compare_rows` as the comparison, on a vector
/// of rows of which none occurs twice. A vector of fewer than two rows is left
/// as it is, and nothing is compared. Of two rows or more the sort compares,
/// and they have to be rows that `compare_rows` compares as one order of them
/// would have it: the sort then comes to an end and leaves the same rows, none
/// of them behind a row that follows it by that order. Of other comparisons
/// the sort of `im` promises nothing, not even to return.
#[verifier::external_body]
fn sort_rows<TableData: IndexedItems, ColumnType: DataCompare<TableData::Item>>(
    idxs: &mut Vector<LogIdx>,
    columns: &ProvidedColumns<ColumnType>,
    table_data: &TableData,
    sort_by: &Vec<SortSpec>,
)
    requires
        vector_items(*old(idxs)).no_duplicates(),
        vector_items(*old(idxs)).len() > 1 ==> columns.has_keys(sort_by@),
        vector_items(*old(idxs)).len() > 1 ==> columns.orders_rows(
            table_data,
            sort_by,
            vector_items(*old(idxs)),
        ),
    ensures
        vector_items(*final(idxs)).to_multiset() == vector_items(*old(idxs)).to_multiset(),
        forall|order: spec_fn(LogIdx, LogIdx) -> Ordering| #[trigger]
            columns.ordered_by(table_data, sort_by, vector_items(*old(idxs)), order)
                ==> has_none_late(vector_items(*final(idxs)), order),
{
    idxs.sort_by(|a, b| columns.compare_rows(table_data, sort_by, *a, *b))
}

impl<ColumnType> ProvidedColumns<ColumnType> {
    /// Whether `remap_items` can be asked for the order of `table_data` under
    /// `remap_spec`: always without keys, and always of fewer than two rows,
    /// where nothing is compared. Two rows or more are compared by the keys:
    /// then the keys have to name columns, and the rows have to be compared as
    /// one order of them would have it.
    pub open spec fn can_order<TableData: IndexedItems>(
        &self,
        table_data: &TableData,
        remap_spec: &RemapSpec,
    ) -> bool where ColumnType: DataCompare<TableData::Item> {
        !remap_spec.is_empty() ==> forall|rows: usize| #[trigger]
            may_count(table_data, rows) && rows > 1 ==> {
                &&& self.has_keys(remap_spec.sort_by@)
                &&& self.orders_rows(table_data, &remap_spec.sort_by, stored_rows(rows))
            }
    }

    /// The order in which the rows of `table_data` are shown under
    /// `remap_spec`. Without keys it is the stored order. With keys every row
    /// is shown once, and each before all rows that the keys put after it;
    /// rows that the keys call equal are shown as they are stored (see
    /// `compare_rows`). Where two rows or more are to be compared, the keys
    /// have to name columns, and the rows have to be compared as one order of
    /// them would have it: `im`'s sort, which is used here, relies on that.
    pub fn remap_items<TableData: IndexedItems>(
        &self,
        table_data: &TableData,
        remap_spec: &RemapSpec,
    ) -> (remap: Remap) where ColumnType: DataCompare<TableData::Item>
        requires
            self.can_order(table_data, remap_spec),
        ensures
            remap_spec.is_empty() ==> remap is Pristine,
            !remap_spec.is_empty() ==> exists|rows: usize|
                {
                    &&& #[trigger] may_count(table_data, rows)
                    &&& remap matches Remap::Selected(order)
                    &&& shows_each_row_once(order.shown(), rows)
                    &&& self.shows_in_order(table_data, &remap_spec.sort_by, rows, order.shown())
                },
    {
        if remap_spec.is_empty() {
            Remap::new()
        } else {
            let rows = table_data.idx_len();
            assert(may_count(table_data, rows));
            let mut idxs = stored_row_vector(rows);
            proof {
                lemma_stored_rows_once(rows);
            }
            sort_rows(&mut idxs, self, table_data, &remap_spec.sort_by);
            let ghost shown = vector_items(idxs);
            proof {
                lemma_rearranged_rows_once(shown, rows);
                assert forall|order: spec_fn(LogIdx, LogIdx) -> Ordering| #[trigger]
                    self.ordered_by(
                        table_data,
                        &remap_spec.sort_by,
                        stored_rows(rows),
                        order,
                    ) implies is_in_order(shown, order) by {
                    assert forall|i: int, j: int| 0 <= i < j < shown.len() implies order(
                        #[trigger] shown[i],
                        #[trigger] shown[j],
                    ) == Ordering::Less by {
                        assert(shown[i] != shown[j]);
                        assert(stored_rows(rows).contains(shown[i]));
                        assert(stored_rows(rows).contains(shown[j]));
                    }
                }
            }
            Remap::Selected(RemapDetails::Full(idxs))
        }
    }

    /// The keys leave one order only. Where the rows are compared as one order
    /// of them would have it, two sequences that both show each row once, in
    /// the order of the keys, are the same: what `remap_items` promises of its
    /// result is met by that result alone.
    pub proof fn lemma_shown_order_is_unique<TableData: IndexedItems>(
        &self,
        table_data: &TableData,
        sort_by: &Vec<SortSpec>,
        rows: usize,
        first: Seq<LogIdx>,
        second: Seq<LogIdx>,
    ) where ColumnType: DataCompare<TableData::Item>
        requires
            self.orders_rows(table_data, sort_by, stored_rows(rows)),
            shows_each_row_once(first, rows),
            self.shows_in_order(table_data, sort_by, rows, first),
            shows_each_row_once(second, rows),
            self.shows_in_order(table_data, sort_by, rows, second),
        ensures
            first == second,
    {
        let among = stored_rows(rows);
        lemma_stored_rows_once(rows);
        let order = choose|order: spec_fn(LogIdx, LogIdx) -> Ordering| #[trigger]
            self.ordered_by(table_data, sort_by, among, order);
        let before = |a: LogIdx, b: LogIdx| order(a, b) == Ordering::Less;
        assert forall|idx: LogIdx| first.contains(idx) <==> second.contains(idx) by {
            if first.contains(idx) {
                let i = choose|i: int| 0 <= i < first.len() && first[i] == idx;
                assert(first[i].0 < rows);
            }
            if second.contains(idx) {
                let i = choose|i: int| 0 <= i < second.len() && second[i] == idx;
                assert(second[i].0 < rows);
            }
        }
        assert forall|x: LogIdx, y: LogIdx|
            first.contains(x) && first.contains(y) && before(x, y) implies !before(y, x) by {
            let i = choose|i: int| 0 <= i < first.len() && first[i] == x;
            let j = choose|j: int| 0 <= j < first.len() && first[j] == y;
            assert(first[i].0 < rows && first[j].0 < rows);
            assert(among.contains(x) && among.contains(y));
            assert(order(x, y) == reversed(order(y, x)));
        }
        lemma_rising_order_is_unique(first, second, before);
    }
}

/// Whether `column` has a model that orders the items consistently: asked the
/// other way round it says the opposite, and where it has a first item no
/// later than a second and the second no later than a third, it has the first
/// no later than the third, and equal to it only where both pairs are equal.
pub open spec fn is_consistent_order<T, C: DataCompare<T>>(column: &C) -> bool {
    &&& column.obeys_compare_spec()
    &&& forall|x: &T, y: &T| #[trigger] column.order_of(x, y) == reversed(column.order_of(y, x))
    &&& forall|x: &T, y: &T, z: &T|
        #![trigger column.order_of(x, y), column.order_of(y, z)]
        column.order_of(x, y) != Ordering::Greater && column.order_of(y, z) != Ordering::Greater
            ==> column.order_of(x, z) == (if column.order_of(x, y) == Ordering::Equal
            && column.order_of(y, z) == Ordering::Equal {
            Ordering::Equal
        } else {
            Ordering::Less
        })
}

impl<ColumnType> ProvidedColumns<ColumnType> {
    /// Whether the column of every key of `keys` has a model that orders the
    /// items consistently.
    pub open spec fn keys_consistent<T>(&self, keys: Seq<SortSpec>) -> bool where
        ColumnType: DataCompare<T>,
     {
        forall|k: int|
            0 <= k < keys.len() ==> is_consistent_order::<T, ColumnType>(
                &self.column((#[trigger] keys[k]).idx).cell_delegate,
            )
    }

    /// Keys whose columns order the items consistently order them
    /// consistently together.
    proof fn lemma_items_order_is_consistent<T>(
        &self,
        keys: Seq<SortSpec>,
        x: &T,
        y: &T,
        z: &T,
        from: int,
    ) where ColumnType: DataCompare<T>
        requires
            self.keys_consistent::<T>(keys),
            0 <= from <= keys.len(),
        ensures
            self.items_order_from(keys, x, y, from) == reversed(
                self.items_order_from(keys, y, x, from),
            ),
            self.items_order_from(keys, x, y, from) != Ordering::Greater && self.items_order_from(
                keys,
                y,
                z,
                from,
            ) != Ordering::Greater ==> self.items_order_from(keys, x, z, from) == (
            if self.items_order_from(keys, x, y, from) == Ordering::Equal && self.items_order_from(
                keys,
                y,
                z,
                from,
            ) == Ordering::Equal {
                Ordering::Equal
            } else {
                Ordering::Less
            }),
        decreases keys.len() - from,
    {
        if from < keys.len() {
            self.lemma_items_order_is_consistent(keys, x, y, z, from + 1);
            let key = keys[from];
            let column = &self.column(key.idx).cell_delegate;
            if column.order_of(x, y) != Ordering::Greater && column.order_of(y, z)
                != Ordering::Greater {
                assert(column.order_of(x, z) != Ordering::Greater);
            }
            if column.order_of(z, y) != Ordering::Greater && column.order_of(y, x)
                != Ordering::Greater {
                assert(column.order_of(z, x) != Ordering::Greater);
            }
            key.direction.lemma_directed_keeps_ties(column.order_of(x, y));
            key.direction.lemma_directed_keeps_ties(column.order_of(y, z));
            key.direction.lemma_directed_keeps_ties(column.order_of(x, z));
        }
    }

    /// Keys whose columns order the items consistently put the rows in a
    /// row.
    proof fn lemma_rows_order_is_strict<T>(
        &self,
        items: Seq<T>,
        keys: Seq<SortSpec>,
        a: LogIdx,
        b: LogIdx,
        c: LogIdx,
    ) where ColumnType: DataCompare<T>
        requires
            self.keys_consistent::<T>(keys),
            a.0 < items.len(),
            b.0 < items.len(),
            c.0 < items.len(),
        ensures
            self.rows_order(items, keys, a, b) == reversed(self.rows_order(items, keys, b, a)),
            self.rows_order(items, keys, a, b) == Ordering::Equal ==> a == b,
            self.rows_order(items, keys, a, b) == Ordering::Less && self.rows_order(
                items,
                keys,
                b,
                c,
            ) == Ordering::Less ==> self.rows_order(items, keys, a, c) == Ordering::Less,
    {
        let x = &item_at(items, a);
        let y = &item_at(items, b);
        let z = &item_at(items, c);
        self.lemma_items_order_is_consistent(keys, x, y, z, 0);
        self.lemma_items_order_is_consistent(keys, y, z, x, 0);
        self.lemma_items_order_is_consistent(keys, x, z, y, 0);
    }

    /// Columns that order the items consistently order the rows. Where the
    /// data and the columns have models, every key names a column and the
    /// column of every key orders the items consistently, the rows are
    /// compared as one order of them would have it, which is what
    /// `remap_items` asks for; and that order is `rows_order`.
    pub proof fn lemma_consistent_columns_order_rows<TableData: IndexedItems>(
        &self,
        table_data: &TableData,
        sort_by: &Vec<SortSpec>,
        rows: usize,
    ) where ColumnType: DataCompare<TableData::Item>
        requires
            table_data.obeys_items_spec(),
            self.keys_consistent::<TableData::Item>(sort_by@),
            may_count(table_data, rows),
        ensures
            rows == table_data.items().len(),
            self.ordered_by(
                table_data,
                sort_by,
                stored_rows(rows),
                |a: LogIdx, b: LogIdx| self.rows_order(table_data.items(), sort_by@, a, b),
            ),
            self.orders_rows(table_data, sort_by, stored_rows(rows)),
    {
        let items = table_data.items();
        let among = stored_rows(rows);
        let order = |a: LogIdx, b: LogIdx| self.rows_order(items, sort_by@, a, b);
        assert forall|a: LogIdx, b: LogIdx, c: LogIdx|
            among.contains(a) && among.contains(b) && among.contains(c) implies {
            &&& order(a, b) == reversed(order(b, a))
            &&& order(a, b) == Ordering::Equal ==> a == b
            &&& order(a, b) == Ordering::Less && order(b, c) == Ordering::Less ==> order(a, c)
                == Ordering::Less
        } by {
            self.lemma_in_stored_rows(rows, a);
            self.lemma_in_stored_rows(rows, b);
            self.lemma_in_stored_rows(rows, c);
            self.lemma_rows_order_is_strict(items, sort_by@, a, b, c);
        }
        assert(is_strict_order_on(among, order)) by {
            assert forall|a: LogIdx, b: LogIdx|
                among.contains(a) && among.contains(b) implies #[trigger] order(a, b) == reversed(
                order(b, a),
            ) by {
                assert(among.contains(a) && among.contains(b) && among.contains(a));
            }
            assert forall|a: LogIdx, b: LogIdx|
                among.contains(a) && among.contains(b) && #[trigger] order(a, b)
                    == Ordering::Equal implies a == b by {
                assert(among.contains(a) && among.contains(b) && among.contains(a));
            }
        }
        assert(self.ordered_by(table_data, sort_by, among, order));
    }

    /// The rows are shown sorted by the keys, and rows that the keys call
    /// equal in the order in which they are stored. Where the data has a model
    /// and the column of every key orders the items consistently, of two rows
    /// that `remap_items` shows the keys never put the one that is shown later
    /// before the other; and where the keys call the two equal, the one that
    /// is shown first is the one that is stored first.
    pub proof fn lemma_shown_order_is_sorted_and_stable<TableData: IndexedItems>(
        &self,
        table_data: &TableData,
        sort_by: &Vec<SortSpec>,
        rows: usize,
        shown: Seq<LogIdx>,
        earlier: int,
        later: int,
    ) where ColumnType: DataCompare<TableData::Item>
        requires
            table_data.obeys_items_spec(),
            self.keys_consistent::<TableData::Item>(sort_by@),
            may_count(table_data, rows),
            shows_each_row_once(shown, rows),
            self.shows_in_order(table_data, sort_by, rows, shown),
            0 <= earlier < later < shown.len(),
        ensures
            shown[earlier].0 < table_data.items().len(),
            shown[later].0 < table_data.items().len(),
            self.items_order(
                sort_by@,
                &item_at(table_data.items(), shown[earlier]),
                &item_at(table_data.items(), shown[later]),
            ) != Ordering::Greater,
            self.items_order(
                sort_by@,
                &item_at(table_data.items(), shown[earlier]),
                &item_at(table_data.items(), shown[later]),
            ) == Ordering::Equal ==> shown[earlier].0 < shown[later].0,
    {
        self.lemma_consistent_columns_order_rows(table_data, sort_by, rows);
        let order = |a: LogIdx, b: LogIdx| self.rows_order(table_data.items(), sort_by@, a, b);
        assert(is_in_order(shown, order));
        assert(order(shown[earlier], shown[later]) == Ordering::Less);
    }

    /// A row of the `rows` stored rows has a position below `rows`.
    proof fn lemma_in_stored_rows(&self, rows: usize, idx: LogIdx)
        ensures
            stored_rows(rows).contains(idx) ==> idx.0 < rows,
    {
        if stored_rows(rows).contains(idx) {
            let i = choose|i: int| 0 <= i < stored_rows(rows).len() && stored_rows(rows)[i] == idx;
            assert(stored_rows(rows)[i].0 == i);
        }
    }
}

impl<ColumnType> ProvidedColumns<ColumnType> {
    /// Whether column `first` gives an earlier key of the first order than
    /// column `second`: by rank, a smaller before a larger and any before
    /// none, and by index between columns of the same rank or of none.
    pub open spec fn spec_sorts_before(&self, first: usize, second: usize) -> bool {
        match (self.column(first).sort_order, self.column(second).sort_order) {
            (Some(x), Some(y)) => x < y || (x == y && first < second),
            (Some(_), None) => true,
            (None, Some(_)) => false,
            (None, None) => first < second,
        }
    }

    /// Whether `key` sorts by one of the columns that sort at first, in the
    /// direction of that column.
    pub open spec fn is_first_key(&self, key: SortSpec) -> bool {
        &&& key.idx < self.cols@.len()
        &&& self.column(key.idx).sort_dir == Some(key.direction)
    }

    /// Whether `keys` is the order in which the table is first shown: one key
    /// for each column that sorts at first, and for no other; each in the
    /// direction of its column; and the keys in the order of their columns
    /// (see `spec_sorts_before`).
    pub open spec fn is_first_order(&self, keys: Seq<SortSpec>) -> bool {
        &&& forall|k: int| 0 <= k < keys.len() ==> self.is_first_key(#[trigger] keys[k])
        &&& forall|c: usize|
            c < self.cols@.len() && (#[trigger] self.column(c)).sort_dir.is_some() ==> exists|
                k: int,
            |
                0 <= k < keys.len() && (#[trigger] keys[k]).idx == c
        &&& forall|i: int, j: int|
            0 <= i < j < keys.len() ==> self.spec_sorts_before(
                (#[trigger] keys[i]).idx,
                (#[trigger] keys[j]).idx,
            )
    }

    /// Of two different columns one gives the earlier key, and what holds
    /// of a first and a second and of the second and a third column holds
    /// of the first and the third.
    pub proof fn lemma_sorts_before_orders(&self, a: usize, b: usize, c: usize)
        ensures
            !self.spec_sorts_before(a, a),
            a != b ==> (self.spec_sorts_before(a, b) <==> !self.spec_sorts_before(b, a)),
            self.spec_sorts_before(a, b) && self.spec_sorts_before(b, c)
                ==> self.spec_sorts_before(a, c),
    {
    }

    /// Whether column `first` gives an earlier key of the first order than
    /// column `second`: see `spec_sorts_before`.
    #[verifier::when_used_as_spec(spec_sorts_before)]
    pub fn sorts_before(&self, first: usize, second: usize) -> (before: bool)
        requires
            first < self.cols@.len(),
            second < self.cols@.len(),
        ensures
            before == self.spec_sorts_before(first, second),
    {
        match (self.cols[first].sort_order, self.cols[second].sort_order) {
            (Some(x), Some(y)) => x < y || (x == y && first < second),
            (Some(_), None) => true,
            (None, Some(_)) => false,
            (None, None) => first < second,
        }
    }

    /// The columns that sort at first, in the order of their keys.
    fn first_columns(&self) -> (order: Vec<usize>)
        ensures
            forall|k: int|
                0 <= k < order@.len() ==> (#[trigger] order@[k]) < self.cols@.len() && self.column(
                    order@[k],
                ).sort_dir.is_some(),
            forall|c: usize|
                c < self.cols@.len() && (#[trigger] self.column(c)).sort_dir.is_some()
                    ==> order@.contains(c),
            forall|i: int, j: int|
                0 <= i < j < order@.len() ==> self.spec_sorts_before(
                    #[trigger] order@[i],
                    #[trigger] order@[j],
                ),
    {
        let mut order: Vec<usize> = Vec::new();
        let mut c: usize = 0;
        while c < self.cols.len()
            invariant
                c <= self.cols@.len(),
                forall|k: int|
                    0 <= k < order@.len() ==> (#[trigger] order@[k]) < c && self.column(
                        order@[k],
                    ).sort_dir.is_some(),
                forall|d: usize|
                    d < c && (#[trigger] self.column(d)).sort_dir.is_some() ==> order@.contains(d),
                forall|i: int, j: int|
                    0 <= i < j < order@.len() ==> self.spec_sorts_before(
                        #[trigger] order@[i],
                        #[trigger] order@[j],
                    ),
            decreases self.cols@.len() - c,
        {
            if self.cols[c].sort_dir.is_some() {
                let mut p: usize = order.len();
                while p > 0 && self.sorts_before(c, order[p - 1])
                    invariant
                        p <= order@.len(),
                        c < self.cols@.len(),
                        forall|k: int|
                            0 <= k < order@.len() ==> (#[trigger] order@[k]) < c,
                        forall|k: int|
                            p <= k < order@.len() ==> self.spec_sorts_before(
                                c,
                                #[trigger] order@[k],
                            ),
                    decreases p,
                {
                    p -= 1;
                }
                let ghost before = order@;
                assert forall|k: int| 0 <= k < p implies self.spec_sorts_before(
                    #[trigger] before[k],
                    c,
                ) by {
                    self.lemma_sorts_before_orders(before[p - 1], c, c);
                    self.lemma_sorts_before_orders(before[k], before[p - 1], c);
                }
                order.insert(p, c);
                assert forall|d: usize|
                    d < c + 1 && (#[trigger] self.column(d)).sort_dir.is_some() implies order@.contains(
                    d,
                ) by {
                    if d == c {
                        assert(order@[p as int] == c);
                    } else {
                        let k = choose|k: int| 0 <= k < before.len() && before[k] == d;
                        if k < p {
                            assert(order@[k] == d);
                        } else {
                            assert(order@[k + 1] == d);
                        }
                    }
                }
                assert forall|i: int, j: int| 0 <= i < j < order@.len() implies self.spec_sorts_before(
                    #[trigger] order@[i],
                    #[trigger] order@[j],
                ) by {
                    let a = if i < p { i } else { i - 1 };
                    let b = if j < p { j } else { j - 1 };
                    if i != p {
                        assert(order@[i] == before[a]);
                    }
                    if j != p {
                        assert(order@[j] == before[b]);
                    }
                }
            }
            c += 1;
        }
        order
    }

    /// The order in which the table is first shown: one key for each column
    /// that sorts at first, in the direction of that column. The keys of
    /// columns with a rank come first, by rising rank, and those of columns
    /// without one after them; among columns of one rank, or of none, the
    /// columns keep their order.
    pub fn initial_spec(&self) -> (spec: RemapSpec)
        ensures
            self.is_first_order(spec.sort_by@),
    {
        let order = self.first_columns();
        let mut spec = RemapSpec::default();
        let mut k: usize = 0;
        while k < order.len()
            invariant
                k <= order@.len(),
                spec.sort_by@.len() == k,
                forall|i: int|
                    0 <= i < order@.len() ==> (#[trigger] order@[i]) < self.cols@.len()
                        && self.column(order@[i]).sort_dir.is_some(),
                forall|i: int|
                    0 <= i < k ==> (#[trigger] spec.sort_by@[i]).idx == order@[i] && self.is_first_key(
                        spec.sort_by@[i],
                    ),
            decreases order@.len() - k,
        {
            let idx = order[k];
            match self.cols[idx].sort_dir {
                Some(dir) => {
                    spec.add_sort(SortSpec::new(idx, dir));
                },
                None => {},
            }
            k += 1;
        }
        assert forall|c: usize|
            c < self.cols@.len() && (#[trigger] self.column(c)).sort_dir.is_some() implies exists|
            i: int,
        |
            0 <= i < spec.sort_by@.len() && (#[trigger] spec.sort_by@[i]).idx == c by {
            let i = choose|i: int| 0 <= i < order@.len() && order@[i] == c;
            assert(spec.sort_by@[i].idx == c);
        }
        spec
    }
}

impl<ColumnType> ProvidedColumns<ColumnType> {
    /// There is one first order only: two sequences of keys that both are the
    /// order in which the table is first shown are the same, so that what
    /// `initial_spec` promises of its result is met by that result alone.
    pub proof fn lemma_first_order_is_unique(&self, first: Seq<SortSpec>, second: Seq<SortSpec>)
        requires
            self.is_first_order(first),
            self.is_first_order(second),
        ensures
            first == second,
    {
        let before = |key: SortSpec, other: SortSpec| self.spec_sorts_before(key.idx, other.idx);
        assert forall|key: SortSpec| first.contains(key) <==> second.contains(key) by {
            self.lemma_first_order_holds(first, second, key);
            self.lemma_first_order_holds(second, first, key);
        }
        assert forall|x: SortSpec, y: SortSpec|
            first.contains(x) && first.contains(y) && before(x, y) implies !before(y, x) by {
            self.lemma_sorts_before_orders(x.idx, y.idx, x.idx);
        }
        assert(rises_by(first, before)) by {
            assert forall|i: int, j: int| 0 <= i < j < first.len() implies before(
                first[i],
                first[j],
            ) by {
                assert(self.spec_sorts_before(first[i].idx, first[j].idx));
            }
        }
        assert(rises_by(second, before)) by {
            assert forall|i: int, j: int| 0 <= i < j < second.len() implies before(
                second[i],
                second[j],
            ) by {
                assert(self.spec_sorts_before(second[i].idx, second[j].idx));
            }
        }
        lemma_rising_order_is_unique(first, second, before);
    }

    /// A key of one first order is a key of every other.
    proof fn lemma_first_order_holds(&self, keys: Seq<SortSpec>, other: Seq<SortSpec>, key: SortSpec)
        requires
            self.is_first_order(keys),
            self.is_first_order(other),
        ensures
            keys.contains(key) ==> other.contains(key),
    {
        if keys.contains(key) {
            let i = choose|i: int| 0 <= i < keys.len() && keys[i] == key;
            assert(self.is_first_key(keys[i]));
            assert(self.column(key.idx).sort_dir.is_some());
            let k = choose|k: int| 0 <= k < other.len() && (#[trigger] other[k]).idx == key.idx;
            assert(self.is_first_key(other[k]));
            assert(other[k] == key);
        }
    }
}

/// The columns work out the order of the rows of any data whose items they
/// can compare: see the functions of the same names.
impl<TableData: IndexedItems, ColumnType: DataCompare<TableData::Item>> Remapper<
    TableData,
> for ProvidedColumns<ColumnType> {
    /// `remap_items` can be asked where `can_order` holds.
    open spec fn can_remap(&self, table_data: &TableData, remap_spec: &RemapSpec) -> bool {
        self.can_order(table_data, remap_spec)
    }

    fn sort_fixed(&self, idx: usize) -> (fixed: bool)
        ensures
            fixed == (idx < self.cols@.len() && self.column(idx).sort_fixed),
    {
        ProvidedColumns::sort_fixed(self, idx)
    }

    fn initial_spec(&self) -> (spec: RemapSpec)
        ensures
            self.is_first_order(spec.sort_by@),
    {
        ProvidedColumns::initial_spec(self)
    }

    fn remap_items(&self, table_data: &TableData, remap_spec: &RemapSpec) -> (remap: Remap)
        ensures
            remap_spec.is_empty() ==> remap is Pristine,
            !remap_spec.is_empty() ==> exists|rows: usize|
                {
                    &&& #[trigger] may_count(table_data, rows)
                    &&& remap matches Remap::Selected(order)
                    &&& shows_each_row_once(order.shown(), rows)
                    &&& self.shows_in_order(table_data, &remap_spec.sort_by, rows, order.shown())
                },
    {
        ProvidedColumns::remap_items(self, table_data, remap_spec)
    }
}

} // verus!
