//! The order in which a table shows its rows: what is asked for, and what
//! comes of it.

use crate::axis_measure::LogIdx;
use im::Vector;
use std::cmp::Ordering;
use vstd::prelude::*;

verus! {

/// Whether a column sorts from small to large or from large to small.
#[derive(Clone, Copy, Debug, PartialEq, Eq, Structural)]
pub enum SortDirection {
    Ascending,
    Descending,
}

/// The opposite answer to a comparison.
pub open spec fn reversed(ord: Ordering) -> Ordering {
    match ord {
        Ordering::Less => Ordering::Greater,
        Ordering::Equal => Ordering::Equal,
        Ordering::Greater => Ordering::Less,
    }
}

impl SortDirection {
    /// The answer `ord` of a comparison, as it counts in this direction:
    /// unchanged when ascending, reversed when descending.
    pub open spec fn directed(&self, ord: Ordering) -> Ordering {
        match *self {
            SortDirection::Ascending => ord,
            SortDirection::Descending => reversed(ord),
        }
    }

    /// The answer `ord` of a comparison, as it counts in this direction:
    /// unchanged when ascending, reversed when descending.
    #[verifier::when_used_as_spec(directed)]
    pub fn apply(&self, ord: Ordering) -> (applied: Ordering)
        ensures
            applied == self.directed(ord),
    {
        match self {
            SortDirection::Ascending => ord,
            SortDirection::Descending => match ord {
                Ordering::Less => Ordering::Greater,
                Ordering::Equal => Ordering::Equal,
                Ordering::Greater => Ordering::Less,
            },
        }
    }

    /// A direction leaves ties as they are and, applied twice when
    /// descending, gives the answer back.
    pub proof fn lemma_directed_keeps_ties(self, ord: Ordering)
        ensures
            self.directed(ord) == Ordering::Equal <==> ord == Ordering::Equal,
            self.directed(self.directed(ord)) == ord,
            self.directed(reversed(ord)) == reversed(self.directed(ord)),
    {
    }
}

/// One key of a sort: the column with index `idx`, in the given direction.
#[derive(Clone, Copy, Debug, PartialEq, Eq, Structural)]
pub struct SortSpec {
    pub idx: usize,
    pub direction: SortDirection,
}

impl SortSpec {
    /// The key that sorts by column `idx` in `direction`.
    pub fn new(idx: usize, direction: SortDirection) -> (key: SortSpec)
        ensures
            key == (SortSpec { idx, direction }),
    {
        SortSpec { idx, direction }
    }

    /// The same key, sorting from large to small.
    pub fn descending(self) -> (key: SortSpec)
        ensures
            key == (SortSpec { idx: self.idx, direction: SortDirection::Descending }),
    {
        SortSpec { idx: self.idx, direction: SortDirection::Descending }
    }
}

/// The order that is asked for: the keys to sort by, the most significant
/// first. Without keys the rows are shown as they are stored.
#[derive(Clone, Debug, PartialEq, Eq)]
pub struct RemapSpec {
    pub sort_by: Vec<SortSpec>,
}

impl Default for RemapSpec {
    /// No keys: the stored order.
    fn default() -> (spec: RemapSpec)
        ensures
            spec.sort_by@ == Seq::<SortSpec>::empty(),
    {
        RemapSpec { sort_by: Vec::new() }
    }
}

impl RemapSpec {
    /// Whether no key is given.
    pub open spec fn spec_is_empty(&self) -> bool {
        self.sort_by@.len() == 0
    }

    /// Adds `s` as the least significant key.
    pub fn add_sort(&mut self, s: SortSpec)
        ensures
            final(self).sort_by@ == old(self).sort_by@.push(s),
    {
        self.sort_by.push(s);
    }

    /// Whether no key is given, so that the rows stay in their stored order.
    #[verifier::when_used_as_spec(spec_is_empty)]
    pub fn is_empty(&self) -> (empty: bool)
        ensures
            empty == self.spec_is_empty(),
    {
        self.sort_by.len() == 0
    }
}

/// The persistent vector of the `im` crate, which holds a computed order.
/// Nothing of its inside is known here.
#[verifier::external_type_specification]
#[verifier::external_body]
#[verifier::reject_recursive_types(A)]
pub struct ExVector<A>(im::Vector<A>);

/// The items of a vector of logical positions, from front to back.
pub uninterp spec fn vector_items(v: Vector<LogIdx>) -> Seq<LogIdx>;

/// `im::Vector::new`: a vector without items.
#[verifier::external_body]
pub(crate) fn new_index_vector() -> (v: Vector<LogIdx>)
    ensures
        vector_items(v) == Seq::<LogIdx>::empty(),
{
    Vector::new()
}

/// `im::Vector::push_back`: puts `idx` behind the items of `v`, which stay as
/// they are.
#[verifier::external_body]
pub(crate) fn push_index(v: &mut Vector<LogIdx>, idx: LogIdx)
    ensures
        vector_items(*final(v)) == vector_items(*old(v)).push(idx),
{
    v.push_back(idx)
}

/// How a computed order is held.
#[derive(Debug)]
pub enum RemapDetails {
    /// For each visual position, from the first on, the logical position that
    /// is shown there.
    Full(Vector<LogIdx>),
}

impl RemapDetails {
    /// The logical positions in the order in which they are shown.
    pub open spec fn shown(&self) -> Seq<LogIdx> {
        match *self {
            RemapDetails::Full(v) => vector_items(v),
        }
    }
}

/// The order in which the rows are shown.
#[derive(Debug)]
pub enum Remap {
    /// The stored order: every visual position shows the logical position of
    /// the same number.
    Pristine,
    /// A computed order.
    Selected(RemapDetails),
}

impl Remap {
    /// The stored order.
    pub fn new() -> (remap: Remap)
        ensures
            remap is Pristine,
    {
        Remap::Pristine
    }
}

/// The item that `items` holds at `idx`.
pub open spec fn item_at<T>(items: Seq<T>, idx: LogIdx) -> T {
    items[idx.0 as int]
}

/// Whether `f` can be called on every item.
pub open spec fn takes_every<T, V, F: FnOnce(&T) -> V>(f: F) -> bool {
    forall|item: &T| call_requires(f, (item,))
}

/// Whether `made` is what `f` makes of some item.
pub open spec fn made_of_some<T, V, F: FnOnce(&T) -> V>(f: F, made: V) -> bool {
    exists|item: &T| call_ensures(f, (item,), made)
}

/// Data that is stored in a fixed order, one item at each logical position
/// below `idx_len()`.
///
/// An implementation may give the data a model, `items`, and say so in
/// `obeys_items_spec`; what it reads and counts is then held to the model. Of
/// an implementation that gives none, no more is taken for granted than that
/// what `with` returns is what the function made of some item.
pub trait IndexedItems {
    /// What is stored at each position.
    type Item;

    /// Whether `items` is a model of this data: whether `with` reads, and
    /// `idx_len` counts, the items of `items`. It is not, unless an
    /// implementation says that it is.
    open spec fn obeys_items_spec(&self) -> bool {
        false
    }

    /// The model of the data, where it has one (see `obeys_items_spec`): the
    /// items in the order in which they are stored.
    open spec fn items(&self) -> Seq<Self::Item> {
        arbitrary()
    }

    /// Hands the item at `idx` to `f` and returns what `f` makes of it, or
    /// returns `None` where there is no item at `idx`.
    fn with<V, F: FnOnce(&Self::Item) -> V>(&self, idx: LogIdx, f: F) -> (read: Option<V>)
        requires
            takes_every::<Self::Item, V, F>(f),
        ensures
            read matches Some(v) ==> made_of_some::<Self::Item, V, F>(f, v),
            self.obeys_items_spec() ==> match read {
                Some(v) => idx.0 < self.items().len() && call_ensures(
                    f,
                    (&item_at(self.items(), idx),),
                    v,
                ),
                None => idx.0 >= self.items().len(),
            },
    ;

    /// The number of items.
    fn idx_len(&self) -> (len: usize)
        ensures
            self.obeys_items_spec() ==> len == self.items().len(),
    ;
}

/// A vector is data whose items are its elements.
impl<T> IndexedItems for Vec<T> {
    type Item = T;

    open spec fn obeys_items_spec(&self) -> bool {
        true
    }

    open spec fn items(&self) -> Seq<T> {
        self@
    }

    fn with<V, F: FnOnce(&T) -> V>(&self, idx: LogIdx, f: F) -> (read: Option<V>) {
        if idx.0 < self.len() {
            let item = &self[idx.0];
            let made = f(item);
            assert(call_ensures(f, (item,), made));
            Some(made)
        } else {
            None
        }
    }

    fn idx_len(&self) -> (len: usize) {
        self.len()
    }
}

/// Something that works out the order in which a table shows the rows of
/// its data.
pub trait Remapper<TableData: IndexedItems> {
    /// Whether `remap_items` can be asked for the order of `table_data` under
    /// `remap_spec`: as a rule, always.
    open spec fn can_remap(&self, table_data: &TableData, remap_spec: &RemapSpec) -> bool {
        true
    }

    /// Whether the direction of the column with index `idx` is fixed.
    fn sort_fixed(&self, idx: usize) -> bool;

    /// The order in which the table is first shown.
    fn initial_spec(&self) -> RemapSpec;

    /// The order in which the rows of `table_data` are shown under
    /// `remap_spec`.
    fn remap_items(&self, table_data: &TableData, remap_spec: &RemapSpec) -> Remap
        requires
            self.can_remap(table_data, remap_spec),
    ;
}

/// The logical positions of `count` rows, in the order in which they are
/// stored.
pub open spec fn stored_rows(count: usize) -> Seq<LogIdx> {
    Seq::new(count as nat, |i: int| LogIdx(i as usize))
}

/// Whether `shown` shows each of `count` rows once: it is as long as there are
/// rows, every position in it is that of a row, no position occurs twice, and
/// none is left out.
pub open spec fn shows_each_row_once(shown: Seq<LogIdx>, count: usize) -> bool {
    &&& shown.len() == count
    &&& forall|i: int| 0 <= i < shown.len() ==> (#[trigger] shown[i]).0 < count
    &&& shown.no_duplicates()
    &&& forall|idx: LogIdx| idx.0 < count ==> #[trigger] shown.contains(idx)
}

/// The rows in their stored order are each shown once.
pub proof fn lemma_stored_rows_once(count: usize)
    ensures
        shows_each_row_once(stored_rows(count), count),
{
    let rows = stored_rows(count);
    assert forall|idx: LogIdx| idx.0 < count implies #[trigger] rows.contains(idx) by {
        assert(rows[idx.0 as int] == idx);
    }
}

/// A rearrangement of the stored rows shows each of them once.
pub proof fn lemma_rearranged_rows_once(shown: Seq<LogIdx>, count: usize)
    requires
        shown.to_multiset() == stored_rows(count).to_multiset(),
    ensures
        shows_each_row_once(shown, count),
{
    let rows = stored_rows(count);
    lemma_stored_rows_once(count);
    shown.to_multiset_ensures();
    rows.to_multiset_ensures();
    rows.lemma_multiset_has_no_duplicates();
    assert forall|idx: LogIdx| #[trigger] shown.contains(idx) <==> rows.contains(idx) by {
        assert(shown.to_multiset().count(idx) == rows.to_multiset().count(idx));
    }
    assert forall|x: LogIdx| shown.to_multiset().contains(x) implies shown.to_multiset().count(x)
        == 1 by {
        assert(rows.to_multiset().contains(x));
    }
    shown.lemma_multiset_has_no_duplicates_conv();
    assert forall|i: int| 0 <= i < shown.len() implies (#[trigger] shown[i]).0 < count by {
        assert(shown.contains(shown[i]));
        let k = choose|k: int| 0 <= k < rows.len() && rows[k] == shown[i];
        assert(rows[k].0 == k);
    }
}

/// Whether `shown` has each of its items before all that follow it.
pub open spec fn rises_by<A>(shown: Seq<A>, before: spec_fn(A, A) -> bool) -> bool {
    forall|i: int, j: int| 0 <= i < j < shown.len() ==> before(shown[i], shown[j])
}

/// Items can be put in order in one way only: where no two items are each
/// before the other, two sequences of the same items, each with every item
/// before all that follow it, are the same sequence.
pub proof fn lemma_rising_order_is_unique<A>(
    first: Seq<A>,
    second: Seq<A>,
    before: spec_fn(A, A) -> bool,
)
    requires
        forall|item: A| first.contains(item) <==> second.contains(item),
        forall|x: A, y: A| first.contains(x) && first.contains(y) && before(x, y) ==> !before(y, x),
        rises_by(first, before),
        rises_by(second, before),
    ensures
        first == second,
    decreases first.len(),
{
    if first.len() == 0 {
        if second.len() > 0 {
            assert(second.contains(second[0]));
        }
        assert(first =~= second);
    } else {
        let last = first.len() - 1;
        let a = first[last];
        assert(first.contains(a));
        let in_second = choose|k: int| 0 <= k < second.len() && second[k] == a;
        let last_second = second.len() - 1;
        let b = second[last_second];
        assert(second.contains(b));
        let in_first = choose|k: int| 0 <= k < first.len() && first[k] == b;
        assert(a == b) by {
            if in_second < last_second && in_first < last {
                assert(before(second[in_second], second[last_second]));
                assert(before(first[in_first], first[last]));
            }
        }
        let rest_first = first.drop_last();
        let rest_second = second.drop_last();
        assert forall|item: A| rest_first.contains(item) <==> rest_second.contains(item) by {
            if rest_first.contains(item) {
                let i = choose|i: int| 0 <= i < rest_first.len() && rest_first[i] == item;
                assert(first[i] == item);
                assert(first.contains(item));
                let k = choose|k: int| 0 <= k < second.len() && second[k] == item;
                if k == last_second {
                    assert(before(first[i], first[last]));
                }
                assert(rest_second[k] == item);
            }
            if rest_second.contains(item) {
                let i = choose|i: int| 0 <= i < rest_second.len() && rest_second[i] == item;
                assert(second[i] == item);
                assert(second.contains(item));
                let k = choose|k: int| 0 <= k < first.len() && first[k] == item;
                if k == last {
                    assert(before(second[i], second[last_second]));
                }
                assert(rest_first[k] == item);
            }
        }
        assert forall|x: A, y: A|
            rest_first.contains(x) && rest_first.contains(y) && before(x, y) implies !before(
            y,
            x,
        ) by {
            let i = choose|i: int| 0 <= i < rest_first.len() && rest_first[i] == x;
            let j = choose|j: int| 0 <= j < rest_first.len() && rest_first[j] == y;
            assert(first[i] == x && first[j] == y);
            assert(first.contains(x) && first.contains(y));
        }
        assert(rises_by(rest_first, before)) by {
            assert forall|i: int, j: int| 0 <= i < j < rest_first.len() implies before(
                rest_first[i],
                rest_first[j],
            ) by {
                assert(before(first[i], first[j]));
            }
        }
        assert(rises_by(rest_second, before)) by {
            assert forall|i: int, j: int| 0 <= i < j < rest_second.len() implies before(
                rest_second[i],
                rest_second[j],
            ) by {
                assert(before(second[i], second[j]));
            }
        }
        lemma_rising_order_is_unique(rest_first, rest_second, before);
        assert(first =~= rest_first.push(a));
        assert(second =~= rest_second.push(b));
    }
}

/// The vector of the logical positions of `count` rows, in the order in
/// which they are stored.
pub(crate) fn stored_row_vector(count: usize) -> (v: Vector<LogIdx>)
    ensures
        vector_items(v) == stored_rows(count),
{
    let mut v = new_index_vector();
    let mut i: usize = 0;
    while i < count
        invariant
            i <= count,
            vector_items(v) == stored_rows(i),
        decreases count - i,
    {
        push_index(&mut v, LogIdx(i));
        i += 1;
        assert(vector_items(v) =~= stored_rows(i));
    }
    v
}

} // verus!
