use druid_table::columns::settle_row_order;
use druid_table::{
    DataCompare, FuncWrapped, IndexedItems, LogIdx, ProvidedColumns, Remap, RemapDetails,
    RemapSpec, Remapper, SortDirection, SortSpec, TableColumn,
};
use std::cmp::Ordering;

type Record = (String, u32);

/// Rows held in a vector.
struct Rows(Vec<Record>);

impl IndexedItems for Rows {
    type Item = Record;

    fn with<V, F: FnOnce(&Record) -> V>(&self, idx: LogIdx, f: F) -> Option<V> {
        self.0.get(idx.0).map(f)
    }

    fn idx_len(&self) -> usize {
        self.0.len()
    }
}

/// Orders records by one of their two fields.
enum ByField {
    Name,
    Count,
}

impl DataCompare<Record> for ByField {
    fn compare(&self, a: &Record, b: &Record) -> Ordering {
        match self {
            ByField::Name => a.0.cmp(&b.0),
            ByField::Count => a.1.cmp(&b.1),
        }
    }
}

fn records(items: &[(&str, u32)]) -> Rows {
    Rows(items.iter().map(|(name, count)| (name.to_string(), *count)).collect())
}

fn name_and_count() -> ProvidedColumns<ByField> {
    ProvidedColumns::new(vec![
        TableColumn::new("Name".to_string(), ByField::Name),
        TableColumn::new("Count".to_string(), ByField::Count),
    ])
}

fn spec_of(keys: &[(usize, SortDirection)]) -> RemapSpec {
    let mut spec = RemapSpec::default();
    for (idx, direction) in keys {
        spec.add_sort(SortSpec::new(*idx, *direction));
    }
    spec
}

fn shown(remap: &Remap) -> Option<Vec<usize>> {
    match remap {
        Remap::Pristine => None,
        Remap::Selected(RemapDetails::Full(order)) => Some(order.iter().map(|idx| idx.0).collect()),
    }
}

#[test]
fn empty_spec_keeps_stored_order() {
    let data = records(&[("B", 1), ("A", 1), ("C", 0)]);
    let remap = name_and_count().remap_items(&data, &RemapSpec::default());
    assert!(matches!(remap, Remap::Pristine));
}

#[test]
fn sort_is_stable_among_equal_keys() {
    let data = records(&[("B", 1), ("A", 1), ("C", 0)]);
    let spec = spec_of(&[(1, SortDirection::Ascending)]);
    let remap = name_and_count().remap_items(&data, &spec);
    assert_eq!(shown(&remap), Some(vec![2, 0, 1]));
}

#[test]
fn descending_reverses_keys_but_not_ties() {
    let data = records(&[("B", 1), ("A", 1), ("C", 0), ("D", 2)]);
    let spec = spec_of(&[(1, SortDirection::Descending)]);
    let remap = name_and_count().remap_items(&data, &spec);
    assert_eq!(shown(&remap), Some(vec![3, 0, 1, 2]));
}

#[test]
fn later_keys_break_ties_of_earlier_ones() {
    let data = records(&[("B", 1), ("A", 1), ("C", 0), ("A", 0)]);
    let spec = spec_of(&[(1, SortDirection::Ascending), (0, SortDirection::Descending)]);
    let remap = name_and_count().remap_items(&data, &spec);
    assert_eq!(shown(&remap), Some(vec![2, 3, 0, 1]));
}

#[test]
fn remap_is_a_permutation() {
    let items: Vec<(String, u32)> =
        (0..200u32).map(|i| (format!("r{}", (i * 37) % 11), (i * 7919) % 13)).collect();
    let data = Rows(items.clone());
    let spec = spec_of(&[(1, SortDirection::Ascending), (0, SortDirection::Ascending)]);
    let remap = name_and_count().remap_items(&data, &spec);
    let order = shown(&remap).unwrap();
    assert_eq!(order.len(), 200);
    let mut seen = vec![false; 200];
    for idx in &order {
        assert!(*idx < 200);
        assert!(!seen[*idx]);
        seen[*idx] = true;
    }
    assert!(seen.iter().all(|s| *s));
    for pair in order.windows(2) {
        let (a, b) = (&items[pair[0]], &items[pair[1]]);
        let key = a.1.cmp(&b.1).then(a.0.cmp(&b.0));
        assert_ne!(key, Ordering::Greater);
        if key == Ordering::Equal {
            assert!(pair[0] < pair[1]);
        }
    }
}

#[test]
fn a_vector_is_indexed_items() {
    let data: Vec<Record> = records(&[("B", 1), ("A", 1), ("C", 0)]).0;
    assert_eq!(data.idx_len(), 3);
    assert_eq!(data.with(LogIdx(1), |record| record.0.clone()), Some("A".to_string()));
    assert_eq!(data.with(LogIdx(3), |record| record.0.clone()), None);
    let spec = spec_of(&[(0, SortDirection::Ascending)]);
    let remap = name_and_count().remap_items(&data, &spec);
    assert_eq!(shown(&remap), Some(vec![1, 0, 2]));
}

#[test]
fn remap_of_no_rows_and_of_one_row() {
    let spec = spec_of(&[(0, SortDirection::Ascending)]);
    let none = name_and_count().remap_items(&records(&[]), &spec);
    assert_eq!(shown(&none), Some(vec![]));
    let one = name_and_count().remap_items(&records(&[("A", 1)]), &spec);
    assert_eq!(shown(&one), Some(vec![0]));
}

#[test]
fn fewer_than_two_rows_are_not_compared() {
    // No column has index 9, and nothing asks for it.
    let spec = spec_of(&[(9, SortDirection::Ascending)]);
    let none = name_and_count().remap_items(&records(&[]), &spec);
    assert_eq!(shown(&none), Some(vec![]));
    let one = name_and_count().remap_items(&records(&[("A", 1)]), &spec);
    assert_eq!(shown(&one), Some(vec![0]));
}

#[test]
fn compare_items_takes_first_decisive_key() {
    let columns = name_and_count();
    let a = ("A".to_string(), 2);
    let b = ("B".to_string(), 1);
    let by_name = vec![SortSpec::new(0, SortDirection::Ascending)];
    assert_eq!(columns.compare_items(&by_name, &a, &b), Ordering::Less);
    let by_name_down = vec![SortSpec::new(0, SortDirection::Ascending).descending()];
    assert_eq!(columns.compare_items(&by_name_down, &a, &b), Ordering::Greater);
    let by_count_then_name =
        vec![SortSpec::new(1, SortDirection::Ascending), SortSpec::new(0, SortDirection::Ascending)];
    assert_eq!(columns.compare_items(&by_count_then_name, &a, &b), Ordering::Greater);
    assert_eq!(columns.compare_items(&by_count_then_name, &a, &a), Ordering::Equal);
    assert_eq!(columns.compare_items(&Vec::new(), &a, &b), Ordering::Equal);
}

#[test]
fn compare_rows_settles_ties_by_stored_order() {
    let columns = name_and_count();
    let data = records(&[("B", 1), ("A", 1), ("C", 0)]);
    let by_count = vec![SortSpec::new(1, SortDirection::Ascending)];
    assert_eq!(columns.compare_rows(&data, &by_count, LogIdx(0), LogIdx(1)), Ordering::Less);
    assert_eq!(columns.compare_rows(&data, &by_count, LogIdx(1), LogIdx(0)), Ordering::Greater);
    assert_eq!(columns.compare_rows(&data, &by_count, LogIdx(1), LogIdx(1)), Ordering::Equal);
    assert_eq!(columns.compare_rows(&data, &by_count, LogIdx(0), LogIdx(2)), Ordering::Greater);
    // A row that cannot be read is left where it is stored.
    assert_eq!(columns.compare_rows(&data, &by_count, LogIdx(2), LogIdx(7)), Ordering::Less);
}

#[test]
fn settle_row_order_prefers_the_keys() {
    assert_eq!(settle_row_order(Some(Ordering::Greater), LogIdx(0), LogIdx(1)), Ordering::Greater);
    assert_eq!(settle_row_order(Some(Ordering::Less), LogIdx(1), LogIdx(0)), Ordering::Less);
    assert_eq!(settle_row_order(Some(Ordering::Equal), LogIdx(1), LogIdx(0)), Ordering::Greater);
    assert_eq!(settle_row_order(None, LogIdx(0), LogIdx(1)), Ordering::Less);
    assert_eq!(settle_row_order(None, LogIdx(3), LogIdx(3)), Ordering::Equal);
}

#[test]
fn direction_applies_to_an_answer() {
    assert_eq!(SortDirection::Ascending.apply(Ordering::Less), Ordering::Less);
    assert_eq!(SortDirection::Descending.apply(Ordering::Less), Ordering::Greater);
    assert_eq!(SortDirection::Descending.apply(Ordering::Greater), Ordering::Less);
    assert_eq!(SortDirection::Descending.apply(Ordering::Equal), Ordering::Equal);
}

#[test]
fn initial_spec_orders_ranked_columns_first() {
    let columns = ProvidedColumns::new(vec![
        TableColumn::new("a".to_string(), ByField::Name).sort(SortDirection::Ascending),
        TableColumn::new("b".to_string(), ByField::Name),
        TableColumn::new("c".to_string(), ByField::Count)
            .sort(SortDirection::Descending)
            .sort_order(5),
        TableColumn::new("d".to_string(), ByField::Count)
            .sort(SortDirection::Ascending)
            .sort_order(2),
        TableColumn::new("e".to_string(), ByField::Count).sort_order(1),
        TableColumn::new("f".to_string(), ByField::Count)
            .sort(SortDirection::Descending)
            .sort_order(2),
        TableColumn::new("g".to_string(), ByField::Name).sort(SortDirection::Descending),
    ]);
    let spec = columns.initial_spec();
    assert_eq!(
        spec.sort_by,
        vec![
            SortSpec::new(3, SortDirection::Ascending),
            SortSpec::new(5, SortDirection::Descending),
            SortSpec::new(2, SortDirection::Descending),
            SortSpec::new(0, SortDirection::Ascending),
            SortSpec::new(6, SortDirection::Descending),
        ]
    );
}

#[test]
fn initial_spec_is_empty_without_sorting_columns() {
    assert!(name_and_count().initial_spec().is_empty());
    let none: ProvidedColumns<ByField> = ProvidedColumns::new(Vec::new());
    assert!(none.initial_spec().is_empty());
}

#[test]
fn sort_fixed_is_false_beyond_the_columns() {
    let columns = ProvidedColumns::new(vec![
        TableColumn::new("a".to_string(), ByField::Name).fix_sort(),
        TableColumn::new("b".to_string(), ByField::Name),
    ]);
    assert!(columns.sort_fixed(0));
    assert!(!columns.sort_fixed(1));
    assert!(!columns.sort_fixed(2));
    assert_eq!(columns.number_of_columns_in_data(&records(&[])), 2);
}

#[test]
fn column_compares_by_its_delegate() {
    let column = TableColumn::new("Count".to_string(), ByField::Count);
    let a = ("A".to_string(), 2);
    let b = ("B".to_string(), 1);
    assert_eq!(column.compare(&a, &b), Ordering::Greater);
}

/// Orders numbers.
struct Numbers;

impl DataCompare<u32> for Numbers {
    fn compare(&self, a: &u32, b: &u32) -> Ordering {
        a.cmp(b)
    }
}

#[test]
fn function_wrapper_compares_derived_values() {
    let by_count = FuncWrapped::new(Numbers, |record: &Record| record.1);
    let a = ("A".to_string(), 2);
    let b = ("B".to_string(), 1);
    assert_eq!(by_count.compare(&a, &b), Ordering::Greater);
    assert_eq!(by_count.compare(&b, &a), Ordering::Less);
    assert_eq!(by_count.compare(&a, &a), Ordering::Equal);
    assert_eq!(by_count.wrapper.derive(&a), 2);
    let columns = ProvidedColumns::new(vec![TableColumn::new("Count".to_string(), by_count)]);
    let data = records(&[("B", 1), ("A", 1), ("C", 0)]);
    let remap = columns.remap_items(&data, &spec_of(&[(0, SortDirection::Ascending)]));
    assert_eq!(shown(&remap), Some(vec![2, 0, 1]));
}

fn remap_through<R: Remapper<Rows>>(remapper: &R, data: &Rows) -> Remap {
    let spec = remapper.initial_spec();
    remapper.remap_items(data, &spec)
}

#[test]
fn columns_are_a_remapper() {
    let columns = ProvidedColumns::new(vec![
        TableColumn::new("Name".to_string(), ByField::Name).fix_sort(),
        TableColumn::new("Count".to_string(), ByField::Count).sort(SortDirection::Descending),
    ]);
    let data = records(&[("B", 1), ("A", 1), ("C", 0), ("D", 2)]);
    assert_eq!(shown(&remap_through(&columns, &data)), Some(vec![3, 0, 1, 2]));
    assert!(Remapper::<Rows>::sort_fixed(&columns, 0));
    assert!(!Remapper::<Rows>::sort_fixed(&columns, 1));
    let unsorted = name_and_count();
    assert!(matches!(remap_through(&unsorted, &data), Remap::Pristine));
}
