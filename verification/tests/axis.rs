use druid_table::{AxisPair, LogIdx, TableAxis, VisIdx, VisOffset};

#[test]
fn cross_axis_is_an_involution() {
    for axis in [TableAxis::Rows, TableAxis::Columns] {
        assert_eq!(axis.cross_axis().cross_axis(), axis);
        assert_ne!(axis.cross_axis(), axis);
    }
    assert_eq!(TableAxis::Rows.cross_axis(), TableAxis::Columns);
    assert_eq!(TableAxis::Columns.cross_axis(), TableAxis::Rows);
}

#[test]
fn ascending_normalizes_its_arguments() {
    let pairs = [(0usize, 0usize), (1, 2), (2, 1), (usize::MAX, 0), (7, 7)];
    for (a, b) in pairs {
        let forward = VisIdx::ascending(VisIdx(a), VisIdx(b));
        let backward = VisIdx::ascending(VisIdx(b), VisIdx(a));
        assert_eq!(forward, backward);
        assert!(forward.0 <= forward.1);
        assert_eq!(forward, (VisIdx(a.min(b)), VisIdx(a.max(b))));
    }
}

#[test]
fn offset_moves_a_position() {
    assert_eq!(VisIdx(5) + VisOffset(3), VisIdx(8));
    assert_eq!(VisIdx(5) + VisOffset(-3), VisIdx(2));
    assert_eq!(VisIdx(5) + VisOffset(0), VisIdx(5));
    assert_eq!(VisIdx(5) + VisOffset(-5), VisIdx(0));
}

#[test]
fn offset_saturates_at_both_ends() {
    assert_eq!(VisIdx(0) + VisOffset(-1), VisIdx(0));
    assert_eq!(VisIdx(3) + VisOffset(-10), VisIdx(0));
    assert_eq!(VisIdx(3) + VisOffset(isize::MIN), VisIdx(0));
    assert_eq!(VisIdx(usize::MAX) + VisOffset(1), VisIdx(usize::MAX));
    assert_eq!(VisIdx(usize::MAX - 1) + VisOffset(isize::MAX), VisIdx(usize::MAX));
    assert_eq!(VisIdx(usize::MAX) + VisOffset(-1), VisIdx(usize::MAX - 1));
}

#[test]
fn range_inc_includes_both_ends() {
    assert_eq!(
        VisIdx::range_inc(VisIdx(2), VisIdx(5)),
        vec![VisIdx(2), VisIdx(3), VisIdx(4), VisIdx(5)]
    );
    assert_eq!(VisIdx::range_inc(VisIdx(4), VisIdx(4)), vec![VisIdx(4)]);
    assert_eq!(VisIdx::range_inc(VisIdx(5), VisIdx(4)), Vec::<VisIdx>::new());
}

#[test]
fn defaults_are_the_first_position() {
    assert_eq!(VisIdx::default(), VisIdx(0));
    assert_eq!(LogIdx::default(), LogIdx(0));
    assert_eq!(VisOffset::default(), VisOffset(0));
}

#[test]
fn new_for_axis_places_main_and_cross() {
    assert_eq!(AxisPair::new_for_axis(TableAxis::Rows, 7, 9), AxisPair::new(7, 9));
    assert_eq!(AxisPair::new_for_axis(TableAxis::Columns, 7, 9), AxisPair::new(9, 7));
    let pair = AxisPair::new_for_axis(TableAxis::Columns, VisIdx(4), VisIdx::default());
    assert_eq!(pair.row, VisIdx(0));
    assert_eq!(pair.col, VisIdx(4));
}

#[test]
fn pair_is_indexed_by_axis() {
    let mut pair = AxisPair::new(1, 2);
    assert_eq!(pair[TableAxis::Rows], 1);
    assert_eq!(pair[TableAxis::Columns], 2);
    assert_eq!(*pair.get(TableAxis::Columns), 2);
    pair[TableAxis::Rows] = 10;
    assert_eq!(pair, AxisPair::new(10, 2));
    pair.set(TableAxis::Columns, 20);
    assert_eq!(pair, AxisPair::new(10, 20));
}

#[test]
fn move_by_changes_one_coordinate() {
    let at = AxisPair::new(VisIdx(3), VisIdx(4));
    assert_eq!(at.move_by(TableAxis::Rows, VisOffset(2)), AxisPair::new(VisIdx(5), VisIdx(4)));
    assert_eq!(at.move_by(TableAxis::Columns, VisOffset(-1)), AxisPair::new(VisIdx(3), VisIdx(3)));
    assert_eq!(at.move_by(TableAxis::Columns, VisOffset(-9)), AxisPair::new(VisIdx(3), VisIdx(0)));
}
