use minesweeper::position_set::PositionSet;

#[test]
fn new_set_is_empty() {
    let set = PositionSet::new();
    assert_eq!(set.len(), 0);
    assert!(!set.contains((0, 0)));
}

#[test]
fn insert_reports_whether_the_position_is_new() {
    let mut set = PositionSet::new();
    assert!(set.insert((2, 3)));
    assert!(!set.insert((2, 3)));
    assert_eq!(set.len(), 1);
    assert!(set.contains((2, 3)));
    assert!(!set.contains((3, 2)));
}

#[test]
fn remove_reports_whether_the_position_was_there() {
    let mut set = PositionSet::new();
    set.insert((1, 1));
    set.insert((1, 2));
    assert!(set.remove((1, 1)));
    assert!(!set.remove((1, 1)));
    assert!(!set.contains((1, 1)));
    assert!(set.contains((1, 2)));
    assert_eq!(set.len(), 1);
}

#[test]
fn column_and_row_are_not_mixed_up() {
    let mut set = PositionSet::new();
    set.insert((0, 1));
    assert!(!set.contains((1, 0)));
    set.insert((1, 0));
    assert_eq!(set.len(), 2);
}

#[test]
fn largest_coordinates_are_kept_apart() {
    let top = usize::MAX;
    let mut set = PositionSet::new();
    assert!(set.insert((top, top)));
    assert!(set.insert((top, 0)));
    assert!(set.insert((0, top)));
    assert!(set.insert((top - 1, top)));
    assert!(set.insert((top, top - 1)));
    assert_eq!(set.len(), 5);
    assert!(set.contains((top, top)));
    assert!(!set.contains((0, 0)));
    assert!(!set.contains((top - 1, top - 1)));
    assert!(set.remove((top, 0)));
    assert!(!set.contains((top, 0)));
    assert!(set.contains((0, top)));
    assert_eq!(set.len(), 4);
}

#[test]
fn many_positions() {
    let mut set = PositionSet::new();
    for x in 0..50 {
        for y in 0..40 {
            assert!(set.insert((x, y)));
        }
    }
    assert_eq!(set.len(), 2000);
    for x in 0..50 {
        for y in 0..40 {
            assert!(set.contains((x, y)));
        }
    }
    assert!(!set.contains((50, 0)));
    assert!(!set.contains((0, 40)));
}
