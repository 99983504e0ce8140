use procdash::List;

#[test]
fn next_cycles_back_to_start() {
    let mut l: List<i32> = List::new();
    l.add(10);
    l.add(20);
    l.add(30);
    assert_eq!(10, *l.focused());
    l.next();
    l.next();
    l.next();
    assert_eq!(10, *l.focused());
}

#[test]
fn prev_cycles_back_to_start() {
    let mut l: List<i32> = List::new();
    l.add(10);
    l.add(20);
    l.add(30);
    l.next();
    assert_eq!(20, *l.focused());
    l.prev();
    l.prev();
    l.prev();
    assert_eq!(20, *l.focused());
}

#[test]
fn next_then_prev_is_a_no_op() {
    let mut l: List<i32> = List::new();
    l.add(1);
    l.add(2);
    l.add(3);
    l.next();
    l.prev();
    assert_eq!(1, *l.focused());
    l.prev();
    l.next();
    assert_eq!(1, *l.focused());
}

#[test]
fn wraparound_both_directions() {
    let mut l: List<i32> = List::new();
    l.add(1);
    l.add(2);
    assert_eq!(1, *l.focused());
    l.prev();
    assert_eq!(2, *l.focused());
    l.next();
    assert_eq!(1, *l.focused());
}

#[test]
fn empty_list_moves_are_no_ops() {
    let mut l: List<i32> = List::new();
    l.next();
    l.prev();
    assert_eq!(0, l.focus_index());
    assert!(l.get(0).is_none());
}

#[test]
fn add_does_not_move_focus() {
    let mut l: List<i32> = List::new();
    l.add(1);
    l.add(2);
    l.next();
    l.add(3);
    assert_eq!(1, l.focus_index());
    assert_eq!(2, *l.focused());
}

#[test]
fn get_and_get_mut() {
    let mut l: List<i32> = List::new();
    l.add(5);
    l.add(6);
    assert_eq!(Some(&6), l.get(1));
    assert!(l.get(2).is_none());
    *l.get_mut(0).unwrap() = 50;
    assert_eq!(Some(&50), l.get(0));
}

#[test]
fn iteration_in_insertion_order() {
    let mut l: List<i32> = List::new();
    l.add(3);
    l.add(1);
    l.add(2);
    l.next();
    let items: Vec<i32> = l.iter().clone();
    assert_eq!(vec![3, 1, 2], items);
    for item in l.iter_mut().iter_mut() {
        *item += 10;
    }
    assert_eq!(vec![13, 11, 12], l.iter().clone());
}
