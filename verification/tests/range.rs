use dpc::common::range::{Range, RangeEnd, RangeSide};

fn range(left: RangeEnd, right: RangeEnd) -> Range {
    Range { left, right }
}

#[test]
fn canonicalize_puts_smaller_on_left() {
    let r = range(RangeEnd::Value(5), RangeEnd::Value(2)).canonicalize();
    assert_eq!(r.left, RangeEnd::Value(2));
    assert_eq!(r.right, RangeEnd::Value(5));
    let r = range(RangeEnd::Value(1), RangeEnd::Value(4)).canonicalize();
    assert_eq!(r.left, RangeEnd::Value(1));
    assert_eq!(r.right, RangeEnd::Value(4));
}

#[test]
fn canonicalize_twice_is_once() {
    let once = range(RangeEnd::Value(9), RangeEnd::Value(-3)).canonicalize();
    let twice = range(once.left, once.right).canonicalize();
    assert_eq!(twice.left, once.left);
    assert_eq!(twice.right, once.right);
}

#[test]
fn flip_twice_is_identity() {
    let r = range(RangeEnd::Value(1), RangeEnd::Infinite).flip().flip();
    assert_eq!(r.left, RangeEnd::Value(1));
    assert_eq!(r.right, RangeEnd::Infinite);
}

#[test]
fn range_ends() {
    assert_eq!(RangeEnd::infinite_val(), RangeEnd::Value(i32::MAX));
    assert_eq!(RangeEnd::Value(3).get_val(RangeSide::Left), 3);
    assert!(RangeEnd::Value(4).larger(&RangeEnd::Value(3)));
    assert!(!RangeEnd::Value(3).larger(&RangeEnd::Value(4)));
    assert_eq!(RangeSide::Left.sign(), -1);
    assert_eq!(RangeSide::Right.sign(), 1);
}

#[test]
fn range_text_and_size() {
    let r = range(RangeEnd::Value(2), RangeEnd::Value(6));
    assert_eq!(r.gen_str(), "2..6");
    assert_eq!(r.len(), 5);
    assert_eq!(r.get_single(), None);
    let single = range(RangeEnd::Value(3), RangeEnd::Value(3));
    assert_eq!(single.get_single(), Some(3));
    assert_eq!(single.gen_str(), "3");
}
