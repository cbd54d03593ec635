use advanced_collections::interval::{Bound, Interval, LowerBound, UpperBound};
use std::cmp::Ordering;
use std::ops::Neg;

#[test]
fn interval_new_and_from_bounds_agree() {
    let i = Interval::new(3, false, 5, true);
    assert_eq!(i, Interval::upper_closed(3, 5));
    let l = LowerBound::new(3, false);
    let u = UpperBound::new(5, true);
    assert_eq!(Interval::from_bounds(l, u), i);
    assert_eq!(i.into_tuple(), Some((3, false, 5, true)));
    assert_eq!(i.into_bounds(), Some((l, u)));
    assert_eq!(i.bounds(), Some((&l, &u)));
    assert_eq!(i.lower(), Some(&l));
    assert_eq!(i.upper(), Some(&u));
    let e: Interval<i32> = Interval::empty();
    assert_eq!(e.into_tuple(), None);
    assert_eq!(e.into_bounds(), None);
    assert_eq!(e.bounds(), None);
}

#[test]
fn interval_single_is_closed_on_one_value() {
    let s = Interval::single(3);
    assert_eq!(s, Interval::closed(3, 3));
    assert!(s.is_single());
    assert!(!Interval::closed(3, 4).is_single());
    let e: Interval<i32> = Interval::empty();
    assert!(!e.is_single());
    assert!(s.contains_val(&3));
    assert!(!s.contains_val(&2));
    assert!(!s.contains_val(&4));
}

#[test]
fn interval_create_friendly_puts_bounds_right() {
    assert_eq!(Interval::create_friendly(5, true, 3, false), Interval::upper_closed(3, 5));
    assert_eq!(Interval::create_friendly(3, true, 3, false), Interval::empty());
    assert_eq!(Interval::create_friendly(3, false, 3, true), Interval::empty());
    assert_eq!(Interval::create_friendly(3, true, 3, true), Interval::single(3));
    assert_eq!(Interval::create_friendly(3, true, 5, false), Interval::lower_closed(3, 5));
    let mut i = Interval { imp: Interval::open(1, 2).imp };
    i.fix_after_modification();
    assert_eq!(i, Interval::open(1, 2));
}

#[test]
fn interval_negation_turns_the_bounds_round() {
    assert_eq!(Interval::lower_closed(3, 6).neg(), Interval::upper_closed(-6, -3));
    assert_eq!(-Interval::closed(-1, 2), Interval::closed(-2, 1));
    let e: Interval<i32> = Interval::empty();
    assert_eq!(-e, Interval::empty());
}

#[test]
fn interval_arithmetic_leaves_empty_intervals_empty() {
    let e: Interval<i32> = Interval::empty();
    assert_eq!(e + 3, Interval::empty());
    assert_eq!(e - 3, Interval::empty());
    assert_eq!(e * 3, Interval::empty());
    assert_eq!(e / 3, Interval::empty());
    let mut f: Interval<i32> = Interval::empty();
    f.add_assign(1);
    f.sub_assign(1);
    f.mul_assign(2);
    f.div_assign(2);
    assert!(f.is_empty());
    assert_eq!(Interval::closed(2, 3) * 0, Interval::single(0));
    assert_eq!(Interval::open(2, 3) * 0, Interval::empty());
    let mut a = Interval::open(1, 3);
    a.add_assign(1);
    assert_eq!(a, Interval::open(2, 4));
    assert_eq!(a * 2, Interval::open(4, 8));
}

#[test]
fn interval_empty_lies_neither_above_nor_below() {
    let e: Interval<i32> = Interval::empty();
    let i = Interval::closed(1, 2);
    assert!(e.contains_val(&7));
    assert!(e.intersects(&i));
    assert!(i.intersects(&e));
    assert!(!(e < i));
    assert!(!(e > i));
    assert!(!(e <= i));
    assert!(!(e >= i));
    assert!(!(e < 1));
    assert!(!(e > 1));
    assert!(!(e <= 1));
    assert!(!(e >= 1));
    assert_eq!(e.partial_cmp(&e), Some(Ordering::Equal));
    assert_eq!(e.partial_cmp(&i), None);
    assert_eq!(e.partial_cmp(&1), None);
    assert!(e.can_be_merged(&i));
    assert!(i.can_be_merged(&e));
    assert_eq!(e.into_intersection(i), Interval::empty());
    assert_eq!(i.into_span(e), i);
    assert_eq!(e.into_merged(i), Ok(i));
}

#[test]
fn interval_partial_cmp_follows_the_comparisons() {
    let a = Interval::open(1, 3);
    let b = Interval::closed(3, 5);
    assert!(a < b);
    assert_eq!(a.partial_cmp(&b), Some(Ordering::Less));
    assert_eq!(b.partial_cmp(&a), Some(Ordering::Greater));
    assert_eq!(a.partial_cmp(&a), Some(Ordering::Equal));
    let c = Interval::closed(1, 3);
    assert!(c <= b);
    assert!(!(c < b));
    assert_eq!(c.partial_cmp(&b), None);
    assert!(c.intersects(&b));
    assert!(!a.intersects(&b));
    assert_eq!(a.partial_cmp(&0), Some(Ordering::Greater));
    assert_eq!(a.partial_cmp(&1), Some(Ordering::Greater));
    assert_eq!(a.partial_cmp(&2), None);
    assert_eq!(a.partial_cmp(&3), Some(Ordering::Less));
    assert_eq!(Interval::single(4).partial_cmp(&4), Some(Ordering::Equal));
}

#[test]
fn interval_in_place_operations_match_the_consuming_ones() {
    let mut o = Interval::open(1, 3);
    let c = Interval::closed(2, 7);
    assert!(o.contains_val(&2));
    assert!(!o.contains_interval(&c));
    o.merge(c).unwrap();
    assert_eq!(o, Interval::upper_closed(1, 7));
    assert_eq!(Interval::open(1, 3).into_merged(c), Ok(o));
    o.intersection(Interval::open(0, 4));
    assert_eq!(o, Interval::open(1, 4));
    assert_eq!(Interval::upper_closed(1, 7).into_intersection(Interval::open(0, 4)), o);
    o.span(Interval::open(7, 8));
    assert_eq!(o, Interval::open(1, 8));
    assert_eq!(Interval::open(1, 4).into_span(Interval::open(7, 8)), o);
    let mut apart = Interval::closed(1, 2);
    apart.intersection(Interval::closed(3, 4));
    assert_eq!(apart, Interval::empty());
    assert_eq!(Interval::closed(1, 2).into_intersection(Interval::closed(3, 4)), Interval::empty());
    let mut kept = Interval::closed(1, 2);
    assert_eq!(kept.merge(Interval::closed(4, 5)), Err(Interval::closed(4, 5)));
    assert_eq!(kept, Interval::closed(1, 2));
}

#[test]
fn bounds_order_by_value_then_by_closedness() {
    let lc = LowerBound::new(5, true);
    let lo = LowerBound::new(5, false);
    assert_eq!(lc.cmp(&lo), Ordering::Less);
    assert_eq!(lo.cmp(&lc), Ordering::Greater);
    assert_eq!(lc.cmp(&lc), Ordering::Equal);
    assert_eq!(lc.min(lo), lc);
    assert_eq!(lc.max(lo), lo);
    assert_eq!(lc.partial_cmp(&lo), Some(Ordering::Less));
    let uc = UpperBound::new(5, true);
    let uo = UpperBound::new(5, false);
    assert_eq!(uc.cmp(&uo), Ordering::Greater);
    assert_eq!(uo.cmp(&uc), Ordering::Less);
    assert_eq!(uo.cmp(&uo), Ordering::Equal);
    assert_eq!(uc.min(uo), uo);
    assert_eq!(uc.max(uo), uc);
    assert_eq!(UpperBound::new(4, true).cmp(&uo), Ordering::Less);
    assert_eq!(LowerBound::new(6, true).cmp(&lo), Ordering::Greater);
}

#[test]
fn bounds_of_different_kinds_compare_by_room_between_them() {
    let l = LowerBound::new(5, true);
    assert!(l.is_separated_from(&UpperBound::new(3, true)));
    assert!(!l.is_separated_from(&UpperBound::new(5, true)));
    assert!(!l.is_separated_from(&UpperBound::new(7, true)));
    assert!(LowerBound::new(5, false).is_separated_from(&UpperBound::new(5, false)));
    assert!(!LowerBound::new(5, false).is_separated_from(&UpperBound::new(5, true)));
    let u = UpperBound::new(5, true);
    assert_eq!(l.partial_cmp(&u), None);
    assert!(l <= u);
    assert!(l >= u);
    assert!(!(l == u));
    assert!(!(l != u));
    assert!(!(u == l));
    assert!(!(u != l));
    assert_eq!(l.partial_cmp(&UpperBound::new(5, false)), Some(Ordering::Less));
    assert_eq!(l.partial_cmp(&UpperBound::new(6, true)), Some(Ordering::Less));
    assert_eq!(l.partial_cmp(&UpperBound::new(4, true)), Some(Ordering::Greater));
    assert_eq!(u.partial_cmp(&LowerBound::new(4, true)), Some(Ordering::Greater));
    assert_eq!(u.partial_cmp(&LowerBound::new(6, true)), Some(Ordering::Less));
    assert_eq!(u.partial_cmp(&l), None);
    assert_eq!(l.partial_cmp(&5), Some(Ordering::Equal));
    assert_eq!(LowerBound::new(5, false).partial_cmp(&5), Some(Ordering::Greater));
    assert_eq!(UpperBound::new(5, false).partial_cmp(&5), Some(Ordering::Less));
    assert_eq!(u.partial_cmp(&5), Some(Ordering::Equal));
    assert_eq!(u.partial_cmp(&4), Some(Ordering::Greater));
}

#[test]
fn bound_keeps_its_closedness_under_arithmetic() {
    let b = Bound::new(6, true);
    assert_eq!(b.val(), &6);
    assert!(b.is_closed());
    assert_eq!(b + 1, Bound::new(7, true));
    assert_eq!(b - 1, Bound::new(5, true));
    assert_eq!(b * 2, Bound::new(12, true));
    assert_eq!(b / 4, Bound::new(1, true));
    let mut c = Bound::new(6, false);
    c.add_assign(2);
    c.sub_assign(1);
    c.mul_assign(3);
    c.div_assign(7);
    assert_eq!(c.into_tuple(), (3, false));
    assert!(Bound::new(1, true) != Bound::new(1, false));
    let mut l = LowerBound::new(1, true);
    let mut u = UpperBound::new(2, false);
    l.swap(&mut u);
    assert_eq!(l, LowerBound::new(2, false));
    assert_eq!(u, UpperBound::new(1, true));
}
