use advanced_collections::interval::{LowerBound, UpperBound};


#[test]
fn test_lower_create_check_destroy(){
    let b = LowerBound::new(5, true);
    assert_eq!(b.val(), &5);
    assert_eq!(b.is_closed(), true);
    assert_eq!(b.into_tuple(), (5, true))
}

#[test]
fn test_upper_create_check_destroy(){
    let b = UpperBound::new(5, true);
    assert_eq!(b.val(), &5);
    assert_eq!(b.is_closed(), true);
    assert_eq!(b.into_tuple(), (5, true))
}

#[test]
fn test_is_separated_from() {
    assert!(UpperBound::new(5,true).is_separated_from(&LowerBound::new(6,false)));
    assert!(UpperBound::new(5,true).is_separated_from(&LowerBound::new(6,true)));
    assert!(!UpperBound::new(5,true).is_separated_from(&LowerBound::new(5,false)));
    assert!(!UpperBound::new(5,true).is_separated_from(&LowerBound::new(5,true)));
}

#[test]
fn test_lower_cmp(){
    assert!(LowerBound::new(5, true)<LowerBound::new(6, true));
    assert!(LowerBound::new(5, true)<LowerBound::new(5, false));
    assert_eq!(LowerBound::new(5, true), LowerBound::new(5, true));
    assert_eq!(LowerBound::new(5, false), LowerBound::new(5, false));
    assert!(LowerBound::new(5, false)>LowerBound::new(5, true));
    assert!(LowerBound::new(5, false)>LowerBound::new(4, false));
}

#[test]
fn test_upper_cmp(){
    assert!(UpperBound::new(5, false)<UpperBound::new(6, false));
    assert!(UpperBound::new(5, false)<UpperBound::new(5, true));
    assert_eq!(UpperBound::new(5, true), UpperBound::new(5, true));
    assert_eq!(UpperBound::new(5, false), UpperBound::new(5, false));
    assert!(UpperBound::new(5, true)>UpperBound::new(5, false));
    assert!(UpperBound::new(5, true)>UpperBound::new(4, true));
}

#[test]
fn test_lower_upper_cmp(){
    assert!(LowerBound::new(5, true)<UpperBound::new(6, true));
    assert!(LowerBound::new(5, true)<UpperBound::new(5, false));
    assert_ne!(LowerBound::new(5, true), UpperBound::new(5, true));
    assert_ne!(LowerBound::new(5, false), UpperBound::new(5, false));
    assert!(LowerBound::new(5, false)>UpperBound::new(5, true));
    assert!(LowerBound::new(5, false)>UpperBound::new(4, false));
}

#[test]
fn test_upper_lower_cmp(){
    assert!(UpperBound::new(5, false)<LowerBound::new(6, false));
    assert!(UpperBound::new(5, false)<LowerBound::new(5, true));
    assert_ne!(UpperBound::new(5, true), LowerBound::new(5, true));
    assert_ne!(UpperBound::new(5, false), LowerBound::new(5, false));
    assert!(UpperBound::new(5, true)>LowerBound::new(5, false));
    assert!(UpperBound::new(5, true)>LowerBound::new(4, true));
}

#[test]
fn bounds_test_add(){
    let mut l = LowerBound::new(6, false);
    assert_eq!(l+4, LowerBound::new(10, false));
    l.add_assign(3);
    assert_eq!(l, LowerBound::new(9, false));

    let mut u = UpperBound::new(6, false);
    assert_eq!(u+4, UpperBound::new(10, false));
    u.add_assign(3);
    assert_eq!(u, UpperBound::new(9, false));
}

#[test]
fn bounds_test_sub(){
    let mut l = LowerBound::new(6, false);
    assert_eq!(l-2, LowerBound::new(4, false));
    l.sub_assign(3);
    assert_eq!(l, LowerBound::new(3, false));

    let mut u = UpperBound::new(6, false);
    assert_eq!(u-2, UpperBound::new(4, false));
    u.sub_assign(3);
    assert_eq!(u, UpperBound::new(3, false));
}

#[test]
fn bounds_test_mul(){
    let mut l = LowerBound::new(6, false);
    assert_eq!(l*2, LowerBound::new(12, false));
    l.mul_assign(-3);
    assert_eq!(l, LowerBound::new(-18, false));

    let mut u = UpperBound::new(6, false);
    assert_eq!(u*2, UpperBound::new(12, false));
    u.mul_assign(-3);
    assert_eq!(u, UpperBound::new(-18, false));
}

#[test]
fn bounds_test_div(){
    let mut l = LowerBound::new(6, false);
    assert_eq!(l/2, LowerBound::new(3, false));
    l.div_assign(-3);
    assert_eq!(l, LowerBound::new(-2, false));

    let mut u = UpperBound::new(6, false);
    assert_eq!(u/2, UpperBound::new(3, false));
    u.div_assign(-3);
    assert_eq!(u, UpperBound::new(-2, false));
}

#[test]
fn test_lower_val_cmp(){
    let o = LowerBound::new(5, false);

    assert_ne!(o, 5);

    assert!(o>4);
    assert!(o>5);
    assert!(!(o>6));

    assert!(o>=4);
    assert!(o>=5);
    assert!(!(o>=6));

    assert!(!(o<4));
    assert!(!(o<5));
    assert!(o<6);

    assert!(!(o<=4));
    assert!(!(o<=5));
    assert!(o<=6);

    let c = LowerBound::new(5, true);
    assert_eq!(c, 5);

    assert!(c>4);
    assert!(!(c>5));
    assert!(!(c>6));

    assert!(c>=4);
    assert!(c>=5);
    assert!(!(c>=6));

    assert!(!(c<4));
    assert!(!(c<5));
    assert!(c<6);

    assert!(!(c<=4));
    assert!(c<=5);
    assert!(c<=6);
}

#[test]
fn test_upper_val_cmp(){
    let o = UpperBound::new(5, false);

    assert_ne!(o, 5);

    assert!(o>4);
    assert!(!(o>5));
    assert!(!(o>6));

    assert!(o>=4);
    assert!(!(o>=5));
    assert!(!(o>=6));

    assert!(!(o<4));
    assert!(o<5);
    assert!(o<6);

    assert!(!(o<=4));
    assert!(o<=5);
    assert!(o<=6);

    let c = LowerBound::new(5, true);
    assert_eq!(c, 5);

    assert!(c>4);
    assert!(!(c>5));
    assert!(!(c>6));

    assert!(c>=4);
    assert!(c>=5);
    assert!(!(c>=6));

    assert!(!(c<4));
    assert!(!(c<5));
    assert!(c<6);

    assert!(!(c<=4));
    assert!(c<=5);
    assert!(c<=6);
}
