use advanced_collections::interval::Interval;


#[test]
fn test_create_empty(){
    let i: Interval<i32> = Interval::empty();
    assert!(i.is_lower_closed().is_none());
    assert!(i.is_upper_closed().is_none());
    assert_eq!(i.lower(), None);
    assert_eq!(i.upper(), None);
    assert!(i.is_empty());
}

#[test]
fn test_create_single(){
    let i = Interval::single(5);
    assert_eq!(i.is_lower_closed(), Some(true));
    assert_eq!(i.is_upper_closed(), Some(true));
    assert_eq!(i.lower().unwrap().val(), &5);
    assert_eq!(i.upper().unwrap().val(), &5);
    assert!(!i.is_empty());
}

#[test]
fn test_create_closed(){
    let i = Interval::closed(3,5);
    assert_eq!(i.is_lower_closed(), Some(true));
    assert_eq!(i.is_upper_closed(), Some(true));
    assert_eq!(i.lower().unwrap().val(), &3);
    assert_eq!(i.upper().unwrap().val(), &5);
    assert!(!i.is_empty());
}

#[test]
#[should_panic]
fn test_create_closed_fail(){
    let _i = Interval::closed(5,4);
}

#[test]
fn test_create_lower_closed(){
    let i = Interval::lower_closed(3,5);
    assert_eq!(i.is_lower_closed(), Some(true));
    assert_eq!(i.is_upper_closed(), Some(false));
    assert_eq!(i.lower().unwrap().val(), &3);
    assert_eq!(i.upper().unwrap().val(), &5);
    assert!(!i.is_empty());
}

#[test]
#[should_panic]
fn test_create_lower_closed_fail(){
    let _i = Interval::lower_closed(5,5);
}

#[test]
fn test_create_upper_closed(){
    let i = Interval::upper_closed(3,5);
    assert_eq!(i.is_lower_closed(), Some(false));
    assert_eq!(i.is_upper_closed(), Some(true));
    assert_eq!(i.lower().unwrap().val(), &3);
    assert_eq!(i.upper().unwrap().val(), &5);
    assert!(!i.is_empty());
}

#[test]
#[should_panic]
fn test_create_upper_closed_fail(){
    let _i = Interval::upper_closed(5,5);
}

#[test]
fn test_contains_val(){

    let i = Interval::lower_closed(4,6);
    assert!(!i.contains_val(&3));
    assert!(i.contains_val(&4));
    assert!(i.contains_val(&5));
    assert!(!i.contains_val(&6));
    assert!(!i.contains_val(&7));
}

#[test]
fn test_contains_interval(){
    let i = Interval::lower_closed(4,8);
    let e: Interval<i32> = Interval::empty();
    assert!(i.contains_interval(&Interval::open(6,7)));
    assert!(i.contains_interval(&Interval::open(4,8)));
    assert!(!i.contains_interval(&Interval::open(3,7)));
    assert!(!i.contains_interval(&Interval::open(6,9)));
    assert!(!i.contains_interval(&Interval::open(3,9)));
    assert!(!i.contains_interval(&Interval::closed(4,8)));
    assert!(i.contains_interval(&i));
    assert!(i.contains_interval(&e));
    assert!(e.contains_interval(&e));
    assert!(!e.contains_interval(&Interval::open(3,7)));
}

#[test]
fn test_can_be_merged(){
    assert!(Interval::open(4,7).can_be_merged(&Interval::open(5, 9)));
    assert!(Interval::open(4,7).can_be_merged(&Interval::closed(7, 9)));
    assert!(Interval::closed(4,7).can_be_merged(&Interval::open(7, 9)));
    assert!(!Interval::open(4,7).can_be_merged(&Interval::open(7, 9)));
    assert!(!Interval::open(4,7).can_be_merged(&Interval::open(8, 9)));

    assert!(Interval::open(4,7).can_be_merged(&Interval::open(2, 6)));
    assert!(Interval::open(4,7).can_be_merged(&Interval::closed(2, 4)));
    assert!(Interval::closed(4,7).can_be_merged(&Interval::open(2, 4)));
    assert!(!Interval::open(4,7).can_be_merged(&Interval::open(2, 4)));
    assert!(!Interval::open(4,7).can_be_merged(&Interval::open(2, 3)));
}

#[test]
fn test_into_merged(){
    assert_eq!(Interval::closed(3,4).into_merged(Interval::closed(4,5)), Ok(Interval::closed(3,5)));
    assert_eq!(Interval::open(3,4).into_merged(Interval::closed(4,5)), Ok(Interval::upper_closed(3,5)));
    assert_eq!(Interval::closed(3,4).into_merged(Interval::open(4,5)), Ok(Interval::lower_closed(3,5)));
    assert_eq!(Interval::open(3,4).into_merged(Interval::open(4,5)), Err((Interval::open(3,4), Interval::open(4,5))));
}

#[test]
fn test_merge(){
    let mut i = Interval::empty();
    assert_eq!(i.merge(Interval::open(3,5)), Ok(()));
    assert_eq!(i, Interval::open(3,5));

    assert_eq!(i.merge(Interval::closed(5, 8)), Ok(()));
    assert_eq!(i, Interval::upper_closed(3,8));

    assert_eq!(i.merge(Interval::closed(1,2)), Err(Interval::closed(1,2)));
    assert_eq!(i, Interval::upper_closed(3,8));

    assert_eq!(i.merge(Interval::empty()), Ok(()));
    assert_eq!(i, Interval::upper_closed(3,8));
}

#[test]
fn test_span(){
    let mut i = Interval::empty();

    i.span(Interval::open(3,5));
    assert_eq!(i, Interval::open(3,5));

    i.span(Interval::empty());
    assert_eq!(i, Interval::open(3,5));

    i.span(Interval::closed(3,5));
    assert_eq!(i, Interval::closed(3,5));

    i.span(Interval::closed(7,9));
    assert_eq!(i, Interval::closed(3,9));
}

#[test]
fn test_into_span(){
    assert_eq!(Interval::empty().into_span(Interval::open(3,5)), Interval::open(3,5));

    assert_eq!(Interval::open(3,5).into_span(Interval::open(3,5)), Interval::open(3,5));

    assert_eq!(Interval::open(3,5).into_span(Interval::closed(3,5)), Interval::closed(3,5));

    assert_eq!(Interval::closed(3,5).into_span(Interval::closed(7,9)), Interval::closed(3,9));
}

#[test]
fn test_intersection(){
    let mut i = Interval::open(3,9);

    i.intersection(Interval::closed(1,8));
    assert_eq!(i, Interval::upper_closed(3,8));

    i.intersection(Interval::lower_closed(4, 7));
    assert_eq!(i, Interval::lower_closed(4,7));

    i.intersection(i.clone());
    assert_eq!(i, Interval::lower_closed(4,7));

    i.intersection(Interval::empty());
    assert_eq!(i, Interval::empty());
}

#[test]
fn test_into_intersection(){
    assert_eq!(Interval::open(3,9).into_intersection(Interval::closed(1,8)), Interval::upper_closed(3,8));
    assert_eq!(Interval::upper_closed(3,8).into_intersection(Interval::lower_closed(4, 7)), Interval::lower_closed(4,7));
    assert_eq!(Interval::lower_closed(4,7).into_intersection(Interval::lower_closed(4,7)), Interval::lower_closed(4,7));
    assert_eq!(Interval::lower_closed(4,7).into_intersection(Interval::empty()), Interval::empty());
}
