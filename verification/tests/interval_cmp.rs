use advanced_collections::interval::Interval;


#[test]
fn test_eq(){
    let s = Interval::single(5);
    let i = Interval::closed(4,6);
    assert_eq!(s, 5);
    assert_ne!(s, 4);
    assert_ne!(i, 4);
    assert_ne!(i, 5);
    assert_ne!(i, 6);
}

#[test]
fn test_val_cmp_ne(){
    let o = Interval::open(3,5);
    let c = Interval::closed(3,5);
    assert!(o> 2);
    assert!(o> 3);
    assert!(!(o> 4));
    assert!(o < 6);
    assert!(o < 5);
    assert!(!(o < 4));

    assert!(c > 2);
    assert!(!(c> 3));
    assert!(!(c> 4));
    assert!(c < 6);
    assert!(!(c < 5));
    assert!(!(c < 4));
}

#[test]
fn test_val_cmp_eq(){
    let o = Interval::open(3,5);
    let c = Interval::closed(3,5);
    assert!(o>= 2);
    assert!(o>= 3);
    assert!(!(o>= 4));

    assert!(o <= 6);
    assert!(o <= 5);
    assert!(!(o <= 4));

    assert!(c >= 2);
    assert!(c>= 3);
    assert!(!(c>= 4));

    assert!(c <= 6);
    assert!(c <= 5);
    assert!(!(c <= 4));
}

#[test]
fn test_intv_cmp_nq(){
    let o = Interval::open(3,5);
    let c = Interval::closed(3,5);

    assert!(o>Interval::open(1,2));
    assert!(o>Interval::open(1,3));
    assert!(!(o>Interval::open(1,4)));

    assert!(c>Interval::open(1,2));
    assert!(c>Interval::open(1,3));
    assert!(!(c>Interval::open(1,4)));

    assert!(o>Interval::closed(1,2));
    assert!(o>Interval::closed(1,3));
    assert!(!(o>Interval::closed(1,4)));

    assert!(c>Interval::closed(1, 2));
    assert!(!(c>Interval::closed(1,3)));
    assert!(!(c>Interval::closed(1,4)));


    assert!(o<Interval::open(6,7));
    assert!(o<Interval::open(5,7));
    assert!(!(o<Interval::open(4,7)));

    assert!(c<Interval::open(6,7));
    assert!(c<Interval::open(5,7));
    assert!(!(c<Interval::open(4,7)));

    assert!(o<Interval::closed(6,7));
    assert!(o<Interval::closed(5,7));
    assert!(!(o<Interval::closed(4,7)));

    assert!(c<Interval::closed(6,7));
    assert!(!(c<Interval::closed(5,7)));
    assert!(!(c<Interval::closed(4,7)));
}

#[test]
fn test_intv_cmp_eq(){
    let o = Interval::open(3,5);
    let c = Interval::closed(3,5);

    assert!(o>=Interval::open(1,2));
    assert!(o>=Interval::open(1,3));
    assert!(!(o>=Interval::open(1,4)));

    assert!(c>=Interval::open(1,2));
    assert!(c>=Interval::open(1,3));
    assert!(!(c>=Interval::open(1,4)));

    assert!(o>=Interval::closed(1,2));
    assert!(o>=Interval::closed(1,3));
    assert!(!(o>=Interval::closed(1,4)));

    assert!(c>=Interval::closed(1, 2));
    assert!(!(!(c>=Interval::closed(1,3))));
    assert!(!(c>=Interval::closed(1,4)));


    assert!(o<=Interval::open(6,7));
    assert!(o<=Interval::open(5,7));
    assert!(!(o<=Interval::open(4,7)));

    assert!(c<=Interval::open(6,7));
    assert!(c<=Interval::open(5,7));
    assert!(!(c<=Interval::open(4,7)));

    assert!(o<=Interval::closed(6,7));
    assert!(o<=Interval::closed(5,7));
    assert!(!(o<=Interval::closed(4,7)));

    assert!(c<=Interval::closed(6,7));
    assert!(c<=Interval::closed(5,7));
    assert!(!(c<=Interval::closed(4,7)));
}
