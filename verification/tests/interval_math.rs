use advanced_collections::interval::Interval;



#[test]
fn interval_math_test_add(){
    let mut i = Interval::lower_closed(3i32,6);
    assert_eq!(i+3, Interval::lower_closed(6,9));
    i.add_assign(3);
    assert_eq!(i, Interval::lower_closed(6,9));

}

#[test]
fn interval_math_test_sub(){
    let mut i = Interval::lower_closed(3i32,6);
    assert_eq!(i-3, Interval::lower_closed(0,3));
    i.sub_assign(3);
    assert_eq!(i, Interval::lower_closed(0,3));
}

#[test]
fn interval_math_test_mul(){
    let mut i = Interval::lower_closed(3i32,6);
    assert_eq!(i*3, Interval::lower_closed(9,18));
    assert_eq!(i*-1, Interval::upper_closed(-6, -3));

    i.mul_assign(-3);
    assert_eq!(i, Interval::upper_closed(-18, -9));

}

#[test]
fn interval_math_test_div(){
    let mut i = Interval::lower_closed(3i32,6);
    assert_eq!(i/3, Interval::lower_closed(1,2));
    assert_eq!(i/-1, Interval::upper_closed(-6, -3));
    i.div_assign(-3);
    assert_eq!(i, Interval::upper_closed(-2, -1));


    let mut i = Interval::open(2,3);
    assert_eq!(i/2, Interval::empty());
    i.div_assign(2);
    assert_eq!(i, Interval::empty())

}
