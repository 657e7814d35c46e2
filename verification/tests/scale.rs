use svg_graph::frac::Frac;
use svg_graph::scale::{Bound, LinearRoundedScale, LinearScale};
use svg_graph::ChartError;

#[test]
fn linear_scale() {
    {
        let scale = LinearScale::new(0, 10).unwrap().with_range(0, 100);
        assert_eq!(scale.segment(), Frac::from_int(10));
        assert_eq!(scale.offset(0), Frac::from_int(0));
        assert_eq!(scale.offset(5), Frac::from_int(50));
        assert_eq!(scale.ticks(), vec![0, 1, 2, 3, 4, 5, 6, 7, 8, 9, 10]);
    }

    {
        let scale = LinearScale::new(-5, 5).unwrap().with_range(0, 100);
        assert_eq!(scale.segment(), Frac::from_int(10));
        assert_eq!(scale.offset(-5), Frac::from_int(0));
        assert_eq!(scale.offset(5), Frac::from_int(100));
        assert_eq!(scale.ticks(), vec![0, 1, 2, 3, 4, 5, 6, 7, 8, 9, 10]);
    }
}

#[test]
fn linear_rounded_scale() {
    {
        let scale = LinearRoundedScale::new(0, 10).unwrap().with_range(0, 100);
        assert_eq!(scale.segment(), Frac::from_int(5));
        assert_eq!(scale.offset(0), Frac::from_int(0));
        // the exact value whose nearest 32-bit float is 33.333336
        assert_eq!(scale.offset(5), Frac::new(100, 3));
        assert_eq!(scale.ticks(), vec![0, 5, 10, 15]);
    }

    {
        let scale = LinearRoundedScale::new(-5, 5).unwrap().with_range(0, 100);
        assert_eq!(scale.segment(), Frac::from_int(5));
        assert_eq!(scale.offset(-5), Frac::from_int(25));
        assert_eq!(scale.offset(5), Frac::from_int(75));
        assert_eq!(scale.ticks(), vec![-10, -5, 0, 5, 10]);
    }
}

#[test]
fn bound() {
    assert_eq!(Bound::Begin.bound(Frac::from_int(0), 20), 0);
    assert_eq!(Bound::Begin.bound(Frac::from_int(-19), 20), -20);
    assert_eq!(Bound::Begin.bound(Frac::from_int(-21), 10), -30);
    assert_eq!(Bound::Begin.bound(Frac::new(1503, 10), 5), 150);
    assert_eq!(Bound::Begin.bound(Frac::from_int(3), 2), 2);
    assert_eq!(Bound::Begin.bound(Frac::from_int(10), 10), 0);

    assert_eq!(Bound::End.bound(Frac::from_int(10), 5), 15);
    assert_eq!(Bound::End.bound(Frac::from_int(-19), 20), 0);
    assert_eq!(Bound::End.bound(Frac::new(1527, 10), 5), 155);
    assert_eq!(Bound::End.bound(Frac::from_int(3), 2), 4);

    assert_eq!(Bound::Begin.sign(), -1);
    assert_eq!(Bound::End.sign(), 1);
}

#[test]
fn linear_offset_endpoints() {
    // the range ends are hit exactly, whatever the domain
    let scale = LinearScale::new(3, 17).unwrap().with_range(0, 250);
    assert_eq!(scale.offset(3), Frac::from_int(0));
    assert_eq!(scale.offset(17), Frac::from_int(250));
}

#[test]
fn linear_offset_monotone() {
    let scale = LinearScale::new(0, 97).unwrap().with_range(0, 10);
    let a = scale.offset(31);
    let b = scale.offset(32);
    assert!(a.lt(&b));
    assert!(!b.lt(&a));
}

#[test]
fn degenerate_domain_rejected() {
    assert_eq!(LinearScale::new(7, 7).err().unwrap(), ChartError::DegenerateDomain);
    assert_eq!(
        LinearRoundedScale::new(-2, -2).err().unwrap(),
        ChartError::DegenerateDomain
    );
    assert!(LinearScale::new(7, 8).is_ok());
}

#[test]
fn rounded_offset_endpoints() {
    // snapped bounds (-10, 10) project exactly onto the range ends
    let scale = LinearRoundedScale::new(-5, 5).unwrap().with_range(0, 100);
    assert_eq!(scale.offset(-10), Frac::from_int(0));
    assert_eq!(scale.offset(10), Frac::from_int(100));
}

#[test]
fn nice_step_shapes() {
    // at most one unit per tick: step 1
    let s = LinearRoundedScale::new(0, 3).unwrap().with_range(0, 100);
    assert_eq!(s.segment(), Frac::from_int(1));
    // at most two units per tick: step 2
    let s = LinearRoundedScale::new(0, 7).unwrap().with_range(0, 100);
    assert_eq!(s.segment(), Frac::from_int(2));
    // anything larger rounds up to a multiple of five
    let s = LinearRoundedScale::new(0, 1000).unwrap().with_range(0, 100);
    assert_eq!(s.segment(), Frac::from_int(250));
    assert_eq!(s.ticks(), vec![0, 250, 500, 750, 1000, 1250]);
}

#[test]
fn fraction_value_semantics() {
    assert_eq!(Frac::new(2, 4), Frac::new(1, 2));
    assert_eq!(Frac::new(-3, -6), Frac::new(1, 2));
    assert_ne!(Frac::new(1, 3), Frac::new(1, 2));
    assert!(Frac::new(1, 3).lt(&Frac::new(1, 2)));
    assert!(Frac::new(1, 3).le(&Frac::new(1, 2)));
    assert!(Frac::new(2, 4).le(&Frac::new(1, 2)));
    assert!(!Frac::new(1, 2).le(&Frac::new(1, 3)));
    assert!(Frac::new(-1, 2).is_neg());
    assert_eq!(Frac::new(5, -1), Frac::from_int(-5));
}
