use gnc_carry::aggregate::{unzip_sums, Quantity, SumExtender, Value};
use gnc_carry::fixed::Fixed;

#[test]
fn extender_sums_in_order() {
    let mut s = SumExtender::default();
    s.extend(&vec![Fixed(30, 100), Fixed(-10, 100), Fixed(5, 100)]).unwrap();
    let r = *s.deref();
    assert_eq!((r.0, r.1), (25, 100));
}

#[test]
fn extender_keeps_sum_on_error() {
    let mut s = SumExtender::starting_at(Fixed(5, 10));
    assert!(s.extend(&vec![Fixed(1, 10), Fixed(1, 3)]).is_err());
    assert_eq!((s.0 .0, s.0 .1), (5, 10));
}

#[test]
fn extender_restarts_per_account() {
    let mut first = SumExtender::default();
    first.extend(&vec![Fixed(9, 10)]).unwrap();
    let mut second = SumExtender::default();
    second.extend(&vec![Fixed(1, 100)]).unwrap();
    assert_eq!((second.0 .0, second.0 .1), (1, 100));
}

#[test]
fn unzip_keeps_sides_apart() {
    let pairs = vec![(Fixed(30, 100), Fixed(3, 1000)), (Fixed(-10, 100), Fixed(-1, 1000))];
    let (v, q) = unzip_sums((Fixed(0, 100), Fixed(0, 1)), &pairs).unwrap();
    assert_eq!((v.0, v.1), (20, 100));
    assert_eq!((q.0, q.1), (2, 1000));
}

#[test]
fn unzip_reports_a_failing_side() {
    let pairs = vec![(Fixed(30, 100), Fixed(3, 7))];
    assert!(unzip_sums((Fixed(0, 100), Fixed(0, 100)), &pairs).is_err());
}

#[test]
fn value_and_quantity_default_to_zero_hundredths() {
    let v = Value::default();
    let q = Quantity::default();
    assert_eq!((v.0 .0, v.0 .1, q.0 .0, q.0 .1), (0, 100, 0, 100));
}
