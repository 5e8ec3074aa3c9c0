use rich_rust::measure::{measure_sum, measure_union, Measurement};


#[test]
fn test_measurement_new() {
    let m = Measurement::new(5, 10);
    assert_eq!(m.minimum, 5);
    assert_eq!(m.maximum, 10);
}

#[test]
fn test_measurement_exact() {
    let m = Measurement::exact(7);
    assert_eq!(m.minimum, 7);
    assert_eq!(m.maximum, 7);
    assert_eq!(m.span(), 0);
}

#[test]
fn test_measurement_span() {
    let m = Measurement::new(5, 10);
    assert_eq!(m.span(), 5);
}

#[test]
fn test_measurement_normalize() {
    let m = Measurement::new(10, 5); // Wrong order
    let normalized = m.normalize();
    assert_eq!(normalized.minimum, 5);
    assert_eq!(normalized.maximum, 10);
}

#[test]
fn test_with_maximum() {
    let m = Measurement::new(5, 20);
    let constrained = m.with_maximum(10);
    assert_eq!(constrained.minimum, 5);
    assert_eq!(constrained.maximum, 10);
}

#[test]
fn test_with_maximum_clamps_min() {
    let m = Measurement::new(15, 20);
    let constrained = m.with_maximum(10);
    assert_eq!(constrained.minimum, 10);
    assert_eq!(constrained.maximum, 10);
}

#[test]
fn test_with_minimum() {
    let m = Measurement::new(5, 20);
    let constrained = m.with_minimum(10);
    assert_eq!(constrained.minimum, 10);
    assert_eq!(constrained.maximum, 20);
}

#[test]
fn test_clamp() {
    let m = Measurement::new(3, 30);
    let clamped = m.clamp(Some(5), Some(20));
    assert_eq!(clamped.minimum, 5);
    assert_eq!(clamped.maximum, 20);
}

#[test]
fn test_union() {
    let a = Measurement::new(5, 15);
    let b = Measurement::new(10, 12);
    let union = a.union(&b);
    assert_eq!(union.minimum, 10); // max of minimums
    assert_eq!(union.maximum, 15); // max of maximums
}

#[test]
fn test_intersect() {
    let a = Measurement::new(5, 15);
    let b = Measurement::new(10, 20);
    let intersect = a.intersect(&b).unwrap();
    assert_eq!(intersect.minimum, 10);
    assert_eq!(intersect.maximum, 15);
}

#[test]
fn test_intersect_no_overlap() {
    let a = Measurement::new(5, 10);
    let b = Measurement::new(15, 20);
    assert!(a.intersect(&b).is_none());
}

#[test]
fn test_add_measurement() {
    let a = Measurement::new(5, 10);
    let b = Measurement::new(3, 7);
    let sum = a + b;
    assert_eq!(sum.minimum, 8);
    assert_eq!(sum.maximum, 17);
}

#[test]
fn test_add_width() {
    let m = Measurement::new(5, 10);
    let added = m.add(3);
    assert_eq!(added.minimum, 8);
    assert_eq!(added.maximum, 13);
}

#[test]
fn test_subtract_width() {
    let m = Measurement::new(5, 10);
    let subtracted = m.subtract(3);
    assert_eq!(subtracted.minimum, 2);
    assert_eq!(subtracted.maximum, 7);
}

#[test]
fn test_fits() {
    let m = Measurement::new(5, 10);
    assert!(!m.fits(4));
    assert!(m.fits(5));
    assert!(m.fits(7));
    assert!(m.fits(10));
    assert!(!m.fits(11));
}

#[test]
fn test_measure_union() {
    let measurements = vec![
        Measurement::new(5, 10),
        Measurement::new(3, 15),
        Measurement::new(8, 12),
    ];
    let union = measure_union(&measurements);
    assert_eq!(union.minimum, 8);  // max of minimums
    assert_eq!(union.maximum, 15); // max of maximums
}

#[test]
fn test_measure_union_empty() {
    let union = measure_union(&[]);
    assert_eq!(union.minimum, 0);
    assert_eq!(union.maximum, 0);
}

#[test]
fn test_measure_sum() {
    let measurements = vec![
        Measurement::new(5, 10),
        Measurement::new(3, 7),
    ];
    let sum = measure_sum(&measurements);
    assert_eq!(sum.minimum, 8);
    assert_eq!(sum.maximum, 17);
}
