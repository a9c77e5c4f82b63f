use manager::median::{median, Average, Median};

fn average_of(points: &[u64]) -> Option<Average> {
    let mut m = Median::default();
    for p in points {
        m.update(*p);
    }
    m.get_median()
}

#[test]
fn no_measure_no_average() {
    assert_eq!(Median::default().get_median(), None);
}

#[test]
fn average_is_sum_over_count() {
    assert_eq!(average_of(&[1, 2, 6]), Some(Average { sum: 9, count: 3 }));
    assert_eq!(average_of(&[3, 1, 2, 10]), Some(Average { sum: 16, count: 4 }));
    assert_eq!(average_of(&[7]), Some(Average { sum: 7, count: 1 }));
}

#[test]
fn average_keeps_every_measure() {
    let mut m = Median::default();
    m.update(5);
    m.update(5);
    assert_eq!(m.get_median(), Some(Average { sum: 10, count: 2 }));
    assert_eq!(m.get_median(), Some(Average { sum: 10, count: 2 }));
    m.update(2);
    assert_eq!(m.get_median(), Some(Average { sum: 12, count: 3 }));
}

#[test]
fn average_of_large_measures_does_not_overflow() {
    assert_eq!(
        average_of(&[u64::MAX, u64::MAX, u64::MAX]),
        Some(Average { sum: 3 * (u64::MAX as u128), count: 3 })
    );
}

#[test]
fn no_data_no_median() {
    assert_eq!(median(&[]), None);
}

#[test]
fn odd_count_has_one_middle_value() {
    assert_eq!(median(&[30, 10, 20]), Some((20, 20)));
    assert_eq!(median(&[7]), Some((7, 7)));
}

#[test]
fn even_count_has_two_middle_values() {
    assert_eq!(median(&[40, 10, 30, 20]), Some((20, 30)));
    assert_eq!(median(&[5, 1]), Some((1, 5)));
}

#[test]
fn repeated_values_are_counted() {
    assert_eq!(median(&[2, 2, 2, 9, 1]), Some((2, 2)));
    assert_eq!(median(&[3, 3, 1, 1]), Some((1, 3)));
}

#[test]
fn median_ignores_arrival_order() {
    assert_eq!(median(&[9, 4, 7, 1, 8, 2]), median(&[1, 2, 4, 7, 8, 9]));
    assert_eq!(median(&[1, 2, 4, 7, 8, 9]), Some((4, 7)));
}

#[test]
fn lower_median_not_above_upper() {
    let (lo, hi) = median(&[100, 3, 55, 55, 0, 12, 80, 7]).unwrap();
    assert!(lo <= hi);
    assert_eq!((lo, hi), (12, 55));
}
