use termgl::orbit::{advance_days, advance_fits, random_start_days};

#[test]
fn start_days_lie_in_their_orbit() {
    let periods = vec![88u32, 225, 365, 687, 4331, 10747, 30589, 59800];
    for _ in 0..50 {
        let days = random_start_days(&periods);
        assert_eq!(days.len(), periods.len());
        for (d, p) in days.iter().zip(periods.iter()) {
            assert!(d < p);
        }
    }
    assert_eq!(random_start_days(&[1, 1]), vec![0, 0]);
}

#[test]
fn advance_adds_the_day_to_each_count() {
    let mut days = vec![0u32, 5, 100];
    assert!(advance_fits(&days, 7));
    advance_days(&mut days, 7);
    assert_eq!(days, vec![7, 12, 107]);
}

#[test]
fn advance_fits_detects_overflow() {
    assert!(!advance_fits(&[u32::MAX - 1, 0], 2));
    assert!(advance_fits(&[u32::MAX - 2, 0], 2));
    assert!(advance_fits(&[], u32::MAX));
}
