use lifegrid::filter::Filter;
use lifegrid::sense::sense_tick;

#[test]
fn zero_then_strong_sample_fires_alarm() {
    // Weight 0.8 is the rational 4/5. Feeding (0,0,0) then (2,2,2) in g,
    // that is (0,0,0) then (2000,2000,2000) milli-g, leaves every axis at
    // 1.6 g = 1600 milli-g, and the squared magnitude at 7.68 g^2, above
    // the 2.5 g^2 threshold.
    let mut f = Filter::new(4, 5);
    assert_eq!(f.sample(0, 0, 0), (0, 0, 0));
    let (fx, fy, fz) = f.sample(2000, 2000, 2000);
    assert_eq!((fx, fy, fz), (1600, 1600, 1600));
    assert_eq!(f.magnitude_sq(), 7_680_000);
    assert!(f.alarm());
}

#[test]
fn quiet_samples_do_not_fire_alarm() {
    // A resting device reads about 1 g on one axis: squared magnitude
    // 1 g^2, well under the threshold.
    let mut f = Filter::new(4, 5);
    f.sample(0, 0, 1000);
    f.sample(0, 0, 1000);
    assert!(!f.alarm());
}

#[test]
fn constant_input_converges_monotonically_from_below() {
    let mut f = Filter::new(1, 2);
    let mut prev = 0i64;
    for _ in 0..20 {
        let (fx, _, _) = f.sample(1000, 0, 0);
        assert!(fx >= prev);
        assert!(fx <= 1000);
        prev = fx;
    }
    // Halving the distance each step: 500, 750, 875, ...
    let mut check = Filter::new(1, 2);
    assert_eq!(check.sample(1000, 0, 0).0, 500);
    assert_eq!(check.sample(1000, 0, 0).0, 750);
    assert_eq!(check.sample(1000, 0, 0).0, 875);
}

#[test]
fn constant_input_converges_monotonically_from_above() {
    let mut f = Filter::new(1, 2);
    let mut prev = 0i64;
    for _ in 0..20 {
        let (_, fy, _) = f.sample(0, -1000, 0);
        assert!(fy <= prev);
        assert!(fy >= -1000);
        prev = fy;
    }
    let mut check = Filter::new(1, 2);
    assert_eq!(check.sample(0, -1000, 0).1, -500);
    assert_eq!(check.sample(0, -1000, 0).1, -750);
    assert_eq!(check.sample(0, -1000, 0).1, -875);
}

#[test]
fn weight_one_tracks_the_sample_exactly() {
    let mut f = Filter::new(1, 1);
    assert_eq!(f.sample(123, -456, 789), (123, -456, 789));
    assert_eq!(f.sample(-1, 2, -3), (-1, 2, -3));
}

#[test]
fn update_rounds_toward_negative_infinity() {
    // (4 * 1 + 1 * 0) / 5 rounds down to 0.
    let mut f = Filter::new(4, 5);
    assert_eq!(f.sample(1, 0, 0).0, 0);
    // (4 * -1 + 1 * 0) / 5 rounds down to -1.
    let mut g = Filter::new(4, 5);
    assert_eq!(g.sample(-1, 0, 0).0, -1);
}

#[test]
fn sense_tick_picks_dot_when_quiet() {
    let mut f = Filter::new(4, 5);
    let report = sense_tick(&mut f, 0, 0, 1000);
    assert!(!report.alarm);
    assert_eq!(report.tone_pulses, 0);
    for r in 0..5 {
        for c in 0..5 {
            let expect = if (r, c) == (2, 2) { 9 } else { 0 };
            assert_eq!(report.frame.get(r, c), expect);
        }
    }
}

#[test]
fn sense_tick_picks_bang_and_tone_on_alarm() {
    let mut f = Filter::new(4, 5);
    sense_tick(&mut f, 0, 0, 0);
    let report = sense_tick(&mut f, 2000, 2000, 2000);
    assert!(report.alarm);
    assert_eq!(report.tone_pulses, 10);
    for r in 0..5 {
        for c in 0..5 {
            let expect = if c == 2 && (r == 0 || r == 1 || r == 2 || r == 4) { 9 } else { 0 };
            assert_eq!(report.frame.get(r, c), expect);
        }
    }
}
