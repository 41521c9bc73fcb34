use astro_wheel::angle::{distance, is_ahead, FULL_TURN, HALF_TURN, UNITS_PER_DEGREE};
use astro_wheel::aspect::{aspect, aspect_chords, Type, CHART_ORBIS};

fn deg(d: i64) -> i64 {
    d * UNITS_PER_DEGREE
}

#[test]
fn distance_is_symmetric_bounded_and_zero_on_itself() {
    let samples = [deg(0), deg(10), deg(350), deg(-725), deg(179), deg(181), deg(1000), 12345];
    for &a in samples.iter() {
        assert_eq!(distance(a, a), 0);
        for &b in samples.iter() {
            assert_eq!(distance(a, b), distance(b, a));
            assert!(distance(a, b) >= 0 && distance(a, b) <= HALF_TURN);
        }
    }
}

#[test]
fn distance_wraps_around() {
    assert_eq!(distance(deg(350), deg(10)), deg(20));
    assert_eq!(distance(deg(10), deg(350)), deg(20));
    assert_eq!(distance(deg(0), deg(180)), deg(180));
    assert_eq!(distance(deg(-10), deg(710)), deg(0));
    assert_eq!(distance(i64::MIN, i64::MAX), distance(i64::MAX, i64::MIN));
}

#[test]
fn ahead_follows_the_shorter_arc() {
    assert!(is_ahead(deg(350), deg(10)));
    assert!(!is_ahead(deg(10), deg(350)));
    assert!(is_ahead(deg(10), deg(20)));
    assert!(!is_ahead(deg(20), deg(10)));
    assert!(is_ahead(deg(5), deg(5)));
    // half a turn: both arcs are equal, and the forward one counts
    assert!(is_ahead(deg(0), deg(180)));
    assert!(is_ahead(deg(180), deg(0)));
    assert!(is_ahead(-FULL_TURN, deg(1)));
}

#[test]
fn conjunction_exact_has_closeness_zero() {
    let a = aspect(deg(10), deg(10), deg(8)).unwrap();
    assert_eq!(a.aspect_type, Type::Zero);
    assert_eq!(a.close_num, 0);
    assert_eq!(a.close_den, deg(8));
}

#[test]
fn square_exact_has_closeness_one() {
    let a = aspect(deg(10), deg(100), deg(8)).unwrap();
    assert_eq!(a.aspect_type, Type::Ninety);
    assert_eq!(a.close_num, a.close_den);
}

#[test]
fn trine_exact_has_closeness_one() {
    let a = aspect(deg(10), deg(130), deg(8)).unwrap();
    assert_eq!(a.aspect_type, Type::OneTwenty);
    assert_eq!(a.close_num, a.close_den);
}

#[test]
fn forty_five_degrees_is_no_aspect() {
    assert_eq!(aspect(deg(0), deg(45), deg(8)), None);
}

#[test]
fn conjunction_closeness_grows_with_distance() {
    let a = aspect(deg(0), deg(4), deg(8)).unwrap();
    assert_eq!(a.aspect_type, Type::Zero);
    assert_eq!((a.close_num, a.close_den), (deg(4), deg(8)));
    // across the wrap
    let b = aspect(deg(358), deg(2), deg(8)).unwrap();
    assert_eq!(b.aspect_type, Type::Zero);
    assert_eq!((b.close_num, b.close_den), (deg(4), deg(8)));
    // the window is open at its edge
    assert_eq!(aspect(deg(0), deg(8), deg(8)), None);
}

#[test]
fn semisextile_window_is_a_quarter_orbis() {
    // 31 degrees: 1 degree off, window 2 degrees: closeness 1 - 1/2
    let a = aspect(deg(0), deg(31), deg(8)).unwrap();
    assert_eq!(a.aspect_type, Type::Thirty);
    assert_eq!((a.close_num, a.close_den), (deg(4), deg(8)));
    assert_eq!(aspect(deg(0), deg(32), deg(8)), None);
}

#[test]
fn sextile_window_is_three_quarters_orbis() {
    // 63 degrees: 3 degrees off, window 6 degrees: closeness 1 - 3/6
    let a = aspect(deg(0), deg(63), deg(8)).unwrap();
    assert_eq!(a.aspect_type, Type::Sixty);
    assert_eq!((a.close_num, a.close_den), (deg(12), deg(24)));
    assert_eq!(aspect(deg(0), deg(66), deg(8)), None);
    assert_eq!(aspect(deg(0), deg(54), deg(8)), None);
}

#[test]
fn opposition_and_near_square() {
    let a = aspect(deg(0), deg(176), deg(8)).unwrap();
    assert_eq!(a.aspect_type, Type::OneEighty);
    assert_eq!((a.close_num, a.close_den), (deg(4), deg(8)));
    let b = aspect(deg(100), deg(194), deg(8)).unwrap();
    assert_eq!(b.aspect_type, Type::Ninety);
    assert_eq!((b.close_num, b.close_den), (deg(4), deg(8)));
    let c = aspect(deg(350), deg(170), deg(8)).unwrap();
    assert_eq!(c.aspect_type, Type::OneEighty);
    assert_eq!(c.close_num, c.close_den);
}

#[test]
fn closed_window_gives_nothing() {
    assert_eq!(aspect(deg(0), deg(0), 0), None);
    assert_eq!(aspect(deg(0), deg(90), -deg(8)), None);
    assert_eq!(aspect(deg(0), deg(90), i64::MIN), None);
}

#[test]
fn wide_orbis_prefers_conjunction() {
    let a = aspect(deg(0), deg(90), deg(200)).unwrap();
    assert_eq!(a.aspect_type, Type::Zero);
    assert_eq!((a.close_num, a.close_den), (deg(90), deg(200)));
}

#[test]
fn type_styles() {
    assert!(!Type::Zero.is_drawn());
    assert!(!Type::Thirty.is_drawn());
    assert!(Type::Sixty.is_drawn());
    assert!(Type::OneEighty.is_drawn());
    assert!(Type::Ninety.is_tense());
    assert!(Type::OneEighty.is_tense());
    assert!(!Type::OneTwenty.is_tense());
    assert!(!Type::Sixty.is_tense());
}

#[test]
fn chords_skip_conjunctions_and_semisextiles() {
    let positions = vec![deg(0), deg(2), deg(90), deg(30), deg(181)];
    let chords = aspect_chords(&positions, CHART_ORBIS);
    let pairs: Vec<(i64, i64, Type)> =
        chords.iter().map(|c| (c.from, c.to, c.aspect.aspect_type)).collect();
    assert_eq!(
        pairs,
        vec![
            (deg(0), deg(90), Type::Ninety),
            (deg(0), deg(181), Type::OneEighty),
            (deg(2), deg(90), Type::Ninety),
            (deg(2), deg(181), Type::OneEighty),
            (deg(90), deg(30), Type::Sixty),
            (deg(90), deg(181), Type::Ninety),
        ]
    );
    assert!(aspect_chords(&vec![], CHART_ORBIS).is_empty());
    assert!(aspect_chords(&vec![deg(5)], CHART_ORBIS).is_empty());
}
