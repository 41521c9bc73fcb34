use astro_wheel::controls::{App, HarmonicCycle, Msg};
use astro_wheel::input::{parse_zet9, positions_from_records, to_num, Error, Zet9Record, SAMPLE_EXPORT};
use astro_wheel::positions::{harmonics, Positions};
use astro_wheel::reading::{sign_label, sign_reading, SignReading};

const SAMPLE: &str = "Sun     \t22\u{b0}14'35.78\"Cap\t  1\u{b0} 1' 9\"\tIX
Moon    \t 2\u{b0}39'38.96\"Sgr\t 11\u{b0}57'25\"\tVI
Mercury \t 1\u{b0}45'01.32\"Cap\t  1\u{b0}21'23\"\tVII
Node    \t15\u{b0}09'50.25\"Leo\t- 0\u{b0} 3'42\"\tIV
Lilith  \t 7\u{b0}10'07.07\"Cap\t  0\u{b0} 6'41\"\tVII

I\t27\u{b0}22'14.79\"Gem
X\t 6\u{b0}23'53.77\"Leo
XII\t18\u{b0}51'29.91\"Ari";

fn record(name: &str, d: &str, m: &str, s: &str, sign: &str) -> Zet9Record {
    Zet9Record {
        name: name.to_string(),
        degrees: d.to_string(),
        minutes: m.to_string(),
        seconds: s.to_string(),
        sign: sign.to_string(),
    }
}

#[test]
fn parse_sample_export() {
    let p = parse_zet9(SAMPLE).unwrap();
    // Sun: Capricorn is sign 9: 270 + 22 degrees, 14 minutes, 35.78 seconds
    assert_eq!(p.0[0], 292 * 360000 + 14 * 6000 + 3578);
    assert_eq!(p.0[1], 242 * 360000 + 39 * 6000 + 3896);
    assert_eq!(p.0[2], 271 * 360000 + 45 * 6000 + 132);
    assert_eq!(p.0[10], 135 * 360000 + 9 * 6000 + 5025);
    assert_eq!(p.0[11], 126 * 360000 + 23 * 6000 + 5377);
    assert_eq!(p.0[12], 87 * 360000 + 22 * 6000 + 1479);
    for i in 3..10 {
        assert_eq!(p.0[i], 0);
    }
}

#[test]
fn parse_empty_text_gives_zeros() {
    assert_eq!(parse_zet9("").unwrap(), Positions([0; 13]));
    assert_eq!(parse_zet9("nothing to see").unwrap(), Positions::default());
}

#[test]
fn parse_unknown_sign_is_an_error() {
    let r = parse_zet9("Sun 22\u{b0}14'35.78\"Xyz");
    assert_eq!(r, Err(Error::UnknownZodiacSign("Xyz".to_string())));
    // an unknown sign on a record that fills no slot is ignored
    assert!(parse_zet9("Lilith 22\u{b0}14'35.78\"Xyz").is_ok());
}

#[test]
fn later_record_overrides_earlier() {
    let p = parse_zet9("Sun 1\u{b0}0'0.00\"Ari Sun 2\u{b0}0'0.00\"Ari").unwrap();
    assert_eq!(p.sun(), 2 * 360000);
}

#[test]
fn non_ascii_digits_are_malformed() {
    let r = parse_zet9("Sun \u{663}\u{b0}14'35.78\"Cap");
    assert_eq!(r, Err(Error::MalformedNumber("\u{663}".to_string())));
}

#[test]
fn record_values() {
    assert_eq!(to_num(&record("Sun", "22", "14", "35.78", "Cap")), Ok(292 * 360000 + 14 * 6000 + 3578));
    assert_eq!(to_num(&record("Sun", "0", "0", "1.5", "Psc")), Ok(330 * 360000 + 150));
    assert_eq!(to_num(&record("Sun", "0", "0", "1.999", "Ari")), Ok(199));
    assert_eq!(to_num(&record("Sun", "1", "2", "3.4", "Nope")), Err(Error::UnknownZodiacSign("Nope".to_string())));
    assert_eq!(
        to_num(&record("Sun", "1234567890", "0", "0.0", "Ari")),
        Ok(1234567890 * 360000)
    );
    assert_eq!(to_num(&record("Sun", "1", "", "3.4", "Ari")), Err(Error::MalformedNumber("".to_string())));
    assert_eq!(to_num(&record("Sun", "1", "2", "3", "Ari")), Err(Error::MalformedNumber("3".to_string())));
    assert_eq!(to_num(&record("Sun", "1", "2", "3.", "Ari")), Err(Error::MalformedNumber("3.".to_string())));
    assert_eq!(to_num(&record("Sun", "1", "2", ".5", "Ari")), Err(Error::MalformedNumber(".5".to_string())));
}

#[test]
fn records_fill_named_slots_only() {
    let recs = vec![
        record("Lilith", "1", "0", "0.0", "Ari"),
        record("Pluto", "1", "0", "0.0", "Tau"),
        record("X", "2", "0", "0.0", "Ari"),
    ];
    let p = positions_from_records(&recs).unwrap();
    assert_eq!(p.0[9], 31 * 360000);
    assert_eq!(p.descendant(), 2 * 360000);
    assert_eq!(p.ascendant(), 0);
    let bad = vec![record("Moon", "1", "0", "0.0", "Foo"), record("Sun", "1", "0", "0.0", "Bar")];
    assert_eq!(positions_from_records(&bad), Err(Error::UnknownZodiacSign("Foo".to_string())));
}

#[test]
fn position_getters() {
    let mut arr = [0i64; 13];
    for (i, a) in arr.iter_mut().enumerate() {
        *a = i as i64 * 100;
    }
    let p = Positions(arr);
    assert_eq!(p.sun(), 0);
    assert_eq!(p.moon(), 100);
    assert_eq!(p.descendant(), 1100);
    assert_eq!(p.ascendant(), 1200);
    assert_eq!(p.planets().len(), 11);
    assert_eq!(p.planets()[10], 1000);
    assert_eq!(p.planets_without_node().len(), 10);
    assert_eq!(p.planets_without_node()[9], 900);
}

#[test]
fn harmonic_chart_multiplies_and_reduces() {
    let mut arr = [0i64; 13];
    arr[0] = 100 * 360000;
    arr[1] = 359 * 360000;
    arr[2] = -10 * 360000;
    let p = harmonics(&Positions(arr), 4);
    assert_eq!(p.0[0], 40 * 360000);
    assert_eq!(p.0[1], 356 * 360000);
    assert_eq!(p.0[2], -40 * 360000);
    let same = harmonics(&Positions(arr), 1);
    assert_eq!(same.0[1], 359 * 360000);
    assert_eq!(harmonics(&Positions(arr), 0).0, [0; 13]);
}

#[test]
fn sign_readings() {
    assert_eq!(sign_reading(0), SignReading { sign: 0, degrees: 0, minutes: 0 });
    // 292 degrees 14 minutes 35.78 seconds: Capricorn 22 degrees, 15 minutes rounded
    assert_eq!(sign_reading(292 * 360000 + 14 * 6000 + 3578), SignReading { sign: 9, degrees: 22, minutes: 15 });
    // 29 degrees 59 minutes 45 seconds rounds up to 30 degrees 0 minutes, still Aries
    assert_eq!(sign_reading(29 * 360000 + 59 * 6000 + 4500), SignReading { sign: 0, degrees: 30, minutes: 0 });
    assert_eq!(sign_label(9), "Cap");
    assert_eq!(sign_label(3), "Can");
}

#[test]
fn controls_follow_actions() {
    let mut c = App::new();
    assert_eq!(c.harmonic_cycle, HarmonicCycle::Base);
    assert!(!c.update(Msg::Noop));
    assert!(c.update(Msg::ToggleAspect));
    assert!(c.aspect);
    assert!(c.update(Msg::CycleChange(3)));
    assert_eq!(c.harmonic_cycle, HarmonicCycle::Cycle(3));
    assert_eq!(c.harmonic_cycle.harmonic_and_cycle(), (1, 3));
    assert!(c.update(Msg::CycleChange(0)));
    assert_eq!(c.harmonic_cycle, HarmonicCycle::Base);
    assert!(c.update(Msg::HarmonicChange(5)));
    assert_eq!(c.harmonic_cycle.harmonic_and_cycle(), (5, 0));
    assert!(c.update(Msg::HarmonicChange(1)));
    assert_eq!(c.harmonic_cycle.harmonic_and_cycle(), (1, 0));
    assert!(c.update(Msg::PlanetsChange(11)));
    assert_eq!(c.planets, 11);
    let mut arr = [0i64; 13];
    arr[0] = 7;
    assert!(c.update(Msg::NewPositions(Positions(arr))));
    assert_eq!(c.positions.sun(), 7);
}

#[test]
fn parse_full_sample_export() {
    let p = parse_zet9(SAMPLE_EXPORT).unwrap();
    assert_eq!(
        p.0,
        [
            105207578, 87357896, 97830132, 105484861, 83280468, 82355573, 98179749, 8860568,
            123186510, 104101512, 48659025, 110303377, 31453479,
        ]
    );
}

#[test]
fn long_digit_runs_are_read_until_the_angle_overflows() {
    assert_eq!(
        to_num(&record("Sun", "000000000000000000000012", "0", "0.0", "Ari")),
        Ok(12 * 360000)
    );
    // the largest angle that fits, reached through the seconds field
    assert_eq!(
        to_num(&record("Sun", "0", "0", "92233720368547758.07", "Ari")),
        Ok(i64::MAX)
    );
    assert_eq!(
        to_num(&record("Sun", "0", "0", "92233720368547758.08", "Ari")),
        Err(Error::MalformedNumber("92233720368547758.08".to_string()))
    );
    assert_eq!(
        to_num(&record("Sun", "99999999999999999999", "0", "0.0", "Ari")),
        Err(Error::MalformedNumber("99999999999999999999".to_string()))
    );
    assert_eq!(
        to_num(&record("Sun", "0", "9999999999999999", "0.0", "Ari")),
        Err(Error::MalformedNumber("9999999999999999".to_string()))
    );
}

#[test]
fn sign_error_of_a_later_record_follows_long_fields() {
    let text = "Sun 1234567890\u{b0}12'0.00\"Ari Moon 1\u{b0}0'0.00\"Foo";
    assert_eq!(parse_zet9(text), Err(Error::UnknownZodiacSign("Foo".to_string())));
    let p = parse_zet9("Sun 1234567890\u{b0}12'0.00\"Ari").unwrap();
    assert_eq!(p.sun(), 1234567890 * 360000 + 12 * 6000);
}
