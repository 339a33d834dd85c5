use mcsim::duration::{duration_terms, DurationStop, DurationTerms};

fn terms(t: &DurationTerms) -> Vec<(String, u64)> {
    t.terms.iter().map(|x| (x.number.clone(), x.seconds_per_unit)).collect()
}

fn pairs(v: &[(&str, u64)]) -> Vec<(String, u64)> {
    v.iter().map(|(n, s)| (n.to_string(), *s)).collect()
}

#[test]
fn single_units() {
    for (text, secs) in [("60s", 1u64), ("10m", 60), ("2h", 3600), ("1d", 86400)] {
        let t = duration_terms(text);
        assert!(t.stop.is_none());
        assert_eq!(terms(&t), pairs(&[(&text[..text.len() - 1], secs)]));
    }
}

#[test]
fn combined_units() {
    let t = duration_terms("1d2h30m45s");
    assert!(t.stop.is_none());
    assert_eq!(terms(&t), pairs(&[("1", 86400), ("2", 3600), ("30", 60), ("45", 1)]));
    let t = duration_terms("24h10m20s");
    assert_eq!(terms(&t), pairs(&[("24", 3600), ("10", 60), ("20", 1)]));
}

#[test]
fn trailing_number_is_seconds() {
    let t = duration_terms("1h30");
    assert!(t.stop.is_none());
    assert_eq!(terms(&t), pairs(&[("1", 3600), ("30", 1)]));
    let t = duration_terms("60");
    assert_eq!(terms(&t), pairs(&[("60", 1)]));
    assert!(duration_terms("").terms.is_empty());
}

#[test]
fn fractional_numbers_kept_as_written() {
    let t = duration_terms("1.5h");
    assert_eq!(terms(&t), pairs(&[("1.5", 3600)]));
    let t = duration_terms("0.5d");
    assert_eq!(terms(&t), pairs(&[("0.5", 86400)]));
    // the scanner does not judge the number: several points stay together
    let t = duration_terms("1.2.3m");
    assert_eq!(terms(&t), pairs(&[("1.2.3", 60)]));
}

#[test]
fn malformed_durations_stop() {
    let t = duration_terms("abc");
    assert!(t.terms.is_empty());
    assert!(matches!(t.stop, Some(DurationStop::UnexpectedChar('a'))));

    let t = duration_terms("10x");
    assert!(t.terms.is_empty());
    match t.stop {
        Some(DurationStop::UnknownUnit { number, unit }) => {
            assert_eq!(number, "10");
            assert_eq!(unit, 'x');
        }
        other => panic!("unexpected stop {:?}", other),
    }

    let t = duration_terms("h10");
    assert!(matches!(t.stop, Some(DurationStop::UnexpectedChar('h'))));

    // terms before the stop are kept; nothing after it is read
    let t = duration_terms("2h 30m");
    assert_eq!(terms(&t), pairs(&[("2", 3600)]));
    assert!(matches!(t.stop, Some(DurationStop::UnexpectedChar(' '))));
    let t = duration_terms("5mm");
    assert_eq!(terms(&t), pairs(&[("5", 60)]));
    assert!(matches!(t.stop, Some(DurationStop::UnexpectedChar('m'))));
}
