use serial_monitor::parser::{is_numeric_token, parse_line};

fn parsed(line: &str) -> Option<Vec<f64>> {
    parse_line(line.as_bytes()).map(|f| {
        vec![&f.fl, &f.fr, &f.rl, &f.rr]
            .into_iter()
            .map(|t| std::str::from_utf8(t).unwrap().parse::<f64>().unwrap())
            .collect()
    })
}

#[test]
fn full_frame_parses() {
    assert_eq!(
        parsed("Pace: FL: 1.0 FR: 2.0 RL: 3.0 RR: 4.0"),
        Some(vec![1.0, 2.0, 3.0, 4.0])
    );
}

#[test]
fn two_tokens_no_match() {
    assert_eq!(parsed("Pace: FL: 1.0 FR: 2.0"), None);
}

#[test]
fn random_text_no_match() {
    assert_eq!(parsed("random text"), None);
}

#[test]
fn five_tokens_no_match() {
    assert_eq!(parsed("Pace: FL: 1.0 FR: 2.0 RL: 3.0 RR: 4.0 5.0"), None);
}

#[test]
fn three_tokens_no_match() {
    assert_eq!(parsed("Pace: FL: 1.0 FR: 2.0 RL: 3.0"), None);
}

#[test]
fn leading_whitespace_trimmed() {
    assert_eq!(
        parsed("  \t Pace: FL: 1 2 3 4 \r\n"),
        Some(vec![1.0, 2.0, 3.0, 4.0])
    );
}

#[test]
fn marker_must_open_the_line() {
    assert_eq!(parsed("x Pace: FL: 1.0 FR: 2.0 RL: 3.0 RR: 4.0"), None);
    assert_eq!(parsed("Pace:FL: 1.0 2.0 3.0 4.0"), None);
}

#[test]
fn tokens_counted_anywhere_on_the_line() {
    // the rule is four numeric tokens in total, wherever they stand
    assert_eq!(parsed("Pace: FL: 1 2 3 4"), Some(vec![1.0, 2.0, 3.0, 4.0]));
    assert_eq!(parsed("Pace: FL: 9 FR: 1.0 2.0 3.0"), Some(vec![9.0, 1.0, 2.0, 3.0]));
}

#[test]
fn special_values_parse() {
    let r = parse_line("Pace: FL: inf -2.5e3 .5 nan".as_bytes()).unwrap();
    assert_eq!(std::str::from_utf8(&r.fl).unwrap().parse::<f64>().unwrap(), f64::INFINITY);
    assert_eq!(std::str::from_utf8(&r.fr).unwrap().parse::<f64>().unwrap(), -2500.0);
    assert_eq!(std::str::from_utf8(&r.rl).unwrap().parse::<f64>().unwrap(), 0.5);
    assert!(std::str::from_utf8(&r.rr).unwrap().parse::<f64>().unwrap().is_nan());
}

#[test]
fn empty_line_no_match() {
    assert_eq!(parsed(""), None);
    assert_eq!(parsed("   "), None);
}

#[test]
fn numeric_token_agrees_with_float_parsing() {
    let cases = [
        "1", "1.", ".5", "1.0", "+1", "-1", "007", "1e5", "1E5", "1e+5", "1e-5", "1.e5",
        ".5e2", "1.25E-3", "inf", "Inf", "INFINITY", "infinity", "nan", "NaN", "-inf",
        "+nan", "-infinity", "5e999", "", "+", "-", ".", "+.", "e5", "E5", "1e", "1e+",
        "1e-", "1..2", "1.2.3", "--1", "1-", "1+2", "0x10", " 1", "1 ", "1_000", "infx",
        "na", "nans", "infinit", "infinityy", "1,5", "1.0f", "+-1", "e", "+e5", "1ee5",
        "1.5e2.5",
    ];
    for c in cases {
        assert_eq!(
            is_numeric_token(c.as_bytes()),
            c.parse::<f64>().is_ok(),
            "token {:?} disagrees with the standard float grammar",
            c
        );
    }
}
