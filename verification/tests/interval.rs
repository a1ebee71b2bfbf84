use worker::interval::{interval_fits, read_interval};

#[test]
fn intervals_are_read_with_their_units() {
    for (text, nanos) in [
        ("7ns", 7u128),
        ("7nsec", 7),
        ("7us", 7_000),
        ("7\u{b5}s", 7_000),
        ("7ms", 7_000_000),
        ("7millis", 7_000_000),
        ("30s", 30_000_000_000),
        ("1min 30s", 90_000_000_000),
        ("2m", 120_000_000_000),
        ("1h", 3_600_000_000_000),
        ("1d", 86_400_000_000_000),
        ("1w", 604_800_000_000_000),
        ("1M", 2_630_016_000_000_000),
        ("1month", 2_630_016_000_000_000),
        ("1y", 31_557_600_000_000_000),
        ("1.5s", 1_500_000_000),
        (" 1 0 s ", 10_000_000_000),
        ("0s", 0),
    ] {
        assert_eq!(read_interval(text), Some(nanos), "{}", text);
    }
}

#[test]
fn what_writes_no_interval_is_not_read() {
    for text in [
        "", " ", "30", "s", "soon", "-1s", "1 fortnight", "1s;", "0.5ns", "1.s", ".5s", "1.5.5s",
        "99999999999999999999s", "0.000000000000000000001s",
    ] {
        assert!(interval_fits(text), "{}", text);
        assert_eq!(read_interval(text), None, "{}", text);
    }
}

#[test]
fn the_range_ends_with_two_to_the_sixty_fourth_second() {
    let second = 1_000_000_000u128;
    for (text, nanos) in [
        ("18446744073709551615s", u64::MAX as u128 * second),
        ("18446744073709551615s 999ms", u64::MAX as u128 * second + 999_000_000),
        ("18446744073709551615s 999999999ns", u64::MAX as u128 * second + 999_999_999),
        ("18446744073709551615.5s", u64::MAX as u128 * second + 500_000_000),
        ("18446744073709551615ns", u64::MAX as u128),
        ("18446744073709ms", 18_446_744_073_709 * 1_000_000),
        ("18446744073709millis", 18_446_744_073_709 * 1_000_000),
        ("307445734561825860m", 307_445_734_561_825_860 * 60 * second),
        ("7013919214843months", 7_013_919_214_843 * 2_630_016 * second),
        ("584542046090y", 584_542_046_090 * 31_557_600 * second),
        ("584542046090.5y", 584_542_046_090 * 31_557_600 * second + 15_778_800 * second),
    ] {
        assert!(interval_fits(text), "{}", text);
        assert_eq!(read_interval(text), Some(nanos), "{}", text);
    }
    for text in [
        "18446744073709551615s 1000ms",
        "18446744073709551615s 1s",
        "18446744073709551615.5s 500ms",
        "18446744073709551615s 999ms 1000us",
        "307445734561825861m",
        "584542046091y",
        "1s 584542046091y",
        "99999999999999weeks",
    ] {
        assert!(!interval_fits(text), "{}", text);
        assert_eq!(read_interval(text), None, "{}", text);
    }
}

#[test]
fn nothing_that_is_read_lies_beyond_the_range() {
    for whole in ["0", "9", "584542046090", "7013919214843", "18446744073709551615"] {
        for fraction in ["", ".0", ".5", ".25"] {
            for unit in [
                "nanos", "nsec", "ns", "usec", "us", "\u{b5}s", "millis", "msec", "ms", "seconds",
                "second", "secs", "sec", "s", "minutes", "minute", "min", "mins", "m", "hours",
                "hour", "hr", "hrs", "h", "days", "day", "d", "weeks", "week", "wk", "wks", "w",
                "months", "month", "M", "years", "year", "yr", "yrs", "y",
            ] {
                let text = format!("{}{}{}", whole, fraction, unit);
                match humantime::parse_duration(&text) {
                    Ok(duration) => {
                        assert!(interval_fits(&text), "{}", text);
                        assert_eq!(read_interval(&text), Some(duration.as_nanos()), "{}", text);
                    }
                    Err(_) => assert_eq!(read_interval(&text), None, "{}", text),
                }
            }
        }
    }
}

#[test]
fn one_number_and_one_unit_come_to_so_many_of_it() {
    for n in [0u64, 1, 59, 1_000, 584_542_046] {
        assert_eq!(read_interval(&format!("{}ns", n)), Some(n as u128));
        assert_eq!(read_interval(&format!("{}s", n)), Some(n as u128 * 1_000_000_000));
        assert_eq!(
            read_interval(&format!("{}years", n)),
            Some(n as u128 * 31_557_600_000_000_000)
        );
    }
}
