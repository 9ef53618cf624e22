use query_guard::latitude::Latitude;
use query_guard::location::Location;
use query_guard::number::{float_literal, parse_clamped};
use query_guard::text::split;

fn degrees_of(r: Result<Latitude, query_guard::error::ValidationError>) -> Result<isize, String> {
    match r {
        Ok(l) => Ok(l.degrees()),
        Err(e) => Err(e.reason),
    }
}

#[test]
fn latitude_in_range_reads_back() {
    for n in -90isize..=90 {
        assert_eq!(degrees_of(Latitude::from_decoded(&format!("{}", n))), Ok(n));
    }
}

#[test]
fn latitude_out_of_range_is_range_error() {
    for n in [-91isize, 91, 200, -1000, isize::MAX, isize::MIN] {
        assert_eq!(
            degrees_of(Latitude::from_decoded(&format!("{}", n))),
            Err("must be between -90 and 90.".to_string())
        );
    }
}

#[test]
fn latitude_non_numeric_is_format_error() {
    for s in ["abc", "", "-", "+", "4.5", " 45", "45 ", "4a", "--4"] {
        assert_eq!(
            degrees_of(Latitude::from_decoded(s)),
            Err("value is not a number.".to_string())
        );
    }
}

#[test]
fn latitude_beyond_isize_is_range_error() {
    for s in ["99999999999999999999", "-9223372036854775809", "123456789012345678901234567890"] {
        assert_eq!(
            degrees_of(Latitude::from_decoded(s)),
            Err("must be between -90 and 90.".to_string())
        );
    }
}

#[test]
fn latitude_plus_sign_accepted() {
    assert_eq!(degrees_of(Latitude::from_decoded("+12")), Ok(12));
}

#[test]
fn latitude_form_value_is_url_decoded() {
    assert_eq!(degrees_of(Latitude::from_form_value("%34%35")), Ok(45));
    assert_eq!(degrees_of(Latitude::from_form_value("-%39%30")), Ok(-90));
    assert_eq!(
        degrees_of(Latitude::from_form_value("4+5")),
        Err("value is not a number.".to_string())
    );
    assert_eq!(
        degrees_of(Latitude::from_form_value("%FF")),
        Err("value is not a number.".to_string())
    );
}

#[test]
fn clamped_integer_parsing() {
    assert_eq!(parse_clamped("9223372036854775808", 91), Some(91));
    assert_eq!(parse_clamped("-99999999999999999999", 91), Some(-91));
    assert_eq!(parse_clamped("91", 91), Some(91));
    assert_eq!(parse_clamped("-90", 91), Some(-90));
    assert_eq!(parse_clamped("007", 91), Some(7));
    assert_eq!(parse_clamped("1x", 91), None);
}

#[test]
fn float_literals() {
    for s in ["12.5", "45.0", "1", "5.", ".5", "1e5", "1E-5", "-2.5e+3", "inf", "-Infinity", "NaN", "+0"] {
        assert!(float_literal(s), "{}", s);
        assert!(s.parse::<f32>().is_ok(), "{}", s);
    }
    for s in ["", ".", "e5", "1e", "1.5.2", "abc", "1,5", " 1", "+", "infin", "1e+"] {
        assert!(!float_literal(s), "{}", s);
        assert!(s.parse::<f32>().is_err(), "{}", s);
    }
}

#[test]
fn split_keeps_empty_pieces() {
    assert_eq!(split("a,,b,", ','), vec!["a", "", "b", ""]);
    assert_eq!(split("", ','), vec![""]);
}

#[test]
fn location_two_numbers() {
    let l = Location::from_form_value("12.5,45.0").unwrap();
    assert_eq!(l.lng, "12.5");
    assert_eq!(l.lat, "45.0");
    assert_eq!(l.lng.parse::<f32>().unwrap(), 12.5f32);
    assert_eq!(l.lat.parse::<f32>().unwrap(), 45.0f32);
}

#[test]
fn location_wrong_arity_fails() {
    for s in ["12.5", "12.5,45.0,1.0", ""] {
        assert_eq!(
            Location::from_form_value(s).unwrap_err().reason,
            "location parsing failed"
        );
    }
}

#[test]
fn location_bad_number_fails() {
    for s in ["a,1", "1,b", "1,", ",1"] {
        assert_eq!(
            Location::from_form_value(s).unwrap_err().reason,
            "location parsing failed"
        );
    }
}
