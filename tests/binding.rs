use query_guard::error::ValidationError;
use query_guard::form::{form_items, FormError, TestParams};
use query_guard::location::{ByBbox, Location};

fn loc(lng: &str, lat: &str) -> Location {
    Location { lng: lng.to_string(), lat: lat.to_string() }
}

#[test]
fn deferred_range_error_still_binds() {
    let p = TestParams::from_query("name=Bob&lat=200").unwrap();
    assert_eq!(p.name, "Bob");
    match p.lat {
        Ok(_) => panic!("latitude 200 accepted"),
        Err(e) => assert_eq!(e.reason, "must be between -90 and 90."),
    }
}

#[test]
fn deferred_good_latitude() {
    let p = TestParams::from_query("name=Alice&lat=45").unwrap();
    assert_eq!(p.name, "Alice");
    assert_eq!(p.lat.unwrap().degrees(), 45);
}

#[test]
fn name_is_url_decoded() {
    let p = TestParams::from_query("lat=1&name=Mr+X%21").unwrap();
    assert_eq!(p.name, "Mr X!");
}

#[test]
fn binding_failures() {
    assert!(matches!(TestParams::from_query("name=Bob"), Err(FormError::MissingField(k)) if k == "lat"));
    assert!(matches!(TestParams::from_query("lat=3"), Err(FormError::MissingField(k)) if k == "name"));
    assert!(matches!(TestParams::from_query("name=Bob&lat=3&x=1"), Err(FormError::UnknownField(k)) if k == "x"));
    assert!(matches!(TestParams::from_query("name=Bob&lat"), Err(FormError::Malformed)));
    assert!(matches!(TestParams::from_query(""), Err(FormError::Malformed)));
    assert!(matches!(TestParams::from_query("name=%FF&lat=3"), Err(FormError::Undecodable(k)) if k == "name"));
}

#[test]
fn last_repeated_key_counts() {
    let p = TestParams::from_query("name=A&lat=1&name=B").unwrap();
    assert_eq!(p.name, "B");
}

#[test]
fn items_split_at_first_equals() {
    assert_eq!(form_items("a=b=c&d="), Some(vec![("a", "b=c"), ("d", "")]));
}

#[test]
fn bbox_binds_both_corners() {
    let b = ByBbox::from_query("ne=12.5,45.0&sw=10.0,40.0").unwrap();
    assert_eq!(b, ByBbox { ne: loc("12.5", "45.0"), sw: loc("10.0", "40.0") });
}

#[test]
fn bbox_bad_corner_fails_whole_box() {
    assert_eq!(
        ByBbox::from_query("ne=12.5,45.0&sw=10.0"),
        Err(FormError::Invalid(ValidationError { reason: "location parsing failed".to_string() }))
    );
    assert_eq!(
        ByBbox::from_query("ne=x&sw=10.0,40.0"),
        Err(FormError::Invalid(ValidationError { reason: "location parsing failed".to_string() }))
    );
    assert_eq!(ByBbox::from_query("ne=1,2"), Err(FormError::MissingField("sw".to_string())));
}
