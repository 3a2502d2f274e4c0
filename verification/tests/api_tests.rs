use alpine_weather_route::api::{
    bad_request, check_forecast_points, classify_field, upload_name, FormField, TripForm,
    TripStore, BAD_REQUEST, NOT_FOUND,
};
use alpine_weather_route::time::UtcTime;

#[test]
fn bad_request_is_a_400() {
    let e = bad_request("speed_kmh must be a number");
    assert_eq!(e.status, 400);
    assert_eq!(e.message, "speed_kmh must be a number");
}

#[test]
fn classifies_form_fields() {
    assert_eq!(classify_field(Some("gpx")), FormField::Gpx);
    assert_eq!(classify_field(Some("departure")), FormField::Departure);
    assert_eq!(classify_field(Some("departure_datetime")), FormField::Departure);
    assert_eq!(classify_field(Some("speed_kmh")), FormField::Speed);
    assert_eq!(classify_field(Some("GPX")), FormField::Other);
    assert_eq!(classify_field(Some("gpx ")), FormField::Other);
    assert_eq!(classify_field(Some("")), FormField::Other);
    assert_eq!(classify_field(None), FormField::Other);
}

#[test]
fn strips_every_trailing_gpx() {
    assert_eq!(upload_name("alps.gpx"), "alps");
    assert_eq!(upload_name("alps.gpx.gpx"), "alps");
    assert_eq!(upload_name(".gpx"), "");
    assert_eq!(upload_name("alps.GPX"), "alps.GPX");
    assert_eq!(upload_name("gpx"), "gpx");
    assert_eq!(upload_name("a.gpxb"), "a.gpxb");
    assert_eq!(upload_name("Vršič.gpx"), "Vršič");
}

#[test]
fn form_defaults() {
    let now = UtcTime { secs: 1_700_000_000, nanos: 5 };
    let form = TripForm::new(now);
    assert!(form.gpx.is_none());
    assert_eq!(form.filename, "route");
    assert_eq!(form.departure, now);
    let e = form.take_gpx().err().unwrap();
    assert_eq!(e.status, BAD_REQUEST);
    assert_eq!(e.message, "missing gpx file");
}

#[test]
fn form_takes_file_and_name() {
    let mut form = TripForm::new(UtcTime { secs: 0, nanos: 0 });
    form.accept_gpx(Some("dolomites.gpx"), vec![1, 2, 3]);
    assert_eq!(form.filename, "dolomites");
    form.accept_gpx(None, vec![4]);
    assert_eq!(form.filename, "dolomites");
    assert_eq!(form.take_gpx().ok(), Some(vec![4]));
}

#[test]
fn form_takes_departure() {
    let mut form = TripForm::new(UtcTime { secs: 0, nanos: 0 });
    assert!(form.accept_departure("2024-06-01T08:30:00+02:00").is_ok());
    assert_eq!(form.departure, UtcTime { secs: 1717223400, nanos: 0 });
    let e = form.accept_departure("next monday").err().unwrap();
    assert_eq!(e.status, 400);
    assert_eq!(e.message, "departure must be an ISO-8601 timestamp with timezone");
    assert_eq!(form.departure, UtcTime { secs: 1717223400, nanos: 0 });
}

#[test]
fn forecast_point_limit() {
    assert!(check_forecast_points(0).is_ok());
    assert!(check_forecast_points(200).is_ok());
    let e = check_forecast_points(201).err().unwrap();
    assert_eq!(e.status, 400);
    assert_eq!(
        e.message,
        "route is too long or sampling interval is too small (maximum 200 forecast points)"
    );
}

#[test]
fn stored_trip_is_found_again() {
    let mut store: TripStore<String> = TripStore::new();
    let e = store.get_trip(7).err().unwrap();
    assert_eq!(e.status, NOT_FOUND);
    assert_eq!(e.message, "trip not found");
    store.insert(7, "first".to_string());
    store.insert(u128::MAX, "second".to_string());
    assert_eq!(store.get_trip(7).ok(), Some(&"first".to_string()));
    assert_eq!(store.get_trip(u128::MAX).ok(), Some(&"second".to_string()));
    store.insert(7, "replaced".to_string());
    assert_eq!(store.get_trip(7).ok(), Some(&"replaced".to_string()));
    assert_eq!(store.get_trip(u128::MAX).ok(), Some(&"second".to_string()));
    assert!(store.get_trip(8).is_err());
}

#[test]
fn stripping_twice_changes_nothing_more() {
    for name in ["a.gpx.gpx", "b", ".gpx.gpx", "c.gpx.txt", "route.gpx"] {
        let once = upload_name(name);
        assert_eq!(upload_name(&once), once);
        assert!(!once.ends_with(".gpx"));
    }
}
