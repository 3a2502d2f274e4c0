use alpine_weather_route::api::TripForm;
use alpine_weather_route::time::{hour_start, UtcTime};

fn departure_of(text: &str) -> Option<UtcTime> {
    let mut form = TripForm::new(UtcTime { secs: -1, nanos: 0 });
    form.accept_departure(text).ok().map(|_| form.departure)
}

#[test]
fn parses_utc_timestamps() {
    assert_eq!(departure_of("2024-06-01T13:00:00Z"), Some(UtcTime { secs: 1717246800, nanos: 0 }));
}

#[test]
fn applies_the_offset() {
    assert_eq!(
        departure_of("2024-06-01T15:00:00+02:00"),
        Some(UtcTime { secs: 1717246800, nanos: 0 })
    );
}

#[test]
fn keeps_fractions_of_a_second() {
    assert_eq!(departure_of("1970-01-01T00:00:01.25Z"), Some(UtcTime { secs: 1, nanos: 250_000_000 }));
}

#[test]
fn refuses_times_without_offset() {
    assert_eq!(departure_of("2024-06-01T13:00:00"), None);
    assert_eq!(departure_of("tomorrow"), None);
}

#[test]
fn reads_hour_labels_as_utc() {
    assert_eq!(hour_start("2024-06-01T13:00"), Some(UtcTime { secs: 1717246800, nanos: 0 }));
    assert_eq!(hour_start("1970-01-01T00:00"), Some(UtcTime { secs: 0, nanos: 0 }));
    assert_eq!(hour_start("2024-06-01T13:00:00"), None);
    assert_eq!(hour_start(""), None);
}
