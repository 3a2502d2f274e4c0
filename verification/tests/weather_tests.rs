use alpine_weather_route::time::UtcTime;
use alpine_weather_route::weather::{
    accept_chunk, at, convert, forecast_chunks, forecast_query, PointWeather, RawForecast,
    RawHourly, WeatherError, HOURLY_VARIABLES,
};

fn series(values: &[Option<f64>]) -> Option<Vec<Option<f64>>> {
    Some(values.to_vec())
}

fn hourly(times: &[&str], temps: Option<Vec<Option<f64>>>) -> RawHourly<f64> {
    RawHourly {
        time: times.iter().map(|t| t.to_string()).collect(),
        temperature_2m: temps,
        apparent_temperature: None,
        dew_point_2m: None,
        precipitation: series(&[Some(0.5), None, Some(1.5)]),
        precipitation_probability: None,
        rain: None,
        showers: None,
        snowfall: None,
        snow_depth: None,
        weather_code: Some(vec![Some(3), Some(61), None]),
        cloud_cover: None,
        visibility: None,
        wind_speed_10m: None,
        wind_gusts_10m: None,
        wind_direction_10m: None,
        freezing_level_height: None,
        cape: None,
        uv_index: None,
        relative_humidity_2m: None,
        surface_pressure: None,
        pressure_msl: None,
        is_day: Some(vec![Some(1)]),
        sunshine_duration: None,
        direct_radiation: None,
    }
}

fn reply(times: &[&str]) -> RawForecast<f64> {
    RawForecast {
        elevation: Some(1035.0),
        timezone: "GMT".to_string(),
        hourly: hourly(times, series(&[Some(4.0), Some(5.0), Some(6.0)])),
    }
}

#[test]
fn at_reads_present_values() {
    let s = series(&[Some(1.0), None, Some(3.0)]);
    assert_eq!(at(&s, 0), Some(1.0));
    assert_eq!(at(&s, 1), None);
    assert_eq!(at(&s, 2), Some(3.0));
}

#[test]
fn at_is_none_past_the_end_or_without_series() {
    let s = series(&[Some(1.0)]);
    assert_eq!(at(&s, 1), None);
    assert_eq!(at(&s, 100), None);
    let missing: Option<Vec<Option<i32>>> = None;
    assert_eq!(at(&missing, 0), None);
}

#[test]
fn convert_keeps_readable_hours_with_their_own_values() {
    let raw = reply(&["2024-06-01T13:00", "not a time", "2024-06-01T15:00"]);
    let p = convert(raw);
    assert_eq!(p.elevation_m, Some(1035.0));
    assert_eq!(p.timezone, "GMT");
    assert_eq!(p.hours.len(), 2);
    assert_eq!(p.hours[0].time, UtcTime { secs: 1717246800, nanos: 0 });
    assert_eq!(p.hours[0].temperature_c, Some(4.0));
    assert_eq!(p.hours[0].precipitation_mm, Some(0.5));
    assert_eq!(p.hours[0].weather_code, Some(3));
    assert_eq!(p.hours[0].is_day, Some(1));
    assert_eq!(p.hours[1].time, UtcTime { secs: 1717254000, nanos: 0 });
    assert_eq!(p.hours[1].temperature_c, Some(6.0));
    assert_eq!(p.hours[1].precipitation_mm, Some(1.5));
    assert_eq!(p.hours[1].weather_code, None);
    assert_eq!(p.hours[1].is_day, None);
    assert_eq!(p.hours[1].dew_point_c, None);
}

#[test]
fn convert_of_no_hours_is_empty() {
    let p = convert(reply(&[]));
    assert!(p.hours.is_empty());
}

#[test]
fn chunks_of_forty() {
    assert!(forecast_chunks(0).is_empty());
    assert_eq!(forecast_chunks(1), vec![(0, 1)]);
    assert_eq!(forecast_chunks(40), vec![(0, 40)]);
    assert_eq!(forecast_chunks(41), vec![(0, 40), (40, 41)]);
    assert_eq!(forecast_chunks(85), vec![(0, 40), (40, 80), (80, 85)]);
}

#[test]
fn every_location_in_exactly_one_chunk() {
    for n in [1usize, 39, 40, 41, 200] {
        let chunks = forecast_chunks(n);
        for i in 0..n {
            let holding = chunks.iter().filter(|(a, b)| *a <= i && i < *b).count();
            assert_eq!(holding, 1);
            assert!(chunks[i / 40].0 <= i && i < chunks[i / 40].1);
        }
    }
}

#[test]
fn query_names_all_parameters() {
    let q = forecast_query(
        &vec!["46.1".to_string(), "46.2".to_string()],
        &vec!["11.5".to_string(), "11.6".to_string()],
        &vec![Some("1000".to_string()), None],
    );
    let expected: Vec<(String, String)> = vec![
        ("latitude", "46.1,46.2"),
        ("longitude", "11.5,11.6"),
        ("elevation", "1000,nan"),
        ("hourly", HOURLY_VARIABLES),
        ("forecast_days", "16"),
        ("timezone", "GMT"),
        ("wind_speed_unit", "kmh"),
    ]
    .into_iter()
    .map(|(a, b)| (a.to_string(), b.to_string()))
    .collect();
    assert_eq!(q, expected);
    assert!(HOURLY_VARIABLES.starts_with("temperature_2m,apparent_temperature"));
    assert!(HOURLY_VARIABLES.ends_with("sunshine_duration,direct_radiation"));
}

#[test]
fn query_of_one_location_has_no_commas() {
    let q = forecast_query(&vec!["45.9237".to_string()], &vec!["6.8694".to_string()], &vec![None]);
    assert_eq!(q[0].1, "45.9237");
    assert_eq!(q[1].1, "6.8694");
    assert_eq!(q[2].1, "nan");
}

#[test]
fn chunk_with_wrong_count_is_refused() {
    let mut all: Vec<PointWeather<f64>> = Vec::new();
    let r = accept_chunk(&mut all, 2, vec![reply(&["2024-06-01T13:00"])]);
    assert_eq!(r, Err(WeatherError::LocationCount { returned: 1, requested: 2 }));
    assert!(all.is_empty());
}

#[test]
fn chunks_accumulate_in_order() {
    let mut all: Vec<PointWeather<f64>> = Vec::new();
    let mut first = reply(&["2024-06-01T13:00"]);
    first.timezone = "first".to_string();
    let mut second = reply(&["2024-06-01T13:00", "2024-06-01T14:00"]);
    second.timezone = "second".to_string();
    assert_eq!(accept_chunk(&mut all, 2, vec![first, second]), Ok(()));
    let mut third = reply(&[]);
    third.timezone = "third".to_string();
    assert_eq!(accept_chunk(&mut all, 1, vec![third]), Ok(()));
    assert_eq!(all.len(), 3);
    assert_eq!(all[0].timezone, "first");
    assert_eq!(all[0].hours.len(), 1);
    assert_eq!(all[1].timezone, "second");
    assert_eq!(all[1].hours.len(), 2);
    assert_eq!(all[2].timezone, "third");
    assert_eq!(all[2].hours.len(), 0);
}
