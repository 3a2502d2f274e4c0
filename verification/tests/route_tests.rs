use alpine_weather_route::route::{parse_gpx, RouteError};

fn gpx(body: &str) -> Vec<u8> {
    format!(
        "<?xml version=\"1.0\" encoding=\"UTF-8\"?>\
         <gpx version=\"1.1\" creator=\"test\" xmlns=\"http://www.topografix.com/GPX/1/1\">{body}</gpx>"
    )
    .into_bytes()
}

fn lat_lon(route: &alpine_weather_route::route::ParsedRoute) -> Vec<(f64, f64)> {
    route.points.iter().map(|p| (p.point().y(), p.point().x())).collect()
}

#[test]
fn reads_track_points_and_name() {
    let bytes = gpx(
        "<trk><name>Sella Ronda</name>\
         <trkseg><trkpt lat=\"46.0\" lon=\"11.0\"><ele>1000</ele></trkpt>\
         <trkpt lat=\"46.0\" lon=\"11.5\"><ele>2000</ele></trkpt></trkseg>\
         <trkseg><trkpt lat=\"46.1\" lon=\"11.6\"></trkpt></trkseg></trk>",
    );
    let route = parse_gpx(&bytes, "fallback").unwrap();
    assert_eq!(route.name, "Sella Ronda");
    assert_eq!(lat_lon(&route), vec![(46.0, 11.0), (46.0, 11.5), (46.1, 11.6)]);
    assert_eq!(route.points[0].elevation, Some(1000.0));
    assert_eq!(route.points[2].elevation, None);
}

#[test]
fn joins_all_tracks_in_order() {
    let bytes = gpx(
        "<trk><trkseg><trkpt lat=\"1\" lon=\"2\"></trkpt></trkseg></trk>\
         <trk><name>Second</name><trkseg><trkpt lat=\"3\" lon=\"4\"></trkpt></trkseg></trk>",
    );
    let route = parse_gpx(&bytes, "fallback").unwrap();
    assert_eq!(lat_lon(&route), vec![(1.0, 2.0), (3.0, 4.0)]);
    // the first track has no name: the name of a later track is not taken
    assert_eq!(route.name, "fallback");
}

#[test]
fn falls_back_to_route_points_and_route_name() {
    let bytes = gpx(
        "<rte><name>Passo Giau</name><rtept lat=\"46.48\" lon=\"12.05\"></rtept>\
         <rtept lat=\"46.50\" lon=\"12.10\"></rtept></rte>",
    );
    let route = parse_gpx(&bytes, "fallback").unwrap();
    assert_eq!(route.name, "Passo Giau");
    assert_eq!(lat_lon(&route), vec![(46.48, 12.05), (46.50, 12.10)]);
}

#[test]
fn track_points_win_over_route_points() {
    let bytes = gpx(
        "<rte><name>Route</name><rtept lat=\"9\" lon=\"9\"></rtept><rtept lat=\"8\" lon=\"8\"></rtept></rte>\
         <trk><trkseg><trkpt lat=\"1\" lon=\"1\"></trkpt><trkpt lat=\"2\" lon=\"2\"></trkpt></trkseg></trk>",
    );
    let route = parse_gpx(&bytes, "fallback").unwrap();
    assert_eq!(lat_lon(&route), vec![(1.0, 1.0), (2.0, 2.0)]);
    // the track has no name, so the first route's name is taken
    assert_eq!(route.name, "Route");
}

#[test]
fn uses_the_fallback_name() {
    let bytes = gpx(
        "<trk><trkseg><trkpt lat=\"1\" lon=\"1\"></trkpt><trkpt lat=\"2\" lon=\"2\"></trkpt></trkseg></trk>",
    );
    assert_eq!(parse_gpx(&bytes, "my-ride").unwrap().name, "my-ride");
}

#[test]
fn refuses_fewer_than_two_points() {
    let one = gpx("<trk><trkseg><trkpt lat=\"1\" lon=\"1\"></trkpt></trkseg></trk>");
    assert_eq!(parse_gpx(&one, "x").err(), Some(RouteError::TooFewPoints));
    let none = gpx("");
    assert_eq!(parse_gpx(&none, "x").err(), Some(RouteError::TooFewPoints));
}

#[test]
fn refuses_what_is_not_gpx() {
    assert_eq!(parse_gpx(b"hello", "x").err(), Some(RouteError::InvalidDocument));
    assert_eq!(parse_gpx(b"", "x").err(), Some(RouteError::InvalidDocument));
}

#[test]
fn error_messages() {
    assert_eq!(RouteError::InvalidDocument.message(), "invalid GPX document");
    assert_eq!(
        RouteError::TooFewPoints.message(),
        "GPX must contain a track or route with at least two points"
    );
}

#[test]
fn refuses_times_that_would_leave_the_year_range() {
    let bytes = b"<gpx version=\"1.1\"><wpt lat=\"0\" lon=\"0\"><time>9999-12-31T23:00:00-02:00</time></wpt></gpx>";
    assert_eq!(parse_gpx(bytes, "x").err(), Some(RouteError::InvalidDocument));
    let signed = gpx(
        "<trk><trkseg><trkpt lat=\"1\" lon=\"1\"><time>-009999-01-01T00:00:00+02:00</time></trkpt>\
         <trkpt lat=\"2\" lon=\"2\"></trkpt></trkseg></trk>",
    );
    assert_eq!(parse_gpx(&signed, "x").err(), Some(RouteError::InvalidDocument));
}

#[test]
fn reads_comments_and_references_outside_times() {
    let points = "<trk><trkseg><trkpt lat=\"1\" lon=\"1\"><ele>9999.5</ele></trkpt>\
                  <trkpt lat=\"2\" lon=\"2\"><time>2024-06-01T08:00:00Z</time></trkpt></trkseg></trk>";
    let with_comment = gpx(&format!("<!-- exported -->{points}"));
    assert_eq!(lat_lon(&parse_gpx(&with_comment, "x").unwrap()), vec![(1.0, 1.0), (2.0, 2.0)]);
    let with_cdata = gpx(&format!("<metadata><desc><![CDATA[a <b> c]]></desc></metadata>{points}"));
    assert_eq!(lat_lon(&parse_gpx(&with_cdata, "x").unwrap()), vec![(1.0, 1.0), (2.0, 2.0)]);
    let with_reference = gpx(&format!(
        "<trk><name>Caf&#233;</name><trkseg><trkpt lat=\"1\" lon=\"1\"></trkpt>\
         <trkpt lat=\"2\" lon=\"2\"></trkpt></trkseg></trk>"
    ));
    assert_eq!(parse_gpx(&with_reference, "x").unwrap().name, "Caf\u{e9}");
}

#[test]
fn refuses_markup_that_could_hide_an_edge_time() {
    let pts = |time: &str| {
        gpx(&format!(
            "<trk><trkseg><trkpt lat=\"1\" lon=\"1\"><time>{time}</time></trkpt>\
             <trkpt lat=\"2\" lon=\"2\"></trkpt></trkseg></trk>"
        ))
    };
    for time in ["99<!---->99-12-31T23:00:00-02:00", "&#57;999-12-31T23:00:00-02:00", "x<?p?>2024-06-01T08:00:00Z"] {
        assert_eq!(parse_gpx(&pts(time), "x").err(), Some(RouteError::InvalidDocument));
    }
    let prefixed = gpx(
        "<trk><trkseg><trkpt lat=\"1\" lon=\"1\"><g:time xmlns:g=\"http://www.topografix.com/GPX/1/1\">\
         9999-12-31T23:00:00-02:00</g:time></trkpt><trkpt lat=\"2\" lon=\"2\"></trkpt></trkseg></trk>",
    );
    assert_eq!(parse_gpx(&prefixed, "x").err(), Some(RouteError::InvalidDocument));
    let body = "<trk><trkseg><trkpt lat=\"1\" lon=\"1\"></trkpt><trkpt lat=\"2\" lon=\"2\"></trkpt></trkseg></trk>";
    let with_doctype = format!(
        "<?xml version=\"1.0\"?><!DOCTYPE gpx><gpx version=\"1.1\" creator=\"t\">{body}</gpx>"
    );
    assert_eq!(parse_gpx(with_doctype.as_bytes(), "x").err(), Some(RouteError::InvalidDocument));
    let doctype = gpx(body);
    let utf16: Vec<u8> = String::from_utf8(doctype)
        .unwrap()
        .encode_utf16()
        .flat_map(|u| u.to_le_bytes())
        .collect();
    assert_eq!(parse_gpx(&utf16, "x").err(), Some(RouteError::InvalidDocument));
}

#[test]
fn reads_ordinary_times_and_nines_elsewhere() {
    let bytes = gpx(
        "<trk><name>Stelvio &amp; Gavia</name><trkseg>\
         <trkpt lat=\"45.99999\" lon=\"9.99990\"><time>2024-06-01T08:00:00+02:00</time></trkpt>\
         <trkpt lat=\"46.0\" lon=\"10.0\"><ele>999</ele><time>2024-06-01T08:05:00Z</time></trkpt>\
         </trkseg></trk>",
    );
    let route = parse_gpx(&bytes, "x").unwrap();
    assert_eq!(route.name, "Stelvio & Gavia");
    assert_eq!(lat_lon(&route), vec![(45.99999, 9.99990), (46.0, 10.0)]);
}
