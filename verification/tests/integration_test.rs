use gpx2geojson::converter::to_feature_collection;
use gpx2geojson::feature::{Feature, FeatureCollection, Geometry, PropValue};
use gpx2geojson::options::ConvertOptions;
use gpx2geojson::parser::parse_gpx;

fn fixture(name: &str) -> &'static str {
    match name {
        "basic/01_minimal_waypoint.gpx" => {
            r#"<?xml version="1.0"?>
<gpx xmlns="http://www.topografix.com/GPX/1/1" version="1.1">
  <wpt lat="35.6762" lon="139.6503"/>
</gpx>"#
        }
        "basic/02_full_waypoint.gpx" => {
            r#"<?xml version="1.0"?>
<gpx xmlns="http://www.topografix.com/GPX/1/1" version="1.1">
  <wpt lat="35.6586" lon="139.7454">
    <ele>40.5</ele>
    <time>2025-01-01T12:00:00Z</time>
    <name>Tokyo Tower</name>
    <cmt>A comment</cmt>
    <desc>A famous landmark in Tokyo</desc>
    <src>GPS</src>
    <sym>Flag, Blue</sym>
    <type>POI</type>
    <link href="https://example.com/tokyo-tower">
      <text>Tokyo Tower Website</text>
      <type>text/html</type>
    </link>
  </wpt>
</gpx>"#
        }
        "basic/03_simple_route.gpx" => {
            r#"<?xml version="1.0"?>
<gpx xmlns="http://www.topografix.com/GPX/1/1" version="1.1">
  <rte>
    <name>Tokyo Loop</name>
    <desc>A route around central Tokyo</desc>
    <number>1</number>
    <rtept lat="35.6762" lon="139.6503"/>
    <rtept lat="35.6895" lon="139.6917"/>
    <rtept lat="35.6586" lon="139.7454"/>
  </rte>
</gpx>"#
        }
        "basic/04_simple_track.gpx" => {
            r#"<?xml version="1.0"?>
<gpx xmlns="http://www.topografix.com/GPX/1/1" version="1.1">
  <trk>
    <name>Morning Run</name>
    <type>running</type>
    <trkseg>
      <trkpt lat="35.6762" lon="139.6503"><ele>10.0</ele><time>2025-01-01T06:00:00Z</time></trkpt>
      <trkpt lat="35.6772" lon="139.6513"><ele>11.0</ele><time>2025-01-01T06:01:00Z</time></trkpt>
      <trkpt lat="35.6782" lon="139.6523"><ele>12.0</ele><time>2025-01-01T06:02:00Z</time></trkpt>
      <trkpt lat="35.6792" lon="139.6533"><ele>13.0</ele><time>2025-01-01T06:03:00Z</time></trkpt>
      <trkpt lat="35.6802" lon="139.6543"><ele>14.0</ele><time>2025-01-01T06:04:00Z</time></trkpt>
    </trkseg>
  </trk>
</gpx>"#
        }
        "basic/05_complete.gpx" => {
            r#"<?xml version="1.0"?>
<gpx xmlns="http://www.topografix.com/GPX/1/1" version="1.1">
  <wpt lat="35.6762" lon="139.6503">
    <name>Tokyo</name>
  </wpt>
  <rte>
    <name>Route 1</name>
    <rtept lat="35.0" lon="139.0"/>
    <rtept lat="36.0" lon="140.0"/>
  </rte>
  <trk>
    <name>Track 1</name>
    <trkseg>
      <trkpt lat="35.0" lon="139.0"/>
      <trkpt lat="35.001" lon="139.001"/>
    </trkseg>
  </trk>
</gpx>"#
        }
        "tracks/06_multi_segment.gpx" => {
            r#"<?xml version="1.0"?>
<gpx xmlns="http://www.topografix.com/GPX/1/1" version="1.1">
  <trk>
    <trkseg>
      <trkpt lat="35.0" lon="139.0"/>
      <trkpt lat="35.001" lon="139.001"/>
    </trkseg>
    <trkseg>
      <trkpt lat="36.0" lon="140.0"/>
      <trkpt lat="36.001" lon="140.001"/>
    </trkseg>
  </trk>
</gpx>"#
        }
        "tracks/07_multi_track.gpx" => {
            r#"<?xml version="1.0"?>
<gpx xmlns="http://www.topografix.com/GPX/1/1" version="1.1">
  <trk>
    <name>Morning Run</name>
    <trkseg>
      <trkpt lat="35.0" lon="139.0"/>
      <trkpt lat="35.001" lon="139.001"/>
    </trkseg>
  </trk>
  <trk>
    <name>Evening Walk</name>
    <trkseg>
      <trkpt lat="35.1" lon="139.1"/>
      <trkpt lat="35.101" lon="139.101"/>
    </trkseg>
  </trk>
</gpx>"#
        }
        "tracks/08_single_point_track.gpx" => {
            r#"<?xml version="1.0"?>
<gpx xmlns="http://www.topografix.com/GPX/1/1" version="1.1">
  <trk>
    <trkseg>
      <trkpt lat="35.0" lon="139.0"/>
    </trkseg>
  </trk>
</gpx>"#
        }
        "edge_cases/09_empty.gpx" => {
            r#"<?xml version="1.0"?><gpx xmlns="http://www.topografix.com/GPX/1/1" version="1.1"></gpx>"#
        }
        "edge_cases/10_empty_segments.gpx" => {
            r#"<?xml version="1.0"?>
<gpx xmlns="http://www.topografix.com/GPX/1/1" version="1.1">
  <trk>
    <trkseg></trkseg>
    <trkseg>
      <trkpt lat="35.0" lon="139.0"/>
      <trkpt lat="35.001" lon="139.001"/>
    </trkseg>
    <trkseg/>
  </trk>
</gpx>"#
        }
        "edge_cases/11_cdata_and_entities.gpx" => {
            "<?xml version=\"1.0\"?>\n<gpx version=\"1.1\">\n  <wpt lat=\"35.0\" lon=\"139.0\">\n    <name><![CDATA[Caf\u{e9} & Bar <Tokyo>]]></name>\n    <cmt>\u{65e5}\u{672c}\u{8a9e}\u{30c6}\u{30b9}\u{30c8}: \u{6771}\u{4eac}\u{30bf}\u{30ef}\u{30fc}</cmt>\n    <desc>Special chars: &amp; &lt; &gt; &quot; &apos;</desc>\n  </wpt>\n</gpx>"
        }
        "edge_cases/12_no_namespace.gpx" => {
            r#"<?xml version="1.0"?>
<gpx version="1.1">
  <wpt lat="35.0" lon="139.0"/>
  <trk>
    <trkseg>
      <trkpt lat="35.0" lon="139.0"/>
      <trkpt lat="35.001" lon="139.001"/>
    </trkseg>
  </trk>
</gpx>"#
        }
        "edge_cases/13_gpx10.gpx" => {
            r#"<?xml version="1.0"?>
<gpx xmlns="http://www.topografix.com/GPX/1/0" version="1.0">
  <wpt lat="35.0" lon="139.0">
    <name>Legacy Point</name>
    <url>http://example.com/legacy</url>
  </wpt>
  <trk>
    <trkseg>
      <trkpt lat="35.0" lon="139.0">
        <speed>5.5</speed>
        <course>180.0</course>
      </trkpt>
      <trkpt lat="35.001" lon="139.001"/>
    </trkseg>
  </trk>
</gpx>"#
        }
        "vendor/14_garmin_extensions.gpx" => {
            r#"<?xml version="1.0"?>
<gpx xmlns="http://www.topografix.com/GPX/1/1" xmlns:gpxtpx="http://www.garmin.com/xmlschemas/TrackPointExtension/v1" version="1.1">
  <trk>
    <name>Garmin Activity</name>
    <type>running</type>
    <trkseg>
      <trkpt lat="35.0" lon="139.0">
        <time>2025-01-01T06:00:00Z</time>
        <extensions><gpxtpx:TrackPointExtension><gpxtpx:hr>150</gpxtpx:hr></gpxtpx:TrackPointExtension></extensions>
      </trkpt>
      <trkpt lat="35.001" lon="139.001">
        <time>2025-01-01T06:01:00Z</time>
        <extensions><gpxtpx:TrackPointExtension><gpxtpx:hr>152</gpxtpx:hr></gpxtpx:TrackPointExtension></extensions>
      </trkpt>
      <trkpt lat="35.002" lon="139.002">
        <time>2025-01-01T06:02:00Z</time>
        <extensions><gpxtpx:TrackPointExtension><gpxtpx:hr>154</gpxtpx:hr></gpxtpx:TrackPointExtension></extensions>
      </trkpt>
    </trkseg>
  </trk>
</gpx>"#
        }
        other => panic!("unknown fixture {other}"),
    }
}

fn f(s: &str) -> f64 {
    s.parse::<f64>().unwrap()
}

fn prop<'a>(feat: &'a Feature, key: &str) -> &'a PropValue {
    feat.property(key).unwrap_or_else(|| panic!("missing property {key}"))
}

fn prop_str(feat: &Feature, key: &str) -> String {
    match prop(feat, key) {
        PropValue::Text(s) => s.clone(),
        other => panic!("property {key} is not a string: {other:?}"),
    }
}

fn convert(gpx: &str) -> FeatureCollection {
    let data = parse_gpx(gpx).unwrap();
    to_feature_collection(&data, &ConvertOptions::default())
}

fn convert_with_opts(gpx: &str, opts: &ConvertOptions) -> FeatureCollection {
    let data = parse_gpx(gpx).unwrap();
    to_feature_collection(&data, opts)
}

// ---- basic ----

#[test]
fn test_01_minimal_waypoint() {
    let fc = convert(fixture("basic/01_minimal_waypoint.gpx"));
    assert_eq!(fc.features.len(), 1);

    let feat = &fc.features[0];
    if let Geometry::Point(coords) = &feat.geometry {
        assert!((f(&coords[0]) - 139.6503).abs() < 1e-4); // lon
        assert!((f(&coords[1]) - 35.6762).abs() < 1e-4); // lat
        assert_eq!(coords.len(), 2); // no elevation
    } else {
        panic!("Expected Point");
    }

    assert_eq!(prop_str(feat, "gpxType"), "waypoint");
}

#[test]
fn test_02_full_waypoint() {
    let fc = convert(fixture("basic/02_full_waypoint.gpx"));
    assert_eq!(fc.features.len(), 1);

    let feat = &fc.features[0];
    assert_eq!(prop_str(feat, "gpxType"), "waypoint");
    assert_eq!(prop_str(feat, "name"), "Tokyo Tower");
    assert_eq!(prop_str(feat, "cmt"), "A comment");
    assert_eq!(prop_str(feat, "desc"), "A famous landmark in Tokyo");
    assert_eq!(prop_str(feat, "src"), "GPS");
    assert_eq!(prop_str(feat, "sym"), "Flag, Blue");
    assert_eq!(prop_str(feat, "type"), "POI");
    assert_eq!(prop_str(feat, "time"), "2025-01-01T12:00:00Z");
    match prop(feat, "ele") {
        PropValue::Num(s) => assert!((f(s) - 40.5).abs() < 1e-10),
        other => panic!("unexpected ele: {other:?}"),
    }

    match prop(feat, "link") {
        PropValue::Link(link) => {
            assert_eq!(link.href, "https://example.com/tokyo-tower");
            assert_eq!(link.text.as_deref(), Some("Tokyo Tower Website"));
            assert_eq!(link.link_type.as_deref(), Some("text/html"));
        }
        other => panic!("unexpected link: {other:?}"),
    }
}

#[test]
fn test_03_simple_route() {
    let fc = convert(fixture("basic/03_simple_route.gpx"));
    assert_eq!(fc.features.len(), 1);

    let feat = &fc.features[0];
    assert_eq!(prop_str(feat, "gpxType"), "route");
    assert_eq!(prop_str(feat, "name"), "Tokyo Loop");
    assert_eq!(prop_str(feat, "desc"), "A route around central Tokyo");
    match prop(feat, "number") {
        PropValue::UInt(n) => assert_eq!(*n, 1),
        other => panic!("unexpected number: {other:?}"),
    }

    if let Geometry::LineString(coords) = &feat.geometry {
        assert_eq!(coords.len(), 3);
    } else {
        panic!("Expected LineString");
    }
}

#[test]
fn test_04_simple_track() {
    let fc = convert(fixture("basic/04_simple_track.gpx"));
    assert_eq!(fc.features.len(), 1);

    let feat = &fc.features[0];
    assert_eq!(prop_str(feat, "gpxType"), "track");
    assert_eq!(prop_str(feat, "name"), "Morning Run");
    assert_eq!(prop_str(feat, "type"), "running");

    if let Geometry::LineString(coords) = &feat.geometry {
        assert_eq!(coords.len(), 5);
        // Check [lon, lat, ele] order
        assert!((f(&coords[0][0]) - 139.6503).abs() < 1e-4); // lon
        assert!((f(&coords[0][1]) - 35.6762).abs() < 1e-4); // lat
        assert!((f(&coords[0][2]) - 10.0).abs() < 1e-4); // ele
    } else {
        panic!("Expected LineString");
    }

    match prop(feat, "coordinateProperties") {
        PropValue::Times(times) => {
            assert_eq!(times.len(), 5);
            assert_eq!(times[0].as_deref(), Some("2025-01-01T06:00:00Z"));
            assert_eq!(times[4].as_deref(), Some("2025-01-01T06:04:00Z"));
        }
        other => panic!("unexpected coordinateProperties: {other:?}"),
    }
}

#[test]
fn test_05_complete() {
    let fc = convert(fixture("basic/05_complete.gpx"));
    assert_eq!(fc.features.len(), 3);

    let types: Vec<String> = fc.features.iter().map(|feat| prop_str(feat, "gpxType")).collect();
    assert_eq!(types, vec!["waypoint", "route", "track"]);
}

// ---- tracks ----

#[test]
fn test_06_multi_segment_separate() {
    let fc = convert(fixture("tracks/06_multi_segment.gpx"));
    // Default: each segment is a separate Feature
    assert_eq!(fc.features.len(), 2);
    for feat in &fc.features {
        assert!(matches!(&feat.geometry, Geometry::LineString(_)));
    }
}

#[test]
fn test_06_multi_segment_joined() {
    let gpx = fixture("tracks/06_multi_segment.gpx");
    let opts = ConvertOptions { join_track_segments: true, ..Default::default() };
    let fc = convert_with_opts(gpx, &opts);
    assert_eq!(fc.features.len(), 1);

    if let Geometry::MultiLineString(lines) = &fc.features[0].geometry {
        assert_eq!(lines.len(), 2);
        assert_eq!(lines[0].len(), 2);
        assert_eq!(lines[1].len(), 2);
    } else {
        panic!("Expected MultiLineString");
    }
}

#[test]
fn test_07_multi_track() {
    let fc = convert(fixture("tracks/07_multi_track.gpx"));
    assert_eq!(fc.features.len(), 2);

    let names: Vec<String> = fc.features.iter().map(|feat| prop_str(feat, "name")).collect();
    assert_eq!(names, vec!["Morning Run", "Evening Walk"]);
}

#[test]
fn test_08_single_point_track() {
    let fc = convert(fixture("tracks/08_single_point_track.gpx"));
    assert_eq!(fc.features.len(), 1);

    assert!(
        matches!(&fc.features[0].geometry, Geometry::Point(_)),
        "Single-point track should become a Point Feature"
    );
}

// ---- edge cases ----

#[test]
fn test_09_empty() {
    let fc = convert(fixture("edge_cases/09_empty.gpx"));
    assert!(fc.features.is_empty());
}

#[test]
fn test_10_empty_segments() {
    let fc = convert(fixture("edge_cases/10_empty_segments.gpx"));
    // Only the non-empty segment produces a Feature
    assert_eq!(fc.features.len(), 1);

    if let Geometry::LineString(coords) = &fc.features[0].geometry {
        assert_eq!(coords.len(), 2);
    } else {
        panic!("Expected LineString");
    }
}

#[test]
fn test_11_cdata_and_entities() {
    let fc = convert(fixture("edge_cases/11_cdata_and_entities.gpx"));
    assert_eq!(fc.features.len(), 1);

    let feat = &fc.features[0];
    assert_eq!(prop_str(feat, "name"), "Café & Bar <Tokyo>");
    assert_eq!(prop_str(feat, "desc"), "Special chars: & < > \" '");
    assert_eq!(prop_str(feat, "cmt"), "日本語テスト: 東京タワー");
}

#[test]
fn test_12_no_namespace() {
    let fc = convert(fixture("edge_cases/12_no_namespace.gpx"));
    assert_eq!(fc.features.len(), 2); // 1 waypoint + 1 track

    let types: Vec<String> = fc.features.iter().map(|feat| prop_str(feat, "gpxType")).collect();
    assert_eq!(types, vec!["waypoint", "track"]);
}

#[test]
fn test_13_gpx10() {
    let fc = convert(fixture("edge_cases/13_gpx10.gpx"));
    // Should parse GPX 1.0 elements, skipping speed/course/url
    assert_eq!(fc.features.len(), 2); // 1 waypoint + 1 track

    assert_eq!(prop_str(&fc.features[0], "name"), "Legacy Point");

    if let Geometry::LineString(coords) = &fc.features[1].geometry {
        assert_eq!(coords.len(), 2);
    } else {
        panic!("Expected LineString");
    }
}

// ---- vendor ----

#[test]
fn test_14_garmin_extensions() {
    let fc = convert(fixture("vendor/14_garmin_extensions.gpx"));
    assert_eq!(fc.features.len(), 1);

    let feat = &fc.features[0];
    assert_eq!(prop_str(feat, "gpxType"), "track");
    assert_eq!(prop_str(feat, "name"), "Garmin Activity");
    assert_eq!(prop_str(feat, "type"), "running");

    // Extensions are skipped but parsing succeeds
    if let Geometry::LineString(coords) = &feat.geometry {
        assert_eq!(coords.len(), 3);
    } else {
        panic!("Expected LineString");
    }

    // Times should be present
    match prop(feat, "coordinateProperties") {
        PropValue::Times(times) => assert_eq!(times.len(), 3),
        other => panic!("unexpected coordinateProperties: {other:?}"),
    }
}
