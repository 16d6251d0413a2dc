use gpx2geojson::converter::to_feature_collection;
use gpx2geojson::feature::{Feature, Geometry, PropValue};
use gpx2geojson::options::{ConvertOptions, GpxElementType};
use gpx2geojson::parser::parse_gpx;

fn f(s: &str) -> f64 {
    s.parse::<f64>().unwrap()
}

fn prop<'a>(feat: &'a Feature, key: &str) -> &'a PropValue {
    feat.property(key).unwrap_or_else(|| panic!("missing property {key}"))
}

fn prop_str(feat: &Feature, key: &str) -> String {
    match prop(feat, key) {
        PropValue::Text(s) => s.clone(),
        other => panic!("property {key} is not a string: {other:?}"),
    }
}

fn prop_num(feat: &Feature, key: &str) -> f64 {
    match prop(feat, key) {
        PropValue::Num(s) => f(s),
        other => panic!("property {key} is not a number: {other:?}"),
    }
}

#[test]
fn test_waypoint_conversion() {
    let xml = r#"<?xml version="1.0"?>
<gpx version="1.1">
  <wpt lat="35.6762" lon="139.6503">
    <ele>40.5</ele>
    <name>Tokyo</name>
  </wpt>
</gpx>"#;
    let data = parse_gpx(xml).unwrap();
    let fc = to_feature_collection(&data, &ConvertOptions::default());

    assert_eq!(fc.features.len(), 1);
    let feat = &fc.features[0];

    // Check [lon, lat, ele] order
    if let Geometry::Point(coords) = &feat.geometry {
        assert!((f(&coords[0]) - 139.6503).abs() < 1e-10); // lon
        assert!((f(&coords[1]) - 35.6762).abs() < 1e-10); // lat
        assert!((f(&coords[2]) - 40.5).abs() < 1e-10); // ele
    } else {
        panic!("Expected Point geometry");
    }

    assert_eq!(prop_str(feat, "gpxType"), "waypoint");
    assert_eq!(prop_str(feat, "name"), "Tokyo");
    assert!((prop_num(feat, "ele") - 40.5).abs() < 1e-10);
}

#[test]
fn test_track_with_times() {
    let xml = r#"<?xml version="1.0"?>
<gpx version="1.1">
  <trk>
    <name>Run</name>
    <trkseg>
      <trkpt lat="35.0" lon="139.0"><time>2025-01-01T00:00:00Z</time></trkpt>
      <trkpt lat="35.001" lon="139.001"><time>2025-01-01T00:01:00Z</time></trkpt>
    </trkseg>
  </trk>
</gpx>"#;
    let data = parse_gpx(xml).unwrap();
    let fc = to_feature_collection(&data, &ConvertOptions::default());

    assert_eq!(fc.features.len(), 1);
    let feat = &fc.features[0];
    assert_eq!(prop_str(feat, "gpxType"), "track");
    assert_eq!(prop_str(feat, "name"), "Run");

    match prop(feat, "coordinateProperties") {
        PropValue::Times(times) => {
            assert_eq!(times.len(), 2);
            assert_eq!(times[0].as_deref(), Some("2025-01-01T00:00:00Z"));
        }
        other => panic!("unexpected coordinateProperties: {other:?}"),
    }
}

#[test]
fn test_multi_segment_join() {
    let xml = r#"<?xml version="1.0"?>
<gpx version="1.1">
  <trk>
    <trkseg>
      <trkpt lat="35.0" lon="139.0"/>
      <trkpt lat="35.001" lon="139.001"/>
    </trkseg>
    <trkseg>
      <trkpt lat="36.0" lon="140.0"/>
      <trkpt lat="36.001" lon="140.001"/>
    </trkseg>
  </trk>
</gpx>"#;
    let data = parse_gpx(xml).unwrap();
    let opts = ConvertOptions { join_track_segments: true, ..Default::default() };
    let fc = to_feature_collection(&data, &opts);

    assert_eq!(fc.features.len(), 1);
    match &fc.features[0].geometry {
        Geometry::MultiLineString(lines) => {
            assert_eq!(lines.len(), 2);
        }
        _ => panic!("Expected MultiLineString"),
    }
}

#[test]
fn test_multi_segment_separate() {
    let xml = r#"<?xml version="1.0"?>
<gpx version="1.1">
  <trk>
    <name>Trail</name>
    <trkseg>
      <trkpt lat="35.0" lon="139.0"/>
      <trkpt lat="35.001" lon="139.001"/>
    </trkseg>
    <trkseg>
      <trkpt lat="36.0" lon="140.0"/>
      <trkpt lat="36.001" lon="140.001"/>
    </trkseg>
  </trk>
</gpx>"#;
    let data = parse_gpx(xml).unwrap();
    let fc = to_feature_collection(&data, &ConvertOptions::default());

    // Each segment is a separate Feature
    assert_eq!(fc.features.len(), 2);
    for feat in &fc.features {
        assert_eq!(prop_str(feat, "gpxType"), "track");
        assert_eq!(prop_str(feat, "name"), "Trail");
    }
}

#[test]
fn test_single_point_track() {
    let xml = r#"<?xml version="1.0"?>
<gpx version="1.1">
  <trk>
    <name>Single</name>
    <trkseg>
      <trkpt lat="35.0" lon="139.0"/>
    </trkseg>
  </trk>
</gpx>"#;
    let data = parse_gpx(xml).unwrap();
    let fc = to_feature_collection(&data, &ConvertOptions::default());

    assert_eq!(fc.features.len(), 1);
    match &fc.features[0].geometry {
        Geometry::Point(_) => {} // Expected: 1 point becomes a Point Feature
        _ => panic!("Expected Point geometry for single-point track"),
    }
}

#[test]
fn test_empty_gpx_conversion() {
    let xml = r#"<?xml version="1.0"?><gpx version="1.1"></gpx>"#;
    let data = parse_gpx(xml).unwrap();
    let fc = to_feature_collection(&data, &ConvertOptions::default());
    assert!(fc.features.is_empty());
}

#[test]
fn test_no_elevation() {
    let xml = r#"<?xml version="1.0"?>
<gpx version="1.1">
  <wpt lat="35.0" lon="139.0"><ele>100.0</ele></wpt>
</gpx>"#;
    let data = parse_gpx(xml).unwrap();
    let opts = ConvertOptions { include_elevation: false, ..Default::default() };
    let fc = to_feature_collection(&data, &opts);

    if let Geometry::Point(coords) = &fc.features[0].geometry {
        assert_eq!(coords.len(), 2); // No elevation
    }
}

#[test]
fn test_type_filter() {
    let xml = r#"<?xml version="1.0"?>
<gpx version="1.1">
  <wpt lat="35.0" lon="139.0"/>
  <rte><rtept lat="35.0" lon="139.0"/><rtept lat="36.0" lon="140.0"/></rte>
  <trk><trkseg><trkpt lat="35.0" lon="139.0"/><trkpt lat="36.0" lon="140.0"/></trkseg></trk>
</gpx>"#;
    let data = parse_gpx(xml).unwrap();
    let opts = ConvertOptions { types: Some(vec![GpxElementType::Waypoint]), ..Default::default() };
    let fc = to_feature_collection(&data, &opts);

    assert_eq!(fc.features.len(), 1);
    assert_eq!(prop_str(&fc.features[0], "gpxType"), "waypoint");
}

#[test]
fn test_coordinate_lengths_two_or_three() {
    // every emitted position has two components, or three exactly when
    // elevation inclusion is on and the point carries an elevation
    let xml = r#"<?xml version="1.0"?>
<gpx version="1.1">
  <wpt lat="35.0" lon="139.0"><ele>1.5</ele></wpt>
  <wpt lat="36.0" lon="140.0"/>
  <trk><trkseg>
    <trkpt lat="35.0" lon="139.0"><ele>2.0</ele></trkpt>
    <trkpt lat="35.1" lon="139.1"/>
  </trkseg></trk>
</gpx>"#;
    let data = parse_gpx(xml).unwrap();
    let fc = to_feature_collection(&data, &ConvertOptions::default());
    assert_eq!(fc.features.len(), 3);
    match &fc.features[0].geometry {
        Geometry::Point(c) => assert_eq!(c.len(), 3),
        _ => panic!("Expected Point"),
    }
    match &fc.features[1].geometry {
        Geometry::Point(c) => assert_eq!(c.len(), 2),
        _ => panic!("Expected Point"),
    }
    match &fc.features[2].geometry {
        Geometry::LineString(l) => {
            assert_eq!(l[0].len(), 3);
            assert_eq!(l[1].len(), 2);
        }
        _ => panic!("Expected LineString"),
    }
}

#[test]
fn test_one_point_segments_produce_no_line() {
    // a segment of one point contributes no feature beside longer ones
    let xml = r#"<?xml version="1.0"?>
<gpx version="1.1">
  <trk>
    <trkseg>
      <trkpt lat="35.0" lon="139.0"/>
    </trkseg>
    <trkseg>
      <trkpt lat="36.0" lon="140.0"/>
      <trkpt lat="36.1" lon="140.1"/>
    </trkseg>
  </trk>
</gpx>"#;
    let data = parse_gpx(xml).unwrap();
    let fc = to_feature_collection(&data, &ConvertOptions::default());
    assert_eq!(fc.features.len(), 1);
    match &fc.features[0].geometry {
        Geometry::LineString(l) => assert_eq!(l.len(), 2),
        _ => panic!("Expected LineString"),
    }
}

#[test]
fn test_single_point_track_ignores_join_flag() {
    let xml = r#"<?xml version="1.0"?>
<gpx version="1.1">
  <trk><trkseg><trkpt lat="35.0" lon="139.0"/></trkseg></trk>
</gpx>"#;
    let data = parse_gpx(xml).unwrap();
    let opts = ConvertOptions { join_track_segments: true, ..Default::default() };
    let fc = to_feature_collection(&data, &opts);
    assert_eq!(fc.features.len(), 1);
    assert!(matches!(&fc.features[0].geometry, Geometry::Point(_)));
}

#[test]
fn test_join_two_by_two() {
    // joining two two-point segments: one MultiLineString of 2 lines of 2
    let xml = r#"<?xml version="1.0"?>
<gpx version="1.1">
  <trk>
    <trkseg><trkpt lat="35.0" lon="139.0"/><trkpt lat="35.1" lon="139.1"/></trkseg>
    <trkseg><trkpt lat="36.0" lon="140.0"/><trkpt lat="36.1" lon="140.1"/></trkseg>
  </trk>
</gpx>"#;
    let data = parse_gpx(xml).unwrap();
    let joined = to_feature_collection(
        &data,
        &ConvertOptions { join_track_segments: true, ..Default::default() },
    );
    assert_eq!(joined.features.len(), 1);
    match &joined.features[0].geometry {
        Geometry::MultiLineString(ls) => {
            assert_eq!(ls.len(), 2);
            assert_eq!(ls[0].len(), 2);
            assert_eq!(ls[1].len(), 2);
        }
        _ => panic!("Expected MultiLineString"),
    }
    let separate = to_feature_collection(&data, &ConvertOptions::default());
    assert_eq!(separate.features.len(), 2);
    for feat in &separate.features {
        assert!(matches!(&feat.geometry, Geometry::LineString(_)));
    }
}

#[test]
fn test_all_null_times_omitted() {
    let xml = r#"<?xml version="1.0"?>
<gpx version="1.1">
  <trk><trkseg>
    <trkpt lat="35.0" lon="139.0"/>
    <trkpt lat="35.1" lon="139.1"/>
  </trkseg></trk>
</gpx>"#;
    let data = parse_gpx(xml).unwrap();
    let fc = to_feature_collection(&data, &ConvertOptions::default());
    assert!(fc.features[0].property("coordinateProperties").is_none());
}

#[test]
fn test_partial_times_attached_with_nulls() {
    let xml = r#"<?xml version="1.0"?>
<gpx version="1.1">
  <trk><trkseg>
    <trkpt lat="35.0" lon="139.0"><time>2025-01-01T00:00:00Z</time></trkpt>
    <trkpt lat="35.1" lon="139.1"/>
  </trkseg></trk>
</gpx>"#;
    let data = parse_gpx(xml).unwrap();
    let fc = to_feature_collection(&data, &ConvertOptions::default());
    match prop(&fc.features[0], "coordinateProperties") {
        PropValue::Times(times) => {
            assert_eq!(times.len(), 2);
            assert_eq!(times[0].as_deref(), Some("2025-01-01T00:00:00Z"));
            assert_eq!(times[1], None);
        }
        other => panic!("unexpected coordinateProperties: {other:?}"),
    }
}

#[test]
fn test_metadata_disabled_keeps_only_tag() {
    let xml = r#"<?xml version="1.0"?>
<gpx version="1.1">
  <wpt lat="35.0" lon="139.0"><name>Tokyo</name><ele>4.0</ele></wpt>
  <trk><name>Run</name><trkseg>
    <trkpt lat="35.0" lon="139.0"><time>2025-01-01T00:00:00Z</time></trkpt>
    <trkpt lat="35.1" lon="139.1"/>
  </trkseg></trk>
</gpx>"#;
    let data = parse_gpx(xml).unwrap();
    let opts = ConvertOptions { include_metadata: false, ..Default::default() };
    let fc = to_feature_collection(&data, &opts);
    assert_eq!(fc.features.len(), 2);
    // the waypoint feature holds only the category tag
    assert_eq!(fc.features[0].properties.len(), 1);
    assert_eq!(prop_str(&fc.features[0], "gpxType"), "waypoint");
    // the track feature holds the tag and its time structure, nothing else
    assert_eq!(fc.features[1].properties.len(), 2);
    assert_eq!(prop_str(&fc.features[1], "gpxType"), "track");
    assert!(fc.features[1].property("coordinateProperties").is_some());
    assert!(fc.features[1].property("name").is_none());
}

#[test]
fn test_track_filter_two_linestrings() {
    // category filter restricted to tracks, joining disabled: a track of
    // two two-point segments gives exactly two LineString features
    let xml = r#"<?xml version="1.0"?>
<gpx version="1.1">
  <wpt lat="35.0" lon="139.0"/>
  <trk>
    <trkseg><trkpt lat="35.0" lon="139.0"/><trkpt lat="35.1" lon="139.1"/></trkseg>
    <trkseg><trkpt lat="36.0" lon="140.0"/><trkpt lat="36.1" lon="140.1"/></trkseg>
  </trk>
</gpx>"#;
    let data = parse_gpx(xml).unwrap();
    let opts = ConvertOptions { types: Some(vec![GpxElementType::Track]), ..Default::default() };
    let fc = to_feature_collection(&data, &opts);
    assert_eq!(fc.features.len(), 2);
    for feat in &fc.features {
        assert!(matches!(&feat.geometry, Geometry::LineString(_)));
        assert_eq!(prop_str(feat, "gpxType"), "track");
    }
}

#[test]
fn test_default_options() {
    let o = ConvertOptions::default();
    assert!(o.include_elevation);
    assert!(o.include_time);
    assert!(o.include_metadata);
    assert!(o.types.is_none());
    assert!(!o.join_track_segments);
    assert!(gpx2geojson::options::default_true());
    assert!(o.should_include(GpxElementType::Waypoint));
    assert!(o.should_include(GpxElementType::Route));
    assert!(o.should_include(GpxElementType::Track));
    let restricted =
        ConvertOptions { types: Some(vec![GpxElementType::Route]), ..Default::default() };
    assert!(restricted.should_include(GpxElementType::Route));
    assert!(!restricted.should_include(GpxElementType::Track));
}
