use gpx2geojson::converter::to_feature_collection;
use gpx2geojson::feature::{FeatureCollection, Geometry, PropValue};
use gpx2geojson::options::ConvertOptions;
use gpx2geojson::parser::parse_gpx;

fn snapshot_fixture(name: &str) -> &'static str {
    match name {
        "basic/01_minimal_waypoint.gpx" => {
            r#"<?xml version="1.0"?>
<gpx xmlns="http://www.topografix.com/GPX/1/1" version="1.1">
  <wpt lat="35.6762" lon="139.6503"/>
</gpx>"#
        }
        "basic/02_full_waypoint.gpx" => {
            r#"<?xml version="1.0"?>
<gpx xmlns="http://www.topografix.com/GPX/1/1" version="1.1">
  <wpt lat="35.6586" lon="139.7454">
    <ele>40.5</ele>
    <time>2025-01-01T12:00:00Z</time>
    <name>Tokyo Tower</name>
    <cmt>A comment</cmt>
    <desc>A famous landmark in Tokyo</desc>
    <src>GPS</src>
    <sym>Flag, Blue</sym>
    <type>POI</type>
    <link href="https://example.com/tokyo-tower">
      <text>Tokyo Tower Website</text>
      <type>text/html</type>
    </link>
  </wpt>
</gpx>"#
        }
        "basic/03_simple_route.gpx" => {
            r#"<?xml version="1.0"?>
<gpx xmlns="http://www.topografix.com/GPX/1/1" version="1.1">
  <rte>
    <name>Tokyo Loop</name>
    <desc>A route around central Tokyo</desc>
    <number>1</number>
    <rtept lat="35.6762" lon="139.6503"/>
    <rtept lat="35.6895" lon="139.6917"/>
    <rtept lat="35.6586" lon="139.7454"/>
  </rte>
</gpx>"#
        }
        "basic/04_simple_track.gpx" => {
            r#"<?xml version="1.0"?>
<gpx xmlns="http://www.topografix.com/GPX/1/1" version="1.1">
  <trk>
    <name>Morning Run</name>
    <type>running</type>
    <trkseg>
      <trkpt lat="35.6762" lon="139.6503"><ele>10.0</ele><time>2025-01-01T06:00:00Z</time></trkpt>
      <trkpt lat="35.6772" lon="139.6513"><ele>11.0</ele><time>2025-01-01T06:01:00Z</time></trkpt>
      <trkpt lat="35.6782" lon="139.6523"><ele>12.0</ele><time>2025-01-01T06:02:00Z</time></trkpt>
      <trkpt lat="35.6792" lon="139.6533"><ele>13.0</ele><time>2025-01-01T06:03:00Z</time></trkpt>
      <trkpt lat="35.6802" lon="139.6543"><ele>14.0</ele><time>2025-01-01T06:04:00Z</time></trkpt>
    </trkseg>
  </trk>
</gpx>"#
        }
        "basic/05_complete.gpx" => {
            r#"<?xml version="1.0"?>
<gpx xmlns="http://www.topografix.com/GPX/1/1" version="1.1">
  <wpt lat="35.6762" lon="139.6503">
    <name>Tokyo</name>
  </wpt>
  <rte>
    <name>Route 1</name>
    <rtept lat="35.0" lon="139.0"/>
    <rtept lat="36.0" lon="140.0"/>
  </rte>
  <trk>
    <name>Track 1</name>
    <trkseg>
      <trkpt lat="35.0" lon="139.0"/>
      <trkpt lat="35.001" lon="139.001"/>
    </trkseg>
  </trk>
</gpx>"#
        }
        "tracks/06_multi_segment.gpx" => {
            r#"<?xml version="1.0"?>
<gpx xmlns="http://www.topografix.com/GPX/1/1" version="1.1">
  <trk>
    <trkseg>
      <trkpt lat="35.0" lon="139.0"/>
      <trkpt lat="35.001" lon="139.001"/>
    </trkseg>
    <trkseg>
      <trkpt lat="36.0" lon="140.0"/>
      <trkpt lat="36.001" lon="140.001"/>
    </trkseg>
  </trk>
</gpx>"#
        }
        "tracks/07_multi_track.gpx" => {
            r#"<?xml version="1.0"?>
<gpx xmlns="http://www.topografix.com/GPX/1/1" version="1.1">
  <trk>
    <name>Morning Run</name>
    <trkseg>
      <trkpt lat="35.0" lon="139.0"/>
      <trkpt lat="35.001" lon="139.001"/>
    </trkseg>
  </trk>
  <trk>
    <name>Evening Walk</name>
    <trkseg>
      <trkpt lat="35.1" lon="139.1"/>
      <trkpt lat="35.101" lon="139.101"/>
    </trkseg>
  </trk>
</gpx>"#
        }
        "tracks/08_single_point_track.gpx" => {
            r#"<?xml version="1.0"?>
<gpx xmlns="http://www.topografix.com/GPX/1/1" version="1.1">
  <trk>
    <trkseg>
      <trkpt lat="35.0" lon="139.0"/>
    </trkseg>
  </trk>
</gpx>"#
        }
        "edge_cases/09_empty.gpx" => {
            r#"<?xml version="1.0"?><gpx xmlns="http://www.topografix.com/GPX/1/1" version="1.1"></gpx>"#
        }
        "edge_cases/10_empty_segments.gpx" => {
            r#"<?xml version="1.0"?>
<gpx xmlns="http://www.topografix.com/GPX/1/1" version="1.1">
  <trk>
    <trkseg></trkseg>
    <trkseg>
      <trkpt lat="35.0" lon="139.0"/>
      <trkpt lat="35.001" lon="139.001"/>
    </trkseg>
    <trkseg/>
  </trk>
</gpx>"#
        }
        "edge_cases/11_cdata_and_entities.gpx" => {
            "<?xml version=\"1.0\"?>\n<gpx version=\"1.1\">\n  <wpt lat=\"35.0\" lon=\"139.0\">\n    <name><![CDATA[Caf\u{e9} & Bar <Tokyo>]]></name>\n    <cmt>\u{65e5}\u{672c}\u{8a9e}\u{30c6}\u{30b9}\u{30c8}: \u{6771}\u{4eac}\u{30bf}\u{30ef}\u{30fc}</cmt>\n    <desc>Special chars: &amp; &lt; &gt; &quot; &apos;</desc>\n  </wpt>\n</gpx>"
        }
        "edge_cases/12_no_namespace.gpx" => {
            r#"<?xml version="1.0"?>
<gpx version="1.1">
  <wpt lat="35.0" lon="139.0"/>
  <trk>
    <trkseg>
      <trkpt lat="35.0" lon="139.0"/>
      <trkpt lat="35.001" lon="139.001"/>
    </trkseg>
  </trk>
</gpx>"#
        }
        "edge_cases/13_gpx10.gpx" => {
            r#"<?xml version="1.0"?>
<gpx xmlns="http://www.topografix.com/GPX/1/0" version="1.0">
  <wpt lat="35.0" lon="139.0">
    <name>Legacy Point</name>
    <url>http://example.com/legacy</url>
  </wpt>
  <trk>
    <trkseg>
      <trkpt lat="35.0" lon="139.0">
        <speed>5.5</speed>
        <course>180.0</course>
      </trkpt>
      <trkpt lat="35.001" lon="139.001"/>
    </trkseg>
  </trk>
</gpx>"#
        }
        "vendor/14_garmin_extensions.gpx" => {
            r#"<?xml version="1.0"?>
<gpx xmlns="http://www.topografix.com/GPX/1/1" xmlns:gpxtpx="http://www.garmin.com/xmlschemas/TrackPointExtension/v1" version="1.1">
  <trk>
    <name>Garmin Activity</name>
    <type>running</type>
    <trkseg>
      <trkpt lat="35.0" lon="139.0">
        <time>2025-01-01T06:00:00Z</time>
        <extensions><gpxtpx:TrackPointExtension><gpxtpx:hr>150</gpxtpx:hr></gpxtpx:TrackPointExtension></extensions>
      </trkpt>
      <trkpt lat="35.001" lon="139.001">
        <time>2025-01-01T06:01:00Z</time>
        <extensions><gpxtpx:TrackPointExtension><gpxtpx:hr>152</gpxtpx:hr></gpxtpx:TrackPointExtension></extensions>
      </trkpt>
      <trkpt lat="35.002" lon="139.002">
        <time>2025-01-01T06:02:00Z</time>
        <extensions><gpxtpx:TrackPointExtension><gpxtpx:hr>154</gpxtpx:hr></gpxtpx:TrackPointExtension></extensions>
      </trkpt>
    </trkseg>
  </trk>
</gpx>"#
        }
        other => panic!("unknown fixture {other}"),
    }
}

fn esc(s: &str) -> String {
    s.replace('\\', "\\\\").replace('"', "\\\"")
}

fn render_pos(p: &[String]) -> String {
    format!("[{}]", p.join(","))
}

fn render_line(l: &[Vec<String>]) -> String {
    let parts: Vec<String> = l.iter().map(|p| render_pos(p)).collect();
    format!("[{}]", parts.join(","))
}

fn render_times(ts: &[Option<String>]) -> String {
    let parts: Vec<String> = ts
        .iter()
        .map(|t| match t {
            Some(s) => format!("\"{}\"", esc(s)),
            None => String::from("null"),
        })
        .collect();
    format!("[{}]", parts.join(","))
}

fn render_prop(v: &PropValue) -> String {
    match v {
        PropValue::Text(s) => format!("\"{}\"", esc(s)),
        PropValue::Num(s) => s.clone(),
        PropValue::UInt(n) => n.to_string(),
        PropValue::Link(l) => {
            let mut out = format!("{{\"href\":\"{}\"", esc(&l.href));
            if let Some(t) = &l.text {
                out.push_str(&format!(",\"text\":\"{}\"", esc(t)));
            }
            if let Some(t) = &l.link_type {
                out.push_str(&format!(",\"type\":\"{}\"", esc(t)));
            }
            out.push('}');
            out
        }
        PropValue::Times(ts) => format!("{{\"times\":{}}}", render_times(ts)),
        PropValue::MultiTimes(tss) => {
            let parts: Vec<String> = tss.iter().map(|ts| render_times(ts)).collect();
            format!("{{\"times\":[{}]}}", parts.join(","))
        }
    }
}

/// A canonical text form of a feature collection, with keys in the
/// converter's insertion order and coordinate values verbatim.
fn render(fc: &FeatureCollection) -> String {
    let feats: Vec<String> = fc
        .features
        .iter()
        .map(|feat| {
            let geom = match &feat.geometry {
                Geometry::Point(p) => {
                    format!("{{\"type\":\"Point\",\"coordinates\":{}}}", render_pos(p))
                }
                Geometry::LineString(l) => {
                    format!("{{\"type\":\"LineString\",\"coordinates\":{}}}", render_line(l))
                }
                Geometry::MultiLineString(ls) => {
                    let parts: Vec<String> = ls.iter().map(|l| render_line(l)).collect();
                    format!(
                        "{{\"type\":\"MultiLineString\",\"coordinates\":[{}]}}",
                        parts.join(",")
                    )
                }
            };
            let props: Vec<String> = feat
                .properties
                .iter()
                .map(|(k, v)| format!("\"{}\":{}", esc(k), render_prop(v)))
                .collect();
            format!("{{\"geometry\":{},\"properties\":{{{}}}}}", geom, props.join(","))
        })
        .collect();
    format!("{{\"features\":[{}]}}", feats.join(","))
}

fn assert_snapshot_default(fixture_name: &str, expected: &str) {
    let data = parse_gpx(snapshot_fixture(fixture_name)).unwrap();
    let fc = to_feature_collection(&data, &ConvertOptions::default());
    assert_eq!(render(&fc), expected, "snapshot mismatch for {fixture_name}");
}

// ---- basic ----

#[test]
fn snapshot_01_minimal_waypoint() {
    assert_snapshot_default(
        "basic/01_minimal_waypoint.gpx",
        "{\"features\":[{\"geometry\":{\"type\":\"Point\",\"coordinates\":[139.6503,35.6762]},\"properties\":{\"gpxType\":\"waypoint\"}}]}",
    );
}

#[test]
fn snapshot_02_full_waypoint() {
    assert_snapshot_default(
        "basic/02_full_waypoint.gpx",
        "{\"features\":[{\"geometry\":{\"type\":\"Point\",\"coordinates\":[139.7454,35.6586,40.5]},\"properties\":{\"gpxType\":\"waypoint\",\"name\":\"Tokyo Tower\",\"cmt\":\"A comment\",\"desc\":\"A famous landmark in Tokyo\",\"src\":\"GPS\",\"sym\":\"Flag, Blue\",\"type\":\"POI\",\"ele\":40.5,\"time\":\"2025-01-01T12:00:00Z\",\"link\":{\"href\":\"https://example.com/tokyo-tower\",\"text\":\"Tokyo Tower Website\",\"type\":\"text/html\"}}}]}",
    );
}

#[test]
fn snapshot_03_simple_route() {
    assert_snapshot_default(
        "basic/03_simple_route.gpx",
        "{\"features\":[{\"geometry\":{\"type\":\"LineString\",\"coordinates\":[[139.6503,35.6762],[139.6917,35.6895],[139.7454,35.6586]]},\"properties\":{\"gpxType\":\"route\",\"name\":\"Tokyo Loop\",\"desc\":\"A route around central Tokyo\",\"number\":1}}]}",
    );
}

#[test]
fn snapshot_04_simple_track() {
    assert_snapshot_default(
        "basic/04_simple_track.gpx",
        "{\"features\":[{\"geometry\":{\"type\":\"LineString\",\"coordinates\":[[139.6503,35.6762,10.0],[139.6513,35.6772,11.0],[139.6523,35.6782,12.0],[139.6533,35.6792,13.0],[139.6543,35.6802,14.0]]},\"properties\":{\"gpxType\":\"track\",\"name\":\"Morning Run\",\"type\":\"running\",\"coordinateProperties\":{\"times\":[\"2025-01-01T06:00:00Z\",\"2025-01-01T06:01:00Z\",\"2025-01-01T06:02:00Z\",\"2025-01-01T06:03:00Z\",\"2025-01-01T06:04:00Z\"]}}}]}",
    );
}

#[test]
fn snapshot_05_complete() {
    assert_snapshot_default(
        "basic/05_complete.gpx",
        "{\"features\":[{\"geometry\":{\"type\":\"Point\",\"coordinates\":[139.6503,35.6762]},\"properties\":{\"gpxType\":\"waypoint\",\"name\":\"Tokyo\"}},{\"geometry\":{\"type\":\"LineString\",\"coordinates\":[[139.0,35.0],[140.0,36.0]]},\"properties\":{\"gpxType\":\"route\",\"name\":\"Route 1\"}},{\"geometry\":{\"type\":\"LineString\",\"coordinates\":[[139.0,35.0],[139.001,35.001]]},\"properties\":{\"gpxType\":\"track\",\"name\":\"Track 1\"}}]}",
    );
}

// ---- tracks ----

#[test]
fn snapshot_06_multi_segment_separate() {
    assert_snapshot_default(
        "tracks/06_multi_segment.gpx",
        "{\"features\":[{\"geometry\":{\"type\":\"LineString\",\"coordinates\":[[139.0,35.0],[139.001,35.001]]},\"properties\":{\"gpxType\":\"track\"}},{\"geometry\":{\"type\":\"LineString\",\"coordinates\":[[140.0,36.0],[140.001,36.001]]},\"properties\":{\"gpxType\":\"track\"}}]}",
    );
}

#[test]
fn snapshot_06_multi_segment_joined() {
    let data = parse_gpx(snapshot_fixture("tracks/06_multi_segment.gpx")).unwrap();
    let opts = ConvertOptions { join_track_segments: true, ..Default::default() };
    let fc = to_feature_collection(&data, &opts);
    assert_eq!(
        render(&fc),
        "{\"features\":[{\"geometry\":{\"type\":\"MultiLineString\",\"coordinates\":[[[139.0,35.0],[139.001,35.001]],[[140.0,36.0],[140.001,36.001]]]},\"properties\":{\"gpxType\":\"track\"}}]}",
    );
}

#[test]
fn snapshot_07_multi_track() {
    assert_snapshot_default(
        "tracks/07_multi_track.gpx",
        "{\"features\":[{\"geometry\":{\"type\":\"LineString\",\"coordinates\":[[139.0,35.0],[139.001,35.001]]},\"properties\":{\"gpxType\":\"track\",\"name\":\"Morning Run\"}},{\"geometry\":{\"type\":\"LineString\",\"coordinates\":[[139.1,35.1],[139.101,35.101]]},\"properties\":{\"gpxType\":\"track\",\"name\":\"Evening Walk\"}}]}",
    );
}

#[test]
fn snapshot_08_single_point_track() {
    assert_snapshot_default(
        "tracks/08_single_point_track.gpx",
        "{\"features\":[{\"geometry\":{\"type\":\"Point\",\"coordinates\":[139.0,35.0]},\"properties\":{\"gpxType\":\"track\"}}]}",
    );
}

// ---- edge cases ----

#[test]
fn snapshot_09_empty() {
    assert_snapshot_default("edge_cases/09_empty.gpx", "{\"features\":[]}");
}

#[test]
fn snapshot_10_empty_segments() {
    assert_snapshot_default(
        "edge_cases/10_empty_segments.gpx",
        "{\"features\":[{\"geometry\":{\"type\":\"LineString\",\"coordinates\":[[139.0,35.0],[139.001,35.001]]},\"properties\":{\"gpxType\":\"track\"}}]}",
    );
}

#[test]
fn snapshot_11_cdata_and_entities() {
    assert_snapshot_default(
        "edge_cases/11_cdata_and_entities.gpx",
        "{\"features\":[{\"geometry\":{\"type\":\"Point\",\"coordinates\":[139.0,35.0]},\"properties\":{\"gpxType\":\"waypoint\",\"name\":\"Caf\u{e9} & Bar <Tokyo>\",\"cmt\":\"\u{65e5}\u{672c}\u{8a9e}\u{30c6}\u{30b9}\u{30c8}: \u{6771}\u{4eac}\u{30bf}\u{30ef}\u{30fc}\",\"desc\":\"Special chars: & < > \\\" '\"}}]}",
    );
}

#[test]
fn snapshot_12_no_namespace() {
    assert_snapshot_default(
        "edge_cases/12_no_namespace.gpx",
        "{\"features\":[{\"geometry\":{\"type\":\"Point\",\"coordinates\":[139.0,35.0]},\"properties\":{\"gpxType\":\"waypoint\"}},{\"geometry\":{\"type\":\"LineString\",\"coordinates\":[[139.0,35.0],[139.001,35.001]]},\"properties\":{\"gpxType\":\"track\"}}]}",
    );
}

#[test]
fn snapshot_13_gpx10() {
    assert_snapshot_default(
        "edge_cases/13_gpx10.gpx",
        "{\"features\":[{\"geometry\":{\"type\":\"Point\",\"coordinates\":[139.0,35.0]},\"properties\":{\"gpxType\":\"waypoint\",\"name\":\"Legacy Point\"}},{\"geometry\":{\"type\":\"LineString\",\"coordinates\":[[139.0,35.0],[139.001,35.001]]},\"properties\":{\"gpxType\":\"track\"}}]}",
    );
}

// ---- vendor ----

#[test]
fn snapshot_14_garmin_extensions() {
    assert_snapshot_default(
        "vendor/14_garmin_extensions.gpx",
        "{\"features\":[{\"geometry\":{\"type\":\"LineString\",\"coordinates\":[[139.0,35.0],[139.001,35.001],[139.002,35.002]]},\"properties\":{\"gpxType\":\"track\",\"name\":\"Garmin Activity\",\"type\":\"running\",\"coordinateProperties\":{\"times\":[\"2025-01-01T06:00:00Z\",\"2025-01-01T06:01:00Z\",\"2025-01-01T06:02:00Z\"]}}}]}",
    );
}
