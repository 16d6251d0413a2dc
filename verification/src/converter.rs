//! Conversion of the parsed GPX model into GeoJSON features.
//!
//! A total function of the document model and the options: waypoints become
//! Point features; a route becomes a Point or LineString feature by its
//! point count; a track contributes zero, one or several features depending
//! on its non-empty segments and the segment-joining option.  The
//! specification functions beside each converter function state the exact
//! output value.

use crate::feature::{
    line_view, pos_view, props_view, time_view, times_view, Feature, FeatureV, Geometry, GeomV,
    PropV, PropValue,
};
use crate::feature::{features_view, lines_view, multi_times_view, FeatureCollection};
use crate::gpx_types::{
    GpxData,
    opt_link_view, opt_view, points_view, segments_view, DataV, GpxLink, GpxPoint, GpxRoute,
    GpxSegment, GpxTrack, LinkV, PointV, RouteV, TrackV,
};
use crate::options::{spec_should_include, ConvertOptions, GpxElementType};
use vstd::prelude::*;

verus! {

broadcast use {
    vstd::prelude::Seq::lemma_filter_push,
    vstd::prelude::Seq::lemma_filter_len,
    vstd::prelude::Seq::lemma_flat_map_take_append,
    vstd::prelude::Seq::lemma_map_take_succ,
    vstd::prelude::Seq::lemma_take_succ_push,
    vstd::prelude::Seq::lemma_push_map_commute,
};

/// The coordinate position of a point: `[longitude, latitude]`, with the
/// elevation text appended when it is present and included.
pub open spec fn spec_point_coords(p: PointV, include_elevation: bool) -> Seq<Seq<char>> {
    if include_elevation && p.ele is Some {
        seq![p.lon, p.lat, p.ele->0]
    } else {
        seq![p.lon, p.lat]
    }
}

/// A string property under `key` when the field is present.
pub open spec fn opt_prop(key: Seq<char>, v: Option<Seq<char>>) -> Seq<(Seq<char>, PropV)> {
    match v {
        Some(s) => seq![(key, PropV::Text(s))],
        None => Seq::empty(),
    }
}

/// A number property under `key` when the field is present.
pub open spec fn num_prop(key: Seq<char>, v: Option<Seq<char>>) -> Seq<(Seq<char>, PropV)> {
    match v {
        Some(s) => seq![(key, PropV::Num(s))],
        None => Seq::empty(),
    }
}

/// An integer property under `key` when the field is present.
pub open spec fn uint_prop(key: Seq<char>, v: Option<u32>) -> Seq<(Seq<char>, PropV)> {
    match v {
        Some(n) => seq![(key, PropV::UInt(n))],
        None => Seq::empty(),
    }
}

/// A link property when the link is present.
pub open spec fn link_prop(l: Option<LinkV>) -> Seq<(Seq<char>, PropV)> {
    match l {
        Some(l) => seq![("link"@, PropV::Link(l))],
        None => Seq::empty(),
    }
}

/// The descriptive properties of a point, in insertion order.
pub open spec fn spec_point_metadata(p: PointV) -> Seq<(Seq<char>, PropV)> {
    opt_prop("name"@, p.name) + opt_prop("cmt"@, p.cmt) + opt_prop("desc"@, p.desc) + opt_prop(
        "src"@,
        p.src,
    ) + opt_prop("sym"@, p.sym) + opt_prop("type"@, p.point_type) + num_prop("ele"@, p.ele)
        + opt_prop("time"@, p.time) + link_prop(p.link)
}

/// A Point feature for one point, under the given category tag.
pub open spec fn spec_point_feature(p: PointV, tag: Seq<char>, o: ConvertOptions) -> FeatureV {
    FeatureV {
        geometry: GeomV::Point(spec_point_coords(p, o.include_elevation)),
        properties: seq![("gpxType"@, PropV::Text(tag))] + if o.include_metadata {
            spec_point_metadata(p)
        } else {
            Seq::empty()
        },
    }
}

/// The feature of a waypoint.
pub open spec fn spec_waypoint_feature(p: PointV, o: ConvertOptions) -> FeatureV {
    spec_point_feature(p, "waypoint"@, o)
}

/// The timestamps of a point sequence, one entry per point.
pub open spec fn spec_times(ps: Seq<PointV>) -> Seq<Option<Seq<char>>> {
    ps.map_values(|p: PointV| p.time)
}

/// Whether any point of the sequence carries a timestamp.
pub open spec fn spec_has_time(ps: Seq<PointV>) -> bool {
    exists|i: int| 0 <= i < ps.len() && (#[trigger] ps[i]).time is Some
}

/// The coordinate-time property of a point sequence: present exactly when
/// some point carries a timestamp.
pub open spec fn spec_time_props(ps: Seq<PointV>) -> Seq<(Seq<char>, PropV)> {
    if spec_has_time(ps) {
        seq![("coordinateProperties"@, PropV::Times(spec_times(ps)))]
    } else {
        Seq::empty()
    }
}

/// The properties of a route feature, in insertion order.
pub open spec fn spec_route_props(r: RouteV, o: ConvertOptions) -> Seq<(Seq<char>, PropV)> {
    seq![("gpxType"@, PropV::Text("route"@))] + if o.include_metadata {
        opt_prop("name"@, r.name) + opt_prop("cmt"@, r.cmt) + opt_prop("desc"@, r.desc) + opt_prop(
            "src"@,
            r.src,
        ) + opt_prop("type"@, r.route_type) + uint_prop("number"@, r.number) + link_prop(r.link)
    } else {
        Seq::empty()
    }
}

/// The properties shared by every feature of a track, in insertion order.
pub open spec fn spec_track_props(t: TrackV, o: ConvertOptions) -> Seq<(Seq<char>, PropV)> {
    seq![("gpxType"@, PropV::Text("track"@))] + if o.include_metadata {
        opt_prop("name"@, t.name) + opt_prop("cmt"@, t.cmt) + opt_prop("desc"@, t.desc) + opt_prop(
            "src"@,
            t.src,
        ) + opt_prop("type"@, t.track_type) + uint_prop("number"@, t.number) + link_prop(t.link)
    } else {
        Seq::empty()
    }
}

/// The coordinate lines of a point sequence under the elevation option.
pub open spec fn spec_line_coords(ps: Seq<PointV>, include_elevation: bool) -> Seq<Seq<Seq<char>>> {
    ps.map_values(|p: PointV| spec_point_coords(p, include_elevation))
}

/// The LineString feature of a route with two or more points.
pub open spec fn spec_route_line_feature(r: RouteV, o: ConvertOptions) -> FeatureV {
    FeatureV {
        geometry: GeomV::LineString(spec_line_coords(r.points, o.include_elevation)),
        properties: spec_route_props(r, o) + if o.include_time {
            spec_time_props(r.points)
        } else {
            Seq::empty()
        },
    }
}

/// The features of a route: none when it has no points, a Point feature
/// for a single point, a LineString feature otherwise.
pub open spec fn spec_route_features(r: RouteV, o: ConvertOptions) -> Seq<FeatureV> {
    if r.points.len() >= 2 {
        seq![spec_route_line_feature(r, o)]
    } else if r.points.len() == 1 {
        seq![spec_point_feature(r.points[0], "route"@, o)]
    } else {
        Seq::empty()
    }
}

/// The non-empty segments of a segment sequence.
pub open spec fn nonempty_segs(ss: Seq<Seq<PointV>>) -> Seq<Seq<PointV>> {
    ss.filter(|s: Seq<PointV>| s.len() > 0)
}

/// The segments with at least two points, the ones that contribute a line.
pub open spec fn line_segs(ss: Seq<Seq<PointV>>) -> Seq<Seq<PointV>> {
    ss.filter(|s: Seq<PointV>| s.len() >= 2)
}

/// The total point count over a segment sequence.
pub open spec fn total_points(ss: Seq<Seq<PointV>>) -> nat
    decreases ss.len(),
{
    if ss.len() == 0 {
        0
    } else {
        total_points(ss.drop_last()) + ss.last().len()
    }
}

/// One LineString feature of a track, for one segment.
pub open spec fn spec_track_line_feature(t: TrackV, ps: Seq<PointV>, o: ConvertOptions) -> FeatureV {
    FeatureV {
        geometry: GeomV::LineString(spec_line_coords(ps, o.include_elevation)),
        properties: spec_track_props(t, o) + if o.include_time {
            spec_time_props(ps)
        } else {
            Seq::empty()
        },
    }
}

/// The nested timestamps of the line segments.
pub open spec fn spec_multi_times(qs: Seq<Seq<PointV>>) -> Seq<Seq<Option<Seq<char>>>> {
    qs.map_values(|s: Seq<PointV>| spec_times(s))
}

/// Whether any point of any segment carries a timestamp.
pub open spec fn spec_any_seg_time(qs: Seq<Seq<PointV>>) -> bool {
    exists|i: int| 0 <= i < qs.len() && spec_has_time(#[trigger] qs[i])
}

/// The coordinate-time property of a MultiLineString feature: the full
/// nested array, present exactly when some segment carries a timestamp.
pub open spec fn spec_multi_time_props(qs: Seq<Seq<PointV>>) -> Seq<(Seq<char>, PropV)> {
    if spec_any_seg_time(qs) {
        seq![("coordinateProperties"@, PropV::MultiTimes(spec_multi_times(qs)))]
    } else {
        Seq::empty()
    }
}

/// The coordinate lines of a sequence of segments.
pub open spec fn spec_multi_lines(qs: Seq<Seq<PointV>>, include_elevation: bool) -> Seq<
    Seq<Seq<Seq<char>>>,
> {
    qs.map_values(|s: Seq<PointV>| spec_line_coords(s, include_elevation))
}

/// The MultiLineString feature of a track under segment joining.
pub open spec fn spec_track_multi_feature(t: TrackV, o: ConvertOptions) -> FeatureV {
    let qs = line_segs(t.segments);
    FeatureV {
        geometry: GeomV::MultiLineString(spec_multi_lines(qs, o.include_elevation)),
        properties: spec_track_props(t, o) + if o.include_time {
            spec_multi_time_props(qs)
        } else {
            Seq::empty()
        },
    }
}

/// One LineString feature per line segment of a track.
pub open spec fn spec_separate_features(t: TrackV, o: ConvertOptions) -> Seq<FeatureV> {
    line_segs(t.segments).map_values(|s: Seq<PointV>| spec_track_line_feature(t, s, o))
}

/// The features of a track.  Over its non-empty segments: none when there
/// are none; a single Point feature when the total point count is one; one
/// LineString when there is a single segment, or a MultiLineString over
/// the two-point-or-longer segments when joining is on; otherwise one
/// LineString feature per two-point-or-longer segment.
pub open spec fn spec_track_features(t: TrackV, o: ConvertOptions) -> Seq<FeatureV> {
    let ss = nonempty_segs(t.segments);
    if ss.len() == 0 {
        Seq::empty()
    } else if total_points(t.segments) == 1 {
        seq![spec_point_feature(ss[0][0], "track"@, o)]
    } else if o.join_track_segments || ss.len() == 1 {
        if ss.len() == 1 && ss[0].len() >= 2 {
            seq![spec_track_line_feature(t, ss[0], o)]
        } else if line_segs(t.segments).len() == 0 {
            Seq::empty()
        } else {
            seq![spec_track_multi_feature(t, o)]
        }
    } else {
        spec_separate_features(t, o)
    }
}

/// The features of the waypoints of a document.
pub open spec fn spec_waypoint_part(ps: Seq<PointV>, o: ConvertOptions) -> Seq<FeatureV> {
    ps.map_values(|p: PointV| spec_waypoint_feature(p, o))
}

/// The features of the routes of a document.
pub open spec fn spec_route_part(rs: Seq<RouteV>, o: ConvertOptions) -> Seq<FeatureV> {
    rs.flat_map(|r: RouteV| spec_route_features(r, o))
}

/// The features of the tracks of a document.
pub open spec fn spec_track_part(ts: Seq<TrackV>, o: ConvertOptions) -> Seq<FeatureV> {
    ts.flat_map(|t: TrackV| spec_track_features(t, o))
}

/// The features of a whole document: converted waypoints, then routes,
/// then tracks, each category only where the options include it.
pub open spec fn spec_convert(d: DataV, o: ConvertOptions) -> Seq<FeatureV> {
    (if spec_should_include(o, GpxElementType::Waypoint) {
        spec_waypoint_part(d.waypoints, o)
    } else {
        Seq::empty()
    }) + (if spec_should_include(o, GpxElementType::Route) {
        spec_route_part(d.routes, o)
    } else {
        Seq::empty()
    }) + (if spec_should_include(o, GpxElementType::Track) {
        spec_track_part(d.tracks, o)
    } else {
        Seq::empty()
    })
}

/// An explicit field-wise copy of an optional string; the derived clone
/// of a composite type says nothing to the verifier.
fn copy_opt_string(o: &Option<String>) -> (r: Option<String>)
    ensures
        opt_view(r) == opt_view(*o),
{
    match o {
        Some(s) => Some(s.clone()),
        None => None,
    }
}

/// An explicit field-wise copy of a link.
fn copy_link(l: &GpxLink) -> (r: GpxLink)
    ensures
        r@ == l@,
{
    GpxLink {
        href: l.href.clone(),
        text: copy_opt_string(&l.text),
        link_type: copy_opt_string(&l.link_type),
    }
}

/// Build the `[lon, lat]` or `[lon, lat, ele]` coordinate position.
pub fn point_coords(pt: &GpxPoint, include_elevation: bool) -> (r: Vec<String>)
    ensures
        pos_view(r@) == spec_point_coords(pt@, include_elevation),
{
    let r = match (include_elevation, &pt.ele) {
        (true, Some(ele)) => vec![pt.lon.clone(), pt.lat.clone(), ele.clone()],
        _ => vec![pt.lon.clone(), pt.lat.clone()],
    };
    proof {
        assert(pos_view(r@) =~= spec_point_coords(pt@, include_elevation));
    }
    r
}

/// Insert a string property when the field is present.
pub fn insert_optional(props: &mut Vec<(String, PropValue)>, key: &str, value: &Option<String>)
    ensures
        props_view(final (props)@) == props_view(old(props)@) + opt_prop(key@, opt_view(*value)),
{
    match value {
        Some(v) => {
            props.push((String::from_str(key), PropValue::Text(v.clone())));
        },
        None => {},
    }
    proof {
        assert(props_view(props@) =~= props_view(old(props)@) + opt_prop(key@, opt_view(*value)));
    }
}

/// Insert a number property when the field is present.
fn insert_num(props: &mut Vec<(String, PropValue)>, key: &str, value: &Option<String>)
    ensures
        props_view(final (props)@) == props_view(old(props)@) + num_prop(key@, opt_view(*value)),
{
    match value {
        Some(v) => {
            props.push((String::from_str(key), PropValue::Num(v.clone())));
        },
        None => {},
    }
    proof {
        assert(props_view(props@) =~= props_view(old(props)@) + num_prop(key@, opt_view(*value)));
    }
}

/// Insert an integer property when the field is present.
fn insert_uint(props: &mut Vec<(String, PropValue)>, key: &str, value: &Option<u32>)
    ensures
        props_view(final (props)@) == props_view(old(props)@) + uint_prop(key@, *value),
{
    match value {
        Some(n) => {
            props.push((String::from_str(key), PropValue::UInt(*n)));
        },
        None => {},
    }
    proof {
        assert(props_view(props@) =~= props_view(old(props)@) + uint_prop(key@, *value));
    }
}

/// Insert the link property when the link is present.
pub fn insert_link(props: &mut Vec<(String, PropValue)>, link: &Option<GpxLink>)
    ensures
        props_view(final (props)@) == props_view(old(props)@) + link_prop(opt_link_view(*link)),
{
    match link {
        Some(l) => {
            props.push((String::from_str("link"), PropValue::Link(copy_link(l))));
        },
        None => {},
    }
    proof {
        assert(props_view(props@) =~= props_view(old(props)@) + link_prop(opt_link_view(*link)));
    }
}

/// Insert the descriptive properties of a point.
#[verifier::rlimit(50)]
pub fn insert_point_metadata(props: &mut Vec<(String, PropValue)>, pt: &GpxPoint)
    ensures
        props_view(final (props)@) == props_view(old(props)@) + spec_point_metadata(pt@),
{
    insert_optional(props, "name", &pt.name);
    insert_optional(props, "cmt", &pt.cmt);
    insert_optional(props, "desc", &pt.desc);
    insert_optional(props, "src", &pt.src);
    insert_optional(props, "sym", &pt.sym);
    insert_optional(props, "type", &pt.point_type);
    insert_num(props, "ele", &pt.ele);
    insert_optional(props, "time", &pt.time);
    insert_link(props, &pt.link);
    proof {
        assert(props_view(props@) =~= props_view(old(props)@) + spec_point_metadata(pt@));
    }
}

/// The timestamps of a point list, and whether any entry is present.
fn collect_times(points: &Vec<GpxPoint>) -> (r: (Vec<Option<String>>, bool))
    ensures
        times_view(r.0@) == spec_times(points_view(points@)),
        r.1 == spec_has_time(points_view(points@)),
{
    let ghost ps = points_view(points@);
    let n = points.len();
    let mut times: Vec<Option<String>> = Vec::new();
    let mut has_time = false;
    let mut i: usize = 0;
    while i < n
        invariant
            i <= n == points@.len(),
            ps == points_view(points@),
            times@.len() == i,
            forall|k: int| 0 <= k < i ==> time_view(#[trigger] times@[k]) == ps[k].time,
            has_time ==> spec_has_time(ps),
            !has_time ==> forall|k: int| 0 <= k < i ==> (#[trigger] ps[k]).time is None,
        decreases n - i,
    {
        proof {
            assert(ps[i as int] == points@[i as int]@);
        }
        match &points[i].time {
            Some(t) => {
                times.push(Some(t.clone()));
                has_time = true;
                proof {
                    assert(ps[i as int].time is Some);
                    assert(spec_has_time(ps));
                }
            },
            None => {
                times.push(None);
            },
        }
        i = i + 1;
    }
    proof {
        assert(times_view(times@) =~= spec_times(ps));
        if !has_time {
            assert(forall|k: int| 0 <= k < ps.len() ==> (#[trigger] ps[k]).time is None);
            assert(!spec_has_time(ps));
        }
    }
    (times, has_time)
}

/// Insert the per-coordinate time array when a timestamp is present.
pub fn insert_coordinate_times(props: &mut Vec<(String, PropValue)>, points: &Vec<GpxPoint>)
    ensures
        props_view(final (props)@) == props_view(old(props)@) + spec_time_props(
            points_view(points@),
        ),
{
    let ghost ps = points_view(points@);
    let (times, has_time) = collect_times(points);
    if has_time {
        props.push((String::from_str("coordinateProperties"), PropValue::Times(times)));
    }
    proof {
        assert(props_view(props@) =~= props_view(old(props)@) + spec_time_props(ps));
    }
}

/// The shared properties of every feature of a track.
#[verifier::rlimit(50)]
pub fn build_track_props(trk: &GpxTrack, opts: &ConvertOptions) -> (r: Vec<(String, PropValue)>)
    ensures
        props_view(r@) == spec_track_props(trk@, *opts),
{
    let mut props: Vec<(String, PropValue)> = Vec::new();
    props.push((String::from_str("gpxType"), PropValue::Text(String::from_str("track"))));
    if opts.include_metadata {
        insert_optional(&mut props, "name", &trk.name);
        insert_optional(&mut props, "cmt", &trk.cmt);
        insert_optional(&mut props, "desc", &trk.desc);
        insert_optional(&mut props, "src", &trk.src);
        insert_optional(&mut props, "type", &trk.track_type);
        insert_uint(&mut props, "number", &trk.number);
        insert_link(&mut props, &trk.link);
    }
    proof {
        assert(props_view(props@) =~= spec_track_props(trk@, *opts));
    }
    props
}

/// A Point feature for one point under the given category tag.
pub fn single_point_feature(pt: &GpxPoint, gpx_type: &str, opts: &ConvertOptions) -> (r: Feature)
    ensures
        r@ == spec_point_feature(pt@, gpx_type@, *opts),
{
    let coords = point_coords(pt, opts.include_elevation);
    let geometry = Geometry::Point(coords);
    let mut props: Vec<(String, PropValue)> = Vec::new();
    props.push((String::from_str("gpxType"), PropValue::Text(String::from_str(gpx_type))));
    if opts.include_metadata {
        insert_point_metadata(&mut props, pt);
    }
    let r = Feature { geometry, properties: props };
    proof {
        assert(r@.properties =~= spec_point_feature(pt@, gpx_type@, *opts).properties);
        assert(r@ == spec_point_feature(pt@, gpx_type@, *opts));
    }
    r
}

/// The feature of a waypoint.
pub fn waypoint_to_feature(pt: &GpxPoint, opts: &ConvertOptions) -> (r: Feature)
    ensures
        r@ == spec_waypoint_feature(pt@, *opts),
{
    single_point_feature(pt, "waypoint", opts)
}

/// The coordinate lines of a point sequence.
fn line_coords(points: &Vec<GpxPoint>, include_elevation: bool) -> (r: Vec<Vec<String>>)
    ensures
        line_view(r@) == spec_line_coords(points_view(points@), include_elevation),
{
    let ghost ps = points_view(points@);
    let n = points.len();
    let mut r: Vec<Vec<String>> = Vec::new();
    let mut i: usize = 0;
    while i < n
        invariant
            i <= n == points@.len(),
            ps == points_view(points@),
            r@.len() == i,
            forall|k: int|
                0 <= k < i ==> pos_view((#[trigger] r@[k])@) == spec_point_coords(
                    ps[k],
                    include_elevation,
                ),
        decreases n - i,
    {
        proof {
            assert(ps[i as int] == points@[i as int]@);
        }
        let c = point_coords(&points[i], include_elevation);
        r.push(c);
        i = i + 1;
    }
    proof {
        assert(line_view(r@) =~= spec_line_coords(ps, include_elevation));
    }
    r
}

/// The properties of a route feature, before its time array.
#[verifier::rlimit(50)]
fn build_route_props(rte: &GpxRoute, opts: &ConvertOptions) -> (r: Vec<(String, PropValue)>)
    ensures
        props_view(r@) == spec_route_props(rte@, *opts),
{
    let mut props: Vec<(String, PropValue)> = Vec::new();
    props.push((String::from_str("gpxType"), PropValue::Text(String::from_str("route"))));
    if opts.include_metadata {
        insert_optional(&mut props, "name", &rte.name);
        insert_optional(&mut props, "cmt", &rte.cmt);
        insert_optional(&mut props, "desc", &rte.desc);
        insert_optional(&mut props, "src", &rte.src);
        insert_optional(&mut props, "type", &rte.route_type);
        insert_uint(&mut props, "number", &rte.number);
        insert_link(&mut props, &rte.link);
    }
    proof {
        assert(props_view(props@) =~= spec_route_props(rte@, *opts));
    }
    props
}

/// The LineString feature of a route with two or more points.
pub fn route_to_feature(rte: &GpxRoute, opts: &ConvertOptions) -> (r: Feature)
    ensures
        r@ == spec_route_line_feature(rte@, *opts),
{
    let coords = line_coords(&rte.points, opts.include_elevation);
    let geometry = Geometry::LineString(coords);
    let mut props = build_route_props(rte, opts);
    if opts.include_time {
        insert_coordinate_times(&mut props, &rte.points);
    }
    let r = Feature { geometry, properties: props };
    proof {
        assert(r@.properties =~= spec_route_line_feature(rte@, *opts).properties);
        assert(r@ == spec_route_line_feature(rte@, *opts));
    }
    r
}

/// A point count capped at two: all the converter asks of a total is
/// whether it is zero, one, or larger.
pub open spec fn cap2(n: nat) -> nat {
    if n >= 2 {
        2
    } else {
        n
    }
}

/// The non-empty-segment census of a segment list: how many segments are
/// non-empty, the index of the first such segment, and the total point
/// count capped at two.
fn scan_segments(segments: &Vec<GpxSegment>) -> (r: (usize, usize, usize))
    ensures
        r.0 == nonempty_segs(segments_view(segments@)).len(),
        r.2 == cap2(total_points(segments_view(segments@))),
        r.0 > 0 ==> r.1 < segments@.len() && segments_view(segments@)[r.1 as int].len() > 0
            && nonempty_segs(segments_view(segments@))[0] == segments_view(segments@)[r.1 as int],
{
    let ghost sv = segments_view(segments@);
    let n = segments.len();
    let mut ne_count: usize = 0;
    let mut first_ne: usize = 0;
    let mut total2: usize = 0;
    let mut i: usize = 0;
    while i < n
        invariant
            i <= n == segments@.len(),
            sv == segments_view(segments@),
            ne_count == nonempty_segs(sv.take(i as int)).len(),
            total2 == cap2(total_points(sv.take(i as int))),
            ne_count > 0 ==> first_ne < i && sv[first_ne as int].len() > 0 && nonempty_segs(
                sv.take(i as int),
            )[0] == sv[first_ne as int],
        decreases n - i,
    {
        proof {
            assert(sv[i as int] == segments@[i as int]@);
            assert(sv.take(i as int + 1) =~= sv.take(i as int).push(sv[i as int]));
            assert(sv.take(i as int + 1).drop_last() =~= sv.take(i as int));
            assert(total_points(sv.take(i as int + 1)) == total_points(sv.take(i as int))
                + sv[i as int].len());
            assert(nonempty_segs(sv.take(i as int).push(sv[i as int])) == if sv[i as int].len()
                > 0 {
                nonempty_segs(sv.take(i as int)).push(sv[i as int])
            } else {
                nonempty_segs(sv.take(i as int))
            });
            assert(nonempty_segs(sv.take(i as int)).len() <= sv.take(i as int).len());
        }
        let len_i = segments[i].points.len();
        proof {
            assert(sv[i as int].len() == len_i);
        }
        if len_i > 0 {
            if ne_count == 0 {
                first_ne = i;
            }
            ne_count = ne_count + 1;
        }
        let add: usize = if len_i >= 2 {
            2
        } else {
            len_i
        };
        if total2 + add >= 2 {
            total2 = 2;
        } else {
            total2 = total2 + add;
        }
        i = i + 1;
    }
    proof {
        assert(sv.take(n as int) =~= sv);
    }
    (ne_count, first_ne, total2)
}

/// The LineString feature of a track for one of its segments.
fn track_segment_feature(trk: &GpxTrack, points: &Vec<GpxPoint>, opts: &ConvertOptions) -> (r:
    Feature)
    ensures
        r@ == spec_track_line_feature(trk@, points_view(points@), *opts),
{
    let coords = line_coords(points, opts.include_elevation);
    let geometry = Geometry::LineString(coords);
    let mut props = build_track_props(trk, opts);
    if opts.include_time {
        insert_coordinate_times(&mut props, points);
    }
    let r = Feature { geometry, properties: props };
    proof {
        assert(r@.properties =~= spec_track_line_feature(trk@, points_view(points@), *opts).properties);
        assert(r@ == spec_track_line_feature(trk@, points_view(points@), *opts));
    }
    r
}

/// The coordinate lines and nested time arrays of the line segments.
fn collect_lines(segments: &Vec<GpxSegment>, include_elevation: bool) -> (r: (
    Vec<Vec<Vec<String>>>,
    Vec<Vec<Option<String>>>,
    bool,
))
    ensures
        lines_view(r.0@) == spec_multi_lines(line_segs(segments_view(segments@)), include_elevation),
        multi_times_view(r.1@) == spec_multi_times(line_segs(segments_view(segments@))),
        r.2 == spec_any_seg_time(line_segs(segments_view(segments@))),
{
    let ghost sv = segments_view(segments@);
    let n = segments.len();
    let mut lines: Vec<Vec<Vec<String>>> = Vec::new();
    let mut times_all: Vec<Vec<Option<String>>> = Vec::new();
    let mut any_time = false;
    let mut i: usize = 0;
    while i < n
        invariant
            i <= n == segments@.len(),
            sv == segments_view(segments@),
            lines_view(lines@) =~= spec_multi_lines(
                line_segs(sv.take(i as int)),
                include_elevation,
            ),
            multi_times_view(times_all@) =~= spec_multi_times(line_segs(sv.take(i as int))),
            any_time == spec_any_seg_time(line_segs(sv.take(i as int))),
        decreases n - i,
    {
        let ghost qs_prev = line_segs(sv.take(i as int));
        proof {
            assert(sv[i as int] == segments@[i as int]@);
            assert(sv.take(i as int + 1) =~= sv.take(i as int).push(sv[i as int]));
            assert(line_segs(sv.take(i as int).push(sv[i as int])) == if sv[i as int].len() >= 2 {
                line_segs(sv.take(i as int)).push(sv[i as int])
            } else {
                line_segs(sv.take(i as int))
            });
        }
        let seg_points = &segments[i].points;
        if seg_points.len() >= 2 {
            let ghost qs_next = qs_prev.push(sv[i as int]);
            let c = line_coords(seg_points, include_elevation);
            lines.push(c);
            let (t, h) = collect_times(seg_points);
            times_all.push(t);
            if h {
                any_time = true;
            }
            proof {
                assert(lines_view(lines@) =~= spec_multi_lines(qs_next, include_elevation));
                assert(multi_times_view(times_all@) =~= spec_multi_times(qs_next));
                if h {
                    assert(spec_has_time(qs_next[qs_next.len() - 1]));
                    assert(spec_any_seg_time(qs_next));
                } else if !any_time {
                    assert forall|k: int| 0 <= k < qs_next.len() implies !spec_has_time(
                        qs_next[k],
                    ) by {
                        if k < qs_next.len() - 1 {
                            assert(qs_next[k] == qs_prev[k]);
                            if spec_has_time(qs_prev[k]) {
                                assert(spec_any_seg_time(qs_prev));
                            }
                        }
                    }
                    assert(!spec_any_seg_time(qs_next));
                } else {
                    let k = choose|k: int|
                        0 <= k < qs_prev.len() && spec_has_time(#[trigger] qs_prev[k]);
                    assert(qs_next[k] == qs_prev[k]);
                    assert(spec_any_seg_time(qs_next));
                }
            }
        }
        i = i + 1;
    }
    proof {
        assert(sv.take(n as int) =~= sv);
    }
    (lines, times_all, any_time)
}

/// The view of concatenated feature lists is the concatenation of their
/// views.
proof fn lemma_features_view_add(a: Seq<Feature>, b: Seq<Feature>)
    ensures
        features_view(a + b) == features_view(a) + features_view(b),
{
    assert forall|k: int| 0 <= k < (a + b).len() implies features_view(a + b)[k] == (features_view(
        a,
    ) + features_view(b))[k] by {
        if k < a.len() {
            assert(features_view(a)[k] == a[k]@);
            assert((a + b)[k] == a[k]);
        } else {
            assert(features_view(b)[k - a.len()] == b[k - a.len()]@);
            assert((a + b)[k] == b[k - a.len()]);
        }
    }
    assert(features_view(a + b) =~= features_view(a) + features_view(b));
}

/// The features of a track, by the decision tree of
/// [`spec_track_features`].
pub fn track_to_features(trk: &GpxTrack, opts: &ConvertOptions) -> (r: Vec<Feature>)
    ensures
        features_view(r@) == spec_track_features(trk@, *opts),
{
    let ghost sv = segments_view(trk.segments@);
    let (ne_count, first_ne, total2) = scan_segments(&trk.segments);
    if ne_count == 0 {
        let r: Vec<Feature> = Vec::new();
        proof {
            assert(features_view(r@) =~= spec_track_features(trk@, *opts));
        }
        return r;
    }
    if total2 == 1 {
        // a lone point across all segments becomes a Point feature
        let pt = &trk.segments[first_ne].points[0];
        proof {
            assert(nonempty_segs(sv)[0][0] == points_view(trk.segments@[first_ne as int].points@)[0]);
        }
        let f = single_point_feature(pt, "track", opts);
        let r = vec![f];
        proof {
            assert(features_view(r@) =~= spec_track_features(trk@, *opts));
        }
        return r;
    }
    if opts.join_track_segments || ne_count == 1 {
        if ne_count == 1 && trk.segments[first_ne].points.len() >= 2 {
            let f = track_segment_feature(trk, &trk.segments[first_ne].points, opts);
            let r = vec![f];
            proof {
                assert(nonempty_segs(sv)[0] == points_view(trk.segments@[first_ne as int].points@));
                assert(features_view(r@) =~= spec_track_features(trk@, *opts));
            }
            return r;
        }
        let (lines, times_all, any_time) = collect_lines(&trk.segments, opts.include_elevation);
        if lines.is_empty() {
            let r: Vec<Feature> = Vec::new();
            proof {
                assert(lines_view(lines@).len() == lines@.len());
                assert(spec_multi_lines(line_segs(sv), opts.include_elevation).len() == line_segs(
                    sv,
                ).len());
                assert(line_segs(sv).len() == 0);
                assert(features_view(r@) =~= spec_track_features(trk@, *opts));
            }
            return r;
        }
        let geometry = Geometry::MultiLineString(lines);
        let mut props = build_track_props(trk, opts);
        if opts.include_time && any_time {
            props.push((String::from_str("coordinateProperties"), PropValue::MultiTimes(times_all)));
        }
        let f = Feature { geometry, properties: props };
        let r = vec![f];
        proof {
            assert(lines_view(lines@).len() == lines@.len());
            assert(spec_multi_lines(line_segs(sv), opts.include_elevation).len() == line_segs(
                sv,
            ).len());
            assert(line_segs(sv).len() > 0);
            assert(f@.properties =~= spec_track_multi_feature(trk@, *opts).properties);
            assert(f@ == spec_track_multi_feature(trk@, *opts));
            assert(features_view(r@) =~= spec_track_features(trk@, *opts));
        }
        return r;
    }
    // one LineString feature per line segment
    let n = trk.segments.len();
    let mut r: Vec<Feature> = Vec::new();
    let mut i: usize = 0;
    while i < n
        invariant
            i <= n == trk.segments@.len(),
            sv == segments_view(trk.segments@),
            features_view(r@) =~= line_segs(sv.take(i as int)).map_values(
                |s: Seq<PointV>| spec_track_line_feature(trk@, s, *opts),
            ),
        decreases n - i,
    {
        proof {
            assert(sv[i as int] == trk.segments@[i as int]@);
            assert(sv.take(i as int + 1) =~= sv.take(i as int).push(sv[i as int]));
            assert(line_segs(sv.take(i as int).push(sv[i as int])) == if sv[i as int].len() >= 2 {
                line_segs(sv.take(i as int)).push(sv[i as int])
            } else {
                line_segs(sv.take(i as int))
            });
        }
        let seg_points = &trk.segments[i].points;
        if seg_points.len() >= 2 {
            let f = track_segment_feature(trk, seg_points, opts);
            r.push(f);
        }
        proof {
            assert(features_view(r@) =~= line_segs(sv.take(i as int + 1)).map_values(
                |s: Seq<PointV>| spec_track_line_feature(trk@, s, *opts),
            ));
        }
        i = i + 1;
    }
    proof {
        assert(sv.take(n as int) =~= sv);
        assert(features_view(r@) =~= spec_separate_features(trk@, *opts));
        assert(features_view(r@) =~= spec_track_features(trk@, *opts));
    }
    r
}

/// Convert parsed GPX data to a GeoJSON feature collection.
pub fn to_feature_collection(data: &GpxData, opts: &ConvertOptions) -> (r: FeatureCollection)
    ensures
        r@ == spec_convert(data@, *opts),
{
    let ghost wps = points_view(data.waypoints@);
    let ghost rts = crate::gpx_types::routes_view(data.routes@);
    let ghost tks = crate::gpx_types::tracks_view(data.tracks@);
    let mut features: Vec<Feature> = Vec::new();
    let ghost w_part = if spec_should_include(*opts, GpxElementType::Waypoint) {
        spec_waypoint_part(wps, *opts)
    } else {
        Seq::<FeatureV>::empty()
    };
    if data.waypoints.len() > 0 && opts.should_include(GpxElementType::Waypoint) {
        let n = data.waypoints.len();
        let mut i: usize = 0;
        while i < n
            invariant
                i <= n == data.waypoints@.len(),
                wps == points_view(data.waypoints@),
                spec_should_include(*opts, GpxElementType::Waypoint),
                features_view(features@) =~= spec_waypoint_part(wps.take(i as int), *opts),
            decreases n - i,
        {
            proof {
                assert(wps[i as int] == data.waypoints@[i as int]@);
                assert(wps.take(i as int + 1) =~= wps.take(i as int).push(wps[i as int]));
            }
            let f = waypoint_to_feature(&data.waypoints[i], opts);
            features.push(f);
            proof {
                assert(features_view(features@) =~= spec_waypoint_part(
                    wps.take(i as int + 1),
                    *opts,
                ));
            }
            i = i + 1;
        }
        proof {
            assert(wps.take(n as int) =~= wps);
        }
    } else if opts.should_include(GpxElementType::Waypoint) {
        proof {
            assert(features_view(features@) =~= spec_waypoint_part(wps, *opts));
        }
    }
    proof {
        assert(features_view(features@) =~= w_part);
    }
    let ghost r_part = if spec_should_include(*opts, GpxElementType::Route) {
        spec_route_part(rts, *opts)
    } else {
        Seq::<FeatureV>::empty()
    };
    if opts.should_include(GpxElementType::Route) {
        let n = data.routes.len();
        let mut i: usize = 0;
        while i < n
            invariant
                i <= n == data.routes@.len(),
                rts == crate::gpx_types::routes_view(data.routes@),
                w_part == features_view(features@).take(w_part.len() as int)
                    || features_view(features@) =~= w_part + spec_route_part(
                    rts.take(i as int),
                    *opts,
                ),
                features_view(features@) =~= w_part + spec_route_part(rts.take(i as int), *opts),
                spec_should_include(*opts, GpxElementType::Route),
            decreases n - i,
        {
            proof {
                assert(rts[i as int] == data.routes@[i as int]@);
                assert(spec_route_part(rts.take(i as int + 1), *opts) =~= spec_route_part(
                    rts.take(i as int),
                    *opts,
                ) + spec_route_features(rts[i as int], *opts));
            }
            let rte = &data.routes[i];
            if rte.points.len() >= 2 {
                let f = route_to_feature(rte, opts);
                features.push(f);
            } else if rte.points.len() == 1 {
                proof {
                    assert(rts[i as int].points[0] == points_view(rte.points@)[0]);
                }
                let f = single_point_feature(&rte.points[0], "route", opts);
                features.push(f);
            }
            proof {
                assert(features_view(features@) =~= w_part + spec_route_part(
                    rts.take(i as int + 1),
                    *opts,
                ));
            }
            i = i + 1;
        }
        proof {
            assert(rts.take(n as int) =~= rts);
        }
    }
    proof {
        assert(features_view(features@) =~= w_part + r_part);
    }
    if opts.should_include(GpxElementType::Track) {
        let n = data.tracks.len();
        let mut i: usize = 0;
        while i < n
            invariant
                i <= n == data.tracks@.len(),
                tks == crate::gpx_types::tracks_view(data.tracks@),
                features_view(features@) =~= w_part + r_part + spec_track_part(
                    tks.take(i as int),
                    *opts,
                ),
                spec_should_include(*opts, GpxElementType::Track),
            decreases n - i,
        {
            proof {
                assert(tks[i as int] == data.tracks@[i as int]@);
                assert(spec_track_part(tks.take(i as int + 1), *opts) =~= spec_track_part(
                    tks.take(i as int),
                    *opts,
                ) + spec_track_features(tks[i as int], *opts));
            }
            let mut fs = track_to_features(&data.tracks[i], opts);
            let ghost fa = features@;
            let ghost fb = fs@;
            features.append(&mut fs);
            proof {
                lemma_features_view_add(fa, fb);
                assert(features_view(fa) + features_view(fb) =~= w_part + r_part + spec_track_part(
                    tks.take(i as int + 1),
                    *opts,
                ));
            }
            i = i + 1;
        }
        proof {
            assert(tks.take(n as int) =~= tks);
        }
    }
    let r = FeatureCollection { features };
    proof {
        assert(r@ =~= spec_convert(data@, *opts));
    }
    r
}

} // verus!
