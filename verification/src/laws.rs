//! Properties of the conversion, proved once and for all.
//!
//! Each public proof function here states one law of the converter over
//! the specification functions of [`crate::converter`], for every
//! document and every option value.

use crate::converter::{
    line_segs, nonempty_segs, spec_any_seg_time, spec_convert, spec_has_time, spec_line_coords,
    spec_multi_time_props, spec_point_coords, spec_point_feature, spec_route_features,
    spec_route_line_feature, spec_route_part, spec_route_props, spec_separate_features,
    spec_time_props, spec_track_features, spec_track_line_feature, spec_track_multi_feature,
    spec_track_part, spec_track_props, spec_waypoint_part, total_points,
};
use crate::feature::{spec_lookup, FeatureV, GeomV, PropV};
use crate::gpx_types::{DataV, PointV, RouteV, TrackV};
use crate::options::ConvertOptions;
use vstd::prelude::*;

verus! {

/// Every coordinate position of the geometry has two or three
/// components, and three only under elevation inclusion.
pub open spec fn coord_lengths_ok(g: GeomV, include_elevation: bool) -> bool {
    match g {
        GeomV::Point(p) => pos_ok(p, include_elevation),
        GeomV::LineString(l) => forall|i: int|
            0 <= i < l.len() ==> pos_ok(#[trigger] l[i], include_elevation),
        GeomV::MultiLineString(ls) => forall|i: int, j: int|
            0 <= i < ls.len() && 0 <= j < ls[i].len() ==> pos_ok(
                #[trigger] ls[i][j],
                include_elevation,
            ),
    }
}

/// A coordinate position of two or three components, three only under
/// elevation inclusion.
pub open spec fn pos_ok(pos: Seq<Seq<char>>, include_elevation: bool) -> bool {
    (pos.len() == 2 || pos.len() == 3) && (pos.len() == 3 ==> include_elevation)
}

/// Every line of the geometry has at least two coordinate entries.
pub open spec fn line_lengths_ok(g: GeomV) -> bool {
    match g {
        GeomV::Point(p) => true,
        GeomV::LineString(l) => l.len() >= 2,
        GeomV::MultiLineString(ls) => ls.len() >= 1 && forall|i: int|
            0 <= i < ls.len() ==> (#[trigger] ls[i]).len() >= 2,
    }
}

/// Both shapes at once, the invariant the traversal below carries.
spec fn geom_ok(g: GeomV, include_elevation: bool) -> bool {
    coord_lengths_ok(g, include_elevation) && line_lengths_ok(g)
}

/// The coordinate position of a point has two components, or exactly
/// three when elevation inclusion is on and the point carries an
/// elevation.
pub proof fn lemma_point_coordinate_elevation(p: PointV, include_elevation: bool)
    ensures
        spec_point_coords(p, include_elevation).len() == 2 || spec_point_coords(
            p,
            include_elevation,
        ).len() == 3,
        spec_point_coords(p, include_elevation).len() == 3 <==> (include_elevation
            && p.ele is Some),
{
}

proof fn lemma_line_coords_ok(ps: Seq<PointV>, include_elevation: bool)
    ensures
        spec_line_coords(ps, include_elevation).len() == ps.len(),
        forall|i: int|
            0 <= i < ps.len() ==> pos_ok(
                #[trigger] spec_line_coords(ps, include_elevation)[i],
                include_elevation,
            ),
{
    assert forall|i: int| 0 <= i < ps.len() implies pos_ok(
        #[trigger] spec_line_coords(ps, include_elevation)[i],
        include_elevation,
    ) by {
        lemma_point_coordinate_elevation(ps[i], include_elevation);
    }
}

proof fn lemma_route_features_ok(r: RouteV, o: ConvertOptions)
    ensures
        forall|k: int|
            0 <= k < spec_route_features(r, o).len() ==> geom_ok(
                (#[trigger] spec_route_features(r, o)[k]).geometry,
                o.include_elevation,
            ),
{
    if r.points.len() >= 2 {
        lemma_line_coords_ok(r.points, o.include_elevation);
    } else if r.points.len() == 1 {
        lemma_point_coordinate_elevation(r.points[0], o.include_elevation);
    }
}

proof fn lemma_track_features_ok(t: TrackV, o: ConvertOptions)
    ensures
        forall|k: int|
            0 <= k < spec_track_features(t, o).len() ==> geom_ok(
                (#[trigger] spec_track_features(t, o)[k]).geometry,
                o.include_elevation,
            ),
{
    broadcast use vstd::prelude::Seq::lemma_filter_pred;

    let ss = nonempty_segs(t.segments);
    let qs = line_segs(t.segments);
    if ss.len() == 0 {
    } else if total_points(t.segments) == 1 {
        lemma_point_coordinate_elevation(ss[0][0], o.include_elevation);
    } else if o.join_track_segments || ss.len() == 1 {
        if ss.len() == 1 && ss[0].len() >= 2 {
            lemma_line_coords_ok(ss[0], o.include_elevation);
        } else if qs.len() == 0 {
        } else {
            let g = spec_track_multi_feature(t, o).geometry;
            assert forall|i: int, j: int|
                0 <= i < qs.len() && 0 <= j < (g->MultiLineString_0)[i].len() implies pos_ok(
                #[trigger] (g->MultiLineString_0)[i][j],
                o.include_elevation,
            ) by {
                assert(qs[i].len() >= 2);
                lemma_line_coords_ok(qs[i], o.include_elevation);
            }
            assert forall|i: int| 0 <= i < qs.len() implies (#[trigger] (g->MultiLineString_0)[i]).len()
                >= 2 by {
                assert(qs[i].len() >= 2);
                lemma_line_coords_ok(qs[i], o.include_elevation);
            }
        }
    } else {
        assert forall|k: int| 0 <= k < spec_separate_features(t, o).len() implies geom_ok(
            (#[trigger] spec_separate_features(t, o)[k]).geometry,
            o.include_elevation,
        ) by {
            assert(qs[k].len() >= 2);
            lemma_line_coords_ok(qs[k], o.include_elevation);
        }
    }
}

proof fn lemma_route_part_ok(rs: Seq<RouteV>, o: ConvertOptions, i: int)
    requires
        0 <= i <= rs.len(),
    ensures
        forall|k: int|
            0 <= k < spec_route_part(rs.take(i), o).len() ==> geom_ok(
                (#[trigger] spec_route_part(rs.take(i), o)[k]).geometry,
                o.include_elevation,
            ),
    decreases i,
{
    broadcast use vstd::prelude::Seq::lemma_flat_map_take_append;

    if i == 0 {
        assert(rs.take(0) =~= Seq::<RouteV>::empty());
        assert(spec_route_part(rs.take(0), o) =~= Seq::<FeatureV>::empty());
    } else {
        lemma_route_part_ok(rs, o, i - 1);
        lemma_route_features_ok(rs[i - 1], o);
        assert(spec_route_part(rs.take(i - 1 + 1), o) =~= spec_route_part(rs.take(i - 1), o)
            + spec_route_features(rs[i - 1], o));
    }
}

proof fn lemma_track_part_ok(ts: Seq<TrackV>, o: ConvertOptions, i: int)
    requires
        0 <= i <= ts.len(),
    ensures
        forall|k: int|
            0 <= k < spec_track_part(ts.take(i), o).len() ==> geom_ok(
                (#[trigger] spec_track_part(ts.take(i), o)[k]).geometry,
                o.include_elevation,
            ),
    decreases i,
{
    broadcast use vstd::prelude::Seq::lemma_flat_map_take_append;

    if i == 0 {
        assert(ts.take(0) =~= Seq::<TrackV>::empty());
        assert(spec_track_part(ts.take(0), o) =~= Seq::<FeatureV>::empty());
    } else {
        lemma_track_part_ok(ts, o, i - 1);
        lemma_track_features_ok(ts[i - 1], o);
        assert(spec_track_part(ts.take(i - 1 + 1), o) =~= spec_track_part(ts.take(i - 1), o)
            + spec_track_features(ts[i - 1], o));
    }
}

proof fn lemma_convert_geoms_ok(d: DataV, o: ConvertOptions)
    ensures
        forall|k: int|
            0 <= k < spec_convert(d, o).len() ==> geom_ok(
                (#[trigger] spec_convert(d, o)[k]).geometry,
                o.include_elevation,
            ),
{
    assert forall|k: int| 0 <= k < spec_waypoint_part(d.waypoints, o).len() implies geom_ok(
        (#[trigger] spec_waypoint_part(d.waypoints, o)[k]).geometry,
        o.include_elevation,
    ) by {
        lemma_point_coordinate_elevation(d.waypoints[k], o.include_elevation);
    }
    lemma_route_part_ok(d.routes, o, d.routes.len() as int);
    assert(d.routes.take(d.routes.len() as int) =~= d.routes);
    lemma_track_part_ok(d.tracks, o, d.tracks.len() as int);
    assert(d.tracks.take(d.tracks.len() as int) =~= d.tracks);
}

/// Every coordinate position of every converted feature has two or three
/// components, never another number, and three only when elevation
/// inclusion is on.
pub proof fn lemma_converted_coordinate_lengths(d: DataV, o: ConvertOptions)
    ensures
        forall|k: int|
            0 <= k < spec_convert(d, o).len() ==> coord_lengths_ok(
                (#[trigger] spec_convert(d, o)[k]).geometry,
                o.include_elevation,
            ),
{
    lemma_convert_geoms_ok(d, o);
}

/// No converted LineString or MultiLineString feature carries a line of
/// fewer than two coordinate entries.
pub proof fn lemma_converted_line_lengths(d: DataV, o: ConvertOptions)
    ensures
        forall|k: int|
            0 <= k < spec_convert(d, o).len() ==> line_lengths_ok(
                (#[trigger] spec_convert(d, o)[k]).geometry,
            ),
{
    lemma_convert_geoms_ok(d, o);
}

proof fn lemma_total_points_nonempty(ss: Seq<Seq<PointV>>)
    requires
        total_points(ss) > 0,
    ensures
        nonempty_segs(ss).len() > 0,
    decreases ss.len(),
{
    broadcast use vstd::prelude::Seq::lemma_filter_push;

    assert(ss.len() > 0);
    let prefix = ss.drop_last();
    assert(ss =~= prefix.push(ss.last()));
    assert(nonempty_segs(prefix.push(ss.last())) == if ss.last().len() > 0 {
        nonempty_segs(prefix).push(ss.last())
    } else {
        nonempty_segs(prefix)
    });
    if ss.last().len() == 0 {
        assert(total_points(prefix) > 0);
        lemma_total_points_nonempty(prefix);
    }
}

/// A track whose total point count over its non-empty segments is
/// exactly one always becomes a single Point feature, whatever the
/// joining option says.
pub proof fn lemma_single_point_track(t: TrackV, o: ConvertOptions)
    requires
        total_points(t.segments) == 1,
    ensures
        spec_track_features(t, o).len() == 1,
        spec_track_features(t, o)[0].geometry is Point,
{
    lemma_total_points_nonempty(t.segments);
    let ss = nonempty_segs(t.segments);
    assert(spec_track_features(t, o) == seq![
        spec_point_feature(ss[0][0], "track"@, o),
    ]);
}

/// A MultiLineString of exactly two lines of two positions each.
pub open spec fn two_lines_of_two(g: GeomV) -> bool {
    &&& g is MultiLineString
    &&& g->MultiLineString_0.len() == 2
    &&& g->MultiLineString_0[0].len() == 2
    &&& g->MultiLineString_0[1].len() == 2
}

proof fn lemma_two_seg_filters(ss: Seq<Seq<PointV>>)
    requires
        ss.len() == 2,
        ss[0].len() == 2,
        ss[1].len() == 2,
    ensures
        nonempty_segs(ss) == ss,
        line_segs(ss) == ss,
        total_points(ss) == 4,
{
    broadcast use vstd::prelude::Seq::lemma_filter_push;

    let e = Seq::<Seq<PointV>>::empty();
    assert(ss =~= e.push(ss[0]).push(ss[1]));
    assert(nonempty_segs(e).len() <= e.len());
    assert(nonempty_segs(e) =~= e);
    assert(line_segs(e) =~= e);
    assert(nonempty_segs(e.push(ss[0])) == nonempty_segs(e).push(ss[0]));
    assert(nonempty_segs(e.push(ss[0]).push(ss[1])) == nonempty_segs(e.push(ss[0])).push(ss[1]));
    assert(nonempty_segs(ss) =~= ss);
    assert(line_segs(e.push(ss[0])) == line_segs(e).push(ss[0]));
    assert(line_segs(e.push(ss[0]).push(ss[1])) == line_segs(e.push(ss[0])).push(ss[1]));
    assert(line_segs(ss) =~= ss);
    assert(ss.drop_last() =~= e.push(ss[0]));
    assert(e.push(ss[0]).drop_last() =~= e);
    assert(total_points(e) == 0);
    assert(total_points(e.push(ss[0])) == 2);
    assert(total_points(ss) == 4);
}

/// Joining a track of two two-point segments yields exactly one
/// MultiLineString feature of two lines of two positions; not joining
/// yields exactly two LineString features, one per segment.
pub proof fn lemma_two_segment_track(t: TrackV, o: ConvertOptions)
    requires
        t.segments.len() == 2,
        t.segments[0].len() == 2,
        t.segments[1].len() == 2,
    ensures
        o.join_track_segments ==> spec_track_features(t, o) == seq![
            spec_track_multi_feature(t, o),
        ] && two_lines_of_two(spec_track_multi_feature(t, o).geometry),
        !o.join_track_segments ==> spec_track_features(t, o) == seq![
            spec_track_line_feature(t, t.segments[0], o),
            spec_track_line_feature(t, t.segments[1], o),
        ] && spec_track_line_feature(t, t.segments[0], o).geometry is LineString
            && spec_track_line_feature(t, t.segments[1], o).geometry is LineString,
{
    lemma_two_seg_filters(t.segments);
    let fs = spec_track_features(t, o);
    if o.join_track_segments {
        assert(fs == seq![spec_track_multi_feature(t, o)]);
        let g = spec_track_multi_feature(t, o).geometry;
        lemma_line_coords_ok(t.segments[0], o.include_elevation);
        lemma_line_coords_ok(t.segments[1], o.include_elevation);
        assert(g->MultiLineString_0[0] == spec_line_coords(t.segments[0], o.include_elevation));
        assert(g->MultiLineString_0[1] == spec_line_coords(t.segments[1], o.include_elevation));
        assert(two_lines_of_two(g));
    } else {
        assert(fs == spec_separate_features(t, o));
        assert(spec_separate_features(t, o) =~= seq![
            spec_track_line_feature(t, t.segments[0], o),
            spec_track_line_feature(t, t.segments[1], o),
        ]);
    }
}

/// Looking a key up after entries that all carry other keys is looking
/// it up in the rest.
proof fn lemma_lookup_after(a: Seq<(Seq<char>, PropV)>, b: Seq<(Seq<char>, PropV)>, key: Seq<char>)
    requires
        forall|i: int| 0 <= i < a.len() ==> (#[trigger] a[i]).0 != key,
    ensures
        spec_lookup(a + b, key) == spec_lookup(b, key),
    decreases a.len(),
{
    if a.len() == 0 {
        assert(a + b =~= b);
    } else {
        assert((a + b)[0] == a[0]);
        assert((a + b).drop_first() =~= a.drop_first() + b);
        lemma_lookup_after(a.drop_first(), b, key);
    }
}

/// No route property key is the coordinate-time key.
proof fn lemma_route_props_keys(r: RouteV, o: ConvertOptions)
    ensures
        forall|i: int|
            0 <= i < spec_route_props(r, o).len() ==> (#[trigger] spec_route_props(r, o)[i]).0
                != "coordinateProperties"@,
{
    broadcast use vstd::string::group_string_axioms;

    reveal_strlit("coordinateProperties");
    reveal_strlit("gpxType");
    reveal_strlit("name");
    reveal_strlit("cmt");
    reveal_strlit("desc");
    reveal_strlit("src");
    reveal_strlit("type");
    reveal_strlit("number");
    reveal_strlit("link");
    assert("gpxType"@.len() == 7);
    assert("name"@.len() == 4);
    assert("cmt"@.len() == 3);
    assert("desc"@.len() == 4);
    assert("src"@.len() == 3);
    assert("type"@.len() == 4);
    assert("number"@.len() == 6);
    assert("link"@.len() == 4);
    assert("coordinateProperties"@.len() == 20);
}

/// No track property key is the coordinate-time key.
proof fn lemma_track_props_keys(t: TrackV, o: ConvertOptions)
    ensures
        forall|i: int|
            0 <= i < spec_track_props(t, o).len() ==> (#[trigger] spec_track_props(t, o)[i]).0
                != "coordinateProperties"@,
{
    broadcast use vstd::string::group_string_axioms;

    reveal_strlit("coordinateProperties");
    reveal_strlit("gpxType");
    reveal_strlit("name");
    reveal_strlit("cmt");
    reveal_strlit("desc");
    reveal_strlit("src");
    reveal_strlit("type");
    reveal_strlit("number");
    reveal_strlit("link");
    assert("gpxType"@.len() == 7);
    assert("name"@.len() == 4);
    assert("cmt"@.len() == 3);
    assert("desc"@.len() == 4);
    assert("src"@.len() == 3);
    assert("type"@.len() == 4);
    assert("number"@.len() == 6);
    assert("link"@.len() == 4);
    assert("coordinateProperties"@.len() == 20);
}

/// A route feature carries the coordinate-time structure exactly when
/// time inclusion is on and some route point carries a timestamp; an
/// all-empty time set yields none.
pub proof fn lemma_route_time_structure(r: RouteV, o: ConvertOptions)
    ensures
        spec_lookup(spec_route_line_feature(r, o).properties, "coordinateProperties"@) is Some
            <==> (o.include_time && spec_has_time(r.points)),
{
    lemma_route_props_keys(r, o);
    let tail = if o.include_time {
        spec_time_props(r.points)
    } else {
        Seq::empty()
    };
    lemma_lookup_after(spec_route_props(r, o), tail, "coordinateProperties"@);
}

/// A LineString track feature carries the coordinate-time structure
/// exactly when time inclusion is on and some point of its segment
/// carries a timestamp.
pub proof fn lemma_track_time_structure(t: TrackV, ps: Seq<PointV>, o: ConvertOptions)
    ensures
        spec_lookup(spec_track_line_feature(t, ps, o).properties, "coordinateProperties"@) is Some
            <==> (o.include_time && spec_has_time(ps)),
{
    lemma_track_props_keys(t, o);
    let tail = if o.include_time {
        spec_time_props(ps)
    } else {
        Seq::empty()
    };
    lemma_lookup_after(spec_track_props(t, o), tail, "coordinateProperties"@);
}

/// A MultiLineString track feature carries the nested coordinate-time
/// structure exactly when time inclusion is on and some point of some
/// line segment carries a timestamp.
pub proof fn lemma_track_multi_time_structure(t: TrackV, o: ConvertOptions)
    ensures
        spec_lookup(spec_track_multi_feature(t, o).properties, "coordinateProperties"@) is Some
            <==> (o.include_time && spec_any_seg_time(line_segs(t.segments))),
{
    lemma_track_props_keys(t, o);
    let tail = if o.include_time {
        spec_multi_time_props(line_segs(t.segments))
    } else {
        Seq::empty()
    };
    lemma_lookup_after(spec_track_props(t, o), tail, "coordinateProperties"@);
}

/// Disabling metadata leaves a point feature with only its category tag.
pub proof fn lemma_point_feature_metadata_off(p: PointV, tag: Seq<char>, o: ConvertOptions)
    requires
        !o.include_metadata,
    ensures
        spec_point_feature(p, tag, o).properties =~= seq![(("gpxType"@, PropV::Text(tag)))],
{
}

/// Disabling metadata leaves a route feature with only its category tag
/// and, under time inclusion, its time structure.
pub proof fn lemma_route_feature_metadata_off(r: RouteV, o: ConvertOptions)
    requires
        !o.include_metadata,
    ensures
        spec_route_line_feature(r, o).properties =~= seq![
            (("gpxType"@, PropV::Text("route"@))),
        ] + (if o.include_time {
            spec_time_props(r.points)
        } else {
            Seq::empty()
        }),
{
    assert(spec_route_props(r, o) =~= seq![(("gpxType"@, PropV::Text("route"@)))]);
}

/// Disabling metadata leaves a track feature with only its category tag
/// and, under time inclusion, its time structure.
pub proof fn lemma_track_feature_metadata_off(t: TrackV, ps: Seq<PointV>, o: ConvertOptions)
    requires
        !o.include_metadata,
    ensures
        spec_track_line_feature(t, ps, o).properties =~= seq![
            (("gpxType"@, PropV::Text("track"@))),
        ] + (if o.include_time {
            spec_time_props(ps)
        } else {
            Seq::empty()
        }),
{
    assert(spec_track_props(t, o) =~= seq![(("gpxType"@, PropV::Text("track"@)))]);
}

} // verus!

