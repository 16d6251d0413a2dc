//! The parsed GPX domain model.
//!
//! Plain records for the entities of a GPX document: waypoints, routes,
//! tracks, their segments and points, and links.  Coordinates and elevation
//! keep the verbatim document text of their decimal value; a point is only
//! well formed when that text denotes a decimal number.  All entities are
//! built once by the parser and only read afterwards.

use crate::numbers::is_decimal_number;
use vstd::prelude::*;

verus! {

/// The mathematical value of a [`GpxLink`].
pub ghost struct LinkV {
    pub href: Seq<char>,
    pub text: Option<Seq<char>>,
    pub link_type: Option<Seq<char>>,
}

/// The mathematical value of a [`GpxPoint`].
pub ghost struct PointV {
    pub lat: Seq<char>,
    pub lon: Seq<char>,
    pub ele: Option<Seq<char>>,
    pub time: Option<Seq<char>>,
    pub name: Option<Seq<char>>,
    pub cmt: Option<Seq<char>>,
    pub desc: Option<Seq<char>>,
    pub src: Option<Seq<char>>,
    pub sym: Option<Seq<char>>,
    pub point_type: Option<Seq<char>>,
    pub link: Option<LinkV>,
}

/// The mathematical value of a [`GpxRoute`].
pub ghost struct RouteV {
    pub name: Option<Seq<char>>,
    pub cmt: Option<Seq<char>>,
    pub desc: Option<Seq<char>>,
    pub src: Option<Seq<char>>,
    pub link: Option<LinkV>,
    pub number: Option<u32>,
    pub route_type: Option<Seq<char>>,
    pub points: Seq<PointV>,
}

/// The mathematical value of a [`GpxTrack`].
pub ghost struct TrackV {
    pub name: Option<Seq<char>>,
    pub cmt: Option<Seq<char>>,
    pub desc: Option<Seq<char>>,
    pub src: Option<Seq<char>>,
    pub link: Option<LinkV>,
    pub number: Option<u32>,
    pub track_type: Option<Seq<char>>,
    pub segments: Seq<Seq<PointV>>,
}

/// The mathematical value of a [`GpxData`].
pub ghost struct DataV {
    pub waypoints: Seq<PointV>,
    pub routes: Seq<RouteV>,
    pub tracks: Seq<TrackV>,
}

/// The view of an optional string field.
pub open spec fn opt_view(o: Option<String>) -> Option<Seq<char>> {
    match o {
        Some(s) => Some(s@),
        None => None,
    }
}

/// The view of an optional link field.
pub open spec fn opt_link_view(o: Option<GpxLink>) -> Option<LinkV> {
    match o {
        Some(l) => Some(l@),
        None => None,
    }
}

impl PointV {
    /// Latitude and longitude, and elevation where present, denote
    /// decimal numbers.
    pub open spec fn wf(self) -> bool {
        &&& is_decimal_number(self.lat)
        &&& is_decimal_number(self.lon)
        &&& match self.ele {
            Some(e) => is_decimal_number(e),
            None => true,
        }
    }
}

impl RouteV {
    /// Every point of the route is well formed.
    pub open spec fn wf(self) -> bool {
        forall|i: int| 0 <= i < self.points.len() ==> (#[trigger] self.points[i]).wf()
    }
}

impl TrackV {
    /// Every segment is non-empty and every point of it is well formed.
    pub open spec fn wf(self) -> bool {
        forall|i: int|
            0 <= i < self.segments.len() ==> (#[trigger] self.segments[i]).len() > 0 && forall|
                j: int,
            | 0 <= j < self.segments[i].len() ==> (#[trigger] self.segments[i][j]).wf()
    }
}

impl DataV {
    /// Every entity of the document is well formed.
    pub open spec fn wf(self) -> bool {
        &&& forall|i: int| 0 <= i < self.waypoints.len() ==> (#[trigger] self.waypoints[i]).wf()
        &&& forall|i: int| 0 <= i < self.routes.len() ==> (#[trigger] self.routes[i]).wf()
        &&& forall|i: int| 0 <= i < self.tracks.len() ==> (#[trigger] self.tracks[i]).wf()
    }
}

/// A GPX link element.
#[derive(Debug, Clone)]
pub struct GpxLink {
    pub href: String,
    pub text: Option<String>,
    pub link_type: Option<String>,
}

impl View for GpxLink {
    type V = LinkV;

    open spec fn view(&self) -> LinkV {
        LinkV { href: self.href@, text: opt_view(self.text), link_type: opt_view(self.link_type) }
    }
}

/// A single GPX point (used for waypoints, route points and track points).
/// Latitude, longitude and elevation hold the verbatim decimal text of the
/// document.
#[derive(Debug, Clone)]
pub struct GpxPoint {
    pub lat: String,
    pub lon: String,
    pub ele: Option<String>,
    pub time: Option<String>,
    pub name: Option<String>,
    pub cmt: Option<String>,
    pub desc: Option<String>,
    pub src: Option<String>,
    pub sym: Option<String>,
    pub point_type: Option<String>,
    pub link: Option<GpxLink>,
}

impl View for GpxPoint {
    type V = PointV;

    open spec fn view(&self) -> PointV {
        PointV {
            lat: self.lat@,
            lon: self.lon@,
            ele: opt_view(self.ele),
            time: opt_view(self.time),
            name: opt_view(self.name),
            cmt: opt_view(self.cmt),
            desc: opt_view(self.desc),
            src: opt_view(self.src),
            sym: opt_view(self.sym),
            point_type: opt_view(self.point_type),
            link: opt_link_view(self.link),
        }
    }
}

impl GpxPoint {
    /// A point with the given coordinate texts and no other field set.
    pub fn new(lat: String, lon: String) -> (r: GpxPoint)
        requires
            is_decimal_number(lat@),
            is_decimal_number(lon@),
        ensures
            r@ == (PointV {
                lat: lat@,
                lon: lon@,
                ele: None,
                time: None,
                name: None,
                cmt: None,
                desc: None,
                src: None,
                sym: None,
                point_type: None,
                link: None,
            }),
            r@.wf(),
    {
        GpxPoint {
            lat,
            lon,
            ele: None,
            time: None,
            name: None,
            cmt: None,
            desc: None,
            src: None,
            sym: None,
            point_type: None,
            link: None,
        }
    }
}

/// The view of a sequence of points.
pub open spec fn points_view(ps: Seq<GpxPoint>) -> Seq<PointV> {
    ps.map_values(|p: GpxPoint| p@)
}

/// A GPX route.
#[derive(Debug)]
pub struct GpxRoute {
    pub name: Option<String>,
    pub cmt: Option<String>,
    pub desc: Option<String>,
    pub src: Option<String>,
    pub link: Option<GpxLink>,
    pub number: Option<u32>,
    pub route_type: Option<String>,
    pub points: Vec<GpxPoint>,
}

impl View for GpxRoute {
    type V = RouteV;

    open spec fn view(&self) -> RouteV {
        RouteV {
            name: opt_view(self.name),
            cmt: opt_view(self.cmt),
            desc: opt_view(self.desc),
            src: opt_view(self.src),
            link: opt_link_view(self.link),
            number: self.number,
            route_type: opt_view(self.route_type),
            points: points_view(self.points@),
        }
    }
}

impl Default for GpxRoute {
    /// A route with no field set and no points.
    fn default() -> (r: GpxRoute)
        ensures
            r@ == (RouteV {
                name: None,
                cmt: None,
                desc: None,
                src: None,
                link: None,
                number: None,
                route_type: None,
                points: Seq::<PointV>::empty(),
            }),
    {
        let r = GpxRoute {
            name: None,
            cmt: None,
            desc: None,
            src: None,
            link: None,
            number: None,
            route_type: None,
            points: Vec::new(),
        };
        proof {
            assert(points_view(r.points@) =~= Seq::<PointV>::empty());
        }
        r
    }
}

/// A GPX track segment.
#[derive(Debug)]
pub struct GpxSegment {
    pub points: Vec<GpxPoint>,
}

impl View for GpxSegment {
    type V = Seq<PointV>;

    open spec fn view(&self) -> Seq<PointV> {
        points_view(self.points@)
    }
}

impl Default for GpxSegment {
    /// A segment with no points.
    fn default() -> (r: GpxSegment)
        ensures
            r@ == Seq::<PointV>::empty(),
    {
        let r = GpxSegment { points: Vec::new() };
        proof {
            assert(points_view(r.points@) =~= Seq::<PointV>::empty());
        }
        r
    }
}

/// The view of a sequence of segments.
pub open spec fn segments_view(ss: Seq<GpxSegment>) -> Seq<Seq<PointV>> {
    ss.map_values(|s: GpxSegment| s@)
}

/// A GPX track.
#[derive(Debug)]
pub struct GpxTrack {
    pub name: Option<String>,
    pub cmt: Option<String>,
    pub desc: Option<String>,
    pub src: Option<String>,
    pub link: Option<GpxLink>,
    pub number: Option<u32>,
    pub track_type: Option<String>,
    pub segments: Vec<GpxSegment>,
}

impl View for GpxTrack {
    type V = TrackV;

    open spec fn view(&self) -> TrackV {
        TrackV {
            name: opt_view(self.name),
            cmt: opt_view(self.cmt),
            desc: opt_view(self.desc),
            src: opt_view(self.src),
            link: opt_link_view(self.link),
            number: self.number,
            track_type: opt_view(self.track_type),
            segments: segments_view(self.segments@),
        }
    }
}

impl Default for GpxTrack {
    /// A track with no field set and no segments.
    fn default() -> (r: GpxTrack)
        ensures
            r@ == (TrackV {
                name: None,
                cmt: None,
                desc: None,
                src: None,
                link: None,
                number: None,
                track_type: None,
                segments: Seq::<Seq<PointV>>::empty(),
            }),
    {
        let r = GpxTrack {
            name: None,
            cmt: None,
            desc: None,
            src: None,
            link: None,
            number: None,
            track_type: None,
            segments: Vec::new(),
        };
        proof {
            assert(segments_view(r.segments@) =~= Seq::<Seq<PointV>>::empty());
        }
        r
    }
}

/// The view of a sequence of routes.
pub open spec fn routes_view(rs: Seq<GpxRoute>) -> Seq<RouteV> {
    rs.map_values(|r: GpxRoute| r@)
}

/// The view of a sequence of tracks.
pub open spec fn tracks_view(ts: Seq<GpxTrack>) -> Seq<TrackV> {
    ts.map_values(|t: GpxTrack| t@)
}

/// Parsed GPX data: all waypoints, routes and tracks of a document, in
/// document order.
#[derive(Debug)]
pub struct GpxData {
    pub waypoints: Vec<GpxPoint>,
    pub routes: Vec<GpxRoute>,
    pub tracks: Vec<GpxTrack>,
}

impl View for GpxData {
    type V = DataV;

    open spec fn view(&self) -> DataV {
        DataV {
            waypoints: points_view(self.waypoints@),
            routes: routes_view(self.routes@),
            tracks: tracks_view(self.tracks@),
        }
    }
}

impl Default for GpxData {
    /// A document with no waypoints, routes or tracks.
    fn default() -> (r: GpxData)
        ensures
            r@ == (DataV {
                waypoints: Seq::<PointV>::empty(),
                routes: Seq::<RouteV>::empty(),
                tracks: Seq::<TrackV>::empty(),
            }),
    {
        let r = GpxData { waypoints: Vec::new(), routes: Vec::new(), tracks: Vec::new() };
        proof {
            assert(points_view(r.waypoints@) =~= Seq::<PointV>::empty());
            assert(routes_view(r.routes@) =~= Seq::<RouteV>::empty());
            assert(tracks_view(r.tracks@) =~= Seq::<TrackV>::empty());
        }
        r
    }
}

} // verus!
