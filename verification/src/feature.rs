//! The GeoJSON-shaped output model.
//!
//! The converter produces a feature collection of the library's own plain
//! types: a geometry of coordinate positions, and an ordered property list
//! under string keys.  A coordinate component keeps the verbatim decimal
//! text of its source value; a host that needs binary numbers parses the
//! text at the boundary.  The keys of a property list are pairwise
//! distinct by construction: the converter inserts each key at most once.

use crate::gpx_types::{GpxLink, LinkV};
use vstd::prelude::*;

verus! {

/// The mathematical value of a [`PropValue`].
pub ghost enum PropV {
    /// A string property.
    Text(Seq<char>),
    /// A number property carried as its verbatim decimal text.
    Num(Seq<char>),
    /// A small integer property (the route or track sequence number).
    UInt(u32),
    /// A link object: `href` with optional `text` and `type`.
    Link(LinkV),
    /// A per-coordinate time array, one entry per position.
    Times(Seq<Option<Seq<char>>>),
    /// A per-segment array of per-coordinate time arrays.
    MultiTimes(Seq<Seq<Option<Seq<char>>>>),
}

/// The mathematical value of a [`Geometry`]: positions are sequences of
/// coordinate component texts, `[longitude, latitude]` or
/// `[longitude, latitude, elevation]`.
pub ghost enum GeomV {
    Point(Seq<Seq<char>>),
    LineString(Seq<Seq<Seq<char>>>),
    MultiLineString(Seq<Seq<Seq<Seq<char>>>>),
}

/// The mathematical value of a [`Feature`].
pub ghost struct FeatureV {
    pub geometry: GeomV,
    pub properties: Seq<(Seq<char>, PropV)>,
}

/// A property value of a feature.
#[derive(Debug, Clone)]
pub enum PropValue {
    /// A string property.
    Text(String),
    /// A number property carried as its verbatim decimal text.
    Num(String),
    /// A small integer property (the route or track sequence number).
    UInt(u32),
    /// A link object: `href` with optional `text` and `type`.
    Link(GpxLink),
    /// A per-coordinate time array, one entry per position.
    Times(Vec<Option<String>>),
    /// A per-segment array of per-coordinate time arrays.
    MultiTimes(Vec<Vec<Option<String>>>),
}

/// The view of an optional time entry.
pub open spec fn time_view(o: Option<String>) -> Option<Seq<char>> {
    match o {
        Some(s) => Some(s@),
        None => None,
    }
}

/// The view of a per-coordinate time array.
pub open spec fn times_view(ts: Seq<Option<String>>) -> Seq<Option<Seq<char>>> {
    ts.map_values(|o: Option<String>| time_view(o))
}

/// The view of a per-segment array of time arrays.
pub open spec fn multi_times_view(ts: Seq<Vec<Option<String>>>) -> Seq<Seq<Option<Seq<char>>>> {
    ts.map_values(|t: Vec<Option<String>>| times_view(t@))
}

impl View for PropValue {
    type V = PropV;

    open spec fn view(&self) -> PropV {
        match self {
            PropValue::Text(s) => PropV::Text(s@),
            PropValue::Num(s) => PropV::Num(s@),
            PropValue::UInt(n) => PropV::UInt(*n),
            PropValue::Link(l) => PropV::Link(l@),
            PropValue::Times(ts) => PropV::Times(times_view(ts@)),
            PropValue::MultiTimes(ts) => PropV::MultiTimes(multi_times_view(ts@)),
        }
    }
}

/// The view of a coordinate position.
pub open spec fn pos_view(p: Seq<String>) -> Seq<Seq<char>> {
    p.map_values(|s: String| s@)
}

/// The view of a sequence of positions.
pub open spec fn line_view(l: Seq<Vec<String>>) -> Seq<Seq<Seq<char>>> {
    l.map_values(|p: Vec<String>| pos_view(p@))
}

/// The view of a sequence of lines.
pub open spec fn lines_view(ls: Seq<Vec<Vec<String>>>) -> Seq<Seq<Seq<Seq<char>>>> {
    ls.map_values(|l: Vec<Vec<String>>| line_view(l@))
}

/// A feature's geometry.
#[derive(Debug, Clone)]
pub enum Geometry {
    Point(Vec<String>),
    LineString(Vec<Vec<String>>),
    MultiLineString(Vec<Vec<Vec<String>>>),
}

impl View for Geometry {
    type V = GeomV;

    open spec fn view(&self) -> GeomV {
        match self {
            Geometry::Point(p) => GeomV::Point(pos_view(p@)),
            Geometry::LineString(l) => GeomV::LineString(line_view(l@)),
            Geometry::MultiLineString(ls) => GeomV::MultiLineString(lines_view(ls@)),
        }
    }
}

/// The view of a property list.
pub open spec fn props_view(ps: Seq<(String, PropValue)>) -> Seq<(Seq<char>, PropV)> {
    ps.map_values(|p: (String, PropValue)| (p.0@, p.1@))
}

/// A GeoJSON feature: a geometry and an ordered property list.
#[derive(Debug, Clone)]
pub struct Feature {
    pub geometry: Geometry,
    pub properties: Vec<(String, PropValue)>,
}

impl View for Feature {
    type V = FeatureV;

    open spec fn view(&self) -> FeatureV {
        FeatureV { geometry: self.geometry@, properties: props_view(self.properties@) }
    }
}

/// The first property under the given key in a property list, if any.
pub open spec fn spec_lookup(ps: Seq<(Seq<char>, PropV)>, key: Seq<char>) -> Option<PropV>
    decreases ps.len(),
{
    if ps.len() == 0 {
        None
    } else if ps[0].0 == key {
        Some(ps[0].1)
    } else {
        spec_lookup(ps.drop_first(), key)
    }
}

impl Feature {
    /// The first property under the given key, if any.
    pub fn property(&self, key: &str) -> (r: Option<&PropValue>)
        ensures
            match r {
                Some(v) => spec_lookup(self@.properties, key@) == Some(v@),
                None => spec_lookup(self@.properties, key@) is None,
            },
    {
        let ghost full = props_view(self.properties@);
        proof {
            assert(full.skip(0) =~= full);
        }
        let n = self.properties.len();
        let mut i: usize = 0;
        while i < n
            invariant
                i <= n == self.properties@.len(),
                full == props_view(self.properties@),
                spec_lookup(full, key@) == spec_lookup(full.skip(i as int), key@),
            decreases n - i,
        {
            proof {
                assert(full.skip(i as int)[0] == full[i as int]);
                assert(full[i as int] == (self.properties@[i as int].0@, self.properties@[i as int].1@));
            }
            if str_eq(self.properties[i].0.as_str(), key) {
                return Some(&self.properties[i].1);
            }
            proof {
                assert(full.skip(i as int).drop_first() =~= full.skip(i as int + 1));
            }
            i = i + 1;
        }
        proof {
            assert(full.skip(n as int) =~= Seq::<(Seq<char>, PropV)>::empty());
        }
        None
    }
}

/// The view of a sequence of features.
pub open spec fn features_view(fs: Seq<Feature>) -> Seq<FeatureV> {
    fs.map_values(|f: Feature| f@)
}

/// A GeoJSON feature collection.
#[derive(Debug, Clone)]
pub struct FeatureCollection {
    pub features: Vec<Feature>,
}

impl View for FeatureCollection {
    type V = Seq<FeatureV>;

    open spec fn view(&self) -> Seq<FeatureV> {
        features_view(self.features@)
    }
}

/// Whether two string slices hold the same characters.
pub fn str_eq(a: &str, b: &str) -> (r: bool)
    ensures
        r == (a@ == b@),
{
    let sa = String::from_str(a);
    let sb = String::from_str(b);
    sa.eq(&sb)
}

} // verus!
