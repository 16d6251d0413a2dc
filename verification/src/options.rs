//! Conversion options.
//!
//! A configuration record consumed by the converter only.  Every flag
//! defaults to inclusive behaviour except segment joining, and an absent
//! category list means that every category is converted.

use vstd::prelude::*;

verus! {

/// The three categories of convertible GPX elements.
#[derive(Debug, Clone, Copy, PartialEq, Eq, Structural)]
pub enum GpxElementType {
    Waypoint,
    Route,
    Track,
}

/// Options for GPX to GeoJSON conversion.
#[derive(Debug, Clone)]
pub struct ConvertOptions {
    /// Include elevation as the third coordinate value.
    pub include_elevation: bool,
    /// Include timestamps as a per-coordinate time array.
    pub include_time: bool,
    /// Include descriptive metadata in feature properties.
    pub include_metadata: bool,
    /// The categories to convert; `None` means all of them.
    pub types: Option<Vec<GpxElementType>>,
    /// Join the segments of a multi-segment track into one feature.
    pub join_track_segments: bool,
}

/// The category list as a sequence, or `None` when absent.
pub open spec fn types_view(o: ConvertOptions) -> Option<Seq<GpxElementType>> {
    match o.types {
        Some(ts) => Some(ts@),
        None => None,
    }
}

/// Whether a category is converted under these options: every category
/// when the list is absent, otherwise exactly the listed ones.
pub open spec fn spec_should_include(o: ConvertOptions, element_type: GpxElementType) -> bool {
    match types_view(o) {
        None => true,
        Some(ts) => ts.contains(element_type),
    }
}

/// Whether the list holds the given category.
fn list_contains(types: &Vec<GpxElementType>, element_type: GpxElementType) -> (r: bool)
    ensures
        r == types@.contains(element_type),
{
    let n = types.len();
    let mut i: usize = 0;
    while i < n
        invariant
            i <= n == types@.len(),
            forall|k: int| 0 <= k < i ==> #[trigger] types@[k] != element_type,
        decreases n - i,
    {
        if types[i] == element_type {
            proof {
                assert(types@[i as int] == element_type);
            }
            return true;
        }
        i = i + 1;
    }
    false
}

impl ConvertOptions {
    /// Whether features of the given category are converted.
    pub fn should_include(&self, element_type: GpxElementType) -> (r: bool)
        ensures
            r == spec_should_include(*self, element_type),
    {
        match &self.types {
            None => true,
            Some(types) => list_contains(types, element_type),
        }
    }
}

impl Default for ConvertOptions {
    /// Everything included, categories unrestricted, segments kept apart.
    fn default() -> (r: ConvertOptions)
        ensures
            r.include_elevation,
            r.include_time,
            r.include_metadata,
            r.types is None,
            !r.join_track_segments,
    {
        ConvertOptions {
            include_elevation: true,
            include_time: true,
            include_metadata: true,
            types: None,
            join_track_segments: false,
        }
    }
}

/// The default of every inclusion flag.
pub fn default_true() -> (r: bool)
    ensures
        r,
{
    true
}

} // verus!
