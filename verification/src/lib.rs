//! Conversion of GPX documents into GeoJSON feature collections.
//!
//! The crate parses a GPX document from its XML text into a plain domain
//! model and converts that model, under configurable options, into a
//! GeoJSON-shaped feature collection.  Numeric values travel through the
//! library as their verbatim document text, so that nothing is lost to
//! re-formatting on the way through.

pub mod converter;
pub mod error;
pub mod feature;
pub mod gpx_types;
pub mod laws;
pub mod numbers;
pub mod options;
pub mod parser;
pub mod xml;
