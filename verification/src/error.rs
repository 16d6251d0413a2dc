//! The error taxonomy of the parser.
//!
//! Only malformed XML escapes to the caller; missing or invalid point
//! attributes are defined here as error kinds but are caught inside the
//! parser and downgraded to a silent per-point skip.

use vstd::prelude::*;

verus! {

/// The mathematical value of a [`Gpx2GeoJsonError`].
pub ghost enum ErrV {
    Xml(Seq<char>),
    MissingAttribute(Seq<char>, Seq<char>),
    InvalidAttribute(Seq<char>, Seq<char>, Seq<char>),
}

/// Why a GPX document, or a single point element, could not be read.
#[derive(Debug)]
pub enum Gpx2GeoJsonError {
    /// The markup is not well formed; carries the underlying message.
    XmlParse(String),
    /// A required attribute is absent from an element.
    MissingAttribute { element: &'static str, attribute: &'static str },
    /// A required attribute carries a non-numeric value.
    InvalidAttribute { element: &'static str, attribute: &'static str, value: String },
}

impl View for Gpx2GeoJsonError {
    type V = ErrV;

    open spec fn view(&self) -> ErrV {
        match self {
            Gpx2GeoJsonError::XmlParse(e) => ErrV::Xml(e@),
            Gpx2GeoJsonError::MissingAttribute { element, attribute } => ErrV::MissingAttribute(
                element@,
                attribute@,
            ),
            Gpx2GeoJsonError::InvalidAttribute { element, attribute, value } =>
                ErrV::InvalidAttribute(element@, attribute@, value@),
        }
    }
}

/// The descriptive text of an error value.
pub open spec fn spec_message(e: ErrV) -> Seq<char> {
    match e {
        ErrV::Xml(m) => "XML parse error: "@ + m,
        ErrV::MissingAttribute(el, at) => "Missing attribute '"@ + at + "' on <"@ + el + ">"@,
        ErrV::InvalidAttribute(el, at, v) => "Invalid value '"@ + v + "' for attribute '"@ + at
            + "' on <"@ + el + ">"@,
    }
}

impl Gpx2GeoJsonError {
    /// A human-readable description of the error.
    pub fn message(&self) -> (r: String)
        ensures
            r@ == spec_message(self@),
    {
        let mut m = String::new();
        match self {
            Gpx2GeoJsonError::XmlParse(e) => {
                m.append("XML parse error: ");
                m.append(e.as_str());
            },
            Gpx2GeoJsonError::MissingAttribute { element, attribute } => {
                m.append("Missing attribute '");
                m.append(attribute);
                m.append("' on <");
                m.append(element);
                m.append(">");
            },
            Gpx2GeoJsonError::InvalidAttribute { element, attribute, value } => {
                m.append("Invalid value '");
                m.append(value.as_str());
                m.append("' for attribute '");
                m.append(attribute);
                m.append("' on <");
                m.append(element);
                m.append(">");
            },
        }
        proof {
            assert(m@ =~= spec_message(self@));
        }
        m
    }
}

} // verus!
