//! The XML event boundary.
//!
//! quick-xml turns the document text into a stream of events.  This module
//! converts that stream, event by event, into a vector of plain tokens that
//! the parser consumes; everything after this boundary is plain data.  The
//! stream itself is modelled by two names: [`doc_events`] for the events of
//! a document text, and [`remaining`] for the events a reader has still to
//! hand out.

use crate::numbers::chars_of;
use quick_xml::events::{BytesStart, Event};
use quick_xml::Reader;
use vstd::prelude::*;

verus! {

broadcast use vstd::prelude::Seq::lemma_push_map_commute;

#[verifier::external_type_specification]
#[verifier::external_body]
#[verifier::reject_recursive_types(R)]
pub struct ExReader<R>(Reader<R>);

#[verifier::external_type_specification]
#[verifier::external_body]
pub struct ExBytesStart<'a>(BytesStart<'a>);

/// Whether `i` is the position of the first `:` of the text.
pub open spec fn first_colon(s: Seq<char>, i: int) -> bool {
    0 <= i < s.len() && s[i] == ':' && forall|k: int| 0 <= k < i ==> #[trigger] s[k] != ':'
}

/// The local part of a qualified tag name: everything after the first
/// `:`, or the whole name when it has none.
pub open spec fn local_part(s: Seq<char>) -> Seq<char> {
    if exists|i: int| first_colon(s, i) {
        s.subrange((choose|i: int| first_colon(s, i)) + 1, s.len() as int)
    } else {
        s
    }
}

/// The mathematical value of one XML event.  An attribute entry is the
/// attribute's local name and raw value, or `None` for a malformed one.
pub ghost enum EvV {
    /// A start tag, or with `empty` a self-closing tag.
    Open { name: Seq<char>, attrs: Seq<Option<(Seq<char>, Seq<char>)>>, empty: bool },
    /// An end tag.
    Close { name: Seq<char> },
    /// A run of character data, either escaped text or a CDATA section.
    Text { content: Seq<char> },
    /// A general reference `&name;`.
    Ref { name: Seq<char> },
    /// A syntax error, fatal for the whole document.
    Fail { message: Seq<char> },
    /// The end of the document.
    Eof,
    /// Markup that the parser ignores: comments, declarations,
    /// processing instructions and document type declarations.
    Other,
}

/// The events of a document text, in document order.
pub uninterp spec fn doc_events(s: Seq<char>) -> Seq<EvV>;

/// The events a reader has still to hand out.
pub uninterp spec fn remaining(r: &Reader<&[u8]>) -> Seq<EvV>;

/// The full tag name of a start tag, as written.
pub uninterp spec fn bs_name(e: BytesStart) -> Seq<char>;

/// The attribute entries of a start tag, in document order.
pub uninterp spec fn bs_attrs(e: BytesStart) -> Seq<Option<(Seq<char>, Seq<char>)>>;

/// One event as quick-xml hands it out: tag payloads still opaque, the
/// rest already plain.
pub enum XmlEvent<'a> {
    Open { tag: BytesStart<'a>, empty: bool },
    Close { name: String },
    Text { content: String },
    Ref { name: String },
    Fail { message: String },
    Eof,
    Other,
}

impl<'a> View for XmlEvent<'a> {
    type V = EvV;

    open spec fn view(&self) -> EvV {
        match self {
            XmlEvent::Open { tag, empty } => EvV::Open {
                name: bs_name(*tag),
                attrs: bs_attrs(*tag),
                empty: *empty,
            },
            XmlEvent::Close { name } => EvV::Close { name: name@ },
            XmlEvent::Text { content } => EvV::Text { content: content@ },
            XmlEvent::Ref { name } => EvV::Ref { name: name@ },
            XmlEvent::Fail { message } => EvV::Fail { message: message@ },
            XmlEvent::Eof => EvV::Eof,
            XmlEvent::Other => EvV::Other,
        }
    }
}

/// The view of one attribute entry.
pub open spec fn attr_entry_view(o: Option<(String, String)>) -> Option<(Seq<char>, Seq<char>)> {
    match o {
        Some(a) => Some((a.0@, a.1@)),
        None => None,
    }
}

/// The view of an attribute list.
pub open spec fn attrs_view(v: Seq<Option<(String, String)>>) -> Seq<
    Option<(Seq<char>, Seq<char>)>,
> {
    v.map_values(|o: Option<(String, String)>| attr_entry_view(o))
}

/// One fully plain event, as the parser consumes it.
pub enum Token {
    Open { name: String, attrs: Vec<Option<(String, String)>>, empty: bool },
    Close { name: String },
    Text { content: String },
    Ref { name: String },
    Fail { message: String },
}

impl View for Token {
    type V = EvV;

    open spec fn view(&self) -> EvV {
        match self {
            Token::Open { name, attrs, empty } => EvV::Open {
                name: name@,
                attrs: attrs_view(attrs@),
                empty: *empty,
            },
            Token::Close { name } => EvV::Close { name: name@ },
            Token::Text { content } => EvV::Text { content: content@ },
            Token::Ref { name } => EvV::Ref { name: name@ },
            Token::Fail { message } => EvV::Fail { message: message@ },
        }
    }
}

/// The view of a token list.
pub open spec fn tokens_view(ts: Seq<Token>) -> Seq<EvV> {
    ts.map_values(|t: Token| t@)
}

/// The significant events of a stream: character data, references, start
/// and end tags, cut at the first error and at the end of the document,
/// with ignorable markup dropped.
pub open spec fn sig_events(evs: Seq<EvV>) -> Seq<EvV>
    decreases evs.len(),
{
    if evs.len() == 0 {
        Seq::empty()
    } else if evs[0] is Fail {
        seq![evs[0]]
    } else if evs[0] is Eof {
        Seq::empty()
    } else if evs[0] is Other {
        sig_events(evs.drop_first())
    } else {
        seq![evs[0]] + sig_events(evs.drop_first())
    }
}

/// Relies on `String::push`: appends exactly one character.
#[verifier::external_body]
pub(crate) fn push_char(s: &mut String, c: char)
    ensures
        final (s)@ == old(s)@.push(c),
{
    s.push(c);
}

/// The local part of a qualified tag name; the exec counterpart of
/// [`local_part`].
pub fn local_of(name: &String) -> (r: String)
    ensures
        r@ == local_part(name@),
{
    let v = chars_of(name.as_str());
    let n = v.len();
    let mut i: usize = 0;
    while i < n
        invariant
            i <= n == v@.len(),
            v@ == name@,
            forall|k: int| 0 <= k < i ==> #[trigger] v@[k] != ':',
        decreases n - i,
    {
        if v[i] == ':' {
            proof {
                assert(first_colon(name@, i as int));
            }
            let mut out = String::new();
            let mut j: usize = i + 1;
            while j < n
                invariant
                    i < j <= n == v@.len(),
                    v@ == name@,
                    first_colon(name@, i as int),
                    out@ =~= name@.subrange(i as int + 1, j as int),
                decreases n - j,
            {
                push_char(&mut out, v[j]);
                j = j + 1;
            }
            proof {
                let c = choose|c: int| first_colon(name@, c);
                assert(first_colon(name@, c));
                if c < i {
                    assert(v@[c] != ':');
                    assert(false);
                } else if c > i {
                    assert(name@[i as int] != ':');
                    assert(false);
                }
                assert(out@ =~= name@.subrange(i as int + 1, name@.len() as int));
            }
            return out;
        }
        i = i + 1;
    }
    proof {
        if exists|c: int| first_colon(name@, c) {
            let c = choose|c: int| first_colon(name@, c);
            assert(v@[c] != ':');
            assert(false);
        }
    }
    name.clone()
}

/// Relies on `quick_xml::Reader::from_str`: a reader over the document
/// text, whose events are the events of that text.
#[verifier::external_body]
fn reader_from_str<'a>(s: &'a str) -> (r: Reader<&'a [u8]>)
    ensures
        remaining(&r) == doc_events(s@),
{
    Reader::from_str(s)
}

/// Relies on `quick_xml::Reader::read_event`: hands out the head of the
/// remaining event stream, converted to a plain value, and keeps the tail;
/// at the end of the stream it reports the end of the document.
#[verifier::external_body]
fn next_event<'a>(r: &mut Reader<&'a [u8]>) -> (ev: XmlEvent<'a>)
    ensures
        remaining(old(r)).len() == 0 ==> ev@ == EvV::Eof && remaining(final (r)).len() == 0,
        remaining(old(r)).len() > 0 ==> ev@ == remaining(old(r))[0] && remaining(final (r))
            == remaining(old(r)).drop_first(),
{
    match r.read_event() {
        Ok(Event::Start(e)) => XmlEvent::Open { tag: e, empty: false },
        Ok(Event::Empty(e)) => XmlEvent::Open { tag: e, empty: true },
        Ok(Event::End(e)) => XmlEvent::Close { name: e.name().0.to_string() },
        Ok(Event::Text(e)) => XmlEvent::Text { content: e.to_string() },
        Ok(Event::CData(e)) => XmlEvent::Text { content: e.to_string() },
        Ok(Event::GeneralRef(e)) => XmlEvent::Ref { name: e.to_string() },
        Ok(Event::Eof) => XmlEvent::Eof,
        Ok(_) => XmlEvent::Other,
        Err(e) => XmlEvent::Fail { message: e.to_string() },
    }
}

/// Relies on `quick_xml::events::BytesStart::name`: the full tag name.
#[verifier::external_body]
fn tag_name(e: &BytesStart<'_>) -> (r: String)
    ensures
        r@ == bs_name(*e),
{
    e.name().0.to_string()
}

/// Relies on `quick_xml::events::BytesStart::attributes`: the attribute
/// entries in document order, each converted to its local name and raw
/// value, a malformed entry to `None`.
#[verifier::external_body]
fn tag_attrs(e: &BytesStart<'_>) -> (r: Vec<Option<(String, String)>>)
    ensures
        attrs_view(r@) == bs_attrs(*e),
{
    e.attributes().map(
        |a| match a {
            Ok(a) => Some((a.key.local_name().into_inner().to_string(), a.value.to_string())),
            Err(_) => None,
        },
    ).collect()
}

/// Reads the whole document into the vector of its significant events.
pub fn tokenize(xml: &str) -> (r: Vec<Token>)
    ensures
        tokens_view(r@) == sig_events(doc_events(xml@)),
{
    let mut reader = reader_from_str(xml);
    let mut out: Vec<Token> = Vec::new();
    loop
        invariant_except_break
            sig_events(doc_events(xml@)) =~= tokens_view(out@) + sig_events(remaining(&reader)),
        ensures
            tokens_view(out@) == sig_events(doc_events(xml@)),
        decreases remaining(&reader).len(),
    {
        let ghost rem_old = remaining(&reader);
        let ev = next_event(&mut reader);
        let ghost evv = ev@;
        match ev {
            XmlEvent::Open { tag, empty } => {
                let name = tag_name(&tag);
                let attrs = tag_attrs(&tag);
                let t = Token::Open { name, attrs, empty };
                proof {
                    assert(t@ == evv);
                    assert(sig_events(rem_old) == seq![evv] + sig_events(rem_old.drop_first()));
                    assert(tokens_view(out@.push(t)) =~= tokens_view(out@).push(evv));
                }
                out.push(t);
            },
            XmlEvent::Close { name } => {
                let t = Token::Close { name };
                proof {
                    assert(t@ == evv);
                    assert(sig_events(rem_old) == seq![evv] + sig_events(rem_old.drop_first()));
                    assert(tokens_view(out@.push(t)) =~= tokens_view(out@).push(evv));
                }
                out.push(t);
            },
            XmlEvent::Text { content } => {
                let t = Token::Text { content };
                proof {
                    assert(t@ == evv);
                    assert(sig_events(rem_old) == seq![evv] + sig_events(rem_old.drop_first()));
                    assert(tokens_view(out@.push(t)) =~= tokens_view(out@).push(evv));
                }
                out.push(t);
            },
            XmlEvent::Ref { name } => {
                let t = Token::Ref { name };
                proof {
                    assert(t@ == evv);
                    assert(sig_events(rem_old) == seq![evv] + sig_events(rem_old.drop_first()));
                    assert(tokens_view(out@.push(t)) =~= tokens_view(out@).push(evv));
                }
                out.push(t);
            },
            XmlEvent::Fail { message } => {
                let t = Token::Fail { message };
                proof {
                    assert(t@ == evv);
                    assert(sig_events(rem_old) =~= seq![evv]);
                    assert(tokens_view(out@.push(t)) =~= tokens_view(out@).push(evv));
                    assert(tokens_view(out@).push(evv) =~= tokens_view(out@) + seq![evv]);
                }
                out.push(t);
                proof {
                    assert(tokens_view(out@) =~= sig_events(doc_events(xml@)));
                }
                break ;
            },
            XmlEvent::Eof => {
                proof {
                    assert(sig_events(rem_old) =~= Seq::<EvV>::empty());
                    assert(tokens_view(out@) + sig_events(rem_old) =~= tokens_view(out@));
                }
                break ;
            },
            XmlEvent::Other => {
                proof {
                    assert(sig_events(rem_old) == sig_events(rem_old.drop_first()));
                }
            },
        }
    }
    out
}

} // verus!
