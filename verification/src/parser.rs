//! The GPX parser.
//!
//! A single forward pass over the plain event tokens of the document.  Tag
//! matching goes by the local name only, so namespaced and plain documents
//! parse alike; unknown elements are skipped whole; a point whose `lat` or
//! `lon` is missing or non-numeric is dropped silently; only a syntax
//! error of the markup fails the document.  Each parsing function is
//! specified by a recursive twin over the event sequence, so the exact
//! result of every parse is pinned down by [`spec_gpx_document`].

use crate::error::{ErrV, Gpx2GeoJsonError};
use crate::feature::str_eq;
use crate::gpx_types::{
    opt_view, points_view, DataV, GpxData, GpxLink, GpxPoint, GpxRoute, GpxSegment, GpxTrack,
    LinkV, PointV, RouteV, TrackV,
};
use crate::numbers::{
    all_digits, all_hex_digits, chars_of, dec_value, hex_value, is_decimal_number, is_decimal_str,
    lemma_dec_value_prefix, lemma_hex_value_prefix, parse_u32_spec, parse_u32_str,
};
use crate::xml::{
    attrs_view, doc_events, local_of, local_part, push_char, sig_events, tokenize, tokens_view,
    EvV, Token,
};
use vstd::prelude::*;

verus! {

broadcast use vstd::prelude::Seq::lemma_push_map_commute;

/// A code point that a character reference may name: not zero, and a
/// Unicode scalar value.
pub open spec fn valid_code(c: nat) -> bool {
    c != 0 && (c < 0xD800 || (0xE000 <= c && c <= 0x10FFFF))
}

/// The character of a decimal character-reference body, if it names one.
pub open spec fn dec_code_char(s: Seq<char>) -> Option<char> {
    if s.len() > 0 && all_digits(s) && dec_value(s) <= u32::MAX && valid_code(dec_value(s)) {
        Some(dec_value(s) as u32 as char)
    } else {
        None
    }
}

/// The character of a hexadecimal character-reference body, if it names
/// one.
pub open spec fn hex_code_char(s: Seq<char>) -> Option<char> {
    if s.len() > 0 && all_hex_digits(s) && hex_value(s) <= u32::MAX && valid_code(hex_value(s)) {
        Some(hex_value(s) as u32 as char)
    } else {
        None
    }
}

/// The character of a `#`-prefixed character reference: `#x` introduces a
/// hexadecimal code, `#` a decimal one.  `None` for anything else.
pub open spec fn char_ref(name: Seq<char>) -> Option<char> {
    if name.len() == 0 || name[0] != '#' {
        None
    } else if name.len() >= 2 && name[1] == 'x' {
        hex_code_char(name.subrange(2, name.len() as int))
    } else {
        dec_code_char(name.subrange(1, name.len() as int))
    }
}

/// The replacement text of one of the five predefined XML entities, and
/// the empty text for any other name.
pub open spec fn named_entity(name: Seq<char>) -> Seq<char> {
    if name == "amp"@ {
        seq!['&']
    } else if name == "lt"@ {
        seq!['<']
    } else if name == "gt"@ {
        seq!['>']
    } else if name == "quot"@ {
        seq!['"']
    } else if name == "apos"@ {
        seq!['\'']
    } else {
        Seq::empty()
    }
}

/// What a general reference contributes to a text field: its character
/// for a character reference, the replacement text of a predefined
/// entity, nothing otherwise.
pub open spec fn ref_chars(name: Seq<char>) -> Seq<char> {
    match char_ref(name) {
        Some(c) => seq![c],
        None => named_entity(name),
    }
}

/// Relies on `char::from_u32`: `Some` exactly for Unicode scalar values,
/// and the returned character carries the given code.
pub assume_specification[ char::from_u32 ](i: u32) -> (r: Option<char>)
    ensures
        r is Some <==> (i < 0xD800 || (0xE000 <= i && i <= 0x10FFFF)),
        r is Some ==> r->0 as u32 == i,
;

/// The numeric value of a reference body in the given base, or `None` on
/// a non-digit or on overflow.
fn radix_code(v: &Vec<char>, from: usize, hex: bool) -> (r: Option<u32>)
    requires
        from <= v@.len(),
    ensures
        ({
            let s = v@.subrange(from as int, v@.len() as int);
            if hex {
                r == (if s.len() > 0 && all_hex_digits(s) && hex_value(s) <= u32::MAX {
                    Some(hex_value(s) as u32)
                } else {
                    None::<u32>
                })
            } else {
                r == (if s.len() > 0 && all_digits(s) && dec_value(s) <= u32::MAX {
                    Some(dec_value(s) as u32)
                } else {
                    None::<u32>
                })
            }
        }),
{
    let ghost s = v@.subrange(from as int, v@.len() as int);
    let n = v.len();
    if from == n {
        return None;
    }
    let base: u32 = if hex {
        16
    } else {
        10
    };
    let mut acc: u32 = 0;
    let mut i: usize = from;
    while i < n
        invariant
            from <= i <= n == v@.len(),
            s == v@.subrange(from as int, v@.len() as int),
            base == if hex {
                16u32
            } else {
                10u32
            },
            hex ==> all_hex_digits(s.subrange(0, i - from)) && acc == hex_value(
                s.subrange(0, i - from),
            ),
            !hex ==> all_digits(s.subrange(0, i - from)) && acc == dec_value(
                s.subrange(0, i - from),
            ),
        decreases n - i,
    {
        let c = v[i];
        let cu = c as u32;
        let d: u32 = if cu >= 48 && cu <= 57 {
            cu - 48
        } else if hex && cu >= 97 && cu <= 102 {
            cu - 87
        } else if hex && cu >= 65 && cu <= 70 {
            cu - 55
        } else {
            proof {
                assert(s[i - from] == v@[i as int]);
            }
            return None;
        };
        proof {
            assert(s.subrange(0, i - from + 1).drop_last() =~= s.subrange(0, i - from));
            assert(s.subrange(0, i - from + 1).last() == s[i - from]);
            assert(s[i - from] == v@[i as int]);
        }
        if acc > (u32::MAX - d) / base {
            proof {
                if hex {
                    assert(acc * 16 + d > u32::MAX) by (nonlinear_arith)
                        requires
                            acc > (u32::MAX - d) / 16,
                            d <= 15,
                    ;
                    lemma_hex_value_prefix(s, i - from + 1);
                } else {
                    assert(acc * 10 + d > u32::MAX) by (nonlinear_arith)
                        requires
                            acc > (u32::MAX - d) / 10,
                            d <= 9,
                    ;
                    lemma_dec_value_prefix(s, i - from + 1);
                }
            }
            return None;
        }
        proof {
            if hex {
                assert(acc * 16 + d <= u32::MAX) by (nonlinear_arith)
                    requires
                        acc <= (u32::MAX - d) / 16,
                        d <= 15,
                ;
            } else {
                assert(acc * 10 + d <= u32::MAX) by (nonlinear_arith)
                    requires
                        acc <= (u32::MAX - d) / 10,
                        d <= 9,
                ;
            }
        }
        acc = acc * base + d;
        i = i + 1;
    }
    proof {
        assert(s.subrange(0, n - from) =~= s);
    }
    Some(acc)
}

/// The character a general reference resolves to, if it is a valid
/// character reference; the exec counterpart of [`char_ref`].
fn char_ref_str(name: &str) -> (r: Option<char>)
    ensures
        r == char_ref(name@),
{
    let v = chars_of(name);
    let n = v.len();
    if n == 0 || !(v[0] == '#') {
        return None;
    }
    let (hex, from): (bool, usize) = if n >= 2 && v[1] == 'x' {
        (true, 2)
    } else {
        (false, 1)
    };
    let code = match radix_code(&v, from, hex) {
        Some(c) => c,
        None => {
            return None;
        },
    };
    if code == 0 || (code >= 0xD800 && (code < 0xE000 || code > 0x10FFFF)) {
        return None;
    }
    match char::from_u32(code) {
        Some(c) => {
            proof {
                vstd::utf8::char_u32_cast(c, code);
            }
            Some(c)
        },
        None => None,
    }
}

/// Appends what a general reference contributes to a text field.
fn append_ref(acc: &mut String, name: &String)
    ensures
        final (acc)@ == old(acc)@ + ref_chars(name@),
{
    match char_ref_str(name.as_str()) {
        Some(c) => {
            push_char(acc, c);
        },
        None => {
            if str_eq(name.as_str(), "amp") {
                push_char(acc, '&');
            } else if str_eq(name.as_str(), "lt") {
                push_char(acc, '<');
            } else if str_eq(name.as_str(), "gt") {
                push_char(acc, '>');
            } else if str_eq(name.as_str(), "quot") {
                push_char(acc, '"');
            } else if str_eq(name.as_str(), "apos") {
                push_char(acc, '\'');
            }
        },
    }
    proof {
        assert(acc@ =~= old(acc)@ + ref_chars(name@));
    }
}

/// The continuation index after a nested parse: past the current event,
/// and never past the end of the stream.
pub open spec fn advance(i: int, j: int, n: int) -> int {
    if j <= i {
        i + 1
    } else if j > n {
        n
    } else {
        j
    }
}

/// The error text for an element whose end tag never comes.
pub open spec fn missed_end_msg(name: Seq<char>) -> Seq<char> {
    "missing end tag for element "@ + name
}

/// A point with the given coordinate texts and no other field.
pub open spec fn point_v(lat: Seq<char>, lon: Seq<char>) -> PointV {
    PointV {
        lat: lat,
        lon: lon,
        ele: None,
        time: None,
        name: None,
        cmt: None,
        desc: None,
        src: None,
        sym: None,
        point_type: None,
        link: None,
    }
}

/// The accumulated text of an element: every text run and reference up to
/// the end tag carrying the element's full name.
pub open spec fn spec_read_text(evs: Seq<EvV>, i: int, end: Seq<char>, acc: Seq<char>) -> Result<
    (Seq<char>, int),
    Seq<char>,
>
    decreases evs.len() - i,
{
    if i >= evs.len() {
        Ok((acc, i))
    } else {
        match evs[i] {
            EvV::Text { content } => spec_read_text(evs, i + 1, end, acc + content),
            EvV::Ref { name } => spec_read_text(evs, i + 1, end, acc + ref_chars(name)),
            EvV::Close { name } => if name == end {
                Ok((acc, i + 1))
            } else {
                spec_read_text(evs, i + 1, end, acc)
            },
            EvV::Fail { message } => Err(message),
            _ => spec_read_text(evs, i + 1, end, acc),
        }
    }
}

/// The index after an element's subtree: a depth count over start and end
/// tags carrying the element's own full name; running out of events is an
/// error.
pub open spec fn spec_skip(evs: Seq<EvV>, i: int, end: Seq<char>, depth: nat) -> Result<
    int,
    Seq<char>,
>
    decreases evs.len() - i,
{
    if i >= evs.len() {
        Err(missed_end_msg(end))
    } else {
        match evs[i] {
            EvV::Open { name, attrs, empty } => if name == end && !empty {
                spec_skip(evs, i + 1, end, depth + 1)
            } else {
                spec_skip(evs, i + 1, end, depth)
            },
            EvV::Close { name } => if name == end {
                if depth == 0 {
                    Ok(i + 1)
                } else {
                    spec_skip(evs, i + 1, end, (depth - 1) as nat)
                }
            } else {
                spec_skip(evs, i + 1, end, depth)
            },
            EvV::Fail { message } => Err(message),
            _ => spec_skip(evs, i + 1, end, depth),
        }
    }
}

/// The `lat` and `lon` texts of a point's attribute list: the last value
/// of each wins; a malformed entry, a missing coordinate or a
/// non-numeric one is an error, which every caller downgrades to a
/// silent point skip.
pub open spec fn spec_lat_lon(
    attrs: Seq<Option<(Seq<char>, Seq<char>)>>,
    i: int,
    lat: Option<Seq<char>>,
    lon: Option<Seq<char>>,
) -> Result<(Seq<char>, Seq<char>), ErrV>
    decreases attrs.len() - i,
{
    if i >= attrs.len() {
        match lat {
            None => Err(ErrV::MissingAttribute("point"@, "lat"@)),
            Some(la) => match lon {
                None => Err(ErrV::MissingAttribute("point"@, "lon"@)),
                Some(lo) => Ok((la, lo)),
            },
        }
    } else {
        match attrs[i] {
            None => Err(ErrV::Xml("malformed attribute"@)),
            Some(kv) => if kv.0 == "lat"@ {
                if is_decimal_number(kv.1) {
                    spec_lat_lon(attrs, i + 1, Some(kv.1), lon)
                } else {
                    Err(ErrV::InvalidAttribute("point"@, "lat"@, kv.1))
                }
            } else if kv.0 == "lon"@ {
                if is_decimal_number(kv.1) {
                    spec_lat_lon(attrs, i + 1, lat, Some(kv.1))
                } else {
                    Err(ErrV::InvalidAttribute("point"@, "lon"@, kv.1))
                }
            } else {
                spec_lat_lon(attrs, i + 1, lat, lon)
            },
        }
    }
}

/// The `href` of a link's attribute list: the last `href` value, or the
/// empty text; malformed entries are ignored.
pub open spec fn link_href(attrs: Seq<Option<(Seq<char>, Seq<char>)>>) -> Seq<char>
    decreases attrs.len(),
{
    if attrs.len() == 0 {
        Seq::empty()
    } else {
        match attrs.last() {
            Some(kv) => if kv.0 == "href"@ {
                kv.1
            } else {
                link_href(attrs.drop_last())
            },
            None => link_href(attrs.drop_last()),
        }
    }
}

/// The children of a `link` element: `text` and `type` text fields,
/// anything else skipped, up to the end tag with local name `link`.
pub open spec fn spec_link_children(evs: Seq<EvV>, i: int, link: LinkV) -> Result<
    (LinkV, int),
    Seq<char>,
>
    decreases evs.len() - i,
{
    let n = evs.len() as int;
    if i >= n {
        Ok((link, i))
    } else {
        match evs[i] {
            EvV::Open { name, attrs, empty } => if empty {
                spec_link_children(evs, i + 1, link)
            } else if local_part(name) == "text"@ {
                match spec_read_text(evs, i + 1, name, Seq::empty()) {
                    Ok(res) => spec_link_children(
                        evs,
                        advance(i, res.1, n),
                        LinkV { text: Some(res.0), ..link },
                    ),
                    Err(m) => Err(m),
                }
            } else if local_part(name) == "type"@ {
                match spec_read_text(evs, i + 1, name, Seq::empty()) {
                    Ok(res) => spec_link_children(
                        evs,
                        advance(i, res.1, n),
                        LinkV { link_type: Some(res.0), ..link },
                    ),
                    Err(m) => Err(m),
                }
            } else {
                match spec_skip(evs, i + 1, name, 0) {
                    Ok(j) => spec_link_children(evs, advance(i, j, n), link),
                    Err(m) => Err(m),
                }
            },
            EvV::Close { name } => if local_part(name) == "link"@ {
                Ok((link, i + 1))
            } else {
                spec_link_children(evs, i + 1, link)
            },
            EvV::Fail { message } => Err(message),
            _ => spec_link_children(evs, i + 1, link),
        }
    }
}

/// A whole `link` element: `href` from the attributes, children from the
/// events.
pub open spec fn spec_parse_link(
    evs: Seq<EvV>,
    i: int,
    attrs: Seq<Option<(Seq<char>, Seq<char>)>>,
) -> Result<(LinkV, int), Seq<char>> {
    spec_link_children(
        evs,
        i,
        LinkV { href: link_href(attrs), text: None, link_type: None },
    )
}

/// The children of a point element, up to the end tag carrying the
/// element's full name.
pub open spec fn spec_point_children(evs: Seq<EvV>, i: int, end: Seq<char>, p: PointV) -> Result<
    (PointV, int),
    Seq<char>,
>
    decreases evs.len() - i,
{
    let n = evs.len() as int;
    if i >= n {
        Ok((p, i))
    } else {
        match evs[i] {
            EvV::Open { name, attrs, empty } => if empty {
                spec_point_children(evs, i + 1, end, p)
            } else if local_part(name) == "ele"@ {
                match spec_read_text(evs, i + 1, name, Seq::empty()) {
                    Ok(res) => spec_point_children(
                        evs,
                        advance(i, res.1, n),
                        end,
                        PointV {
                            ele: if is_decimal_number(res.0) {
                                Some(res.0)
                            } else {
                                None
                            },
                            ..p
                        },
                    ),
                    Err(m) => Err(m),
                }
            } else if local_part(name) == "time"@ {
                match spec_read_text(evs, i + 1, name, Seq::empty()) {
                    Ok(res) => spec_point_children(
                        evs,
                        advance(i, res.1, n),
                        end,
                        PointV { time: Some(res.0), ..p },
                    ),
                    Err(m) => Err(m),
                }
            } else if local_part(name) == "name"@ {
                match spec_read_text(evs, i + 1, name, Seq::empty()) {
                    Ok(res) => spec_point_children(
                        evs,
                        advance(i, res.1, n),
                        end,
                        PointV { name: Some(res.0), ..p },
                    ),
                    Err(m) => Err(m),
                }
            } else if local_part(name) == "cmt"@ {
                match spec_read_text(evs, i + 1, name, Seq::empty()) {
                    Ok(res) => spec_point_children(
                        evs,
                        advance(i, res.1, n),
                        end,
                        PointV { cmt: Some(res.0), ..p },
                    ),
                    Err(m) => Err(m),
                }
            } else if local_part(name) == "desc"@ {
                match spec_read_text(evs, i + 1, name, Seq::empty()) {
                    Ok(res) => spec_point_children(
                        evs,
                        advance(i, res.1, n),
                        end,
                        PointV { desc: Some(res.0), ..p },
                    ),
                    Err(m) => Err(m),
                }
            } else if local_part(name) == "src"@ {
                match spec_read_text(evs, i + 1, name, Seq::empty()) {
                    Ok(res) => spec_point_children(
                        evs,
                        advance(i, res.1, n),
                        end,
                        PointV { src: Some(res.0), ..p },
                    ),
                    Err(m) => Err(m),
                }
            } else if local_part(name) == "sym"@ {
                match spec_read_text(evs, i + 1, name, Seq::empty()) {
                    Ok(res) => spec_point_children(
                        evs,
                        advance(i, res.1, n),
                        end,
                        PointV { sym: Some(res.0), ..p },
                    ),
                    Err(m) => Err(m),
                }
            } else if local_part(name) == "type"@ {
                match spec_read_text(evs, i + 1, name, Seq::empty()) {
                    Ok(res) => spec_point_children(
                        evs,
                        advance(i, res.1, n),
                        end,
                        PointV { point_type: Some(res.0), ..p },
                    ),
                    Err(m) => Err(m),
                }
            } else if local_part(name) == "link"@ {
                match spec_parse_link(evs, i + 1, attrs) {
                    Ok(res) => spec_point_children(
                        evs,
                        advance(i, res.1, n),
                        end,
                        PointV { link: Some(res.0), ..p },
                    ),
                    Err(m) => Err(m),
                }
            } else {
                match spec_skip(evs, i + 1, name, 0) {
                    Ok(j) => spec_point_children(evs, advance(i, j, n), end, p),
                    Err(m) => Err(m),
                }
            },
            EvV::Close { name } => if name == end {
                Ok((p, i + 1))
            } else {
                spec_point_children(evs, i + 1, end, p)
            },
            EvV::Fail { message } => Err(message),
            _ => spec_point_children(evs, i + 1, end, p),
        }
    }
}

/// A whole point element: the coordinates from the attributes, the
/// children from the events; a point whose coordinates do not parse is
/// skipped whole and yields `None`.
pub open spec fn spec_parse_point(
    evs: Seq<EvV>,
    i: int,
    attrs: Seq<Option<(Seq<char>, Seq<char>)>>,
    name: Seq<char>,
) -> Result<(Option<PointV>, int), Seq<char>> {
    match spec_lat_lon(attrs, 0, None, None) {
        Ok(ll) => match spec_point_children(evs, i, name, point_v(ll.0, ll.1)) {
            Ok(res) => Ok((Some(res.0), res.1)),
            Err(m) => Err(m),
        },
        Err(_) => match spec_skip(evs, i, name, 0) {
            Ok(j) => Ok((None::<PointV>, j)),
            Err(m) => Err(m),
        },
    }
}

/// An empty route.
pub open spec fn route_v0() -> RouteV {
    RouteV {
        name: None,
        cmt: None,
        desc: None,
        src: None,
        link: None,
        number: None,
        route_type: None,
        points: Seq::empty(),
    }
}

/// The children of a `rte` element, up to the end tag with local name
/// `rte`.
pub open spec fn spec_route_children(evs: Seq<EvV>, i: int, r: RouteV) -> Result<
    (RouteV, int),
    Seq<char>,
>
    decreases evs.len() - i,
{
    let n = evs.len() as int;
    if i >= n {
        Ok((r, i))
    } else {
        match evs[i] {
            EvV::Open { name, attrs, empty } => if empty {
                if local_part(name) == "rtept"@ {
                    match spec_lat_lon(attrs, 0, None, None) {
                        Ok(ll) => spec_route_children(
                            evs,
                            i + 1,
                            RouteV { points: r.points.push(point_v(ll.0, ll.1)), ..r },
                        ),
                        Err(_) => spec_route_children(evs, i + 1, r),
                    }
                } else {
                    spec_route_children(evs, i + 1, r)
                }
            } else if local_part(name) == "name"@ {
                match spec_read_text(evs, i + 1, name, Seq::empty()) {
                    Ok(res) => spec_route_children(
                        evs,
                        advance(i, res.1, n),
                        RouteV { name: Some(res.0), ..r },
                    ),
                    Err(m) => Err(m),
                }
            } else if local_part(name) == "cmt"@ {
                match spec_read_text(evs, i + 1, name, Seq::empty()) {
                    Ok(res) => spec_route_children(
                        evs,
                        advance(i, res.1, n),
                        RouteV { cmt: Some(res.0), ..r },
                    ),
                    Err(m) => Err(m),
                }
            } else if local_part(name) == "desc"@ {
                match spec_read_text(evs, i + 1, name, Seq::empty()) {
                    Ok(res) => spec_route_children(
                        evs,
                        advance(i, res.1, n),
                        RouteV { desc: Some(res.0), ..r },
                    ),
                    Err(m) => Err(m),
                }
            } else if local_part(name) == "src"@ {
                match spec_read_text(evs, i + 1, name, Seq::empty()) {
                    Ok(res) => spec_route_children(
                        evs,
                        advance(i, res.1, n),
                        RouteV { src: Some(res.0), ..r },
                    ),
                    Err(m) => Err(m),
                }
            } else if local_part(name) == "type"@ {
                match spec_read_text(evs, i + 1, name, Seq::empty()) {
                    Ok(res) => spec_route_children(
                        evs,
                        advance(i, res.1, n),
                        RouteV { route_type: Some(res.0), ..r },
                    ),
                    Err(m) => Err(m),
                }
            } else if local_part(name) == "number"@ {
                match spec_read_text(evs, i + 1, name, Seq::empty()) {
                    Ok(res) => spec_route_children(
                        evs,
                        advance(i, res.1, n),
                        RouteV { number: parse_u32_spec(res.0), ..r },
                    ),
                    Err(m) => Err(m),
                }
            } else if local_part(name) == "link"@ {
                match spec_parse_link(evs, i + 1, attrs) {
                    Ok(res) => spec_route_children(
                        evs,
                        advance(i, res.1, n),
                        RouteV { link: Some(res.0), ..r },
                    ),
                    Err(m) => Err(m),
                }
            } else if local_part(name) == "rtept"@ {
                match spec_parse_point(evs, i + 1, attrs, name) {
                    Ok(res) => spec_route_children(
                        evs,
                        advance(i, res.1, n),
                        match res.0 {
                            Some(p) => RouteV { points: r.points.push(p), ..r },
                            None => r,
                        },
                    ),
                    Err(m) => Err(m),
                }
            } else {
                match spec_skip(evs, i + 1, name, 0) {
                    Ok(j) => spec_route_children(evs, advance(i, j, n), r),
                    Err(m) => Err(m),
                }
            },
            EvV::Close { name } => if local_part(name) == "rte"@ {
                Ok((r, i + 1))
            } else {
                spec_route_children(evs, i + 1, r)
            },
            EvV::Fail { message } => Err(message),
            _ => spec_route_children(evs, i + 1, r),
        }
    }
}

/// The children of a `trkseg` element: its track points, up to the end
/// tag with local name `trkseg`.
pub open spec fn spec_segment_children(evs: Seq<EvV>, i: int, ps: Seq<PointV>) -> Result<
    (Seq<PointV>, int),
    Seq<char>,
>
    decreases evs.len() - i,
{
    let n = evs.len() as int;
    if i >= n {
        Ok((ps, i))
    } else {
        match evs[i] {
            EvV::Open { name, attrs, empty } => if empty {
                if local_part(name) == "trkpt"@ {
                    match spec_lat_lon(attrs, 0, None, None) {
                        Ok(ll) => spec_segment_children(evs, i + 1, ps.push(point_v(ll.0, ll.1))),
                        Err(_) => spec_segment_children(evs, i + 1, ps),
                    }
                } else {
                    spec_segment_children(evs, i + 1, ps)
                }
            } else if local_part(name) == "trkpt"@ {
                match spec_parse_point(evs, i + 1, attrs, name) {
                    Ok(res) => spec_segment_children(
                        evs,
                        advance(i, res.1, n),
                        match res.0 {
                            Some(p) => ps.push(p),
                            None => ps,
                        },
                    ),
                    Err(m) => Err(m),
                }
            } else {
                match spec_skip(evs, i + 1, name, 0) {
                    Ok(j) => spec_segment_children(evs, advance(i, j, n), ps),
                    Err(m) => Err(m),
                }
            },
            EvV::Close { name } => if local_part(name) == "trkseg"@ {
                Ok((ps, i + 1))
            } else {
                spec_segment_children(evs, i + 1, ps)
            },
            EvV::Fail { message } => Err(message),
            _ => spec_segment_children(evs, i + 1, ps),
        }
    }
}

/// An empty track.
pub open spec fn track_v0() -> TrackV {
    TrackV {
        name: None,
        cmt: None,
        desc: None,
        src: None,
        link: None,
        number: None,
        track_type: None,
        segments: Seq::empty(),
    }
}

/// The children of a `trk` element, up to the end tag with local name
/// `trk`; an empty segment is dropped rather than appended.
pub open spec fn spec_track_children(evs: Seq<EvV>, i: int, t: TrackV) -> Result<
    (TrackV, int),
    Seq<char>,
>
    decreases evs.len() - i,
{
    let n = evs.len() as int;
    if i >= n {
        Ok((t, i))
    } else {
        match evs[i] {
            EvV::Open { name, attrs, empty } => if empty {
                spec_track_children(evs, i + 1, t)
            } else if local_part(name) == "name"@ {
                match spec_read_text(evs, i + 1, name, Seq::empty()) {
                    Ok(res) => spec_track_children(
                        evs,
                        advance(i, res.1, n),
                        TrackV { name: Some(res.0), ..t },
                    ),
                    Err(m) => Err(m),
                }
            } else if local_part(name) == "cmt"@ {
                match spec_read_text(evs, i + 1, name, Seq::empty()) {
                    Ok(res) => spec_track_children(
                        evs,
                        advance(i, res.1, n),
                        TrackV { cmt: Some(res.0), ..t },
                    ),
                    Err(m) => Err(m),
                }
            } else if local_part(name) == "desc"@ {
                match spec_read_text(evs, i + 1, name, Seq::empty()) {
                    Ok(res) => spec_track_children(
                        evs,
                        advance(i, res.1, n),
                        TrackV { desc: Some(res.0), ..t },
                    ),
                    Err(m) => Err(m),
                }
            } else if local_part(name) == "src"@ {
                match spec_read_text(evs, i + 1, name, Seq::empty()) {
                    Ok(res) => spec_track_children(
                        evs,
                        advance(i, res.1, n),
                        TrackV { src: Some(res.0), ..t },
                    ),
                    Err(m) => Err(m),
                }
            } else if local_part(name) == "type"@ {
                match spec_read_text(evs, i + 1, name, Seq::empty()) {
                    Ok(res) => spec_track_children(
                        evs,
                        advance(i, res.1, n),
                        TrackV { track_type: Some(res.0), ..t },
                    ),
                    Err(m) => Err(m),
                }
            } else if local_part(name) == "number"@ {
                match spec_read_text(evs, i + 1, name, Seq::empty()) {
                    Ok(res) => spec_track_children(
                        evs,
                        advance(i, res.1, n),
                        TrackV { number: parse_u32_spec(res.0), ..t },
                    ),
                    Err(m) => Err(m),
                }
            } else if local_part(name) == "link"@ {
                match spec_parse_link(evs, i + 1, attrs) {
                    Ok(res) => spec_track_children(
                        evs,
                        advance(i, res.1, n),
                        TrackV { link: Some(res.0), ..t },
                    ),
                    Err(m) => Err(m),
                }
            } else if local_part(name) == "trkseg"@ {
                match spec_segment_children(evs, i + 1, Seq::empty()) {
                    Ok(res) => spec_track_children(
                        evs,
                        advance(i, res.1, n),
                        if res.0.len() > 0 {
                            TrackV { segments: t.segments.push(res.0), ..t }
                        } else {
                            t
                        },
                    ),
                    Err(m) => Err(m),
                }
            } else {
                match spec_skip(evs, i + 1, name, 0) {
                    Ok(j) => spec_track_children(evs, advance(i, j, n), t),
                    Err(m) => Err(m),
                }
            },
            EvV::Close { name } => if local_part(name) == "trk"@ {
                Ok((t, i + 1))
            } else {
                spec_track_children(evs, i + 1, t)
            },
            EvV::Fail { message } => Err(message),
            _ => spec_track_children(evs, i + 1, t),
        }
    }
}

/// An empty document.
pub open spec fn data_v0() -> DataV {
    DataV { waypoints: Seq::empty(), routes: Seq::empty(), tracks: Seq::empty() }
}

/// The whole document: `wpt`, `rte` and `trk` elements collected in
/// document order, anything else at the top level ignored.
pub open spec fn spec_parse_document(evs: Seq<EvV>, i: int, d: DataV) -> Result<DataV, Seq<char>>
    decreases evs.len() - i,
{
    let n = evs.len() as int;
    if i >= n {
        Ok(d)
    } else {
        match evs[i] {
            EvV::Open { name, attrs, empty } => if empty {
                if local_part(name) == "wpt"@ {
                    match spec_lat_lon(attrs, 0, None, None) {
                        Ok(ll) => spec_parse_document(
                            evs,
                            i + 1,
                            DataV { waypoints: d.waypoints.push(point_v(ll.0, ll.1)), ..d },
                        ),
                        Err(_) => spec_parse_document(evs, i + 1, d),
                    }
                } else {
                    spec_parse_document(evs, i + 1, d)
                }
            } else if local_part(name) == "wpt"@ {
                match spec_parse_point(evs, i + 1, attrs, name) {
                    Ok(res) => spec_parse_document(
                        evs,
                        advance(i, res.1, n),
                        match res.0 {
                            Some(p) => DataV { waypoints: d.waypoints.push(p), ..d },
                            None => d,
                        },
                    ),
                    Err(m) => Err(m),
                }
            } else if local_part(name) == "rte"@ {
                match spec_route_children(evs, i + 1, route_v0()) {
                    Ok(res) => spec_parse_document(
                        evs,
                        advance(i, res.1, n),
                        DataV { routes: d.routes.push(res.0), ..d },
                    ),
                    Err(m) => Err(m),
                }
            } else if local_part(name) == "trk"@ {
                match spec_track_children(evs, i + 1, track_v0()) {
                    Ok(res) => spec_parse_document(
                        evs,
                        advance(i, res.1, n),
                        DataV { tracks: d.tracks.push(res.0), ..d },
                    ),
                    Err(m) => Err(m),
                }
            } else {
                spec_parse_document(evs, i + 1, d)
            },
            EvV::Fail { message } => Err(message),
            _ => spec_parse_document(evs, i + 1, d),
        }
    }
}

/// What parsing a document text yields: the domain model of its
/// significant events, or the message of its first syntax error.
pub open spec fn spec_gpx_document(s: Seq<char>) -> Result<DataV, Seq<char>> {
    spec_parse_document(sig_events(doc_events(s)), 0, data_v0())
}

/// Read the accumulated text of an element, up to the end tag carrying
/// `end_name`.
fn read_text_owned(toks: &Vec<Token>, i: usize, end_name: &String, acc: String) -> (r: Result<
    (String, usize),
    Gpx2GeoJsonError,
>)
    requires
        i <= toks@.len(),
    ensures
        match r {
            Ok(res) => spec_read_text(tokens_view(toks@), i as int, end_name@, acc@)
                == Ok::<(Seq<char>, int), Seq<char>>((res.0@, res.1 as int)) && i <= res.1
                <= toks@.len(),
            Err(e) => spec_read_text(tokens_view(toks@), i as int, end_name@, acc@) is Err && e@
                == ErrV::Xml(
                spec_read_text(tokens_view(toks@), i as int, end_name@, acc@)->Err_0,
            ),
        },
    decreases toks@.len() - i,
{
    let ghost evs = tokens_view(toks@);
    let n = toks.len();
    if i >= n {
        return Ok((acc, i));
    }
    proof {
        assert(evs[i as int] == toks@[i as int]@);
    }
    match &toks[i] {
        Token::Text { content } => {
            let mut acc2 = acc;
            acc2.append(content.as_str());
            read_text_owned(toks, i + 1, end_name, acc2)
        },
        Token::Ref { name } => {
            let mut acc2 = acc;
            append_ref(&mut acc2, name);
            read_text_owned(toks, i + 1, end_name, acc2)
        },
        Token::Close { name } => {
            if name.eq(end_name) {
                Ok((acc, i + 1))
            } else {
                read_text_owned(toks, i + 1, end_name, acc)
            }
        },
        Token::Fail { message } => Err(Gpx2GeoJsonError::XmlParse(message.clone())),
        Token::Open { .. } => read_text_owned(toks, i + 1, end_name, acc),
    }
}

/// Skip an element's whole subtree, counting nested tags with the same
/// full name.
fn skip_element(toks: &Vec<Token>, i: usize, end_name: &String, depth: usize) -> (r: Result<
    usize,
    Gpx2GeoJsonError,
>)
    requires
        depth <= i <= toks@.len(),
    ensures
        match r {
            Ok(j) => spec_skip(tokens_view(toks@), i as int, end_name@, depth as nat)
                == Ok::<int, Seq<char>>(j as int) && i < j <= toks@.len(),
            Err(e) => spec_skip(tokens_view(toks@), i as int, end_name@, depth as nat) is Err && e@
                == ErrV::Xml(
                spec_skip(tokens_view(toks@), i as int, end_name@, depth as nat)->Err_0,
            ),
        },
    decreases toks@.len() - i,
{
    let ghost evs = tokens_view(toks@);
    let n = toks.len();
    if i >= n {
        let mut m = String::from_str("missing end tag for element ");
        m.append(end_name.as_str());
        return Err(Gpx2GeoJsonError::XmlParse(m));
    }
    proof {
        assert(evs[i as int] == toks@[i as int]@);
    }
    match &toks[i] {
        Token::Open { name, empty, .. } => {
            if !*empty && name.eq(end_name) {
                skip_element(toks, i + 1, end_name, depth + 1)
            } else {
                skip_element(toks, i + 1, end_name, depth)
            }
        },
        Token::Close { name, .. } => {
            if name.eq(end_name) {
                if depth == 0 {
                    Ok(i + 1)
                } else {
                    skip_element(toks, i + 1, end_name, depth - 1)
                }
            } else {
                skip_element(toks, i + 1, end_name, depth)
            }
        },
        Token::Fail { message } => Err(Gpx2GeoJsonError::XmlParse(message.clone())),
        _ => skip_element(toks, i + 1, end_name, depth),
    }
}

/// Extract the `lat` and `lon` attribute texts of a point element.
fn parse_lat_lon(
    attrs: &Vec<Option<(String, String)>>,
    i: usize,
    lat: Option<String>,
    lon: Option<String>,
) -> (r: Result<(String, String), Gpx2GeoJsonError>)
    requires
        i <= attrs@.len(),
        match lat {
            Some(s) => is_decimal_number(s@),
            None => true,
        },
        match lon {
            Some(s) => is_decimal_number(s@),
            None => true,
        },
    ensures
        match r {
            Ok(ll) => spec_lat_lon(attrs_view(attrs@), i as int, opt_view(lat), opt_view(lon))
                == Ok::<(Seq<char>, Seq<char>), ErrV>((ll.0@, ll.1@)) && is_decimal_number(ll.0@)
                && is_decimal_number(ll.1@),
            Err(e) => spec_lat_lon(attrs_view(attrs@), i as int, opt_view(lat), opt_view(lon))
                is Err && e@ == spec_lat_lon(
                attrs_view(attrs@),
                i as int,
                opt_view(lat),
                opt_view(lon),
            )->Err_0,
        },
    decreases attrs@.len() - i,
{
    let ghost av = attrs_view(attrs@);
    let n = attrs.len();
    if i >= n {
        return match lat {
            None => Err(
                Gpx2GeoJsonError::MissingAttribute { element: "point", attribute: "lat" },
            ),
            Some(la) => match lon {
                None => Err(
                    Gpx2GeoJsonError::MissingAttribute { element: "point", attribute: "lon" },
                ),
                Some(lo) => Ok((la, lo)),
            },
        };
    }
    proof {
        assert(av[i as int] == crate::xml::attr_entry_view(attrs@[i as int]));
    }
    match &attrs[i] {
        None => Err(
            Gpx2GeoJsonError::XmlParse(String::from_str("malformed attribute")),
        ),
        Some(kv) => {
            if str_eq(kv.0.as_str(), "lat") {
                if is_decimal_str(kv.1.as_str()) {
                    parse_lat_lon(attrs, i + 1, Some(kv.1.clone()), lon)
                } else {
                    Err(
                        Gpx2GeoJsonError::InvalidAttribute {
                            element: "point",
                            attribute: "lat",
                            value: kv.1.clone(),
                        },
                    )
                }
            } else if str_eq(kv.0.as_str(), "lon") {
                if is_decimal_str(kv.1.as_str()) {
                    parse_lat_lon(attrs, i + 1, lat, Some(kv.1.clone()))
                } else {
                    Err(
                        Gpx2GeoJsonError::InvalidAttribute {
                            element: "point",
                            attribute: "lon",
                            value: kv.1.clone(),
                        },
                    )
                }
            } else {
                parse_lat_lon(attrs, i + 1, lat, lon)
            }
        },
    }
}

/// The `href` of a link's attribute list.
fn link_href_of(attrs: &Vec<Option<(String, String)>>) -> (r: String)
    ensures
        r@ == link_href(attrs_view(attrs@)),
{
    let ghost av = attrs_view(attrs@);
    let n = attrs.len();
    let mut href = String::new();
    let mut i: usize = 0;
    while i < n
        invariant
            i <= n == attrs@.len(),
            av == attrs_view(attrs@),
            href@ == link_href(av.take(i as int)),
        decreases n - i,
    {
        proof {
            assert(av[i as int] == crate::xml::attr_entry_view(attrs@[i as int]));
            assert(av.take(i as int + 1).drop_last() =~= av.take(i as int));
            assert(av.take(i as int + 1).last() == av[i as int]);
        }
        match &attrs[i] {
            Some(kv) => {
                if str_eq(kv.0.as_str(), "href") {
                    href = kv.1.clone();
                }
            },
            None => {},
        }
        i = i + 1;
    }
    proof {
        assert(av.take(n as int) =~= av);
    }
    href
}

/// Parse the children of a `link` element.
fn parse_link_children(toks: &Vec<Token>, i: usize, link: GpxLink) -> (r: Result<
    (GpxLink, usize),
    Gpx2GeoJsonError,
>)
    requires
        i <= toks@.len(),
    ensures
        match r {
            Ok(res) => spec_link_children(tokens_view(toks@), i as int, link@)
                == Ok::<(LinkV, int), Seq<char>>((res.0@, res.1 as int)) && i <= res.1
                <= toks@.len(),
            Err(e) => spec_link_children(tokens_view(toks@), i as int, link@) is Err && e@
                == ErrV::Xml(spec_link_children(tokens_view(toks@), i as int, link@)->Err_0),
        },
    decreases toks@.len() - i,
{
    let ghost evs = tokens_view(toks@);
    let n = toks.len();
    if i >= n {
        return Ok((link, i));
    }
    proof {
        assert(evs[i as int] == toks@[i as int]@);
    }
    match &toks[i] {
        Token::Open { name, attrs, empty } => {
            let local = local_of(name);
            if *empty {
                parse_link_children(toks, i + 1, link)
            } else if str_eq(local.as_str(), "text") {
                let res = read_text_owned(toks, i + 1, name, String::new())?;
                proof {
                    assert(advance(i as int, res.1 as int, n as int) == res.1 as int);
                }
                parse_link_children(toks, res.1, GpxLink { text: Some(res.0), ..link })
            } else if str_eq(local.as_str(), "type") {
                let res = read_text_owned(toks, i + 1, name, String::new())?;
                proof {
                    assert(advance(i as int, res.1 as int, n as int) == res.1 as int);
                }
                parse_link_children(toks, res.1, GpxLink { link_type: Some(res.0), ..link })
            } else {
                let j = skip_element(toks, i + 1, name, 0)?;
                proof {
                    assert(advance(i as int, j as int, n as int) == j as int);
                }
                parse_link_children(toks, j, link)
            }
        },
        Token::Close { name } => {
            let local = local_of(name);
            if str_eq(local.as_str(), "link") {
                Ok((link, i + 1))
            } else {
                parse_link_children(toks, i + 1, link)
            }
        },
        Token::Fail { message } => Err(Gpx2GeoJsonError::XmlParse(message.clone())),
        _ => parse_link_children(toks, i + 1, link),
    }
}

/// Parse a whole `link` element.
fn parse_link(toks: &Vec<Token>, i: usize, attrs: &Vec<Option<(String, String)>>) -> (r: Result<
    (GpxLink, usize),
    Gpx2GeoJsonError,
>)
    requires
        i <= toks@.len(),
    ensures
        match r {
            Ok(res) => spec_parse_link(tokens_view(toks@), i as int, attrs_view(attrs@))
                == Ok::<(LinkV, int), Seq<char>>((res.0@, res.1 as int)) && i <= res.1
                <= toks@.len(),
            Err(e) => spec_parse_link(tokens_view(toks@), i as int, attrs_view(attrs@)) is Err && e@
                == ErrV::Xml(
                spec_parse_link(tokens_view(toks@), i as int, attrs_view(attrs@))->Err_0,
            ),
        },
{
    let href = link_href_of(attrs);
    parse_link_children(toks, i, GpxLink { href, text: None, link_type: None })
}

/// The view of an optional parsed point.
pub open spec fn opt_point_view(o: Option<GpxPoint>) -> Option<PointV> {
    match o {
        Some(p) => Some(p@),
        None => None,
    }
}

/// Parse the children of a point element.
#[verifier::rlimit(100)]
fn parse_point_children(toks: &Vec<Token>, i: usize, end_name: &String, p: GpxPoint) -> (r: Result<
    (GpxPoint, usize),
    Gpx2GeoJsonError,
>)
    requires
        i <= toks@.len(),
        p@.wf(),
    ensures
        match r {
            Ok(res) => spec_point_children(tokens_view(toks@), i as int, end_name@, p@)
                == Ok::<(PointV, int), Seq<char>>((res.0@, res.1 as int)) && i <= res.1
                <= toks@.len() && res.0@.wf(),
            Err(e) => spec_point_children(tokens_view(toks@), i as int, end_name@, p@) is Err && e@
                == ErrV::Xml(
                spec_point_children(tokens_view(toks@), i as int, end_name@, p@)->Err_0,
            ),
        },
    decreases toks@.len() - i,
{
    let ghost evs = tokens_view(toks@);
    let n = toks.len();
    if i >= n {
        return Ok((p, i));
    }
    proof {
        assert(evs[i as int] == toks@[i as int]@);
    }
    match &toks[i] {
        Token::Open { name, attrs, empty } => {
            let local = local_of(name);
            if *empty {
                parse_point_children(toks, i + 1, end_name, p)
            } else if str_eq(local.as_str(), "ele") {
                let res = read_text_owned(toks, i + 1, name, String::new())?;
                proof {
                    assert(advance(i as int, res.1 as int, n as int) == res.1 as int);
                }
                let ele = if is_decimal_str(res.0.as_str()) {
                    Some(res.0)
                } else {
                    None
                };
                parse_point_children(toks, res.1, end_name, GpxPoint { ele, ..p })
            } else if str_eq(local.as_str(), "time") {
                let res = read_text_owned(toks, i + 1, name, String::new())?;
                proof {
                    assert(advance(i as int, res.1 as int, n as int) == res.1 as int);
                }
                parse_point_children(toks, res.1, end_name, GpxPoint { time: Some(res.0), ..p })
            } else if str_eq(local.as_str(), "name") {
                let res = read_text_owned(toks, i + 1, name, String::new())?;
                proof {
                    assert(advance(i as int, res.1 as int, n as int) == res.1 as int);
                }
                parse_point_children(toks, res.1, end_name, GpxPoint { name: Some(res.0), ..p })
            } else if str_eq(local.as_str(), "cmt") {
                let res = read_text_owned(toks, i + 1, name, String::new())?;
                proof {
                    assert(advance(i as int, res.1 as int, n as int) == res.1 as int);
                }
                parse_point_children(toks, res.1, end_name, GpxPoint { cmt: Some(res.0), ..p })
            } else if str_eq(local.as_str(), "desc") {
                let res = read_text_owned(toks, i + 1, name, String::new())?;
                proof {
                    assert(advance(i as int, res.1 as int, n as int) == res.1 as int);
                }
                parse_point_children(toks, res.1, end_name, GpxPoint { desc: Some(res.0), ..p })
            } else if str_eq(local.as_str(), "src") {
                let res = read_text_owned(toks, i + 1, name, String::new())?;
                proof {
                    assert(advance(i as int, res.1 as int, n as int) == res.1 as int);
                }
                parse_point_children(toks, res.1, end_name, GpxPoint { src: Some(res.0), ..p })
            } else if str_eq(local.as_str(), "sym") {
                let res = read_text_owned(toks, i + 1, name, String::new())?;
                proof {
                    assert(advance(i as int, res.1 as int, n as int) == res.1 as int);
                }
                parse_point_children(toks, res.1, end_name, GpxPoint { sym: Some(res.0), ..p })
            } else if str_eq(local.as_str(), "type") {
                let res = read_text_owned(toks, i + 1, name, String::new())?;
                proof {
                    assert(advance(i as int, res.1 as int, n as int) == res.1 as int);
                }
                parse_point_children(
                    toks,
                    res.1,
                    end_name,
                    GpxPoint { point_type: Some(res.0), ..p },
                )
            } else if str_eq(local.as_str(), "link") {
                let res = parse_link(toks, i + 1, attrs)?;
                proof {
                    assert(advance(i as int, res.1 as int, n as int) == res.1 as int);
                }
                parse_point_children(toks, res.1, end_name, GpxPoint { link: Some(res.0), ..p })
            } else {
                let j = skip_element(toks, i + 1, name, 0)?;
                proof {
                    assert(advance(i as int, j as int, n as int) == j as int);
                }
                parse_point_children(toks, j, end_name, p)
            }
        },
        Token::Close { name } => {
            if name.eq(end_name) {
                Ok((p, i + 1))
            } else {
                parse_point_children(toks, i + 1, end_name, p)
            }
        },
        Token::Fail { message } => Err(Gpx2GeoJsonError::XmlParse(message.clone())),
        _ => parse_point_children(toks, i + 1, end_name, p),
    }
}

/// Parse a point element (a waypoint, route point or track point); a
/// point without numeric coordinates is skipped whole.
fn parse_point(
    toks: &Vec<Token>,
    i: usize,
    attrs: &Vec<Option<(String, String)>>,
    name: &String,
) -> (r: Result<(Option<GpxPoint>, usize), Gpx2GeoJsonError>)
    requires
        i <= toks@.len(),
    ensures
        match r {
            Ok(res) => spec_parse_point(tokens_view(toks@), i as int, attrs_view(attrs@), name@)
                == Ok::<(Option<PointV>, int), Seq<char>>((opt_point_view(res.0), res.1 as int))
                && i <= res.1 <= toks@.len() && (match res.0 {
                Some(p) => p@.wf(),
                None => true,
            }),
            Err(e) => spec_parse_point(tokens_view(toks@), i as int, attrs_view(attrs@), name@)
                is Err && e@ == ErrV::Xml(
                spec_parse_point(tokens_view(toks@), i as int, attrs_view(attrs@), name@)->Err_0,
            ),
        },
{
    match parse_lat_lon(attrs, 0, None, None) {
        Ok(ll) => {
            let p0 = GpxPoint::new(ll.0, ll.1);
            let res = parse_point_children(toks, i, name, p0)?;
            Ok((Some(res.0), res.1))
        },
        Err(_) => {
            let j = skip_element(toks, i, name, 0)?;
            Ok((None, j))
        },
    }
}

/// Parse the children of a `rte` element.
#[verifier::rlimit(100)]
fn parse_route(toks: &Vec<Token>, i: usize, rte: GpxRoute) -> (r: Result<
    (GpxRoute, usize),
    Gpx2GeoJsonError,
>)
    requires
        i <= toks@.len(),
        rte@.wf(),
    ensures
        match r {
            Ok(res) => spec_route_children(tokens_view(toks@), i as int, rte@)
                == Ok::<(RouteV, int), Seq<char>>((res.0@, res.1 as int)) && i <= res.1
                <= toks@.len() && res.0@.wf(),
            Err(e) => spec_route_children(tokens_view(toks@), i as int, rte@) is Err && e@
                == ErrV::Xml(spec_route_children(tokens_view(toks@), i as int, rte@)->Err_0),
        },
    decreases toks@.len() - i,
{
    let ghost evs = tokens_view(toks@);
    let n = toks.len();
    if i >= n {
        return Ok((rte, i));
    }
    proof {
        assert(evs[i as int] == toks@[i as int]@);
    }
    match &toks[i] {
        Token::Open { name, attrs, empty } => {
            let local = local_of(name);
            if *empty {
                if str_eq(local.as_str(), "rtept") {
                    match parse_lat_lon(attrs, 0, None, None) {
                        Ok(ll) => {
                            let p = GpxPoint::new(ll.0, ll.1);
                            let mut rte2 = rte;
                            let ghost old_rte = rte2@;
                            rte2.points.push(p);
                            proof {
                                assert(rte2@ == (RouteV {
                                    points: old_rte.points.push(p@),
                                    ..old_rte
                                }));
                                assert forall|k: int|
                                    0 <= k < rte2@.points.len() implies (
                                #[trigger] rte2@.points[k]).wf() by {
                                    if k < old_rte.points.len() {
                                        assert(old_rte.points[k].wf());
                                    }
                                }
                            }
                            parse_route(toks, i + 1, rte2)
                        },
                        Err(_) => parse_route(toks, i + 1, rte),
                    }
                } else {
                    parse_route(toks, i + 1, rte)
                }
            } else if str_eq(local.as_str(), "name") {
                let res = read_text_owned(toks, i + 1, name, String::new())?;
                proof {
                    assert(advance(i as int, res.1 as int, n as int) == res.1 as int);
                }
                parse_route(toks, res.1, GpxRoute { name: Some(res.0), ..rte })
            } else if str_eq(local.as_str(), "cmt") {
                let res = read_text_owned(toks, i + 1, name, String::new())?;
                proof {
                    assert(advance(i as int, res.1 as int, n as int) == res.1 as int);
                }
                parse_route(toks, res.1, GpxRoute { cmt: Some(res.0), ..rte })
            } else if str_eq(local.as_str(), "desc") {
                let res = read_text_owned(toks, i + 1, name, String::new())?;
                proof {
                    assert(advance(i as int, res.1 as int, n as int) == res.1 as int);
                }
                parse_route(toks, res.1, GpxRoute { desc: Some(res.0), ..rte })
            } else if str_eq(local.as_str(), "src") {
                let res = read_text_owned(toks, i + 1, name, String::new())?;
                proof {
                    assert(advance(i as int, res.1 as int, n as int) == res.1 as int);
                }
                parse_route(toks, res.1, GpxRoute { src: Some(res.0), ..rte })
            } else if str_eq(local.as_str(), "type") {
                let res = read_text_owned(toks, i + 1, name, String::new())?;
                proof {
                    assert(advance(i as int, res.1 as int, n as int) == res.1 as int);
                }
                parse_route(toks, res.1, GpxRoute { route_type: Some(res.0), ..rte })
            } else if str_eq(local.as_str(), "number") {
                let res = read_text_owned(toks, i + 1, name, String::new())?;
                proof {
                    assert(advance(i as int, res.1 as int, n as int) == res.1 as int);
                }
                let number = parse_u32_str(res.0.as_str());
                parse_route(toks, res.1, GpxRoute { number, ..rte })
            } else if str_eq(local.as_str(), "link") {
                let res = parse_link(toks, i + 1, attrs)?;
                proof {
                    assert(advance(i as int, res.1 as int, n as int) == res.1 as int);
                }
                parse_route(toks, res.1, GpxRoute { link: Some(res.0), ..rte })
            } else if str_eq(local.as_str(), "rtept") {
                let res = parse_point(toks, i + 1, attrs, name)?;
                proof {
                    assert(advance(i as int, res.1 as int, n as int) == res.1 as int);
                }
                match res.0 {
                    Some(p) => {
                        let mut rte2 = rte;
                        let ghost old_rte = rte2@;
                        rte2.points.push(p);
                        proof {
                            assert(rte2@ == (RouteV { points: old_rte.points.push(p@), ..old_rte }));
                            assert forall|k: int|
                                0 <= k < rte2@.points.len() implies (
                            #[trigger] rte2@.points[k]).wf() by {
                                if k < old_rte.points.len() {
                                    assert(old_rte.points[k].wf());
                                }
                            }
                        }
                        parse_route(toks, res.1, rte2)
                    },
                    None => parse_route(toks, res.1, rte),
                }
            } else {
                let j = skip_element(toks, i + 1, name, 0)?;
                proof {
                    assert(advance(i as int, j as int, n as int) == j as int);
                }
                parse_route(toks, j, rte)
            }
        },
        Token::Close { name } => {
            let local = local_of(name);
            if str_eq(local.as_str(), "rte") {
                Ok((rte, i + 1))
            } else {
                parse_route(toks, i + 1, rte)
            }
        },
        Token::Fail { message } => Err(Gpx2GeoJsonError::XmlParse(message.clone())),
        _ => parse_route(toks, i + 1, rte),
    }
}

/// Parse the children of a `trkseg` element.
fn parse_segment(toks: &Vec<Token>, i: usize, points: Vec<GpxPoint>) -> (r: Result<
    (Vec<GpxPoint>, usize),
    Gpx2GeoJsonError,
>)
    requires
        i <= toks@.len(),
        forall|k: int| 0 <= k < points@.len() ==> (#[trigger] points@[k]@).wf(),
    ensures
        match r {
            Ok(res) => spec_segment_children(tokens_view(toks@), i as int, points_view(points@))
                == Ok::<(Seq<PointV>, int), Seq<char>>((points_view(res.0@), res.1 as int)) && i
                <= res.1 <= toks@.len() && (forall|k: int|
                0 <= k < res.0@.len() ==> (#[trigger] res.0@[k]@).wf()),
            Err(e) => spec_segment_children(tokens_view(toks@), i as int, points_view(points@))
                is Err && e@ == ErrV::Xml(
                spec_segment_children(tokens_view(toks@), i as int, points_view(points@))->Err_0,
            ),
        },
    decreases toks@.len() - i,
{
    let ghost evs = tokens_view(toks@);
    let n = toks.len();
    if i >= n {
        return Ok((points, i));
    }
    proof {
        assert(evs[i as int] == toks@[i as int]@);
    }
    match &toks[i] {
        Token::Open { name, attrs, empty } => {
            let local = local_of(name);
            if *empty {
                if str_eq(local.as_str(), "trkpt") {
                    match parse_lat_lon(attrs, 0, None, None) {
                        Ok(ll) => {
                            let p = GpxPoint::new(ll.0, ll.1);
                            let mut points2 = points;
                            points2.push(p);
                            proof {
                                assert(points_view(points2@) =~= points_view(
                                    points2@.drop_last(),
                                ).push(p@));
                                assert(points2@.drop_last() =~= points2@.subrange(
                                    0,
                                    points2@.len() - 1,
                                ));
                            }
                            parse_segment(toks, i + 1, points2)
                        },
                        Err(_) => parse_segment(toks, i + 1, points),
                    }
                } else {
                    parse_segment(toks, i + 1, points)
                }
            } else if str_eq(local.as_str(), "trkpt") {
                let res = parse_point(toks, i + 1, attrs, name)?;
                proof {
                    assert(advance(i as int, res.1 as int, n as int) == res.1 as int);
                }
                match res.0 {
                    Some(p) => {
                        let mut points2 = points;
                        points2.push(p);
                        parse_segment(toks, res.1, points2)
                    },
                    None => parse_segment(toks, res.1, points),
                }
            } else {
                let j = skip_element(toks, i + 1, name, 0)?;
                proof {
                    assert(advance(i as int, j as int, n as int) == j as int);
                }
                parse_segment(toks, j, points)
            }
        },
        Token::Close { name } => {
            let local = local_of(name);
            if str_eq(local.as_str(), "trkseg") {
                Ok((points, i + 1))
            } else {
                parse_segment(toks, i + 1, points)
            }
        },
        Token::Fail { message } => Err(Gpx2GeoJsonError::XmlParse(message.clone())),
        _ => parse_segment(toks, i + 1, points),
    }
}

/// Parse the children of a `trk` element.
#[verifier::rlimit(100)]
fn parse_track(toks: &Vec<Token>, i: usize, trk: GpxTrack) -> (r: Result<
    (GpxTrack, usize),
    Gpx2GeoJsonError,
>)
    requires
        i <= toks@.len(),
        trk@.wf(),
    ensures
        match r {
            Ok(res) => spec_track_children(tokens_view(toks@), i as int, trk@)
                == Ok::<(TrackV, int), Seq<char>>((res.0@, res.1 as int)) && i <= res.1
                <= toks@.len() && res.0@.wf(),
            Err(e) => spec_track_children(tokens_view(toks@), i as int, trk@) is Err && e@
                == ErrV::Xml(spec_track_children(tokens_view(toks@), i as int, trk@)->Err_0),
        },
    decreases toks@.len() - i,
{
    let ghost evs = tokens_view(toks@);
    let n = toks.len();
    if i >= n {
        return Ok((trk, i));
    }
    proof {
        assert(evs[i as int] == toks@[i as int]@);
    }
    match &toks[i] {
        Token::Open { name, attrs, empty } => {
            let local = local_of(name);
            if *empty {
                parse_track(toks, i + 1, trk)
            } else if str_eq(local.as_str(), "name") {
                let res = read_text_owned(toks, i + 1, name, String::new())?;
                proof {
                    assert(advance(i as int, res.1 as int, n as int) == res.1 as int);
                }
                parse_track(toks, res.1, GpxTrack { name: Some(res.0), ..trk })
            } else if str_eq(local.as_str(), "cmt") {
                let res = read_text_owned(toks, i + 1, name, String::new())?;
                proof {
                    assert(advance(i as int, res.1 as int, n as int) == res.1 as int);
                }
                parse_track(toks, res.1, GpxTrack { cmt: Some(res.0), ..trk })
            } else if str_eq(local.as_str(), "desc") {
                let res = read_text_owned(toks, i + 1, name, String::new())?;
                proof {
                    assert(advance(i as int, res.1 as int, n as int) == res.1 as int);
                }
                parse_track(toks, res.1, GpxTrack { desc: Some(res.0), ..trk })
            } else if str_eq(local.as_str(), "src") {
                let res = read_text_owned(toks, i + 1, name, String::new())?;
                proof {
                    assert(advance(i as int, res.1 as int, n as int) == res.1 as int);
                }
                parse_track(toks, res.1, GpxTrack { src: Some(res.0), ..trk })
            } else if str_eq(local.as_str(), "type") {
                let res = read_text_owned(toks, i + 1, name, String::new())?;
                proof {
                    assert(advance(i as int, res.1 as int, n as int) == res.1 as int);
                }
                parse_track(toks, res.1, GpxTrack { track_type: Some(res.0), ..trk })
            } else if str_eq(local.as_str(), "number") {
                let res = read_text_owned(toks, i + 1, name, String::new())?;
                proof {
                    assert(advance(i as int, res.1 as int, n as int) == res.1 as int);
                }
                let number = parse_u32_str(res.0.as_str());
                parse_track(toks, res.1, GpxTrack { number, ..trk })
            } else if str_eq(local.as_str(), "link") {
                let res = parse_link(toks, i + 1, attrs)?;
                proof {
                    assert(advance(i as int, res.1 as int, n as int) == res.1 as int);
                }
                parse_track(toks, res.1, GpxTrack { link: Some(res.0), ..trk })
            } else if str_eq(local.as_str(), "trkseg") {
                let empty_points: Vec<GpxPoint> = Vec::new();
                proof {
                    assert(points_view(empty_points@) =~= Seq::<PointV>::empty());
                }
                let res = parse_segment(toks, i + 1, empty_points)?;
                proof {
                    assert(advance(i as int, res.1 as int, n as int) == res.1 as int);
                }
                if res.0.len() > 0 {
                    let seg = GpxSegment { points: res.0 };
                    let mut trk2 = trk;
                    let ghost old_trk = trk2@;
                    trk2.segments.push(seg);
                    proof {
                        assert(trk2@ == (TrackV {
                            segments: old_trk.segments.push(seg@),
                            ..old_trk
                        }));
                        assert forall|k: int|
                            0 <= k < trk2@.segments.len() implies (#[trigger] trk2@.segments[k]).len()
                            > 0 && forall|j: int|
                            0 <= j < trk2@.segments[k].len() ==> (
                        #[trigger] trk2@.segments[k][j]).wf() by {
                            if k < old_trk.segments.len() {
                                assert(old_trk.segments[k].len() > 0);
                            } else {
                                assert(trk2@.segments[k] == points_view(seg.points@));
                                assert forall|j: int|
                                    0 <= j < trk2@.segments[k].len() implies (
                                #[trigger] trk2@.segments[k][j]).wf() by {
                                    assert(points_view(seg.points@)[j] == seg.points@[j]@);
                                }
                            }
                        }
                    }
                    parse_track(toks, res.1, trk2)
                } else {
                    parse_track(toks, res.1, trk)
                }
            } else {
                let j = skip_element(toks, i + 1, name, 0)?;
                proof {
                    assert(advance(i as int, j as int, n as int) == j as int);
                }
                parse_track(toks, j, trk)
            }
        },
        Token::Close { name } => {
            let local = local_of(name);
            if str_eq(local.as_str(), "trk") {
                Ok((trk, i + 1))
            } else {
                parse_track(toks, i + 1, trk)
            }
        },
        Token::Fail { message } => Err(Gpx2GeoJsonError::XmlParse(message.clone())),
        _ => parse_track(toks, i + 1, trk),
    }
}

/// Parse the top level of the document, collecting waypoints, routes and
/// tracks in document order.
#[verifier::rlimit(100)]
fn parse_document(toks: &Vec<Token>, i: usize, data: GpxData) -> (r: Result<
    GpxData,
    Gpx2GeoJsonError,
>)
    requires
        i <= toks@.len(),
        data@.wf(),
    ensures
        match r {
            Ok(d) => spec_parse_document(tokens_view(toks@), i as int, data@)
                == Ok::<DataV, Seq<char>>(d@) && d@.wf(),
            Err(e) => spec_parse_document(tokens_view(toks@), i as int, data@) is Err && e@
                == ErrV::Xml(spec_parse_document(tokens_view(toks@), i as int, data@)->Err_0),
        },
    decreases toks@.len() - i,
{
    let ghost evs = tokens_view(toks@);
    let n = toks.len();
    if i >= n {
        return Ok(data);
    }
    proof {
        assert(evs[i as int] == toks@[i as int]@);
    }
    match &toks[i] {
        Token::Open { name, attrs, empty } => {
            let local = local_of(name);
            if *empty {
                if str_eq(local.as_str(), "wpt") {
                    match parse_lat_lon(attrs, 0, None, None) {
                        Ok(ll) => {
                            let p = GpxPoint::new(ll.0, ll.1);
                            let mut data2 = data;
                            let ghost old_data = data2@;
                            data2.waypoints.push(p);
                            proof {
                                assert(data2@ == (DataV {
                                    waypoints: old_data.waypoints.push(p@),
                                    ..old_data
                                }));
                                assert forall|k: int|
                                    0 <= k < data2@.waypoints.len() implies (
                                #[trigger] data2@.waypoints[k]).wf() by {
                                    if k < old_data.waypoints.len() {
                                        assert(old_data.waypoints[k].wf());
                                    }
                                }
                            }
                            parse_document(toks, i + 1, data2)
                        },
                        Err(_) => parse_document(toks, i + 1, data),
                    }
                } else {
                    parse_document(toks, i + 1, data)
                }
            } else if str_eq(local.as_str(), "wpt") {
                let res = parse_point(toks, i + 1, attrs, name)?;
                proof {
                    assert(advance(i as int, res.1 as int, n as int) == res.1 as int);
                }
                match res.0 {
                    Some(p) => {
                        let mut data2 = data;
                        let ghost old_data = data2@;
                        data2.waypoints.push(p);
                        proof {
                            assert(data2@ == (DataV {
                                waypoints: old_data.waypoints.push(p@),
                                ..old_data
                            }));
                            assert forall|k: int|
                                0 <= k < data2@.waypoints.len() implies (
                            #[trigger] data2@.waypoints[k]).wf() by {
                                if k < old_data.waypoints.len() {
                                    assert(old_data.waypoints[k].wf());
                                }
                            }
                        }
                        parse_document(toks, res.1, data2)
                    },
                    None => parse_document(toks, res.1, data),
                }
            } else if str_eq(local.as_str(), "rte") {
                let rte0 = GpxRoute::default();
                let res = parse_route(toks, i + 1, rte0)?;
                proof {
                    assert(advance(i as int, res.1 as int, n as int) == res.1 as int);
                }
                let mut data2 = data;
                let ghost old_data = data2@;
                data2.routes.push(res.0);
                proof {
                    assert(data2@ == (DataV {
                        routes: old_data.routes.push(res.0@),
                        ..old_data
                    }));
                    assert forall|k: int|
                        0 <= k < data2@.routes.len() implies (#[trigger] data2@.routes[k]).wf() by {
                        if k < old_data.routes.len() {
                            assert(old_data.routes[k].wf());
                        }
                    }
                }
                parse_document(toks, res.1, data2)
            } else if str_eq(local.as_str(), "trk") {
                let trk0 = GpxTrack::default();
                let res = parse_track(toks, i + 1, trk0)?;
                proof {
                    assert(advance(i as int, res.1 as int, n as int) == res.1 as int);
                }
                let mut data2 = data;
                let ghost old_data = data2@;
                data2.tracks.push(res.0);
                proof {
                    assert(data2@ == (DataV {
                        tracks: old_data.tracks.push(res.0@),
                        ..old_data
                    }));
                    assert forall|k: int|
                        0 <= k < data2@.tracks.len() implies (#[trigger] data2@.tracks[k]).wf() by {
                        if k < old_data.tracks.len() {
                            assert(old_data.tracks[k].wf());
                        }
                    }
                }
                parse_document(toks, res.1, data2)
            } else {
                parse_document(toks, i + 1, data)
            }
        },
        Token::Fail { message } => Err(Gpx2GeoJsonError::XmlParse(message.clone())),
        _ => parse_document(toks, i + 1, data),
    }
}

/// Parse a GPX document text into its domain model.
///
/// The result is exactly what [`spec_gpx_document`] says of the text's
/// event stream: the model of the recognised vocabulary on success, and
/// the message of the first markup error otherwise.  Every point of the
/// parsed model carries numeric coordinate text, and every kept track
/// segment is non-empty.
pub fn parse_gpx(xml: &str) -> (r: Result<GpxData, Gpx2GeoJsonError>)
    ensures
        match r {
            Ok(d) => spec_gpx_document(xml@) == Ok::<DataV, Seq<char>>(d@) && d@.wf(),
            Err(e) => spec_gpx_document(xml@) is Err && e@ == ErrV::Xml(
                spec_gpx_document(xml@)->Err_0,
            ),
        },
{
    let toks = tokenize(xml);
    let data = GpxData::default();
    parse_document(&toks, 0, data)
}

} // verus!
