//! From an ONVIF metadata document to its licence-plate report: `quick-xml`
//! reads the document into events (text trimmed), and `PlateScanner` takes
//! them one by one up to the end of the document.
//!
//! Which attribute values and texts read as `f32` is decided by the caller,
//! once per event; everything else is decided here.

use vstd::prelude::*;
use vstd::utf8::{decode_utf8, valid_utf8};
use std::borrow::Cow;
use quick_xml::events::{BytesStart, BytesText, Event};
use quick_xml::reader::Reader;

use crate::decimal::{nat_digits, push_decimal_u64};

use crate::plate::{
    bottom_key, bounding_box_spec, event_fits, event_in_range, last_index, left_key, opt_view,
    right_key, scan_echoes, scan_next, top_key, value_at, PlateReport, PlateScanner, ScannerView,
    XmlAttr, XmlEcho, XmlEvent,
};

verus! {

/// The kind of an event as the reader reports it.
#[derive(Clone, Copy, Debug, PartialEq, Eq, Structural)]
pub enum RawKind {
    Eof,
    Empty,
    Start,
    Text,
    End,
    Other,
    Error,
}

/// One event as the reader reports it.
pub struct RawXmlEvent {
    pub kind: RawKind,
    /// The element name, for `Empty` and `Start`.
    pub name: Vec<u8>,
    /// The attributes of an `Empty` element, as raw name and value; `None`
    /// for one that could not be read.
    pub attrs: Vec<Option<(Vec<u8>, Vec<u8>)>>,
    /// For `Text`, the unescaped text (`None` when unescaping failed); for
    /// `Error`, the message `invalid xml, error at position <p>: <error>`.
    pub text: Option<String>,
}

#[verifier::external_type_specification]
#[verifier::external_body]
#[verifier::reject_recursive_types(R)]
pub struct ExReader<R>(Reader<R>);

/// What one `read_event` of the reader gives, by plain values: the kind, the
/// raw bytes (the tag's content for `Empty` and `Start`, the escaped text for
/// `Text`, the error's debug text for `Error`, nothing otherwise), for a tag
/// the length of its name at the front of the content, and the reader's
/// `buffer_position` once the event is read.
pub type ReadEvent = (RawKind, Seq<u8>, nat, u64);

/// The events `quick-xml` reads from the document `xml` with text trimming,
/// up to and including the first end-of-document event.
pub uninterp spec fn xml_events_of(xml: Seq<char>) -> Seq<ReadEvent>;

/// The events a reader has yet to give, up to and including the end of the
/// document.
pub uninterp spec fn pending_events(reader: Reader<&[u8]>) -> Seq<ReadEvent>;

/// The reader's `buffer_position`.
pub uninterp spec fn reader_offset(reader: Reader<&[u8]>) -> u64;

/// The attributes `quick-xml` reads from a tag's content whose name takes the
/// first `name_len` bytes: raw name and value, `None` for one it cannot read.
pub uninterp spec fn attributes_of(content: Seq<u8>, name_len: nat) -> Seq<Option<(Seq<u8>, Seq<u8>)>>;

/// The text `quick-xml` unescapes from escaped text, `None` when it cannot.
pub uninterp spec fn unescaped_of(raw: Seq<u8>) -> Option<Seq<char>>;

/// `quick_xml::reader::Reader::from_str(xml)` with `trim_text(true)`. Trusted:
/// the events it will give are named `xml_events_of(xml)`, and the list ends
/// with its first end-of-document event (after an error other than an
/// ill-formed one the reader is done and gives the end; an ill-formed error
/// consumes the bad input).
#[verifier::external_body]
fn open_reader<'a>(xml: &'a str) -> (r: Reader<&'a [u8]>)
    ensures
        pending_events(r) == xml_events_of(xml@),
        pending_events(r).len() > 0,
        pending_events(r).last().0 == RawKind::Eof,
        forall|k: int| 0 <= k < pending_events(r).len() - 1 ==> (#[trigger] pending_events(r)[k]).0 != RawKind::Eof,
{
    let mut reader = Reader::from_str(xml);
    reader.config_mut().trim_text(true);
    reader
}

/// `Reader::read_event`: gives the next pending event, by plain values (the
/// tag's content is `BytesStart`'s bytes, whose front `name()` is), and moves
/// the reader's position to the one that event is read to.
#[verifier::external_body]
fn next_event(reader: &mut Reader<&[u8]>) -> (r: (RawKind, Vec<u8>, usize))
    requires
        pending_events(*old(reader)).len() > 0,
    ensures
        (r.0, r.1@, r.2 as nat) == (
            pending_events(*old(reader))[0].0,
            pending_events(*old(reader))[0].1,
            pending_events(*old(reader))[0].2,
        ),
        reader_offset(*final(reader)) == pending_events(*old(reader))[0].3,
        pending_events(*final(reader)) == pending_events(*old(reader)).drop_first(),
        r.2 <= r.1@.len(),
{
    match reader.read_event() {
        Ok(Event::Empty(e)) => (RawKind::Empty, e.to_vec(), e.name().as_ref().len()),
        Ok(Event::Start(e)) => (RawKind::Start, e.to_vec(), e.name().as_ref().len()),
        Ok(Event::Text(e)) => (RawKind::Text, e.to_vec(), 0),
        Ok(Event::End(_)) => (RawKind::End, vec![], 0),
        Ok(Event::Eof) => (RawKind::Eof, vec![], 0),
        Ok(_) => (RawKind::Other, vec![], 0),
        Err(e) => (RawKind::Error, format!("{e:?}").into_bytes(), 0),
    }
}

/// `Reader::buffer_position`: how far the reader got, named
/// `reader_offset(reader)`.
#[verifier::external_body]
fn reader_position(reader: &Reader<&[u8]>) -> (r: u64)
    ensures
        r == reader_offset(*reader),
{
    reader.buffer_position()
}

/// `BytesStart::attributes` of the tag content, each attribute as raw name and
/// value. Trusted: the result is named `attributes_of(content, name_len)`.
/// Content that is not UTF-8 is read as its lossily repaired copy; tags read
/// from a `&str` document are always UTF-8.
#[verifier::external_body]
fn tag_attributes(content: &[u8], name_len: usize) -> (r: Vec<Option<(Vec<u8>, Vec<u8>)>>)
    requires
        name_len <= content@.len(),
    ensures
        r@.map_values(|a: Option<(Vec<u8>, Vec<u8>)>| attr_view(a)) == attributes_of(content@, name_len as nat),
{
    BytesStart::from_content(String::from_utf8_lossy(content), name_len).attributes().map(|a| a.ok().map(|a| (a.key.as_ref().to_vec(), a.value.to_vec()))).collect()
}

/// `BytesText::unescape` of escaped text. Trusted: the result is named
/// `unescaped_of(raw)`. Bytes that are not UTF-8 are read as their lossily
/// repaired copy; text read from a `&str` document is always UTF-8.
#[verifier::external_body]
fn xml_unescape(raw: &[u8]) -> (r: Option<String>)
    ensures
        opt_view(r) == unescaped_of(raw@),
{
    BytesText::from_escaped(String::from_utf8_lossy(raw)).unescape().ok().map(Cow::into_owned)
}

/// An attribute by the views of its name and value.
pub open spec fn attr_view(a: Option<(Vec<u8>, Vec<u8>)>) -> Option<(Seq<u8>, Seq<u8>)> {
    match a {
        Some((k, v)) => Some((k@, v@)),
        None => None,
    }
}

/// The text of bytes that are UTF-8, nothing otherwise.
pub open spec fn utf8_or_empty(b: Seq<u8>) -> Seq<char> {
    if valid_utf8(b) {
        decode_utf8(b)
    } else {
        Seq::empty()
    }
}

/// `invalid xml, error at position <position>: <error>`.
pub open spec fn error_line(position: u64, debug: Seq<u8>) -> Seq<char> {
    "invalid xml, error at position "@ + nat_digits(position as nat) + ": "@ + utf8_or_empty(debug)
}

/// `e` is the event the scanner gets for what the reader gave.
pub open spec fn raw_from_read(e: RawXmlEvent, read: ReadEvent) -> bool {
    let (kind, content, name_len, position) = read;
    &&& e.kind == kind
    &&& e.name@ == (if kind == RawKind::Empty || kind == RawKind::Start {
        content.take(name_len as int)
    } else {
        Seq::empty()
    })
    &&& e.attrs@.map_values(|a: Option<(Vec<u8>, Vec<u8>)>| attr_view(a)) == (if kind == RawKind::Empty {
        attributes_of(content, name_len)
    } else {
        Seq::empty()
    })
    &&& if kind == RawKind::Text {
        opt_view(e.text) == unescaped_of(content)
    } else if kind == RawKind::Error {
        opt_view(e.text) == Some(error_line(position, content))
    } else {
        e.text is None
    }
}

/// The first `n` bytes.
fn prefix(v: &Vec<u8>, n: usize) -> (r: Vec<u8>)
    requires
        n <= v@.len(),
    ensures
        r@ == v@.take(n as int),
{
    let mut r: Vec<u8> = Vec::new();
    let mut i: usize = 0;
    while i < n
        invariant
            n <= v@.len(),
            i <= n,
            r@ == v@.take(i as int),
        decreases n - i,
    {
        r.push(v[i]);
        assert(v@.take(i + 1) =~= v@.take(i as int).push(v@[i as int]));
        i = i + 1;
    }
    r
}

fn error_text(position: u64, debug: &Vec<u8>) -> (s: String)
    ensures
        s@ == error_line(position, debug@),
{
    let mut s = String::new();
    s.append("invalid xml, error at position ");
    push_decimal_u64(&mut s, position);
    s.append(": ");
    match utf8_text(debug.as_slice()) {
        Some(t) => s.append(t.as_str()),
        None => {},
    }
    s
}

/// Reads the document with `quick-xml` (text trimmed) up to the end of the
/// document: one event per event the reader gives, with tag names, the
/// attributes of empty elements, unescaped texts and error lines filled in.
pub fn read_xml_events(xml: &str) -> (events: Vec<RawXmlEvent>)
    ensures
        events@.len() == xml_events_of(xml@).len(),
        forall|k: int| 0 <= k < events@.len() ==> raw_from_read(#[trigger] events@[k], xml_events_of(xml@)[k]),
        events@.len() > 0,
        events@.last().kind == RawKind::Eof,
        forall|k: int| 0 <= k < events@.len() - 1 ==> (#[trigger] events@[k]).kind != RawKind::Eof,
{
    let mut reader = open_reader(xml);
    let ghost all = xml_events_of(xml@);
    let mut events: Vec<RawXmlEvent> = Vec::new();
    let mut done = false;
    while !done
        invariant
            all == xml_events_of(xml@),
            all.len() > 0,
            all.last().0 == RawKind::Eof,
            forall|k: int| 0 <= k < all.len() - 1 ==> (#[trigger] all[k]).0 != RawKind::Eof,
            events@.len() <= all.len(),
            pending_events(reader) == all.skip(events@.len() as int),
            forall|k: int| 0 <= k < events@.len() ==> raw_from_read(#[trigger] events@[k], all[k]),
            !done ==> events@.len() < all.len(),
            done ==> events@.len() == all.len(),
        decreases all.len() - events@.len(),
    {
        let ghost before = events@.len();
        assert(pending_events(reader)[0] == all[before as int]);
        let (kind, content, name_len) = next_event(&mut reader);
        let ev = match kind {
            RawKind::Empty => RawXmlEvent {
                kind,
                name: prefix(&content, name_len),
                attrs: tag_attributes(content.as_slice(), name_len),
                text: None,
            },
            RawKind::Start => RawXmlEvent { kind, name: prefix(&content, name_len), attrs: Vec::new(), text: None },
            RawKind::Text => RawXmlEvent { kind, name: Vec::new(), attrs: Vec::new(), text: xml_unescape(content.as_slice()) },
            RawKind::Error => {
                let position = reader_position(&reader);
                RawXmlEvent { kind, name: Vec::new(), attrs: Vec::new(), text: Some(error_text(position, &content)) }
            },
            _ => RawXmlEvent { kind, name: Vec::new(), attrs: Vec::new(), text: None },
        };
        proof {
            // An event without attributes views as an empty attribute list.
            let ghost empty_attrs: Seq<Option<(Vec<u8>, Vec<u8>)>> = Seq::empty();
            assert(empty_attrs.map_values(|a: Option<(Vec<u8>, Vec<u8>)>| attr_view(a)) =~= Seq::empty());
        }
        events.push(ev);
        assert(pending_events(reader) =~= all.skip(events@.len() as int));
        if kind == RawKind::Eof {
            done = true;
        }
    }
    events
}

/// `String::from_utf8`: the text of the bytes when they are valid UTF-8.
/// Trusted: std documents that it fails exactly on invalid UTF-8; the decoded
/// text is stated as vstd's `decode_utf8`.
#[verifier::external_body]
fn utf8_text(bytes: &[u8]) -> (t: Option<String>)
    ensures
        match t {
            Some(s) => valid_utf8(bytes@) && s@ == decode_utf8(bytes@),
            None => !valid_utf8(bytes@),
        },
{
    String::from_utf8(bytes.to_vec()).ok()
}

/// How many float marks event `e` takes: one per attribute of an empty
/// element, one for a text, none otherwise.
pub open spec fn float_slots(e: RawXmlEvent) -> int {
    match e.kind {
        RawKind::Empty => e.attrs@.len() as int,
        RawKind::Text => 1,
        _ => 0,
    }
}

/// `a` is the readable attribute `raw` with the float mark `f`.
pub open spec fn attr_converts(raw: Option<(Vec<u8>, Vec<u8>)>, f: bool, a: Option<XmlAttr>) -> bool {
    match (raw, a) {
        (None, None) => true,
        (Some((k, v)), Some(x)) => {
            &&& x.key@ == k@
            &&& x.value@ == v@
            &&& opt_view(x.text) == (if valid_utf8(v@) {
                Some(decode_utf8(v@))
            } else {
                None
            })
            &&& x.float_ok == f
        },
        _ => false,
    }
}

/// `ev` is the scanner's event for the raw event `raw` with float marks `fl`.
pub open spec fn converts(raw: RawXmlEvent, fl: Seq<bool>, ev: XmlEvent) -> bool {
    match raw.kind {
        RawKind::Eof => ev is Eof,
        RawKind::Empty => match ev {
            XmlEvent::Empty { name, attrs } => {
                &&& name@ == raw.name@
                &&& attrs@.len() == raw.attrs@.len()
                &&& forall|j: int|
                    0 <= j < attrs@.len() ==> attr_converts(
                        #[trigger] raw.attrs@[j],
                        fl[j],
                        attrs@[j],
                    )
            },
            _ => false,
        },
        RawKind::Start => match ev {
            XmlEvent::Start { name } => name@ == raw.name@,
            _ => false,
        },
        RawKind::Text => match raw.text {
            Some(t) => match ev {
                XmlEvent::Text { text, float_ok } => text@ == t@ && float_ok == fl[0],
                _ => false,
            },
            None => ev is Other,
        },
        RawKind::End => ev is End,
        RawKind::Other => ev is Other,
        RawKind::Error => ev is Error,
    }
}

/// The scanner after taking the events in order.
pub open spec fn scan_all(s: ScannerView, evs: Seq<XmlEvent>) -> ScannerView
    decreases evs.len(),
{
    if evs.len() == 0 {
        s
    } else {
        scan_next(scan_all(s, evs.drop_last()), evs.last())
    }
}

/// The scanner before any event.
pub open spec fn fresh_scanner() -> ScannerView {
    ScannerView {
        in_plate: false,
        in_score: false,
        plate: None,
        score: None,
        center: None,
        bbox: None,
    }
}

/// The number of events the scanner takes: up to and including the first
/// end of document, or all of them.
pub open spec fn taken(events: Seq<RawXmlEvent>, m: int) -> bool {
    &&& 0 <= m <= events.len()
    &&& forall|k: int| 0 <= k < m - 1 ==> (#[trigger] events[k]).kind != RawKind::Eof
    &&& (m == events.len() || (m > 0 && events[m - 1].kind == RawKind::Eof))
}

/// The float marks fit the events: one list per event, of the right length.
pub open spec fn floats_fit(events: Seq<RawXmlEvent>, floats: Seq<Vec<bool>>) -> bool {
    &&& floats.len() == events.len()
    &&& forall|k: int| 0 <= k < events.len() ==> (#[trigger] floats[k])@.len() == float_slots(events[k])
}

/// Every event the scanner will take can be taken without an arithmetic
/// overflow.
pub open spec fn raw_events_in_range(events: Seq<RawXmlEvent>, floats: Seq<Vec<bool>>) -> bool {
    forall|k: int, ev: XmlEvent|
        0 <= k < events.len() && (forall|j: int| 0 <= j < k ==> events[j].kind != RawKind::Eof)
            && #[trigger] converts(events[k], floats[k]@, ev) ==> event_in_range(ev)
}

/// The report of a scanner state, as `PlateScanner::report` gives it.
pub open spec fn report_matches(s: ScannerView, r: Option<PlateReport>) -> bool {
    match r {
        Some(rep) => {
            &&& s.plate == Some(rep.plate@)
            &&& s.score == Some(rep.score@)
            &&& s.center == Some((rep.center.0@, rep.center.1@))
            &&& s.bbox == Some(rep.bbox)
        },
        None => s.plate is None || s.score is None || s.center is None || s.bbox is None,
    }
}

/// The scanner's event for a raw event and its float marks.
fn convert(raw: &RawXmlEvent, fl: &Vec<bool>) -> (ev: XmlEvent)
    requires
        fl@.len() == float_slots(*raw),
    ensures
        converts(*raw, fl@, ev),
{
    match raw.kind {
        RawKind::Eof => XmlEvent::Eof,
        RawKind::Empty => {
            let mut attrs: Vec<Option<XmlAttr>> = Vec::new();
            let mut j: usize = 0;
            while j < raw.attrs.len()
                invariant
                    j <= raw.attrs@.len(),
                    fl@.len() == raw.attrs@.len(),
                    attrs@.len() == j,
                    forall|i: int|
                        0 <= i < j ==> attr_converts(#[trigger] raw.attrs@[i], fl@[i], attrs@[i]),
                decreases raw.attrs@.len() - j,
            {
                let a = match &raw.attrs[j] {
                    Some((k, v)) => Some(
                        XmlAttr {
                            key: k.clone(),
                            value: v.clone(),
                            text: utf8_text(v.as_slice()),
                            float_ok: fl[j],
                        },
                    ),
                    None => None,
                };
                attrs.push(a);
                j = j + 1;
            }
            XmlEvent::Empty { name: raw.name.clone(), attrs }
        },
        RawKind::Start => XmlEvent::Start { name: raw.name.clone() },
        RawKind::Text => match &raw.text {
            Some(t) => XmlEvent::Text { text: t.clone(), float_ok: fl[0] },
            None => XmlEvent::Other,
        },
        RawKind::End => XmlEvent::End,
        RawKind::Other => XmlEvent::Other,
        RawKind::Error => XmlEvent::Error,
    }
}

/// Whether every event the scanner will take can be taken: none is a
/// `tt:BoundingBox` whose width or height overflows `i32`.
pub fn raw_events_fit(events: &Vec<RawXmlEvent>, floats: &Vec<Vec<bool>>) -> (r: bool)
    requires
        floats_fit(events@, floats@),
    ensures
        r == raw_events_in_range(events@, floats@),
{
    let mut k: usize = 0;
    while k < events.len()
        invariant
            floats_fit(events@, floats@),
            k <= events@.len(),
            forall|i: int| 0 <= i < k ==> events@[i].kind != RawKind::Eof,
            forall|i: int, ev: XmlEvent|
                0 <= i < k && #[trigger] converts(events@[i], floats@[i]@, ev) ==> event_in_range(ev),
        decreases events@.len() - k,
    {
        let ev = convert(&events[k], &floats[k]);
        if !event_fits(&ev) {
            proof {
                assert(converts(events@[k as int], floats@[k as int]@, ev));
            }
            return false;
        }
        proof {
            lemma_converts_unique_range(events@[k as int], floats@[k as int]@, ev);
        }
        if events[k].kind == RawKind::Eof {
            return true;
        }
        k = k + 1;
    }
    true
}

/// Scans the events of a document, with the float marks the caller read, up
/// to and including the first end of document: the echo lines of each event
/// taken, and the report of the scanner after the last of them.
pub fn scan_events(events: &Vec<RawXmlEvent>, floats: &Vec<Vec<bool>>) -> (r: (
    Vec<Vec<XmlEcho>>,
    Option<PlateReport>,
))
    requires
        floats_fit(events@, floats@),
        raw_events_in_range(events@, floats@),
    ensures
        exists|evs: Seq<XmlEvent>|
            {
                &&& taken(events@, evs.len() as int)
                &&& forall|k: int|
                    0 <= k < evs.len() ==> converts(events@[k], floats@[k]@, #[trigger] evs[k])
                &&& r.0@.len() == evs.len()
                &&& forall|k: int| 0 <= k < evs.len() ==> (#[trigger] r.0@[k])@ == scan_echoes(evs[k])
                &&& report_matches(scan_all(fresh_scanner(), evs), r.1)
            },
{
    let mut scanner = PlateScanner::new();
    let mut echoes: Vec<Vec<XmlEcho>> = Vec::new();
    let mut k: usize = 0;
    let mut done = false;
    let ghost mut evs: Seq<XmlEvent> = Seq::empty();
    while k < events.len() && !done
        invariant
            floats_fit(events@, floats@),
            raw_events_in_range(events@, floats@),
            k <= events@.len(),
            evs.len() == k,
            echoes@.len() == k,
            forall|i: int| 0 <= i < k - 1 ==> (#[trigger] events@[i]).kind != RawKind::Eof,
            done ==> k > 0 && events@[k - 1].kind == RawKind::Eof,
            !done ==> forall|i: int| 0 <= i < k ==> (#[trigger] events@[i]).kind != RawKind::Eof,
            forall|i: int| 0 <= i < k ==> converts(events@[i], floats@[i]@, #[trigger] evs[i]),
            forall|i: int| 0 <= i < k ==> (#[trigger] echoes@[i])@ == scan_echoes(evs[i]),
            scanner@ == scan_all(fresh_scanner(), evs),
        decreases events@.len() - k,
    {
        let ev = convert(&events[k], &floats[k]);
        assert(converts(events@[k as int], floats@[k as int]@, ev));
        let step = scanner.scan(&ev);
        proof {
            assert(evs.push(ev).drop_last() =~= evs);
            evs = evs.push(ev);
        }
        echoes.push(step.echoes);
        done = step.done;
        k = k + 1;
    }
    let report = scanner.report();
    assert(taken(events@, evs.len() as int));
    (echoes, report)
}

/// Two attribute lists agree on which attributes are readable and on their
/// names and raw values.
pub open spec fn same_keys_values(a1: Seq<Option<XmlAttr>>, a2: Seq<Option<XmlAttr>>) -> bool {
    &&& a1.len() == a2.len()
    &&& forall|j: int|
        0 <= j < a1.len() ==> match (#[trigger] a1[j], a2[j]) {
            (None, None) => true,
            (Some(x), Some(y)) => x.key@ == y.key@ && x.value@ == y.value@,
            _ => false,
        }
}

proof fn lemma_same_last_index(a1: Seq<Option<XmlAttr>>, a2: Seq<Option<XmlAttr>>, key: Seq<u8>)
    requires
        same_keys_values(a1, a2),
    ensures
        last_index(a1, key) == last_index(a2, key),
    decreases a1.len(),
{
    if a1.len() > 0 {
        assert(same_keys_values(a1.drop_last(), a2.drop_last())) by {
            assert forall|j: int| 0 <= j < a1.len() - 1 implies #[trigger] a1.drop_last()[j] == a1[j]
                && a2.drop_last()[j] == a2[j] by {}
        }
        let n = a1.len() - 1;
        assert(match (a1[n], a2[n]) {
            (None, None) => true,
            (Some(x), Some(y)) => x.key@ == y.key@ && x.value@ == y.value@,
            _ => false,
        });
        lemma_same_last_index(a1.drop_last(), a2.drop_last(), key);
    }
}

proof fn lemma_same_box(a1: Seq<Option<XmlAttr>>, a2: Seq<Option<XmlAttr>>)
    requires
        same_keys_values(a1, a2),
    ensures
        bounding_box_spec(a1) == bounding_box_spec(a2),
{
    lemma_same_last_index(a1, a2, left_key());
    lemma_same_last_index(a1, a2, top_key());
    lemma_same_last_index(a1, a2, right_key());
    lemma_same_last_index(a1, a2, bottom_key());
    assert forall|i: int| 0 <= i < a1.len() implies value_at(a1, i) == value_at(a2, i) by {
        assert(match (a1[i], a2[i]) {
            (None, None) => true,
            (Some(x), Some(y)) => x.key@ == y.key@ && x.value@ == y.value@,
            _ => false,
        });
    }
    lemma_last_index_in_range(a1, left_key());
    lemma_last_index_in_range(a1, top_key());
    lemma_last_index_in_range(a1, right_key());
    lemma_last_index_in_range(a1, bottom_key());
}

proof fn lemma_last_index_in_range(a: Seq<Option<XmlAttr>>, key: Seq<u8>)
    ensures
        last_index(a, key) matches Some(i) ==> 0 <= i < a.len(),
    decreases a.len(),
{
    if a.len() > 0 {
        lemma_last_index_in_range(a.drop_last(), key);
    }
}

proof fn lemma_converts_unique_range(raw: RawXmlEvent, fl: Seq<bool>, ev: XmlEvent)
    requires
        converts(raw, fl, ev),
        event_in_range(ev),
    ensures
        forall|ev2: XmlEvent| #[trigger] converts(raw, fl, ev2) ==> event_in_range(ev2),
{
    assert forall|ev2: XmlEvent| #[trigger] converts(raw, fl, ev2) implies event_in_range(ev2) by {
        if raw.kind == RawKind::Empty {
            match (ev, ev2) {
                (XmlEvent::Empty { name: n1, attrs: a1 }, XmlEvent::Empty { name: n2, attrs: a2 }) => {
                    assert forall|j: int| 0 <= j < a1@.len() implies match (#[trigger] a1@[j], a2@[j]) {
                        (None, None) => true,
                        (Some(x), Some(y)) => x.key@ == y.key@ && x.value@ == y.value@,
                        _ => false,
                    } by {
                        assert(attr_converts(raw.attrs@[j], fl[j], a1@[j]));
                        assert(attr_converts(raw.attrs@[j], fl[j], a2@[j]));
                    }
                    lemma_same_box(a1@, a2@);
                },
                _ => {},
            }
        }
    }
}

} // verus!
