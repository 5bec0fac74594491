//! Picks a licence plate out of an ONVIF metadata stream, one XML event at a
//! time: the text of `tt:PlateNumber`, the text of `tt:Likelihood` (when it
//! reads as a float), the `x`/`y` attributes of `tt:CenterOfGravity` (when both
//! read as floats) and the box of `tt:BoundingBox`, turned from edges into
//! origin, width and height.
//!
//! The events come from an XML reader; floats are read by the caller, which
//! marks each text and attribute with whether it reads as an `f32`.

use vstd::prelude::*;

use crate::decimal::{parse_i32, parse_i32_spec};

verus! {

/// One attribute of an empty element.
pub struct XmlAttr {
    /// The attribute's name, as bytes.
    pub key: Vec<u8>,
    /// The attribute's raw value, as bytes.
    pub value: Vec<u8>,
    /// The value as text, when the bytes are UTF-8.
    pub text: Option<String>,
    /// The value is UTF-8 text that reads as an `f32`.
    pub float_ok: bool,
}

/// One event of the XML stream.
pub enum XmlEvent {
    /// The end of the document.
    Eof,
    /// An empty element `<name .../>`; an attribute that could not be read is
    /// `None`.
    Empty { name: Vec<u8>, attrs: Vec<Option<XmlAttr>> },
    /// A start tag `<name ...>`.
    Start { name: Vec<u8> },
    /// Unescaped text, and whether it reads as an `f32`.
    Text { text: String, float_ok: bool },
    /// An end tag.
    End,
    /// A read error; the reader goes on after it.
    Error,
    /// Anything else: comments, declarations, text that could not be
    /// unescaped.
    Other,
}

/// A line to echo for an event; the caller prints it from the event it holds.
#[derive(Clone, Copy, Debug, PartialEq, Eq)]
pub enum XmlEcho {
    /// `attr = <attribute k, debug-printed>`.
    Attribute(usize),
    /// `x = <text of attribute k, debug-printed>`.
    CenterX(usize),
    /// `y = <text of attribute k, debug-printed>`.
    CenterY(usize),
    /// `empty tag = <name>` for an empty element of no interest.
    EmptyTag,
    /// `tag = <name>` for a start tag of no interest.
    Tag,
    /// `text => <text>`.
    Text,
    /// `invalid xml, error at position <p>: <error>`.
    Error,
}

/// The box read from `tt:BoundingBox`.
#[derive(Clone, Copy, Debug, PartialEq, Eq)]
pub enum BoxReading {
    /// One of `left`, `top`, `right`, `bottom` is missing.
    Missing,
    /// One of the four does not read as an `i32`.
    Unreadable,
    /// The width or the height does not fit in an `i32`.
    Overflow,
    /// Origin, width and height: `(left, top, right - left, bottom - top)`.
    Box(i32, i32, i32, i32),
}

/// `tt:BoundingBox`
pub open spec fn bounding_box_name() -> Seq<u8> {
    seq![116u8, 116, 58, 66, 111, 117, 110, 100, 105, 110, 103, 66, 111, 120]
}

/// `tt:CenterOfGravity`
pub open spec fn center_name() -> Seq<u8> {
    seq![116u8, 116, 58, 67, 101, 110, 116, 101, 114, 79, 102, 71, 114, 97, 118, 105, 116, 121]
}

/// `tt:PlateNumber`
pub open spec fn plate_name() -> Seq<u8> {
    seq![116u8, 116, 58, 80, 108, 97, 116, 101, 78, 117, 109, 98, 101, 114]
}

/// `tt:Likelihood`
pub open spec fn likelihood_name() -> Seq<u8> {
    seq![116u8, 116, 58, 76, 105, 107, 101, 108, 105, 104, 111, 111, 100]
}

/// `left`
pub open spec fn left_key() -> Seq<u8> {
    seq![108u8, 101, 102, 116]
}

/// `top`
pub open spec fn top_key() -> Seq<u8> {
    seq![116u8, 111, 112]
}

/// `right`
pub open spec fn right_key() -> Seq<u8> {
    seq![114u8, 105, 103, 104, 116]
}

/// `bottom`
pub open spec fn bottom_key() -> Seq<u8> {
    seq![98u8, 111, 116, 116, 111, 109]
}

/// `x`
pub open spec fn x_key() -> Seq<u8> {
    seq![120u8]
}

/// `y`
pub open spec fn y_key() -> Seq<u8> {
    seq![121u8]
}

/// The index of the last readable attribute named `key`: when a name occurs
/// twice, the later value wins.
pub open spec fn last_index(attrs: Seq<Option<XmlAttr>>, key: Seq<u8>) -> Option<int>
    decreases attrs.len(),
{
    if attrs.len() == 0 {
        None
    } else if attrs.last() matches Some(a) && a.key@ == key {
        Some(attrs.len() - 1)
    } else {
        last_index(attrs.drop_last(), key)
    }
}

/// The raw value of attribute `i`.
pub open spec fn value_at(attrs: Seq<Option<XmlAttr>>, i: int) -> Seq<u8> {
    match attrs[i] {
        Some(a) => a.value@,
        None => Seq::empty(),
    }
}

/// The text of attribute `i`, when it is UTF-8.
pub open spec fn text_at(attrs: Seq<Option<XmlAttr>>, i: int) -> Option<Seq<char>> {
    match attrs[i] {
        Some(a) => match a.text {
            Some(t) => Some(t@),
            None => None,
        },
        None => None,
    }
}

/// Attribute `i` is UTF-8 text that reads as an `f32`.
pub open spec fn float_at(attrs: Seq<Option<XmlAttr>>, i: int) -> bool {
    match attrs[i] {
        Some(a) => a.text is Some && a.float_ok,
        None => false,
    }
}

/// The `i32` that the attribute named `key` reads as, if any.
pub open spec fn int_attr(attrs: Seq<Option<XmlAttr>>, key: Seq<u8>) -> Option<Option<i32>> {
    match last_index(attrs, key) {
        Some(i) => Some(parse_i32_spec(value_at(attrs, i))),
        None => None,
    }
}

/// The box of a `tt:BoundingBox` element with these attributes.
pub open spec fn bounding_box_spec(attrs: Seq<Option<XmlAttr>>) -> BoxReading {
    match (
        int_attr(attrs, left_key()),
        int_attr(attrs, top_key()),
        int_attr(attrs, right_key()),
        int_attr(attrs, bottom_key()),
    ) {
        (Some(l), Some(t), Some(r), Some(b)) => match (l, t, r, b) {
            (Some(l), Some(t), Some(r), Some(b)) => {
                if i32::MIN <= r - l <= i32::MAX && i32::MIN <= b - t <= i32::MAX {
                    BoxReading::Box(l, t, (r - l) as i32, (b - t) as i32)
                } else {
                    BoxReading::Overflow
                }
            },
            _ => BoxReading::Unreadable,
        },
        _ => BoxReading::Missing,
    }
}

/// The echo lines for the readable attributes of an empty element, in order.
pub open spec fn attribute_echoes(attrs: Seq<Option<XmlAttr>>) -> Seq<XmlEcho>
    decreases attrs.len(),
{
    if attrs.len() == 0 {
        Seq::empty()
    } else if attrs.last() is Some {
        attribute_echoes(attrs.drop_last()).push(XmlEcho::Attribute((attrs.len() - 1) as usize))
    } else {
        attribute_echoes(attrs.drop_last())
    }
}

/// What the scanner holds.
pub struct ScannerView {
    /// Inside `tt:PlateNumber`.
    pub in_plate: bool,
    /// Inside `tt:Likelihood`.
    pub in_score: bool,
    pub plate: Option<Seq<char>>,
    pub score: Option<Seq<char>>,
    pub center: Option<(Seq<char>, Seq<char>)>,
    pub bbox: Option<(i32, i32, i32, i32)>,
}

/// The scanner's state after an empty element.
pub open spec fn after_empty(s: ScannerView, name: Seq<u8>, attrs: Seq<Option<XmlAttr>>) -> ScannerView {
    if name == bounding_box_name() {
        match bounding_box_spec(attrs) {
            BoxReading::Box(x, y, w, h) => ScannerView { bbox: Some((x, y, w, h)), ..s },
            _ => s,
        }
    } else if name == center_name() {
        match (last_index(attrs, x_key()), last_index(attrs, y_key())) {
            (Some(ix), Some(iy)) => {
                if float_at(attrs, ix) && float_at(attrs, iy) {
                    ScannerView {
                        center: Some((text_at(attrs, ix)->Some_0, text_at(attrs, iy)->Some_0)),
                        ..s
                    }
                } else {
                    s
                }
            },
            _ => s,
        }
    } else {
        s
    }
}

/// The echo lines for an empty element.
pub open spec fn empty_echoes(name: Seq<u8>, attrs: Seq<Option<XmlAttr>>) -> Seq<XmlEcho> {
    if name == bounding_box_name() {
        attribute_echoes(attrs)
    } else if name == center_name() {
        attribute_echoes(attrs) + match (last_index(attrs, x_key()), last_index(attrs, y_key())) {
            (Some(ix), Some(iy)) => {
                if text_at(attrs, ix) is Some && text_at(attrs, iy) is Some {
                    seq![XmlEcho::CenterX(ix as usize), XmlEcho::CenterY(iy as usize)]
                } else {
                    Seq::empty()
                }
            },
            _ => Seq::empty(),
        }
    } else {
        seq![XmlEcho::EmptyTag]
    }
}

/// The scanner's state after an event.
pub open spec fn scan_next(s: ScannerView, event: XmlEvent) -> ScannerView {
    match event {
        XmlEvent::Empty { name, attrs } => after_empty(s, name@, attrs@),
        XmlEvent::Start { name } => {
            if name@ == plate_name() {
                ScannerView { in_plate: true, ..s }
            } else if name@ == likelihood_name() {
                ScannerView { in_score: true, ..s }
            } else {
                s
            }
        },
        XmlEvent::Text { text, float_ok } => {
            if s.in_plate && !s.in_score {
                ScannerView { plate: Some(text@), ..s }
            } else if !s.in_plate && s.in_score && float_ok {
                ScannerView { score: Some(text@), ..s }
            } else {
                s
            }
        },
        XmlEvent::End => ScannerView { in_plate: false, in_score: false, ..s },
        _ => s,
    }
}

/// The echo lines for an event.
pub open spec fn scan_echoes(event: XmlEvent) -> Seq<XmlEcho> {
    match event {
        XmlEvent::Empty { name, attrs } => empty_echoes(name@, attrs@),
        XmlEvent::Start { name } => {
            if name@ == plate_name() || name@ == likelihood_name() {
                Seq::empty()
            } else {
                seq![XmlEcho::Tag]
            }
        },
        XmlEvent::Text { .. } => seq![XmlEcho::Text],
        XmlEvent::Error => seq![XmlEcho::Error],
        _ => Seq::empty(),
    }
}

/// The event can be handled without an arithmetic overflow: it is not a
/// `tt:BoundingBox` whose width or height leaves the `i32` range.
pub open spec fn event_in_range(event: XmlEvent) -> bool {
    match event {
        XmlEvent::Empty { name, attrs } => name@ == bounding_box_name() ==> bounding_box_spec(
            attrs@,
        ) != BoxReading::Overflow,
        _ => true,
    }
}

/// What the scanner found, once it has all four parts.
pub struct PlateReport {
    pub plate: String,
    /// The likelihood, as text that reads as an `f32`.
    pub score: String,
    /// The centre, as two texts that read as `f32`.
    pub center: (String, String),
    /// Origin, width and height of the box.
    pub bbox: (i32, i32, i32, i32),
}

/// Scans an XML event stream for one licence plate.
pub struct PlateScanner {
    in_plate: bool,
    in_score: bool,
    plate: Option<String>,
    score: Option<String>,
    center: Option<(String, String)>,
    bbox: Option<(i32, i32, i32, i32)>,
}

/// The view of an optional string.
pub open spec fn opt_view(s: Option<String>) -> Option<Seq<char>> {
    match s {
        Some(t) => Some(t@),
        None => None,
    }
}

impl View for PlateScanner {
    type V = ScannerView;

    closed spec fn view(&self) -> ScannerView {
        ScannerView {
            in_plate: self.in_plate,
            in_score: self.in_score,
            plate: opt_view(self.plate),
            score: opt_view(self.score),
            center: match self.center {
                Some((x, y)) => Some((x@, y@)),
                None => None,
            },
            bbox: self.bbox,
        }
    }
}

/// Compares two byte strings.
fn bytes_eq(a: &[u8], b: &[u8]) -> (r: bool)
    ensures
        r == (a@ == b@),
{
    if a.len() != b.len() {
        return false;
    }
    let mut i: usize = 0;
    while i < a.len()
        invariant
            a@.len() == b@.len(),
            i <= a@.len(),
            forall|j: int| 0 <= j < i ==> a@[j] == b@[j],
        decreases a@.len() - i,
    {
        if a[i] != b[i] {
            return false;
        }
        i = i + 1;
    }
    assert(a@ =~= b@);
    true
}

fn is_bounding_box(name: &[u8]) -> (r: bool)
    ensures
        r == (name@ == bounding_box_name()),
{
    let k: [u8; 14] = [116, 116, 58, 66, 111, 117, 110, 100, 105, 110, 103, 66, 111, 120];
    assert(k@ =~= bounding_box_name());
    bytes_eq(name, k.as_slice())
}

fn is_center(name: &[u8]) -> (r: bool)
    ensures
        r == (name@ == center_name()),
{
    let k: [u8; 18] = [
        116, 116, 58, 67, 101, 110, 116, 101, 114, 79, 102, 71, 114, 97, 118, 105, 116, 121,
    ];
    assert(k@ =~= center_name());
    bytes_eq(name, k.as_slice())
}

fn is_plate(name: &[u8]) -> (r: bool)
    ensures
        r == (name@ == plate_name()),
{
    let k: [u8; 14] = [116, 116, 58, 80, 108, 97, 116, 101, 78, 117, 109, 98, 101, 114];
    assert(k@ =~= plate_name());
    bytes_eq(name, k.as_slice())
}

fn is_likelihood(name: &[u8]) -> (r: bool)
    ensures
        r == (name@ == likelihood_name()),
{
    let k: [u8; 13] = [116, 116, 58, 76, 105, 107, 101, 108, 105, 104, 111, 111, 100];
    assert(k@ =~= likelihood_name());
    bytes_eq(name, k.as_slice())
}

/// The index of the last readable attribute named `key`.
fn find_last(attrs: &Vec<Option<XmlAttr>>, key: &[u8]) -> (r: Option<usize>)
    ensures
        match r {
            Some(i) => last_index(attrs@, key@) == Some(i as int),
            None => last_index(attrs@, key@) is None,
        },
        r matches Some(i) ==> i < attrs@.len() && attrs@[i as int] is Some,
{
    let mut found: Option<usize> = None;
    let mut i: usize = 0;
    while i < attrs.len()
        invariant
            i <= attrs@.len(),
            match found {
                Some(j) => last_index(attrs@.take(i as int), key@) == Some(j as int),
                None => last_index(attrs@.take(i as int), key@) is None,
            },
            found matches Some(j) ==> j < i && attrs@[j as int] is Some,
        decreases attrs@.len() - i,
    {
        assert(attrs@.take(i + 1).drop_last() =~= attrs@.take(i as int));
        match &attrs[i] {
            Some(a) => {
                if bytes_eq(a.key.as_slice(), key) {
                    found = Some(i);
                }
            },
            None => {},
        }
        i = i + 1;
    }
    assert(attrs@.take(attrs@.len() as int) =~= attrs@);
    found
}

/// Reads the box of a `tt:BoundingBox` element with these attributes.
pub fn read_bounding_box(attrs: &Vec<Option<XmlAttr>>) -> (r: BoxReading)
    ensures
        r == bounding_box_spec(attrs@),
{
    let kl: [u8; 4] = [108, 101, 102, 116];
    let kt: [u8; 3] = [116, 111, 112];
    let kr: [u8; 5] = [114, 105, 103, 104, 116];
    let kb: [u8; 6] = [98, 111, 116, 116, 111, 109];
    assert(kl@ =~= left_key());
    assert(kt@ =~= top_key());
    assert(kr@ =~= right_key());
    assert(kb@ =~= bottom_key());
    let il = find_last(attrs, kl.as_slice());
    let it = find_last(attrs, kt.as_slice());
    let ir = find_last(attrs, kr.as_slice());
    let ib = find_last(attrs, kb.as_slice());
    match (il, it, ir, ib) {
        (Some(il), Some(it), Some(ir), Some(ib)) => {
            let l = parse_i32(attr_value(attrs, il));
            let t = parse_i32(attr_value(attrs, it));
            let r = parse_i32(attr_value(attrs, ir));
            let b = parse_i32(attr_value(attrs, ib));
            match (l, t, r, b) {
                (Some(l), Some(t), Some(r), Some(b)) => {
                    let w = r.checked_sub(l);
                    let h = b.checked_sub(t);
                    match (w, h) {
                        (Some(w), Some(h)) => BoxReading::Box(l, t, w, h),
                        _ => BoxReading::Overflow,
                    }
                },
                _ => BoxReading::Unreadable,
            }
        },
        _ => BoxReading::Missing,
    }
}

/// The raw value of a readable attribute.
fn attr_value(attrs: &Vec<Option<XmlAttr>>, i: usize) -> (v: &[u8])
    requires
        i < attrs@.len(),
        attrs@[i as int] is Some,
    ensures
        v@ == value_at(attrs@, i as int),
{
    match &attrs[i] {
        Some(a) => a.value.as_slice(),
        None => {
            assert(false);
            attrs[i].as_ref().unwrap().value.as_slice()
        },
    }
}

/// Whether `scan` can take the event: it is not a `tt:BoundingBox` whose width
/// or height overflows `i32`.
pub fn event_fits(event: &XmlEvent) -> (r: bool)
    ensures
        r == event_in_range(*event),
{
    match event {
        XmlEvent::Empty { name, attrs } => {
            if is_bounding_box(name.as_slice()) {
                match read_bounding_box(attrs) {
                    BoxReading::Overflow => false,
                    _ => true,
                }
            } else {
                true
            }
        },
        _ => true,
    }
}


/// The name of an empty element or start tag (empty for other events).
pub open spec fn event_name(event: XmlEvent) -> Seq<u8> {
    match event {
        XmlEvent::Empty { name, .. } => name@,
        XmlEvent::Start { name } => name@,
        _ => Seq::empty(),
    }
}

/// The attributes of an empty element (none for other events).
pub open spec fn event_attrs(event: XmlEvent) -> Seq<Option<XmlAttr>> {
    match event {
        XmlEvent::Empty { attrs, .. } => attrs@,
        _ => Seq::empty(),
    }
}

/// The text of a text event (empty for other events).
pub open spec fn event_text(event: XmlEvent) -> Seq<char> {
    match event {
        XmlEvent::Text { text, .. } => text@,
        _ => Seq::empty(),
    }
}

/// Whether a text event's text reads as a float (false for other events).
pub open spec fn event_float_ok(event: XmlEvent) -> bool {
    match event {
        XmlEvent::Text { float_ok, .. } => float_ok,
        _ => false,
    }
}

/// The attribute index an echo names, or `-1` for an echo of another kind.
pub open spec fn echo_index(e: XmlEcho) -> int {
    match e {
        XmlEcho::Attribute(i) => i as int,
        _ => -1,
    }
}

/// `echoes` echoes every readable attribute of `attrs` once, in order, and
/// nothing else: each echo names an attribute, the names go up strictly, and
/// an attribute is named exactly when it is readable.
pub open spec fn echoes_readable_attrs(echoes: Seq<XmlEcho>, attrs: Seq<Option<XmlAttr>>) -> bool {
    &&& forall|j: int| 0 <= j < echoes.len() ==> (#[trigger] echoes[j]) is Attribute
    &&& forall|j: int, k: int|
        0 <= j < k < echoes.len() ==> echo_index(#[trigger] echoes[j]) < echo_index(
            #[trigger] echoes[k],
        )
    &&& forall|i: int|
        0 <= i < attrs.len() ==> ((#[trigger] attrs[i]) is Some <==> exists|j: int|
            0 <= j < echoes.len() && echoes[j] == XmlEcho::Attribute(i as usize))
}

proof fn lemma_attribute_echoes_readable(attrs: Seq<Option<XmlAttr>>)
    requires
        attrs.len() <= usize::MAX,
    ensures
        echoes_readable_attrs(attribute_echoes(attrs), attrs),
        forall|j: int|
            0 <= j < attribute_echoes(attrs).len() ==> 0 <= echo_index(
                #[trigger] attribute_echoes(attrs)[j],
            ) < attrs.len(),
    decreases attrs.len(),
{
    if attrs.len() > 0 {
        let init = attrs.drop_last();
        lemma_attribute_echoes_readable(init);
        let e0 = attribute_echoes(init);
        let n = attrs.len() - 1;
        assert forall|i: int| 0 <= i < n implies #[trigger] init[i] == attrs[i] by {}
        if attrs.last() is Some {
            let e = e0.push(XmlEcho::Attribute(n as usize));
            assert(attribute_echoes(attrs) == e);
            assert forall|i: int|
                0 <= i < attrs.len() implies ((#[trigger] attrs[i]) is Some <==> exists|j: int|
                    0 <= j < e.len() && e[j] == XmlEcho::Attribute(i as usize)) by {
                if i < n {
                    assert(init[i] == attrs[i]);
                    if attrs[i] is Some {
                        let j = choose|j: int| 0 <= j < e0.len() && e0[j] == XmlEcho::Attribute(i as usize);
                        assert(e[j] == e0[j]);
                    }
                    if exists|j: int| 0 <= j < e.len() && e[j] == XmlEcho::Attribute(i as usize) {
                        let j = choose|j: int| 0 <= j < e.len() && e[j] == XmlEcho::Attribute(i as usize);
                        if j < e0.len() {
                            assert(e0[j] == e[j]);
                        } else {
                            assert(echo_index(e[j]) == n);
                        }
                    }
                } else {
                    assert(e[e0.len() as int] == XmlEcho::Attribute(i as usize));
                }
            }
            assert forall|j: int, k: int|
                0 <= j < k < e.len() implies echo_index(#[trigger] e[j]) < echo_index(#[trigger] e[k]) by {
                if k < e0.len() {
                    assert(e[j] == e0[j] && e[k] == e0[k]);
                } else {
                    assert(e[j] == e0[j]);
                }
            }
            assert forall|j: int| 0 <= j < e.len() implies 0 <= echo_index(#[trigger] e[j]) < attrs.len() by {
                if j < e0.len() {
                    assert(e[j] == e0[j]);
                }
            }
        } else {
            assert(attribute_echoes(attrs) == e0);
            assert forall|i: int|
                0 <= i < attrs.len() implies ((#[trigger] attrs[i]) is Some <==> exists|j: int|
                    0 <= j < e0.len() && e0[j] == XmlEcho::Attribute(i as usize)) by {
                if i < n {
                    assert(init[i] == attrs[i]);
                } else {
                    if exists|j: int| 0 <= j < e0.len() && e0[j] == XmlEcho::Attribute(i as usize) {
                        let j = choose|j: int| 0 <= j < e0.len() && e0[j] == XmlEcho::Attribute(i as usize);
                        assert(echo_index(e0[j]) == n);
                    }
                }
            }
        }
    }
}

/// A `tt:BoundingBox` echoes one `attr = ...` line per readable attribute, in
/// order, and nothing else.
pub proof fn lemma_bounding_box_echoes(event: XmlEvent)
    requires
        event is Empty,
        event_attrs(event).len() <= usize::MAX,
        event_name(event) == bounding_box_name(),
    ensures
        echoes_readable_attrs(scan_echoes(event), event_attrs(event)),
{
    lemma_attribute_echoes_readable(event_attrs(event));
}

/// A readable `tt:BoundingBox` replaces the box found so far, whatever it was,
/// and changes nothing else; one that does not read as a box changes nothing.
pub proof fn lemma_bounding_box_replaces(s: ScannerView, event: XmlEvent)
    requires
        event is Empty,
        event_name(event) == bounding_box_name(),
    ensures
        bounding_box_spec(event_attrs(event)) matches BoxReading::Box(x, y, w, h) ==> scan_next(
            s,
            event,
        ) == (ScannerView { bbox: Some((x, y, w, h)), ..s }),
        !(bounding_box_spec(event_attrs(event)) is Box) ==> scan_next(s, event) == s,
{
}

/// A start tag of `tt:PlateNumber` or `tt:Likelihood` echoes nothing and marks
/// the text that follows; any other start tag echoes one `tag = ...` line and
/// changes nothing.
pub proof fn lemma_start_tag(s: ScannerView, event: XmlEvent)
    requires
        event is Start,
    ensures
        event_name(event) == plate_name() ==> scan_echoes(event).len() == 0 && scan_next(s, event)
            == (ScannerView { in_plate: true, ..s }),
        event_name(event) == likelihood_name() ==> scan_echoes(event).len() == 0 && scan_next(
            s,
            event,
        ) == (ScannerView { in_score: true, ..s }),
        event_name(event) != plate_name() && event_name(event) != likelihood_name()
            ==> scan_echoes(event) == seq![XmlEcho::Tag] && scan_next(s, event) == s,
{
}

/// Text inside `tt:PlateNumber` (and not `tt:Likelihood`) replaces the plate
/// found so far; text inside `tt:Likelihood` (and not `tt:PlateNumber`) that
/// reads as a float replaces the likelihood found so far; whatever they held
/// before. Nothing else changes, and text elsewhere changes nothing.
pub proof fn lemma_text_replaces(s: ScannerView, event: XmlEvent)
    requires
        event is Text,
    ensures
        s.in_plate && !s.in_score ==> scan_next(s, event) == (ScannerView {
            plate: Some(event_text(event)),
            ..s
        }),
        !s.in_plate && s.in_score && event_float_ok(event) ==> scan_next(s, event) == (ScannerView {
            score: Some(event_text(event)),
            ..s
        }),
        !(s.in_plate && !s.in_score) && !(!s.in_plate && s.in_score && event_float_ok(event))
            ==> scan_next(s, event) == s,
        scan_echoes(event) == seq![XmlEcho::Text],
{
}

/// A `tt:CenterOfGravity` echoes one `attr = ...` line per readable
/// attribute, in order, then, when its last `x` and last `y` are both UTF-8
/// text, an `x = ...` and a `y = ...` line for them.
pub proof fn lemma_center_echoes(event: XmlEvent)
    requires
        event is Empty,
        event_name(event) == center_name(),
        event_attrs(event).len() <= usize::MAX,
    ensures
        ({
            let attrs = event_attrs(event);
            let echoes = scan_echoes(event);
            let k = attribute_echoes(attrs).len() as int;
            &&& echoes_readable_attrs(echoes.take(k), attrs)
            &&& k <= echoes.len()
            &&& match (last_index(attrs, x_key()), last_index(attrs, y_key())) {
                (Some(ix), Some(iy)) => if text_at(attrs, ix) is Some && text_at(attrs, iy) is Some {
                    echoes.skip(k) == seq![XmlEcho::CenterX(ix as usize), XmlEcho::CenterY(iy as usize)]
                } else {
                    echoes.len() == k
                },
                _ => echoes.len() == k,
            }
        }),
{
    reveal_bounding_box_differs();
    let attrs = event_attrs(event);
    lemma_attribute_echoes_readable(attrs);
    let e = attribute_echoes(attrs);
    assert(scan_echoes(event).take(e.len() as int) =~= e);
}

/// An empty element other than `tt:BoundingBox` and `tt:CenterOfGravity`
/// echoes one `empty tag = ...` line and changes nothing.
pub proof fn lemma_other_empty(s: ScannerView, event: XmlEvent)
    requires
        event is Empty,
        event_name(event) != bounding_box_name(),
        event_name(event) != center_name(),
    ensures
        scan_echoes(event) == seq![XmlEcho::EmptyTag],
        scan_next(s, event) == s,
{
}

/// An end tag leaves both `tt:PlateNumber` and `tt:Likelihood`, echoes nothing
/// and keeps every find; an error echoes its line and changes nothing; the end
/// of the document and any other event change nothing and echo nothing.
pub proof fn lemma_end_error_other(s: ScannerView, event: XmlEvent)
    ensures
        event is End ==> scan_next(s, event) == (ScannerView { in_plate: false, in_score: false, ..s })
            && scan_echoes(event).len() == 0,
        event is Error ==> scan_next(s, event) == s && scan_echoes(event) == seq![XmlEcho::Error],
        (event is Eof || event is Other) ==> scan_next(s, event) == s && scan_echoes(event).len() == 0,
{
}

/// A `tt:CenterOfGravity` whose last `x` and last `y` both read as floats
/// replaces the centre found so far, whatever it was, and changes nothing else.
pub proof fn lemma_center_replaces(s: ScannerView, event: XmlEvent, ix: int, iy: int)
    requires
        event is Empty,
        event_name(event) == center_name(),
        last_index(event_attrs(event), x_key()) == Some(ix),
        last_index(event_attrs(event), y_key()) == Some(iy),
        float_at(event_attrs(event), ix),
        float_at(event_attrs(event), iy),
    ensures
        scan_next(s, event) == (ScannerView {
            center: Some(
                (
                    text_at(event_attrs(event), ix)->Some_0,
                    text_at(event_attrs(event), iy)->Some_0,
                ),
            ),
            ..s
        }),
{
    reveal_bounding_box_differs();
}

proof fn reveal_bounding_box_differs()
    ensures
        center_name() != bounding_box_name(),
{
    assert(center_name()[3] != bounding_box_name()[3]);
}

/// What one event asks of the caller: the lines to echo, and whether the
/// document ended.
pub struct ScanStep {
    pub echoes: Vec<XmlEcho>,
    pub done: bool,
}

/// Appends one `Attribute` echo per readable attribute, in order.
fn push_attribute_echoes(attrs: &Vec<Option<XmlAttr>>, echoes: &mut Vec<XmlEcho>)
    ensures
        final(echoes)@ == old(echoes)@ + attribute_echoes(attrs@),
{
    let mut i: usize = 0;
    while i < attrs.len()
        invariant
            i <= attrs@.len(),
            echoes@ == old(echoes)@ + attribute_echoes(attrs@.take(i as int)),
        decreases attrs@.len() - i,
    {
        let ghost before = echoes@;
        assert(attrs@.take(i + 1).drop_last() =~= attrs@.take(i as int));
        match &attrs[i] {
            Some(_) => {
                echoes.push(XmlEcho::Attribute(i));
            },
            None => {},
        }
        assert(echoes@ =~= old(echoes)@ + attribute_echoes(attrs@.take(i + 1)));
        i = i + 1;
    }
    assert(attrs@.take(attrs@.len() as int) =~= attrs@);
}

/// The readable attribute at index `i`.
fn attr_at(attrs: &Vec<Option<XmlAttr>>, i: usize) -> (a: &XmlAttr)
    requires
        i < attrs@.len(),
        attrs@[i as int] is Some,
    ensures
        attrs@[i as int] == Some(*a),
{
    match &attrs[i] {
        Some(a) => a,
        None => {
            assert(false);
            attrs[i].as_ref().unwrap()
        },
    }
}

/// The text of an attribute that has one.
fn text_of(a: &XmlAttr) -> (t: String)
    requires
        a.text is Some,
    ensures
        a.text == Some(t),
{
    match &a.text {
        Some(t) => t.clone(),
        None => {
            assert(false);
            String::new()
        },
    }
}

impl PlateScanner {
    /// A scanner outside any element, which has found nothing yet.
    pub fn new() -> (s: PlateScanner)
        ensures
            s@ == (ScannerView {
                in_plate: false,
                in_score: false,
                plate: None,
                score: None,
                center: None,
                bbox: None,
            }),
    {
        PlateScanner {
            in_plate: false,
            in_score: false,
            plate: None,
            score: None,
            center: None,
            bbox: None,
        }
    }

    /// Takes one event: records what it brings, and says which lines to echo
    /// and whether the document ended. Entering `tt:PlateNumber` or
    /// `tt:Likelihood` marks the text that follows, until the next end tag;
    /// a later find replaces an earlier one.
    pub fn scan(&mut self, event: &XmlEvent) -> (step: ScanStep)
        requires
            event_in_range(*event),
        ensures
            final(self)@ == scan_next(old(self)@, *event),
            step.echoes@ == scan_echoes(*event),
            step.done == (*event is Eof),
            *event is Empty && event_name(*event) == bounding_box_name() ==> echoes_readable_attrs(
                step.echoes@,
                event_attrs(*event),
            ),
            *event is Empty && event_name(*event) == bounding_box_name() ==> (bounding_box_spec(
                event_attrs(*event),
            ) matches BoxReading::Box(x, y, w, h) ==> final(self)@.bbox == Some((x, y, w, h))),
            *event is Start && (event_name(*event) == plate_name() || event_name(*event)
                == likelihood_name()) ==> step.echoes@.len() == 0,
            *event is Start && event_name(*event) != plate_name() && event_name(*event)
                != likelihood_name() ==> step.echoes@ == seq![XmlEcho::Tag],
            *event is Text && !old(self)@.in_plate && old(self)@.in_score && event_float_ok(*event)
                ==> final(self)@.score == Some(event_text(*event)),
            *event is Text && old(self)@.in_plate && !old(self)@.in_score ==> final(self)@.plate
                == Some(event_text(*event)),
    {
        proof {
            match *event {
                XmlEvent::Empty { .. } => {
                    if event_name(*event) == bounding_box_name() {
                        lemma_bounding_box_replaces(old(self)@, *event);
                    }
                },
                XmlEvent::Start { .. } => lemma_start_tag(old(self)@, *event),
                XmlEvent::Text { .. } => lemma_text_replaces(old(self)@, *event),
                _ => {},
            }
        }
        let mut echoes: Vec<XmlEcho> = Vec::new();
        match event {
            XmlEvent::Eof => {
                return ScanStep { echoes, done: true };
            },
            XmlEvent::Empty { name, attrs } => {
                let attr_count = attrs.len();
                proof {
                    if name@ == bounding_box_name() {
                        assert(event_attrs(*event).len() == attr_count);
                        lemma_bounding_box_echoes(*event);
                    }
                }
                if is_bounding_box(name.as_slice()) {
                    push_attribute_echoes(attrs, &mut echoes);
                    match read_bounding_box(attrs) {
                        BoxReading::Box(x, y, w, h) => {
                            self.bbox = Some((x, y, w, h));
                        },
                        _ => {},
                    }
                } else if is_center(name.as_slice()) {
                    push_attribute_echoes(attrs, &mut echoes);
                    let kx: [u8; 1] = [120];
                    let ky: [u8; 1] = [121];
                    assert(kx@ =~= x_key());
                    assert(ky@ =~= y_key());
                    let ix = find_last(attrs, kx.as_slice());
                    let iy = find_last(attrs, ky.as_slice());
                    let ghost base = echoes@;
                    match (ix, iy) {
                        (Some(ix), Some(iy)) => {
                            let ax = attr_at(attrs, ix);
                            let ay = attr_at(attrs, iy);
                            if ax.text.is_some() && ay.text.is_some() {
                                echoes.push(XmlEcho::CenterX(ix));
                                echoes.push(XmlEcho::CenterY(iy));
                                assert(echoes@ =~= base + seq![
                                    XmlEcho::CenterX(ix),
                                    XmlEcho::CenterY(iy),
                                ]);
                                if ax.float_ok && ay.float_ok {
                                    self.center = Some((text_of(ax), text_of(ay)));
                                }
                            } else {
                                assert(echoes@ =~= base + Seq::<XmlEcho>::empty());
                            }
                        },
                        _ => {
                            assert(echoes@ =~= base + Seq::<XmlEcho>::empty());
                        },
                    }
                } else {
                    echoes.push(XmlEcho::EmptyTag);
                    assert(echoes@ =~= seq![XmlEcho::EmptyTag]);
                }
            },
            XmlEvent::Start { name } => {
                if is_plate(name.as_slice()) {
                    self.in_plate = true;
                } else if is_likelihood(name.as_slice()) {
                    self.in_score = true;
                } else {
                    echoes.push(XmlEcho::Tag);
                    assert(echoes@ =~= seq![XmlEcho::Tag]);
                }
            },
            XmlEvent::Text { text, float_ok } => {
                echoes.push(XmlEcho::Text);
                assert(echoes@ =~= seq![XmlEcho::Text]);
                if self.in_plate && !self.in_score {
                    self.plate = Some(text.clone());
                } else if !self.in_plate && self.in_score && *float_ok {
                    self.score = Some(text.clone());
                }
            },
            XmlEvent::End => {
                self.in_plate = false;
                self.in_score = false;
            },
            XmlEvent::Error => {
                echoes.push(XmlEcho::Error);
                assert(echoes@ =~= seq![XmlEcho::Error]);
            },
            XmlEvent::Other => {},
        }
        ScanStep { echoes, done: false }
    }

    /// What was found, once the plate, the likelihood, the centre and the box
    /// have all been seen; `None` while one of them is missing.
    pub fn report(&self) -> (r: Option<PlateReport>)
        ensures
            match r {
                Some(rep) => {
                    &&& self@.plate == Some(rep.plate@)
                    &&& self@.score == Some(rep.score@)
                    &&& self@.center == Some((rep.center.0@, rep.center.1@))
                    &&& self@.bbox == Some(rep.bbox)
                },
                None => self@.plate is None || self@.score is None || self@.center is None
                    || self@.bbox is None,
            },
    {
        match (&self.plate, &self.score, &self.center, self.bbox) {
            (Some(plate), Some(score), Some((x, y)), Some(bbox)) => Some(
                PlateReport {
                    plate: plate.clone(),
                    score: score.clone(),
                    center: (x.clone(), y.clone()),
                    bbox,
                },
            ),
            _ => None,
        }
    }
}

} // verus!
