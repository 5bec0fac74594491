use playground::onvif::{raw_events_fit, read_xml_events, scan_events, RawKind, RawXmlEvent};
use playground::plate::XmlEcho;

const SAMPLE: &str = r#"<?xml version="1.0" encoding="UTF-8" standalone="yes"?>
<tt:MetadataStream xmlns:tt="http://www.onvif.org/ver10/schema">
  <tt:Frame UtcTime="2020-09-25T11:28:17.432Z">
    <tt:Shape>
      <tt:BoundingBox left="375" top="3112" right="1875" bottom="7445" />
      <tt:CenterOfGravity x="1125" y="5278" />
    </tt:Shape>
    <tt:LicensePlateInfo>
      <tt:PlateNumber>ABC-1234</tt:PlateNumber>
      <tt:Likelihood>0.9</tt:Likelihood>
    </tt:LicensePlateInfo>
    <tt:Behaviour />
  </tt:Frame>
</tt:MetadataStream>"#;

fn floats(events: &[RawXmlEvent]) -> Vec<Vec<bool>> {
    events
        .iter()
        .map(|e| match e.kind {
            RawKind::Empty => e
                .attrs
                .iter()
                .map(|a| a.as_ref().map_or(false, |(_, v)| std::str::from_utf8(v).map_or(false, |t| t.parse::<f32>().is_ok())))
                .collect(),
            RawKind::Text => vec![e.text.as_deref().map_or(false, |t| t.parse::<f32>().is_ok())],
            _ => vec![],
        })
        .collect()
}

#[test]
fn reads_events_up_to_the_end() {
    let events = read_xml_events(SAMPLE);
    assert_eq!(events.last().unwrap().kind, RawKind::Eof);
    assert_eq!(events.iter().filter(|e| e.kind == RawKind::Eof).count(), 1);
    let bbox = events.iter().find(|e| e.kind == RawKind::Empty).unwrap();
    assert_eq!(bbox.name, b"tt:BoundingBox".to_vec());
    assert_eq!(bbox.attrs[0], Some((b"left".to_vec(), b"375".to_vec())));
    assert!(events.iter().any(|e| e.kind == RawKind::Text && e.text.as_deref() == Some("ABC-1234")));
}

#[test]
fn document_to_plate_report() {
    let events = read_xml_events(SAMPLE);
    let marks = floats(&events);
    assert!(raw_events_fit(&events, &marks));
    let (echoes, report) = scan_events(&events, &marks);
    assert_eq!(echoes.len(), events.len());
    let report = report.unwrap();
    assert_eq!(report.plate, "ABC-1234");
    assert_eq!(report.score, "0.9");
    assert_eq!(report.center, ("1125".to_string(), "5278".to_string()));
    assert_eq!(report.bbox, (375, 3112, 1500, 4333));
    assert!(echoes.iter().any(|e| e == &vec![XmlEcho::Attribute(0), XmlEcho::Attribute(1), XmlEcho::CenterX(0), XmlEcho::CenterY(1)]));
}

#[test]
fn mismatched_end_tag_is_an_error_and_reading_goes_on() {
    let events = read_xml_events("<a></b><tt:PlateNumber>X</tt:PlateNumber>");
    assert!(events.iter().any(|e| e.kind == RawKind::Error));
    let marks = floats(&events);
    let (echoes, report) = scan_events(&events, &marks);
    assert!(report.is_none());
    assert!(echoes.iter().any(|e| e == &vec![XmlEcho::Error]));
}

#[test]
fn overflowing_box_is_refused_before_scanning() {
    let events = read_xml_events(r#"<tt:BoundingBox left="-2147483648" top="0" right="1" bottom="0"/>"#);
    let marks = floats(&events);
    assert!(!raw_events_fit(&events, &marks));
}

#[test]
fn scanning_stops_at_the_first_end_of_document() {
    let mut events = read_xml_events("<tt:PlateNumber>A</tt:PlateNumber>");
    let n = events.len();
    events.push(RawXmlEvent { kind: RawKind::Start, name: b"x".to_vec(), attrs: vec![], text: None });
    let marks = floats(&events);
    let (echoes, _) = scan_events(&events, &marks);
    assert_eq!(echoes.len(), n);
}
