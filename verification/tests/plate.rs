use playground::plate::{event_fits, read_bounding_box, BoxReading, PlateScanner, XmlAttr, XmlEcho, XmlEvent};

fn attr(key: &str, value: &str, float_ok: bool) -> Option<XmlAttr> {
    Some(XmlAttr {
        key: key.as_bytes().to_vec(),
        value: value.as_bytes().to_vec(),
        text: Some(value.to_string()),
        float_ok,
    })
}

fn start(name: &str) -> XmlEvent {
    XmlEvent::Start { name: name.as_bytes().to_vec() }
}

fn text(t: &str, float_ok: bool) -> XmlEvent {
    XmlEvent::Text { text: t.to_string(), float_ok }
}

fn empty(name: &str, attrs: Vec<Option<XmlAttr>>) -> XmlEvent {
    XmlEvent::Empty { name: name.as_bytes().to_vec(), attrs }
}

fn onvif_events() -> Vec<XmlEvent> {
    vec![
        XmlEvent::Other,
        start("tt:MetadataStream"),
        start("tt:VideoAnalytics"),
        start("tt:Frame"),
        start("tt:Transformation"),
        empty("tt:Translate", vec![attr("x", "-1.0", true), attr("y", "1.0", true)]),
        empty("tt:Scale", vec![attr("x", "0.0002", true), attr("y", "-0.0002", true)]),
        XmlEvent::End,
        start("tt:Object"),
        start("tt:Appearance"),
        start("tt:Shape"),
        empty(
            "tt:BoundingBox",
            vec![attr("left", "375", false), attr("top", "3112", false), attr("right", "1875", false), attr("bottom", "7445", false)],
        ),
        empty("tt:CenterOfGravity", vec![attr("x", "1125", true), attr("y", "5278", true)]),
        XmlEvent::End,
        start("tt:LicensePlateInfo"),
        start("tt:PlateNumber"),
        text("ABC-1234", false),
        XmlEvent::End,
        start("tt:Likelihood"),
        text("0.9", true),
        XmlEvent::End,
        start("tt:PlateType"),
        text("Normal", false),
        XmlEvent::End,
        XmlEvent::End,
        empty("tt:Behaviour", vec![]),
        XmlEvent::End,
        XmlEvent::Eof,
    ]
}

#[test]
fn finds_the_plate_in_the_onvif_sample() {
    let mut scanner = PlateScanner::new();
    let mut steps = 0;
    for ev in onvif_events() {
        assert!(event_fits(&ev));
        steps += 1;
        if scanner.scan(&ev).done {
            break;
        }
    }
    assert_eq!(steps, onvif_events().len());
    let report = scanner.report().expect("all four parts were seen");
    assert_eq!(report.plate, "ABC-1234");
    assert_eq!(report.score, "0.9");
    assert_eq!(report.center, ("1125".to_string(), "5278".to_string()));
    assert_eq!(report.bbox, (375, 3112, 1500, 4333));
}

#[test]
fn echoes() {
    let mut s = PlateScanner::new();
    assert_eq!(s.scan(&start("tt:Frame")).echoes, vec![XmlEcho::Tag]);
    assert_eq!(s.scan(&start("tt:PlateNumber")).echoes, vec![]);
    assert_eq!(s.scan(&text("X", false)).echoes, vec![XmlEcho::Text]);
    assert_eq!(s.scan(&empty("tt:Behaviour", vec![])).echoes, vec![XmlEcho::EmptyTag]);
    let step = s.scan(&empty("tt:CenterOfGravity", vec![attr("y", "2", true), None, attr("x", "1", true)]));
    assert_eq!(step.echoes, vec![XmlEcho::Attribute(0), XmlEcho::Attribute(2), XmlEcho::CenterX(2), XmlEcho::CenterY(0)]);
    assert!(!step.done);
    assert!(s.scan(&XmlEvent::Eof).done);
}

#[test]
fn text_outside_or_inside_both_is_ignored() {
    let mut s = PlateScanner::new();
    s.scan(&text("loose", true));
    s.scan(&start("tt:PlateNumber"));
    s.scan(&start("tt:Likelihood"));
    s.scan(&text("0.5", true));
    s.scan(&XmlEvent::End);
    s.scan(&text("after end", true));
    assert!(s.report().is_none());
}

#[test]
fn unreadable_score_keeps_the_previous_one() {
    let mut s = PlateScanner::new();
    for ev in [start("tt:Likelihood"), text("0.7", true), XmlEvent::End, start("tt:Likelihood"), text("high", false), XmlEvent::End] {
        s.scan(&ev);
    }
    for ev in [start("tt:PlateNumber"), text("P1", false), XmlEvent::End, start("tt:PlateNumber"), text("P2", false)] {
        s.scan(&ev);
    }
    s.scan(&empty("tt:CenterOfGravity", vec![attr("x", "1", true), attr("y", "2", true)]));
    s.scan(&empty("tt:CenterOfGravity", vec![attr("x", "nan?", false), attr("y", "3", true)]));
    s.scan(&empty("tt:BoundingBox", vec![attr("left", "1", false), attr("top", "2", false), attr("right", "4", false), attr("bottom", "8", false)]));
    let r = s.report().unwrap();
    assert_eq!(r.score, "0.7");
    assert_eq!(r.plate, "P2");
    assert_eq!(r.center, ("1".to_string(), "2".to_string()));
    assert_eq!(r.bbox, (1, 2, 3, 6));
}

#[test]
fn bounding_box_readings() {
    assert_eq!(read_bounding_box(&vec![attr("left", "1", false)]), BoxReading::Missing);
    assert_eq!(
        read_bounding_box(&vec![attr("left", "1", false), attr("top", "x", false), attr("right", "3", false), attr("bottom", "4", false)]),
        BoxReading::Unreadable
    );
    assert_eq!(
        read_bounding_box(&vec![attr("left", "1", false), attr("left", "2", false), attr("top", "0", false), attr("right", "10", false), attr("bottom", "-4", false)]),
        BoxReading::Box(2, 0, 8, -4)
    );
    let overflow = vec![attr("left", "-2147483648", false), attr("top", "0", false), attr("right", "1", false), attr("bottom", "0", false)];
    assert_eq!(read_bounding_box(&overflow), BoxReading::Overflow);
    assert!(!event_fits(&empty("tt:BoundingBox", overflow)));
}
