use jex_core::xml::{xml_events, XmlEvent};

#[test]
fn xml_events_in_document_order() {
    let es = xml_events("<a>t<b/></a>");
    assert_eq!(
        es,
        vec![
            XmlEvent::Start("a".to_string()),
            XmlEvent::Text("t".to_string()),
            XmlEvent::Empty("b".to_string()),
            XmlEvent::End("a".to_string()),
            XmlEvent::Eof,
        ]
    );
}

#[test]
fn xml_events_of_empty_text() {
    assert_eq!(xml_events(""), vec![XmlEvent::Eof]);
}

#[test]
fn xml_events_unescape_and_stop_at_error() {
    let es = xml_events("<a>x &amp; y</a>");
    assert_eq!(es[1], XmlEvent::Text("x & y".to_string()));
    let es = xml_events("<a></b><c/>");
    assert_eq!(es.len(), 3);
    assert_eq!(es[0], XmlEvent::Start("a".to_string()));
    assert!(matches!(es[1], XmlEvent::Failed(_)));
    assert_eq!(es[2], XmlEvent::Eof);
}
