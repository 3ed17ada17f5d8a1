//! XML events of a text, as quick-xml reads them.

use vstd::prelude::*;
use quick_xml::events::Event;

verus! {

/// quick-xml's reader over a string slice.
#[verifier::external_type_specification]
#[verifier::external_body]
#[verifier::reject_recursive_types(R)]
pub struct ExXmlReader<R>(quick_xml::Reader<R>);

/// One XML event: what the POM readers of this crate look at.
#[derive(Debug, Clone, PartialEq, Eq)]
pub enum XmlEvent {
    /// Opening tag, by name.
    Start(String),
    /// Self-closing tag, by name.
    Empty(String),
    /// Closing tag, by name.
    End(String),
    /// Character data, unescaped.
    Text(String),
    /// Character data that could not be unescaped, with the error's message.
    BadText(String),
    /// End of input.
    Eof,
    /// A reading error, with its message.
    Failed(String),
    /// The reading was cut short: more events came than the text has
    /// characters, without the end of input.
    CutShort,
    /// Any other event (comments, declarations, ...).
    Other,
}

/// The `k`-th event (from 0) that quick-xml's `Reader::read_event` yields,
/// as `next_event` converts it, on a reader made by `Reader::from_str` of the
/// text `content` with default settings.  The reader is deterministic: the
/// events depend on the text alone.
pub uninterp spec fn xml_event_at(content: Seq<char>, k: nat) -> XmlEvent;

/// A quick-xml reader of a text, with the text and the number of events
/// read so far.  Only `xml_reader` and `next_event` make or move it.
pub struct XmlReader<'a> {
    inner: quick_xml::Reader<&'a [u8]>,
    text: Ghost<Seq<char>>,
    count: Ghost<nat>,
}

impl<'a> XmlReader<'a> {
    /// The text being read.
    pub closed spec fn text(&self) -> Seq<char> {
        self.text@
    }

    /// How many events were read.
    pub closed spec fn count(&self) -> nat {
        self.count@
    }
}

/// A reader of the XML text `s` (quick-xml's `Reader::from_str`, default
/// settings), before its first event.
#[verifier::external_body]
fn xml_reader<'a>(s: &'a str) -> (r: XmlReader<'a>)
    ensures
        r.text() == s@,
        r.count() == 0,
{
    XmlReader { inner: quick_xml::Reader::from_str(s), text: Ghost(s@), count: Ghost(0) }
}

/// The next event (quick-xml's `Reader::read_event`), with tag names read
/// as UTF-8 (lossily) and text unescaped: the event numbered by the count
/// of events read before, in the reader's text.
#[verifier::external_body]
fn next_event(reader: &mut XmlReader) -> (e: XmlEvent)
    ensures
        e == xml_event_at(old(reader).text(), old(reader).count()),
        final(reader).text() == old(reader).text(),
        final(reader).count() == old(reader).count() + 1,
{
    match reader.inner.read_event() {
        Ok(Event::Start(e)) => XmlEvent::Start(String::from_utf8_lossy(e.name().as_ref()).to_string()),
        Ok(Event::Empty(e)) => XmlEvent::Empty(String::from_utf8_lossy(e.name().as_ref()).to_string()),
        Ok(Event::End(e)) => XmlEvent::End(String::from_utf8_lossy(e.name().as_ref()).to_string()),
        Ok(Event::Text(t)) => match t.unescape() {
            Ok(c) => XmlEvent::Text(c.to_string()),
            Err(e) => XmlEvent::BadText(e.to_string()),
        },
        Ok(Event::Eof) => XmlEvent::Eof,
        Ok(_) => XmlEvent::Other,
        Err(e) => XmlEvent::Failed(e.to_string()),
    }
}

/// The event ends the stream: quick-xml goes on reading after an error, so
/// only the end of input (or a reading cut short) does.
pub open spec fn is_final(e: XmlEvent) -> bool {
    e is Eof || e is CutShort
}

/// A stream of events as a reading yields them: it ends with its only
/// `Eof` or `CutShort`.
pub open spec fn event_stream(es: Seq<XmlEvent>) -> bool {
    &&& es.len() > 0
    &&& is_final(es.last())
    &&& forall|i: int| 0 <= i < es.len() - 1 ==> !is_final(#[trigger] es[i])
}

/// The events of `c` from the `k`-th on, with at most `left` more read:
/// through the first `Eof`, or, when `left` events pass without one,
/// those events and `CutShort`.
pub open spec fn events_from(c: Seq<char>, k: nat, left: nat) -> Seq<XmlEvent>
    decreases left,
{
    if left == 0 {
        seq![XmlEvent::CutShort]
    } else if is_final(xml_event_at(c, k)) {
        seq![xml_event_at(c, k)]
    } else {
        seq![xml_event_at(c, k)] + events_from(c, k + 1, (left - 1) as nat)
    }
}

/// The events of the text `c` as `xml_events` reads them: quick-xml's
/// events, errors included, through the first `Eof`, reading at most one event more
/// than `c` has characters.
pub open spec fn xml_events_of(c: Seq<char>) -> Seq<XmlEvent> {
    events_from(c, 0, c.len() + 1)
}

/// The events of an XML text, errors included, through the first `Eof`.
///
/// quick-xml moves forward in its input with every event but the last, so
/// a text has at most one event more than characters; should more come, the
/// reading stops with `CutShort`, so that it always ends.
pub fn xml_events(content: &str) -> (r: Vec<XmlEvent>)
    ensures
        r@ == xml_events_of(content@),
        event_stream(r@),
{
    let ghost c = content@;
    let mut reader = xml_reader(content);
    let limit = content.unicode_len();
    let mut events: Vec<XmlEvent> = Vec::new();
    let mut i: usize = 0;
    assert(events@ + events_from(c, 0, (limit + 1) as nat) =~= xml_events_of(c));
    loop
        invariant_except_break
            c == content@,
            limit == c.len(),
            reader.text() == c,
            reader.count() == i,
            events@.len() == i,
            i <= limit,
            xml_events_of(c) == events@ + events_from(c, i as nat, (limit + 1 - i) as nat),
            forall|j: int| 0 <= j < events@.len() ==> !is_final(#[trigger] events@[j]),
        ensures
            events@ == xml_events_of(c),
            event_stream(events@),
        decreases limit - i,
    {
        let ghost ev0 = events@;
        let ghost left: nat = (limit + 1 - i) as nat;
        let e = next_event(&mut reader);
        assert(e == xml_event_at(c, i as nat));
        let done = match &e {
            XmlEvent::Eof => true,
            XmlEvent::CutShort => true,
            _ => false,
        };
        if done {
            events.push(e);
            assert(events_from(c, i as nat, left) == seq![e]);
            assert(events@ =~= ev0 + seq![e]);
            assert(events@.drop_last() =~= ev0);
            break;
        }
        events.push(e);
        let ghost rest = events_from(c, (i + 1) as nat, (left - 1) as nat);
        assert(events_from(c, i as nat, left) == seq![e] + rest);
        assert(ev0 + (seq![e] + rest) =~= events@ + rest);
        if i == limit {
            assert(rest == seq![XmlEvent::CutShort]);
            events.push(XmlEvent::CutShort);
            assert(events@ =~= ev0.push(e) + rest);
            assert(events@.drop_last() =~= ev0.push(e));
            break;
        }
        i += 1;
    }
    events
}

} // verus!
