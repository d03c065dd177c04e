use vstd::prelude::*;
use xml::reader::{EventReader, XmlEvent};
use crate::events::{event_views, Attr, EventModel, FeedEvent};

verus! {

/// A pull source of structural events over the decoded text.
///
/// Holds xml's `EventReader`, whose declaration Verus refuses (its type
/// parameter is bound by an outside trait), so the whole struct stays
/// opaque; its pending events are named by `remaining_events`.
#[verifier::external_body]
pub struct EventSource<'a> {
    reader: EventReader<&'a [u8]>,
}

/// What the pull parser yields on the given text, event by event, through
/// the terminal event (the document's end, or the first broken-markup
/// report): with its default configuration the parser is a function of
/// the text alone.
pub uninterp spec fn events_of(text: Seq<char>) -> Seq<EventModel>;

/// The events a source has not yet handed out.
pub uninterp spec fn remaining_events(src: EventSource) -> Seq<EventModel>;

/// The shape of a full parse stream: it is never empty, it ends with the
/// document's end or a broken-markup report, and that terminal event
/// comes only at the end.
pub open spec fn stream_wf(evs: Seq<EventModel>) -> bool {
    &&& evs.len() > 0
    &&& (evs.last() is DocEnd || evs.last() is Broken)
    &&& forall|i: int|
        0 <= i < evs.len() - 1 ==> !((#[trigger] evs[i]) is DocEnd) && !(evs[i] is Broken)
}

/// The events the extractor consumes out of a full parse stream: all of
/// it up to the document's end (not kept) or the first broken-markup
/// report (kept, where the extractor stops).
pub open spec fn collected_of(evs: Seq<EventModel>) -> Seq<EventModel> {
    if evs.len() > 0 && evs.last() is DocEnd {
        evs.drop_last()
    } else {
        evs
    }
}

impl<'a> EventSource<'a> {
    /// Relies on xml's `EventReader::new` with the default configuration:
    /// a pull parser whose events are a function of the text alone, and
    /// whose stream always closes with the document's end or with an
    /// error, each of which ends the stream.
    #[verifier::external_body]
    fn new(text: &'a str) -> (r: EventSource<'a>)
        ensures
            remaining_events(r) == events_of(text@),
            stream_wf(remaining_events(r)),
    {
        EventSource { reader: EventReader::new(text.as_bytes()) }
    }

    /// Relies on xml's `EventReader::next`: the next pending structural
    /// event of the document. Opening and closing elements are read by
    /// their local name; what the extractor does not read comes back as
    /// `Skip`.
    #[verifier::external_body]
    fn next_event(&mut self) -> (ev: FeedEvent)
        ensures
            remaining_events(*old(self)).len() > 0 ==> ev@ == remaining_events(
                *old(self),
            ).first(),
            remaining_events(*old(self)).len() > 0 ==> remaining_events(*final(self))
                == remaining_events(*old(self)).drop_first(),
    {
        match self.reader.next() {
            Ok(XmlEvent::StartElement { name, attributes, .. }) => FeedEvent::Open {
                name: name.local_name,
                attrs: attributes
                    .into_iter()
                    .map(|a| Attr { name: a.name.local_name, value: a.value })
                    .collect(),
            },
            Ok(XmlEvent::EndElement { name }) => FeedEvent::Close { name: name.local_name },
            Ok(XmlEvent::Characters(data)) => FeedEvent::Text { data },
            Ok(XmlEvent::EndDocument) => FeedEvent::DocEnd,
            Ok(_) => FeedEvent::Skip,
            Err(_) => FeedEvent::Broken,
        }
    }
}

/// Pulls every structural event out of the decoded text, up to the end of
/// the document (not kept) or the first broken-markup report (kept as the
/// last event, where the extractor stops).
pub fn collect_events(text: &str) -> (r: Vec<FeedEvent>)
    ensures
        event_views(r@) == collected_of(events_of(text@)),
{
    let ghost whole = events_of(text@);
    let mut reader = EventSource::new(text);
    let mut events: Vec<FeedEvent> = Vec::new();
    proof {
        assert(event_views(events@) + remaining_events(reader) =~= whole);
    }
    loop
        invariant
            whole == events_of(text@),
            stream_wf(whole),
            whole == event_views(events@) + remaining_events(reader),
            forall|j: int|
                0 <= j < events@.len() ==> !((#[trigger] events@[j]@) is DocEnd) && !(
                events@[j]@ is Broken),
        decreases remaining_events(reader).len(),
    {
        let ghost collected = event_views(events@);
        let ghost pending = remaining_events(reader);
        proof {
            if pending.len() == 0 {
                assert(whole =~= collected);
                assert(whole.last() == events@[whole.len() - 1]@);
                assert(false);
            }
            assert(pending.first() == whole[collected.len() as int]);
            if pending.first() is DocEnd || pending.first() is Broken {
                // the terminal event stands only at the stream's end
                assert(collected.len() == whole.len() - 1);
                assert(pending.len() == 1);
            }
        }
        let ev = reader.next_event();
        match ev {
            FeedEvent::DocEnd => {
                proof {
                    assert(collected_of(whole) =~= collected);
                }
                return events;
            },
            FeedEvent::Broken => {
                events.push(FeedEvent::Broken);
                proof {
                    assert(event_views(events@) =~= whole);
                    assert(collected_of(whole) == whole);
                }
                return events;
            },
            _ => {
                events.push(ev);
                proof {
                    assert(event_views(events@) + remaining_events(reader) =~= whole);
                }
            },
        }
    }
}

} // verus!
