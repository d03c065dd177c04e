use vstd::prelude::*;
use crate::decode::{decode, decode_spec};
use crate::error::FeedError;
use crate::events::event_views;
use crate::extract::{extract, extract_spec, record_views};
use crate::project::{column_views, project, table_spec, table_views, Column, ColumnModel};
use crate::source::{collect_events, collected_of, events_of};

verus! {

/// What the whole conversion returns on the given bytes: the bytes
/// decode to text or the run fails; the text parses to its event stream,
/// whose extraction either fails on a nameless `param` or yields the
/// records that the columns project into the table.
pub open spec fn convert_spec(bytes: Seq<u8>, cols: Seq<ColumnModel>) -> Result<
    Seq<Seq<Seq<char>>>,
    FeedError,
> {
    match decode_spec(bytes) {
        Some(text) => match extract_spec(collected_of(events_of(text))) {
            Ok(recs) => Ok(table_spec(recs, cols)),
            Err(e) => Err(e),
        },
        None => Err(FeedError::Decode),
    }
}

/// Runs the whole conversion on raw feed bytes: decodes them, pulls the
/// structural events, extracts the offer records and projects them
/// through the columns into the output table.
pub fn feed_to_table(bytes: &[u8], columns: &Vec<Column>) -> (r: Result<
    Vec<Vec<String>>,
    FeedError,
>)
    ensures
        match r {
            Ok(t) => convert_spec(bytes@, column_views(columns@)) == Ok::<
                Seq<Seq<Seq<char>>>,
                FeedError,
            >(table_views(t@)),
            Err(e) => convert_spec(bytes@, column_views(columns@)) == Err::<
                Seq<Seq<Seq<char>>>,
                FeedError,
            >(e),
        },
{
    let text = match decode(bytes) {
        Ok(t) => t,
        Err(e) => {
            return Err(e);
        },
    };
    let events = collect_events(text.as_str());
    proof {
        assert(event_views(events@) == collected_of(events_of(text@)));
    }
    let records = match extract(&events) {
        Ok(rs) => rs,
        Err(e) => {
            return Err(e);
        },
    };
    let t = project(&records, columns);
    proof {
        assert(table_views(t@) == table_spec(record_views(records@), column_views(columns@)));
    }
    Ok(t)
}

} // verus!
