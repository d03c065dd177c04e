use vstd::prelude::*;
use vstd::string::*;
use crate::casefold::{lower_of, to_lower};
use crate::error::FeedError;
use crate::events::{attr_views, event_views, name_attr, spec_name_attr, EventModel, FeedEvent};
use crate::record::Record;

verus! {

/// The extractor's cursor while folding the event stream.
pub struct ExtractState {
    /// Whether an "offer" element is open.
    pub inside: bool,
    /// The field the next text chunk belongs to, as the document wrote it
    /// (not yet lowercased). Deliberately not reset when a non-"offer"
    /// element closes: trailing text is attributed to the stale field,
    /// as the feed dialect has it.
    pub field: Seq<char>,
    /// The record being filled.
    pub current: Map<Seq<char>, Seq<char>>,
    /// The completed records, in document order.
    pub done: Seq<Map<Seq<char>, Seq<char>>>,
}

/// The cursor before any event: outside any offer, no field open.
pub open spec fn init_state() -> ExtractState {
    ExtractState {
        inside: false,
        field: Seq::empty(),
        current: Map::empty(),
        done: Seq::empty(),
    }
}

/// What one event does to the cursor.
pub enum StepResult {
    /// Folding continues in the new state.
    Next(ExtractState),
    /// Broken markup: folding stops, keeping the records completed so far.
    Stop,
    /// A `param` element inside an offer lacks its "name" attribute: the
    /// whole extraction fails.
    Fail,
}

/// The value stored for `key` when the text chunk `text` arrives: repeated
/// "picture" fields accumulate behind a ";;;" separator, every other field
/// is overwritten.
pub open spec fn merged_value(
    current: Map<Seq<char>, Seq<char>>,
    key: Seq<char>,
    text: Seq<char>,
) -> Seq<char> {
    if key == "picture"@ && current.dom().contains(key) {
        current[key] + ";;;"@ + text
    } else {
        text
    }
}

/// One transition of the extractor: an "offer" opening begins an empty
/// record, an opening child names the field the next text belongs to (a
/// `param` through its "name" attribute, any other tag through its own
/// name), text fills the current field of the current record, and an
/// "offer" closing completes the record. Events outside an offer are
/// ignored.
pub open spec fn step(st: ExtractState, ev: EventModel) -> StepResult {
    match ev {
        EventModel::Open { name, attrs } => {
            if name == "offer"@ {
                StepResult::Next(
                    ExtractState {
                        inside: true,
                        field: st.field,
                        current: Map::empty(),
                        done: st.done,
                    },
                )
            } else if !st.inside {
                StepResult::Next(st)
            } else if name == "param"@ {
                match spec_name_attr(attrs) {
                    Some(v) => StepResult::Next(
                        ExtractState { inside: st.inside, field: v, current: st.current, done: st.done },
                    ),
                    None => StepResult::Fail,
                }
            } else {
                StepResult::Next(
                    ExtractState { inside: st.inside, field: name, current: st.current, done: st.done },
                )
            }
        },
        EventModel::Close { name } => {
            if name == "offer"@ && st.inside {
                StepResult::Next(
                    ExtractState {
                        inside: false,
                        field: st.field,
                        current: Map::empty(),
                        done: st.done.push(st.current),
                    },
                )
            } else {
                StepResult::Next(st)
            }
        },
        EventModel::Text { data } => {
            if st.inside {
                let key = lower_of(st.field);
                StepResult::Next(
                    ExtractState {
                        inside: st.inside,
                        field: st.field,
                        current: st.current.insert(key, merged_value(st.current, key, data)),
                        done: st.done,
                    },
                )
            } else {
                StepResult::Next(st)
            }
        },
        EventModel::Skip => StepResult::Next(st),
        EventModel::DocEnd => StepResult::Next(st),
        EventModel::Broken => StepResult::Stop,
    }
}

/// Folds an event sequence from the given cursor: the record lists of the
/// completed offers, or the fatal missing-attribute error.
pub open spec fn fold_events(events: Seq<EventModel>, st: ExtractState) -> Result<
    Seq<Map<Seq<char>, Seq<char>>>,
    FeedError,
>
    decreases events.len(),
{
    if events.len() == 0 {
        Ok(st.done)
    } else {
        match step(st, events.first()) {
            StepResult::Next(st2) => fold_events(events.drop_first(), st2),
            StepResult::Stop => Ok(st.done),
            StepResult::Fail => Err(FeedError::MissingNameAttribute),
        }
    }
}

/// The record list an event sequence extracts to.
pub open spec fn extract_spec(events: Seq<EventModel>) -> Result<
    Seq<Map<Seq<char>, Seq<char>>>,
    FeedError,
> {
    fold_events(events, init_state())
}

pub open spec fn record_views(s: Seq<Record>) -> Seq<Map<Seq<char>, Seq<char>>> {
    s.map_values(|r: Record| r@)
}

/// Folds the event stream into the list of completed offer records, in
/// document order. Broken markup ends the fold early, keeping the records
/// completed so far; a `param` inside an offer without its "name"
/// attribute fails the whole extraction.
pub fn extract(events: &Vec<FeedEvent>) -> (r: Result<Vec<Record>, FeedError>)
    ensures
        match r {
            Ok(recs) => extract_spec(event_views(events@)) == Ok::<
                Seq<Map<Seq<char>, Seq<char>>>,
                FeedError,
            >(record_views(recs@)),
            Err(e) => e == FeedError::MissingNameAttribute && extract_spec(event_views(events@))
                == Err::<Seq<Map<Seq<char>, Seq<char>>>, FeedError>(e),
        },
{
    let offer_lit: String = "offer".to_owned();
    let param_lit: String = "param".to_owned();
    let picture_lit: String = "picture".to_owned();
    let sep: String = ";;;".to_owned();

    let mut inside = false;
    let mut field: String = String::new();
    let mut current = Record::new();
    let mut done: Vec<Record> = Vec::new();

    let ghost all = event_views(events@);
    proof {
        assert(all.skip(0) =~= all);
        assert(record_views(done@) =~= Seq::empty());
    }
    let mut i: usize = 0;
    while i < events.len()
        invariant
            i <= events.len(),
            all == event_views(events@),
            offer_lit@ == "offer"@,
            param_lit@ == "param"@,
            picture_lit@ == "picture"@,
            sep@ == ";;;"@,
            extract_spec(all) == fold_events(
                all.skip(i as int),
                ExtractState {
                    inside: inside,
                    field: field@,
                    current: current@,
                    done: record_views(done@),
                },
            ),
        decreases events.len() - i,
    {
        let ghost st = ExtractState {
            inside: inside,
            field: field@,
            current: current@,
            done: record_views(done@),
        };
        proof {
            assert(all.skip(i as int).first() == all[i as int]);
            assert(all[i as int] == events@[i as int]@);
            assert(all.skip(i as int).drop_first() =~= all.skip(i as int + 1));
        }
        let ev = &events[i];
        match ev {
            FeedEvent::Open { name, attrs } => {
                if *name == offer_lit {
                    inside = true;
                    current = Record::new();
                } else if inside {
                    if *name == param_lit {
                        match name_attr(attrs) {
                            Some(v) => {
                                field = v.clone();
                            },
                            None => {
                                return Err(FeedError::MissingNameAttribute);
                            },
                        }
                    } else {
                        field = name.clone();
                    }
                }
            },
            FeedEvent::Close { name } => {
                if *name == offer_lit && inside {
                    inside = false;
                    let finished = current;
                    current = Record::new();
                    let ghost done0 = done@;
                    done.push(finished);
                    proof {
                        assert(record_views(done@) =~= record_views(done0).push(finished@));
                    }
                }
            },
            FeedEvent::Text { data } => {
                if inside {
                    let key = to_lower(&field);
                    let value = if key == picture_lit {
                        match current.get(&key) {
                            Some(prev) => prev.clone().concat(sep.as_str()).concat(data.as_str()),
                            None => data.clone(),
                        }
                    } else {
                        data.clone()
                    };
                    current.insert(key, value);
                }
            },
            FeedEvent::Skip => {},
            FeedEvent::DocEnd => {},
            FeedEvent::Broken => {
                return Ok(done);
            },
        }
        i = i + 1;
    }
    proof {
        assert(all.skip(i as int).len() == 0);
    }
    Ok(done)
}

/// No event of the sequence is a broken-markup report.
pub open spec fn no_broken(evs: Seq<EventModel>) -> bool {
    forall|i: int| 0 <= i < evs.len() ==> !(#[trigger] evs[i] is Broken)
}

/// Every `param` element of the sequence carries its "name" attribute.
pub open spec fn params_named(evs: Seq<EventModel>) -> bool {
    forall|i: int|
        0 <= i < evs.len() ==> match #[trigger] evs[i] {
            EventModel::Open { name, attrs } => name == "param"@ ==> spec_name_attr(attrs)
                is Some,
            _ => true,
        }
}

/// "offer" opens and closes alternate properly from the given phase: no
/// nested offer and no stray close.
pub open spec fn offers_alternate(evs: Seq<EventModel>, inside: bool) -> bool
    decreases evs.len(),
{
    if evs.len() == 0 {
        true
    } else {
        match evs.first() {
            EventModel::Open { name, attrs } => if name == "offer"@ {
                !inside && offers_alternate(evs.drop_first(), true)
            } else {
                offers_alternate(evs.drop_first(), inside)
            },
            EventModel::Close { name } => if name == "offer"@ {
                inside && offers_alternate(evs.drop_first(), false)
            } else {
                offers_alternate(evs.drop_first(), inside)
            },
            _ => offers_alternate(evs.drop_first(), inside),
        }
    }
}

/// The number of "offer" elements the sequence closes.
pub open spec fn closed_offer_count(evs: Seq<EventModel>) -> nat
    decreases evs.len(),
{
    if evs.len() == 0 {
        0
    } else {
        (match evs.first() {
            EventModel::Close { name } => if name == "offer"@ {
                1nat
            } else {
                0nat
            },
            _ => 0nat,
        }) + closed_offer_count(evs.drop_first())
    }
}

/// A well-formed feed: the markup never breaks, record boundaries
/// alternate, and every `param` carries its "name" attribute.
pub open spec fn well_formed(evs: Seq<EventModel>) -> bool {
    no_broken(evs) && offers_alternate(evs, false) && params_named(evs)
}

proof fn lemma_tail_wf(evs: Seq<EventModel>)
    requires
        evs.len() > 0,
        no_broken(evs),
        params_named(evs),
    ensures
        no_broken(evs.drop_first()),
        params_named(evs.drop_first()),
{
    assert forall|i: int| 0 <= i < evs.drop_first().len() implies !(
    #[trigger] evs.drop_first()[i] is Broken) by {
        assert(evs.drop_first()[i] == evs[i + 1]);
    }
    assert forall|i: int| 0 <= i < evs.drop_first().len() implies match #[trigger] evs.drop_first()[i] {
        EventModel::Open { name, attrs } => name == "param"@ ==> spec_name_attr(attrs) is Some,
        _ => true,
    } by {
        assert(evs.drop_first()[i] == evs[i + 1]);
    }
}

proof fn lemma_fold_count(evs: Seq<EventModel>, st: ExtractState)
    requires
        no_broken(evs),
        params_named(evs),
        offers_alternate(evs, st.inside),
    ensures
        fold_events(evs, st) matches Ok(out) && out.len() == st.done.len() + closed_offer_count(
            evs,
        ),
    decreases evs.len(),
{
    if evs.len() > 0 {
        assert(evs.first() == evs[0]);
        lemma_tail_wf(evs);
        match step(st, evs.first()) {
            StepResult::Next(st2) => {
                lemma_fold_count(evs.drop_first(), st2);
            },
            StepResult::Stop => {
                assert(false);
            },
            StepResult::Fail => {
                assert(false);
            },
        }
    }
}

/// For a well-formed feed the extraction succeeds and yields exactly one
/// record per closed "offer" element.
pub proof fn lemma_record_count(evs: Seq<EventModel>)
    requires
        well_formed(evs),
    ensures
        extract_spec(evs) matches Ok(recs) && recs.len() == closed_offer_count(evs),
{
    lemma_fold_count(evs, init_state());
}

/// Every key of the record is an image of the named case folding: keys
/// enter a record only through it.
pub open spec fn keys_folded(rec: Map<Seq<char>, Seq<char>>) -> bool {
    forall|k: Seq<char>|
        #[trigger] rec.dom().contains(k) ==> exists|s: Seq<char>| k == #[trigger] lower_of(s)
}

proof fn lemma_fold_keys_folded(evs: Seq<EventModel>, st: ExtractState)
    requires
        forall|i: int| 0 <= i < st.done.len() ==> keys_folded(#[trigger] st.done[i]),
        keys_folded(st.current),
    ensures
        match fold_events(evs, st) {
            Ok(out) => forall|i: int| 0 <= i < out.len() ==> keys_folded(#[trigger] out[i]),
            Err(_) => true,
        },
    decreases evs.len(),
{
    if evs.len() > 0 {
        match step(st, evs.first()) {
            StepResult::Next(st2) => {
                assert(keys_folded(Map::<Seq<char>, Seq<char>>::empty()));
                // the one writing transition stores the folded field name
                assert(lower_of(st.field) == lower_of(st.field));
                lemma_fold_keys_folded(evs.drop_first(), st2);
            },
            StepResult::Stop => {},
            StepResult::Fail => {},
        }
    }
}

/// Field names reach a record's key set only through the named case
/// folding: every key of every extracted record is `lower_of` of some
/// field name. (That such a key equals its own folding would additionally
/// need idempotence of the folding, which nothing here states of the
/// outside function.)
pub proof fn lemma_keys_are_folded(evs: Seq<EventModel>)
    ensures
        match extract_spec(evs) {
            Ok(recs) => forall|i: int| 0 <= i < recs.len() ==> keys_folded(#[trigger] recs[i]),
            Err(_) => true,
        },
{
    assert(keys_folded(Map::<Seq<char>, Seq<char>>::empty()));
    lemma_fold_keys_folded(evs, init_state());
}

/// Extraction has no hidden state: any two results that the extractor's
/// contract admits for the same event sequence are identical, since the
/// result is pinned to a function of the events alone.
pub proof fn lemma_extract_repeatable(
    evs: Seq<EventModel>,
    r1: Result<Seq<Map<Seq<char>, Seq<char>>>, FeedError>,
    r2: Result<Seq<Map<Seq<char>, Seq<char>>>, FeedError>,
)
    requires
        r1 == extract_spec(evs),
        r2 == extract_spec(evs),
    ensures
        r1 == r2,
{
}

/// Picture merge: a text chunk arriving while the open field folds to
/// "picture", for a record that already holds a picture, appends behind a
/// ";;;" separator instead of overwriting.
pub proof fn lemma_picture_merge(st: ExtractState, text: Seq<char>)
    requires
        st.inside,
        lower_of(st.field) == "picture"@,
        st.current.dom().contains("picture"@),
    ensures
        step(st, EventModel::Text { data: text }) matches StepResult::Next(st2)
            && st2.current["picture"@] == st.current["picture"@] + ";;;"@ + text,
{
}

proof fn lemma_fold_broken(prefix: Seq<EventModel>, rest: Seq<EventModel>, st: ExtractState)
    requires
        no_broken(prefix),
        fold_events(prefix, st) is Ok,
    ensures
        fold_events(prefix + seq![EventModel::Broken] + rest, st) == fold_events(prefix, st),
    decreases prefix.len(),
{
    let all = prefix + seq![EventModel::Broken] + rest;
    if prefix.len() == 0 {
        assert(all.first() == EventModel::Broken);
    } else {
        assert(all.first() == prefix.first());
        assert(prefix.first() == prefix[0]);
        match step(st, prefix.first()) {
            StepResult::Next(st2) => {
                assert(all.drop_first() =~= prefix.drop_first() + seq![EventModel::Broken]
                    + rest);
                lemma_tail_wf_broken(prefix);
                lemma_fold_broken(prefix.drop_first(), rest, st2);
            },
            StepResult::Stop => {
                assert(false);
            },
            StepResult::Fail => {
                assert(false);
            },
        }
    }
}

proof fn lemma_tail_wf_broken(evs: Seq<EventModel>)
    requires
        evs.len() > 0,
        no_broken(evs),
    ensures
        no_broken(evs.drop_first()),
{
    assert forall|i: int| 0 <= i < evs.drop_first().len() implies !(
    #[trigger] evs.drop_first()[i] is Broken) by {
        assert(evs.drop_first()[i] == evs[i + 1]);
    }
}

/// Partial results: an event stream that folds cleanly through a prefix
/// and then reports broken markup yields exactly the records completed in
/// the prefix — they are kept, and nothing past the break is read.
pub proof fn lemma_partial_results(prefix: Seq<EventModel>, rest: Seq<EventModel>)
    requires
        no_broken(prefix),
        extract_spec(prefix) is Ok,
    ensures
        extract_spec(prefix + seq![EventModel::Broken] + rest) == extract_spec(prefix),
{
    lemma_fold_broken(prefix, rest, init_state());
}

} // verus!
