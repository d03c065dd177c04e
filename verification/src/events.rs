use vstd::prelude::*;

verus! {

/// One attribute of an opening element.
#[derive(Debug, Clone, PartialEq, Eq)]
pub struct Attr {
    pub name: String,
    pub value: String,
}

/// Spec-level attribute: name and value as character sequences.
pub struct AttrModel {
    pub name: Seq<char>,
    pub value: Seq<char>,
}

impl View for Attr {
    type V = AttrModel;

    open spec fn view(&self) -> AttrModel {
        AttrModel { name: self.name@, value: self.value@ }
    }
}

/// One structural event of the feed document, as the event source hands
/// them out.
#[derive(Debug, Clone, PartialEq, Eq)]
pub enum FeedEvent {
    /// An element opens, with its attributes.
    Open { name: String, attrs: Vec<Attr> },
    /// An element closes.
    Close { name: String },
    /// A chunk of character data.
    Text { data: String },
    /// A structural event the extractor does not read (declarations,
    /// comments, processing instructions, whitespace and the like).
    Skip,
    /// The document ended.
    DocEnd,
    /// The event source reported broken markup.
    Broken,
}

/// Spec-level event.
pub enum EventModel {
    Open { name: Seq<char>, attrs: Seq<AttrModel> },
    Close { name: Seq<char> },
    Text { data: Seq<char> },
    Skip,
    DocEnd,
    Broken,
}

pub open spec fn attr_views(s: Seq<Attr>) -> Seq<AttrModel> {
    s.map_values(|a: Attr| a@)
}

impl View for FeedEvent {
    type V = EventModel;

    open spec fn view(&self) -> EventModel {
        match self {
            FeedEvent::Open { name, attrs } => EventModel::Open {
                name: name@,
                attrs: attr_views(attrs@),
            },
            FeedEvent::Close { name } => EventModel::Close { name: name@ },
            FeedEvent::Text { data } => EventModel::Text { data: data@ },
            FeedEvent::Skip => EventModel::Skip,
            FeedEvent::DocEnd => EventModel::DocEnd,
            FeedEvent::Broken => EventModel::Broken,
        }
    }
}

pub open spec fn event_views(s: Seq<FeedEvent>) -> Seq<EventModel> {
    s.map_values(|e: FeedEvent| e@)
}

/// The first attribute named "name", if any: a `param` element carries its
/// field name there.
pub open spec fn spec_name_attr(attrs: Seq<AttrModel>) -> Option<Seq<char>>
    decreases attrs.len(),
{
    if attrs.len() == 0 {
        None
    } else if attrs.first().name == "name"@ {
        Some(attrs.first().value)
    } else {
        spec_name_attr(attrs.drop_first())
    }
}

/// Finds the value of the first attribute named "name".
pub fn name_attr(attrs: &Vec<Attr>) -> (r: Option<&String>)
    ensures
        match r {
            Some(v) => spec_name_attr(attr_views(attrs@)) == Some(v@),
            None => spec_name_attr(attr_views(attrs@)) is None,
        },
{
    let lit: String = "name".to_owned();
    proof {
        assert(attr_views(attrs@).skip(0) =~= attr_views(attrs@));
    }
    let mut i: usize = 0;
    while i < attrs.len()
        invariant
            i <= attrs.len(),
            lit@ == "name"@,
            spec_name_attr(attr_views(attrs@)) == spec_name_attr(
                attr_views(attrs@).skip(i as int),
            ),
        decreases attrs.len() - i,
    {
        let a = &attrs[i];
        proof {
            assert(attr_views(attrs@).skip(i as int).first() == attrs@[i as int]@);
            assert(attr_views(attrs@).skip(i as int).drop_first() =~= attr_views(attrs@).skip(
                i as int + 1,
            ));
        }
        if a.name == lit {
            return Some(&a.value);
        }
        i = i + 1;
    }
    proof {
        assert(attr_views(attrs@).skip(attrs@.len() as int).len() == 0);
    }
    None
}

} // verus!
