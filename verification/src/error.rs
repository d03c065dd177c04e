use vstd::prelude::*;

verus! {

/// The fatal errors of a conversion run.
#[derive(Debug, Clone, PartialEq, Eq)]
pub enum FeedError {
    /// The input bytes match neither the primary nor the fallback text
    /// encoding.
    Decode,
    /// A `param` element inside an offer lacks its required "name"
    /// attribute.
    MissingNameAttribute,
}

} // verus!
