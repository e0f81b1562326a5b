//! What a status-line segment renders.
use vstd::prelude::*;

verus! {

/// The rendered segment: its main text, a secondary text, and named values
/// that describe it.
pub struct SegmentData {
    pub primary: String,
    pub secondary: String,
    pub metadata: Vec<(String, String)>,
}

/// The metadata as pairs of texts.
pub open spec fn metadata_view(m: Seq<(String, String)>) -> Seq<(Seq<char>, Seq<char>)> {
    m.map_values(|p: (String, String)| (p.0@, p.1@))
}

} // verus!
