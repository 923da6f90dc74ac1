//! The plaintext payload that a token carries.

use vstd::prelude::*;

verus! {

/// What a tracking link stands for: the label its creator chose and the
/// endpoint to notify when the link is fetched.
#[derive(Debug, PartialEq, Eq)]
pub struct TrackingRecord {
    pub label: String,
    pub target: String,
}

/// The mathematical value of a [`TrackingRecord`]: its two texts.
pub struct RecordView {
    pub label: Seq<char>,
    pub target: Seq<char>,
}

impl View for TrackingRecord {
    type V = RecordView;

    open spec fn view(&self) -> RecordView {
        RecordView { label: self.label@, target: self.target@ }
    }
}

impl TrackingRecord {
    /// Builds a record from its two texts, which are taken as they are.
    pub fn new(label: String, target: String) -> (record: TrackingRecord)
        ensures
            record@ == (RecordView { label: label@, target: target@ }),
    {
        TrackingRecord { label, target }
    }
}

impl Clone for TrackingRecord {
    fn clone(&self) -> (copy: TrackingRecord)
        ensures
            copy@ == self@,
    {
        TrackingRecord { label: self.label.clone(), target: self.target.clone() }
    }
}

} // verus!
