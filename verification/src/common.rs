//! What the feed and the monitor share.
use vstd::prelude::*;

verus! {

/// A single SEC filing.
#[derive(Debug, Clone)]
pub struct Submission {
    pub accession: u64,
    pub submission_type: String,
    pub ciks: Vec<u64>,
    pub filing_date: String,
}

pub struct SubmissionView {
    pub accession: u64,
    pub submission_type: Seq<char>,
    pub ciks: Seq<u64>,
    pub filing_date: Seq<char>,
}

impl View for Submission {
    type V = SubmissionView;

    open spec fn view(&self) -> SubmissionView {
        SubmissionView {
            accession: self.accession,
            submission_type: self.submission_type@,
            ciks: self.ciks@,
            filing_date: self.filing_date@,
        }
    }
}

pub open spec fn submissions_view(submissions: Seq<Submission>) -> Seq<SubmissionView> {
    Seq::new(submissions.len(), |i: int| submissions[i]@)
}

} // verus!
