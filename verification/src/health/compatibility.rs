//! Compatibility report: what is supported, partially supported and
//! unsupported for the target repository.

use vstd::prelude::*;

use crate::detector::{same_assessment, CompatibilityAssessment};
use crate::graph::types::Language;

verus! {

/// Support status for a language or feature.
#[derive(Debug, Clone, Copy, PartialEq, Eq, Hash, Structural)]
pub enum SupportStatus {
    /// Fully supported: an accurate graph is expected.
    Supported,
    /// Partially supported: some constructs are not modeled.
    Partial,
    /// Not supported: language/framework not analyzed.
    Unsupported,
}

/// How severe a status is: supported, then partial, then unsupported.
pub open spec fn severity(s: SupportStatus) -> int {
    match s {
        SupportStatus::Supported => 0,
        SupportStatus::Partial => 1,
        SupportStatus::Unsupported => 2,
    }
}

/// The more severe of two statuses.
pub open spec fn more_severe(a: SupportStatus, b: SupportStatus) -> SupportStatus {
    if severity(a) >= severity(b) {
        a
    } else {
        b
    }
}

/// The most severe status of a list of details (supported for none).
pub open spec fn most_severe(ds: Seq<(Seq<char>, SupportStatus, Seq<char>)>) -> SupportStatus
    decreases ds.len(),
{
    if ds.len() == 0 {
        SupportStatus::Supported
    } else {
        more_severe(most_severe(ds.drop_last()), ds.last().1)
    }
}

/// The most severe status of two lists one after the other is the more
/// severe of theirs.
pub proof fn lemma_most_severe_concat(a: Seq<(Seq<char>, SupportStatus, Seq<char>)>, b: Seq<(Seq<char>, SupportStatus, Seq<char>)>)
    ensures
        most_severe(a + b) == more_severe(most_severe(a), most_severe(b)),
    decreases b.len(),
{
    if b.len() == 0 {
        assert(a + b =~= a);
    } else {
        lemma_most_severe_concat(a, b.drop_last());
        assert((a + b).drop_last() =~= a + b.drop_last());
    }
}

/// The most severe status of a single detail is its status.
pub proof fn lemma_most_severe_single(d: (Seq<char>, SupportStatus, Seq<char>))
    ensures
        most_severe(seq![d]) == d.1,
{
    let e = Seq::<(Seq<char>, SupportStatus, Seq<char>)>::empty();
    assert(seq![d].drop_last() =~= e);
    assert(seq![d].last() == d);
    assert(most_severe(e) == SupportStatus::Supported);
    assert(most_severe(seq![d]) == more_severe(most_severe(e), d.1));
}

/// A specific detail in a compatibility assessment.
#[derive(Debug, PartialEq, Eq)]
pub struct CompatibilityDetail {
    /// What feature/construct this detail covers.
    pub feature: String,
    /// Support status for this specific feature.
    pub status: SupportStatus,
    /// Human-readable explanation.
    pub explanation: String,
}

impl Clone for CompatibilityDetail {
    fn clone(&self) -> (r: Self)
        ensures
            r == *self,
    {
        CompatibilityDetail {
            feature: self.feature.clone(),
            status: self.status,
            explanation: self.explanation.clone(),
        }
    }
}

/// The feature, status and explanation of a detail.
pub open spec fn detail_view(d: CompatibilityDetail) -> (Seq<char>, SupportStatus, Seq<char>) {
    (d.feature@, d.status, d.explanation@)
}

/// The views of a list of details.
pub open spec fn details_view(ds: Seq<CompatibilityDetail>) -> Seq<(Seq<char>, SupportStatus, Seq<char>)> {
    ds.map_values(|d: CompatibilityDetail| detail_view(d))
}

/// Builds a detail from its parts.
pub fn detail(feature: String, status: SupportStatus, explanation: String) -> (d: CompatibilityDetail)
    ensures
        detail_view(d) == (feature@, status, explanation@),
{
    CompatibilityDetail { feature, status, explanation }
}

/// Aggregate compatibility report for the whole workspace: provisional
/// before scanning (structural findings only), final afterwards.
#[derive(Debug, PartialEq, Eq)]
pub struct CompatibilityReport {
    /// Per-language compatibility assessments.
    pub assessments: Vec<CompatibilityAssessment>,
    /// Whether this report is provisional (pre-scan) or final (post-scan).
    pub is_provisional: bool,
}

/// Two reports with the same provisional flag and, position by position,
/// the same assessments.
pub open spec fn same_report(a: CompatibilityReport, b: CompatibilityReport) -> bool {
    &&& a.is_provisional == b.is_provisional
    &&& a.assessments@.len() == b.assessments@.len()
    &&& forall|i: int|
        0 <= i < a.assessments@.len() ==> same_assessment(
            #[trigger] a.assessments@[i],
            b.assessments@[i],
        )
}

impl Clone for CompatibilityReport {
    fn clone(&self) -> (r: Self)
        ensures
            same_report(r, *self),
    {
        CompatibilityReport { assessments: self.assessments.clone(), is_provisional: self.is_provisional }
    }
}

/// The status of the first assessment of `language`, if any.
pub open spec fn first_status_for(
    assessments: Seq<CompatibilityAssessment>,
    language: Language,
) -> Option<SupportStatus>
    decreases assessments.len(),
{
    if assessments.len() == 0 {
        None
    } else if assessments[0].language == language {
        Some(assessments[0].status)
    } else {
        first_status_for(assessments.drop_first(), language)
    }
}

impl CompatibilityReport {
    /// An empty provisional report.
    pub fn provisional() -> (r: Self)
        ensures
            r.assessments@.len() == 0,
            r.is_provisional,
    {
        CompatibilityReport { assessments: Vec::new(), is_provisional: true }
    }

    /// The overall status for a language: that of its first assessment.
    pub fn status_for(&self, language: Language) -> (r: Option<SupportStatus>)
        ensures
            r == first_status_for(self.assessments@, language),
    {
        let mut i: usize = 0;
        assert(self.assessments@.skip(0) =~= self.assessments@);
        while i < self.assessments.len()
            invariant
                i <= self.assessments@.len(),
                first_status_for(self.assessments@, language) == first_status_for(
                    self.assessments@.skip(i as int),
                    language,
                ),
            decreases self.assessments@.len() - i,
        {
            let ghost rest = self.assessments@.skip(i as int);
            assert(rest[0] == self.assessments@[i as int]);
            if self.assessments[i].language == language {
                return Some(self.assessments[i].status);
            }
            assert(rest.drop_first() == self.assessments@.skip(i + 1));
            i = i + 1;
        }
        None
    }
}


} // verus!
