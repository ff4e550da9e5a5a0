//! Orchestration policy shared by the per-target fetch pipelines: the
//! per-target error kinds, the naming of per-target output directories, and
//! the completion policy that turns collected pipeline errors into an overall
//! outcome.

use vstd::prelude::*;

use crate::text::{decimal_rep, joined, join_with, u64_to_decimal};

verus! {

/// A per-target pipeline failure. Pipelines never abort one another: each
/// failure is recorded and every target is still attempted.
#[derive(Debug)]
pub enum FetchError {
    /// No published build version at or below the branch point exists under
    /// the specification's name prefix, at any prefix length.
    NoMatchingBuild { prefix: String, branch_point: u64 },
    /// The archive download or extraction for this target failed; a partially
    /// populated output directory may remain.
    Extraction { label: String, message: String },
}

impl FetchError {
    /// A one-line description of the failure, for the error stream.
    pub fn describe(&self) -> (r: String)
        ensures
            self matches FetchError::NoMatchingBuild { prefix, branch_point } ==> r@
                == "No matching builds found for "@ + prefix@ + " at branch point "@
                + decimal_rep(branch_point as nat),
            self matches FetchError::Extraction { label, message } ==> r@ == "Extraction of "@
                + label@ + " failed: "@ + message@,
    {
        match self {
            FetchError::NoMatchingBuild { prefix, branch_point } => {
                let mut r = String::from_str("No matching builds found for ");
                r.append(prefix.as_str());
                r.append(" at branch point ");
                let n = u64_to_decimal(*branch_point);
                r.append(n.as_str());
                proof {
                    assert(r@ =~= "No matching builds found for "@ + prefix@
                        + " at branch point "@ + decimal_rep(*branch_point as nat));
                }
                r
            },
            FetchError::Extraction { label, message } => {
                let mut r = String::from_str("Extraction of ");
                r.append(label.as_str());
                r.append(" failed: ");
                r.append(message.as_str());
                proof {
                    assert(r@ =~= "Extraction of "@ + label@ + " failed: "@ + message@);
                }
                r
            },
        }
    }
}

/// The name of the output directory for one target: its channel labels
/// joined with underscores.
pub fn labels_dirname(labels: &Vec<String>) -> (r: String)
    ensures
        r@ == joined(labels@.map_values(|l: String| l@), "_"@),
{
    join_with(labels, "_")
}

/// The label used in place of channel names when one explicit revision was
/// requested: `revision-{n}`.
pub fn revision_label(revision: u64) -> (r: String)
    ensures
        r@ == "revision-"@ + decimal_rep(revision as nat),
{
    let mut r = String::from_str("revision-");
    let n = u64_to_decimal(revision);
    r.append(n.as_str());
    r
}

/// The completion policy: every pipeline was attempted and every error
/// collected; the run as a whole fails exactly when some pipeline failed,
/// and the overall outcome carries the first recorded error.
pub fn overall_result(errors: Vec<FetchError>) -> (r: Result<(), FetchError>)
    ensures
        r is Ok <==> errors@.len() == 0,
        errors@.len() > 0 ==> (r matches Err(e) && e == errors@[0]),
{
    let mut errors = errors;
    if errors.len() == 0 {
        Ok(())
    } else {
        let e = errors.remove(0);
        Err(e)
    }
}

} // verus!
