use vstd::prelude::*;
use crate::errors::UpdateError;
use crate::release::ResolvedRelease;

verus! {

/// What reading the version marker file produced, as plain values: its
/// contents, its absence, or any other filesystem failure.
pub enum VersionReadOutcome {
    Found(String),
    Missing,
    Failed,
}

/// Interpret the marker read.  Absence of the marker is the normal
/// "nothing installed" outcome and maps to the empty string; contents pass
/// through unchanged, trailing white space included; any other filesystem
/// failure is fatal and the update decision must not proceed.
pub fn installed_version(outcome: VersionReadOutcome) -> (r: Result<String, UpdateError>)
    ensures
        (match outcome {
            VersionReadOutcome::Found(c) => r matches Ok(v) && v@ == c@,
            VersionReadOutcome::Missing => r matches Ok(v) && v@ == Seq::<char>::empty(),
            VersionReadOutcome::Failed => r == Err::<String, UpdateError>(
                UpdateError::VersionReadFailure,
            ),
        }),
{
    match outcome {
        VersionReadOutcome::Found(c) => Ok(c),
        VersionReadOutcome::Missing => Ok(String::new()),
        VersionReadOutcome::Failed => Err(UpdateError::VersionReadFailure),
    }
}

/// The update decision: either the installation is current, or the
/// resolved release must be installed.
pub enum UpdateDecision {
    UpToDate,
    Upgrade(ResolvedRelease),
}

/// An update is owed exactly when the installed version differs from the
/// resolved release name.
pub open spec fn needs_update(installed: Seq<char>, resolved_name: Seq<char>) -> bool {
    installed != resolved_name
}

/// Compare the installed version against the resolved release name and
/// decide.  On the no-op path nothing of the release is handed out, so no
/// archive download can follow from the decision; on the upgrade path the
/// resolved release passes through unchanged.
pub fn decide_update(installed: &String, resolved: ResolvedRelease) -> (d: UpdateDecision)
    ensures
        d is UpToDate <==> !needs_update(installed@, resolved.name@),
        d matches UpdateDecision::Upgrade(r) ==> r == resolved,
{
    if installed.eq(&resolved.name) {
        UpdateDecision::UpToDate
    } else {
        UpdateDecision::Upgrade(resolved)
    }
}

} // verus!
