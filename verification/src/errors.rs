use vstd::prelude::*;

verus! {

/// Every failure that ends an update run. The run stops at the first error;
/// there is no retry or partial recovery anywhere in the pipeline.
#[derive(Clone, Copy, Debug, PartialEq, Eq, Structural)]
pub enum UpdateError {
    /// The version marker exists but could not be read.
    VersionReadFailure,
    /// No release and asset in the catalog page matched the filter.
    ReleaseNotFound,
    /// The release catalog could not be queried.
    CatalogQueryFailure,
    /// The archive download failed.
    DownloadFailure,
    /// The downloaded archive could not be opened or indexed.
    ArchiveCorrupt,
    /// Reading an archive entry failed.
    ExtractionFailure,
    /// A file mode could not be applied after extraction.
    PermissionApplyFailure,
    /// The live directory was removed but the staging rename failed.
    SwapFailure,
}

impl UpdateError {
    /// A short description of the failure, for the caller to print.
    pub fn message(&self) -> (r: &'static str)
        ensures
            self is VersionReadFailure ==> r@ == "version marker unreadable"@,
            self is ReleaseNotFound ==> r@ == "No Release Found"@,
            self is CatalogQueryFailure ==> r@ == "release catalog query failed"@,
            self is DownloadFailure ==> r@ == "archive download failed"@,
            self is ArchiveCorrupt ==> r@ == "archive corrupt"@,
            self is ExtractionFailure ==> r@ == "archive entry extraction failed"@,
            self is PermissionApplyFailure ==> r@ == "could not apply file permissions"@,
            self is SwapFailure ==> r@ == "could not promote staging directory"@,
    {
        match self {
            UpdateError::VersionReadFailure => "version marker unreadable",
            UpdateError::ReleaseNotFound => "No Release Found",
            UpdateError::CatalogQueryFailure => "release catalog query failed",
            UpdateError::DownloadFailure => "archive download failed",
            UpdateError::ArchiveCorrupt => "archive corrupt",
            UpdateError::ExtractionFailure => "archive entry extraction failed",
            UpdateError::PermissionApplyFailure => "could not apply file permissions",
            UpdateError::SwapFailure => "could not promote staging directory",
        }
    }
}

} // verus!
