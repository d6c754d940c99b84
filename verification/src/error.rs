//! The errors of the operations.
use vstd::prelude::*;

use crate::release_state::{PrereleaseSpec, PrereleaseSpecParseError};
use crate::text::{append_decimal, decimal, join_seqs, join_strings, owned, views};
use crate::validator::ValidationErrors;

verus! {

/// Details about a failed compensation during saga rollback.
#[derive(Debug)]
pub struct CompensationFailure {
    /// Name of the step whose compensation failed.
    pub step: String,
    /// Description of what the compensation was trying to do.
    pub description: String,
    /// The error that occurred during compensation.
    pub error: Box<OperationError>,
}

/// Why an operation failed.
#[derive(Debug)]
pub enum OperationError {
    /// A provider (project discovery, files, git, manifests) failed; the text says how.
    Provider { message: String },
    ChangesetFileRead { path: String },
    ChangelogFileRead { path: String },
    Cancelled,
    EmptyProject(String),
    UnknownPackage { name: String, available: String },
    MissingBumpType { package_name: String },
    MissingDescription,
    EmptyDescription,
    NoPackagesSelected,
    InteractionRequired,
    InheritedVersionsRequireConvert { packages: Vec<String> },
    NoneBumpDisallowed { packages: Vec<String> },
    ComparisonLinksRequired,
    DirtyWorkingTree,
    PrereleaseTagRequired,
    NoChangesetsWithoutForce,
    ValidationFailed(ValidationErrors),
    VersionParse { version: String, context: String },
    /// A version component would pass the largest representable value.
    VersionOverflow,
    TagDeletionFailed { failed_tags: Vec<String> },
    PackageNotFound { name: String },
    CannotGraduatePrerelease { package: String, version: String },
    CannotGraduateStable { package: String, version: String },
    InvalidPrereleaseFormat { input: String },
    InvalidPrereleaseTag { tag: String, source: PrereleaseSpecParseError },
    AdditionalPackagesRequireWorkspace,
    AdditionalPackageNotFound { name: String },
    AdditionalPackageAlreadyExists { name: String },
    AdditionalPackageManifestNotFound { name: String, path: String },
    AdditionalPackageInvalidGlob { name: String, pattern: String, source: globset::Error },
    SagaFailed { step: String, source: Box<OperationError> },
    SagaCompensationFailed {
        step: String,
        source: Box<OperationError>,
        compensation_failures: Vec<CompensationFailure>,
    },
}

/// The message of an error.
pub open spec fn message_spec(e: OperationError) -> Seq<char> {
    match e {
        OperationError::Provider { message } => message@,
        OperationError::ChangesetFileRead { path } => "failed to read changeset file '"@ + path@ + "'"@,
        OperationError::ChangelogFileRead { path } => "failed to read changelog file '"@ + path@ + "'"@,
        OperationError::Cancelled => "operation cancelled"@,
        OperationError::EmptyProject(root) => "no packages found in project at '"@ + root@ + "'"@,
        OperationError::UnknownPackage { name, available } => "unknown package '"@ + name@ + "' (available: "@ + available@ + ")"@,
        OperationError::MissingBumpType { package_name } => "missing bump type for package '"@ + package_name@ + "'"@,
        OperationError::MissingDescription => "missing description"@,
        OperationError::EmptyDescription => "description cannot be empty"@,
        OperationError::NoPackagesSelected => "no packages selected"@,
        OperationError::InteractionRequired => "interaction required but provider returned None"@,
        OperationError::InheritedVersionsRequireConvert { packages } => "packages with inherited versions require --convert flag: "@ + join_seqs(views(packages@), ", "@),
        OperationError::NoneBumpDisallowed { packages } => "changesets with bump type 'none' are disallowed; affected packages: "@ + join_seqs(views(packages@), ", "@),
        OperationError::ComparisonLinksRequired => "comparison links enabled but no repository URL available"@,
        OperationError::DirtyWorkingTree => "working tree has uncommitted changes; commit or stash them, or use --no-commit"@,
        OperationError::PrereleaseTagRequired => "current version is stable; please specify a pre-release tag: --prerelease <tag>"@,
        OperationError::NoChangesetsWithoutForce => "no changesets found; use --force to release without changesets"@,
        OperationError::ValidationFailed(_) => "release validation failed"@,
        OperationError::VersionParse { version, context } => "failed to parse version '"@ + version@ + "' during "@ + context@,
        OperationError::VersionOverflow => "version calculation failed: a version component would overflow"@,
        OperationError::TagDeletionFailed { failed_tags } => "failed to delete "@ + decimal(failed_tags@.len()) + " tag(s) during compensation: "@ + join_seqs(views(failed_tags@), ", "@),
        OperationError::PackageNotFound { name } => "package '"@ + name@ + "' not found in workspace"@,
        OperationError::CannotGraduatePrerelease { package, version } => "cannot graduate package '"@ + package@ + "' with prerelease version '"@ + version@ + "'"@,
        OperationError::CannotGraduateStable { package, version } => "cannot graduate package '"@ + package@ + "' with stable version '"@ + version@ + "' (>= 1.0.0)"@,
        OperationError::InvalidPrereleaseFormat { input } => "invalid pre-release format '"@ + input@ + "' (expected 'crate:tag')"@,
        OperationError::InvalidPrereleaseTag { tag, .. } => "invalid prerelease tag '"@ + tag@ + "'"@,
        OperationError::AdditionalPackagesRequireWorkspace => "additional packages are only supported in workspaces"@,
        OperationError::AdditionalPackageNotFound { name } => "additional package '"@ + name@ + "' not found"@,
        OperationError::AdditionalPackageAlreadyExists { name } => "a package named '"@ + name@ + "' already exists"@,
        OperationError::AdditionalPackageManifestNotFound { name, path } => "manifest '"@ + path@ + "' of additional package '"@ + name@ + "' not found"@,
        OperationError::AdditionalPackageInvalidGlob { name, pattern, .. } => "invalid influence pattern '"@ + pattern@ + "' for additional package '"@ + name@ + "'"@,
        OperationError::SagaFailed { step, .. } => "release saga failed at step '"@ + step@ + "'"@,
        OperationError::SagaCompensationFailed { step, compensation_failures, .. } => "release saga failed at step '"@ + step@ + "' and "@ + decimal(compensation_failures@.len()) + " compensation(s) also failed"@,
    }
}

impl OperationError {
    /// The message of the error.
    pub fn to_string(&self) -> (r: String)
        ensures
            r@ == message_spec(*self),
    {
        let mut s = String::new();
        match self {
            OperationError::Provider { message } => {
                s.append(message.as_str());
            },
            OperationError::ChangesetFileRead { path } => {
                s.append("failed to read changeset file '");
                s.append(path.as_str());
                s.append("'");
            },
            OperationError::ChangelogFileRead { path } => {
                s.append("failed to read changelog file '");
                s.append(path.as_str());
                s.append("'");
            },
            OperationError::Cancelled => {
                s.append("operation cancelled");
            },
            OperationError::EmptyProject(root) => {
                s.append("no packages found in project at '");
                s.append(root.as_str());
                s.append("'");
            },
            OperationError::UnknownPackage { name, available } => {
                s.append("unknown package '");
                s.append(name.as_str());
                s.append("' (available: ");
                s.append(available.as_str());
                s.append(")");
            },
            OperationError::MissingBumpType { package_name } => {
                s.append("missing bump type for package '");
                s.append(package_name.as_str());
                s.append("'");
            },
            OperationError::MissingDescription => {
                s.append("missing description");
            },
            OperationError::EmptyDescription => {
                s.append("description cannot be empty");
            },
            OperationError::NoPackagesSelected => {
                s.append("no packages selected");
            },
            OperationError::InteractionRequired => {
                s.append("interaction required but provider returned None");
            },
            OperationError::InheritedVersionsRequireConvert { packages } => {
                s.append("packages with inherited versions require --convert flag: ");
                let joined = join_strings(packages, ", ");
                s.append(joined.as_str());
            },
            OperationError::NoneBumpDisallowed { packages } => {
                s.append("changesets with bump type 'none' are disallowed; affected packages: ");
                let joined = join_strings(packages, ", ");
                s.append(joined.as_str());
            },
            OperationError::ComparisonLinksRequired => {
                s.append("comparison links enabled but no repository URL available");
            },
            OperationError::DirtyWorkingTree => {
                s.append("working tree has uncommitted changes; commit or stash them, or use --no-commit");
            },
            OperationError::PrereleaseTagRequired => {
                s.append("current version is stable; please specify a pre-release tag: --prerelease <tag>");
            },
            OperationError::NoChangesetsWithoutForce => {
                s.append("no changesets found; use --force to release without changesets");
            },
            OperationError::ValidationFailed(_) => {
                s.append("release validation failed");
            },
            OperationError::VersionParse { version, context } => {
                s.append("failed to parse version '");
                s.append(version.as_str());
                s.append("' during ");
                s.append(context.as_str());
            },
            OperationError::VersionOverflow => {
                s.append("version calculation failed: a version component would overflow");
            },
            OperationError::TagDeletionFailed { failed_tags } => {
                s.append("failed to delete ");
                append_decimal(&mut s, failed_tags.len() as u64);
                s.append(" tag(s) during compensation: ");
                let joined = join_strings(failed_tags, ", ");
                s.append(joined.as_str());
            },
            OperationError::PackageNotFound { name } => {
                s.append("package '");
                s.append(name.as_str());
                s.append("' not found in workspace");
            },
            OperationError::CannotGraduatePrerelease { package, version } => {
                s.append("cannot graduate package '");
                s.append(package.as_str());
                s.append("' with prerelease version '");
                s.append(version.as_str());
                s.append("'");
            },
            OperationError::CannotGraduateStable { package, version } => {
                s.append("cannot graduate package '");
                s.append(package.as_str());
                s.append("' with stable version '");
                s.append(version.as_str());
                s.append("' (>= 1.0.0)");
            },
            OperationError::InvalidPrereleaseFormat { input } => {
                s.append("invalid pre-release format '");
                s.append(input.as_str());
                s.append("' (expected 'crate:tag')");
            },
            OperationError::InvalidPrereleaseTag { tag, .. } => {
                s.append("invalid prerelease tag '");
                s.append(tag.as_str());
                s.append("'");
            },
            OperationError::AdditionalPackagesRequireWorkspace => {
                s.append("additional packages are only supported in workspaces");
            },
            OperationError::AdditionalPackageNotFound { name } => {
                s.append("additional package '");
                s.append(name.as_str());
                s.append("' not found");
            },
            OperationError::AdditionalPackageAlreadyExists { name } => {
                s.append("a package named '");
                s.append(name.as_str());
                s.append("' already exists");
            },
            OperationError::AdditionalPackageManifestNotFound { name, path } => {
                s.append("manifest '");
                s.append(path.as_str());
                s.append("' of additional package '");
                s.append(name.as_str());
                s.append("' not found");
            },
            OperationError::AdditionalPackageInvalidGlob { name, pattern, .. } => {
                s.append("invalid influence pattern '");
                s.append(pattern.as_str());
                s.append("' for additional package '");
                s.append(name.as_str());
                s.append("'");
            },
            OperationError::SagaFailed { step, .. } => {
                s.append("release saga failed at step '");
                s.append(step.as_str());
                s.append("'");
            },
            OperationError::SagaCompensationFailed { step, compensation_failures, .. } => {
                s.append("release saga failed at step '");
                s.append(step.as_str());
                s.append("' and ");
                append_decimal(&mut s, compensation_failures.len() as u64);
                s.append(" compensation(s) also failed");
            },
        }
        proof {
            assert(s@ =~= message_spec(*self));
        }
        s
    }
}

/// The result of an operation.
pub type Result<T> = core::result::Result<T, OperationError>;

/// Parses a pre-release tag, reporting the tag when it is invalid.
pub fn parse_prerelease_tag(tag: &str) -> (r: Result<PrereleaseSpec>)
    ensures
        r is Ok <==> crate::release_state::valid_prerelease_tag(tag@),
        r matches Ok(p) ==> crate::release_state::spec_identifier(p) == tag@,
        r matches Err(e) ==> (e matches OperationError::InvalidPrereleaseTag { tag: t, .. } && t@ == tag@),
{
    match PrereleaseSpec::parse(tag) {
        Ok(p) => Ok(p),
        Err(source) => Err(OperationError::InvalidPrereleaseTag { tag: owned(tag), source }),
    }
}

} // verus!
