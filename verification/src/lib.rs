//! Article acquisition and asset-resolution pipeline.
//!
//! Turns a web article URL into a staged document: the fetched page, an
//! intermediate artifact decoded into an [`article::Article`], and local
//! copies of every image the article references.

use vstd::prelude::*;

pub mod article;
pub mod cmd;
pub mod config;
pub mod codec;
pub mod pipeline;
pub mod resolve;
pub mod urls;

verus! {

/// The failure taxonomy of one pipeline run. A failure at any stage is
/// final for that invocation.
#[derive(Clone, Copy, Debug, PartialEq, Eq, Structural)]
pub enum FailureKind {
    /// The input could not be parsed as a URL; nothing was fetched.
    InvalidUrl,
    /// A transport or protocol error while fetching the page or an image.
    FetchFailed,
    /// The extraction process failed or left no artifact behind.
    ExtractionFailed,
    /// The artifact was present but did not decode into an article.
    MalformedArtifact,
    /// An image element without a usable `src`, or one whose `src` could
    /// not be turned into an absolute URL.
    ImageReferenceInvalid,
}

impl FailureKind {
    /// A human-readable description of the failure, for presentation by
    /// the caller.
    pub fn message(&self) -> (r: String)
        ensures
            r@ == match self {
                FailureKind::InvalidUrl => "the input is not a valid URL"@,
                FailureKind::FetchFailed => "a resource could not be fetched"@,
                FailureKind::ExtractionFailed => "the extraction backend failed"@,
                FailureKind::MalformedArtifact => "the extraction artifact is malformed"@,
                FailureKind::ImageReferenceInvalid => "an image reference could not be resolved"@,
            },
    {
        match self {
            FailureKind::InvalidUrl => String::from_str("the input is not a valid URL"),
            FailureKind::FetchFailed => String::from_str("a resource could not be fetched"),
            FailureKind::ExtractionFailed => String::from_str("the extraction backend failed"),
            FailureKind::MalformedArtifact => String::from_str(
                "the extraction artifact is malformed",
            ),
            FailureKind::ImageReferenceInvalid => String::from_str(
                "an image reference could not be resolved",
            ),
        }
    }
}

} // verus!
