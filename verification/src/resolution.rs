//! What a metadata source says of one package.

use vstd::prelude::*;
use vstd::string::*;

verus! {

/// The answer of a metadata source to the question which version of a package
/// it offers.
#[derive(Debug, Clone, PartialEq, Eq)]
pub enum VersionResolution {
    /// The source offers this version. The text is opaque: it is compared, never
    /// ordered.
    Found(String),
    /// The source does not know the package.
    NotFound,
    /// The source has a recipe for the package, but its version is computed
    /// when the recipe runs and cannot be read off the text.
    Unparseable,
    /// The source could not be asked, or its answer could not be read.
    SourceError(String),
}

/// A [`VersionResolution`] with its strings as sequences of characters.
pub enum Resolution {
    Found(Seq<char>),
    NotFound,
    Unparseable,
    SourceError(Seq<char>),
}

impl View for VersionResolution {
    type V = Resolution;

    open spec fn view(&self) -> Resolution {
        match self {
            VersionResolution::Found(version) => Resolution::Found(version@),
            VersionResolution::NotFound => Resolution::NotFound,
            VersionResolution::Unparseable => Resolution::Unparseable,
            VersionResolution::SourceError(reason) => Resolution::SourceError(reason@),
        }
    }
}

/// Why a source gave no version.
#[derive(Debug, Clone, PartialEq, Eq)]
pub enum Failure {
    /// The source does not know the package.
    NotFound,
    /// The version in the recipe is computed and cannot be read off the text.
    Unparseable,
    /// The source could not be asked, or its answer could not be read.
    SourceError(String),
}

/// A [`Failure`] with its string as a sequence of characters.
pub enum FailureView {
    NotFound,
    Unparseable,
    SourceError(Seq<char>),
}

impl View for Failure {
    type V = FailureView;

    open spec fn view(&self) -> FailureView {
        match self {
            Failure::NotFound => FailureView::NotFound,
            Failure::Unparseable => FailureView::Unparseable,
            Failure::SourceError(reason) => FailureView::SourceError(reason@),
        }
    }
}

/// The failure that the answer `r` reports; none where it holds a version.
pub open spec fn failure_of(r: Resolution) -> Option<FailureView> {
    match r {
        Resolution::Found(_) => None,
        Resolution::NotFound => Some(FailureView::NotFound),
        Resolution::Unparseable => Some(FailureView::Unparseable),
        Resolution::SourceError(reason) => Some(FailureView::SourceError(reason)),
    }
}

/// What [`Failure::describe`] says of a failure.
pub open spec fn failure_text(failure: FailureView) -> Seq<char> {
    match failure {
        FailureView::NotFound => "not found"@,
        FailureView::Unparseable => "version is computed by the recipe"@,
        FailureView::SourceError(reason) => reason,
    }
}

impl Failure {
    /// The failure in words.
    pub fn describe(&self) -> (r: String)
        ensures
            r@ == failure_text(self@),
    {
        match self {
            Failure::NotFound => String::from_str("not found"),
            Failure::Unparseable => String::from_str("version is computed by the recipe"),
            Failure::SourceError(reason) => reason.clone(),
        }
    }
}

impl VersionResolution {
    /// The version that the source offered, or else why it offered none.
    pub fn into_result(self) -> (r: Result<String, Failure>)
        ensures
            match r {
                Ok(version) => self@ == Resolution::Found(version@),
                Err(failure) => failure_of(self@) == Some(failure@),
            },
    {
        match self {
            VersionResolution::Found(version) => Ok(version),
            VersionResolution::NotFound => Err(Failure::NotFound),
            VersionResolution::Unparseable => Err(Failure::Unparseable),
            VersionResolution::SourceError(reason) => Err(Failure::SourceError(reason)),
        }
    }

    /// Whether the source offered a version.
    pub fn is_found(&self) -> (r: bool)
        ensures
            r == (self@ is Found),
    {
        match self {
            VersionResolution::Found(_) => true,
            _ => false,
        }
    }

    /// The version that the source offered, if it offered one.
    pub fn version(&self) -> (r: Option<&String>)
        ensures
            match self@ {
                Resolution::Found(version) => r matches Some(s) && s@ == version,
                _ => r is None,
            },
    {
        match self {
            VersionResolution::Found(version) => Some(version),
            _ => None,
        }
    }
}

} // verus!
