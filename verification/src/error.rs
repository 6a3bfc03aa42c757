//! What can go wrong while a document is loaded.

use vstd::prelude::*;
use vstd::string::StringExecFns;
use crate::decimal::push_decimal;
use crate::revision::{
    push_revision_list, revision_label, revision_list_text, supported_revisions,
    supported_versions,
};

verus! {

/// A failure to load a rustdoc JSON document. Paths and causes are kept as
/// text.
#[non_exhaustive]
#[derive(Debug, Clone, PartialEq, Eq)]
pub enum LoadingError {
    /// The package metadata has not the expected shape; the text says how.
    MetadataParsing(String),
    /// No package record matches the dependency of this name.
    PackageNotFound(String),
    /// More than one package record matches the dependency of this name.
    AmbiguousPackage(String),
    /// The file at the path could not be read; the second field is the cause.
    RustdocIoError(String, String),
    /// No `format_version` could be found in the file at the path; the second
    /// field is the cause.
    RustdocFormatDetection(String, String),
    /// The file at the path is of a supported revision, but does not parse as
    /// a document of that revision; the third field is the cause.
    RustdocParsing(u32, String, String),
    /// The file at the path is of a revision that this build does not
    /// understand.
    UnsupportedFormat(u32, String),
    /// Any other failure, described by the text.
    Other(String),
}

/// A `LoadingError` with its texts as sequences of characters.
pub enum LoadingErrorView {
    MetadataParsing(Seq<char>),
    PackageNotFound(Seq<char>),
    AmbiguousPackage(Seq<char>),
    RustdocIoError(Seq<char>, Seq<char>),
    RustdocFormatDetection(Seq<char>, Seq<char>),
    RustdocParsing(u32, Seq<char>, Seq<char>),
    UnsupportedFormat(u32, Seq<char>),
    Other(Seq<char>),
}

impl View for LoadingError {
    type V = LoadingErrorView;

    open spec fn view(&self) -> LoadingErrorView {
        match *self {
            LoadingError::MetadataParsing(m) => LoadingErrorView::MetadataParsing(m@),
            LoadingError::PackageNotFound(n) => LoadingErrorView::PackageNotFound(n@),
            LoadingError::AmbiguousPackage(n) => LoadingErrorView::AmbiguousPackage(n@),
            LoadingError::RustdocIoError(p, c) => LoadingErrorView::RustdocIoError(p@, c@),
            LoadingError::RustdocFormatDetection(p, c) => LoadingErrorView::RustdocFormatDetection(
                p@,
                c@,
            ),
            LoadingError::RustdocParsing(v, p, c) => LoadingErrorView::RustdocParsing(v, p@, c@),
            LoadingError::UnsupportedFormat(v, p) => LoadingErrorView::UnsupportedFormat(v, p@),
            LoadingError::Other(m) => LoadingErrorView::Other(m@),
        }
    }
}

/// A result with its error taken by its view.
pub open spec fn outcome<T>(r: Result<T, LoadingError>) -> Result<T, LoadingErrorView> {
    match r {
        Ok(t) => Ok(t),
        Err(e) => Err(e@),
    }
}

impl LoadingErrorView {
    /// The message that describes the error to a reader.
    pub open spec fn message(self) -> Seq<char> {
        match self {
            LoadingErrorView::MetadataParsing(m) => "failed to parse 'cargo metadata' output: "@
                + m,
            LoadingErrorView::PackageNotFound(n) => "failed to find package metadata for package "@
                + n,
            LoadingErrorView::AmbiguousPackage(n) => "ambiguous package metadata found for "@ + n,
            LoadingErrorView::RustdocIoError(p, _) => "failed to read rustdoc JSON file: "@ + p,
            LoadingErrorView::RustdocFormatDetection(p, _) =>
                "unable to detect rustdoc 'format_version' key in file: "@ + p,
            LoadingErrorView::RustdocParsing(v, p, _) => "failed to parse rustdoc JSON format "@
                + revision_label(v) + " file: "@ + p,
            LoadingErrorView::UnsupportedFormat(v, p) => "unsupported rustdoc format "@
                + revision_label(v) + " for file: "@ + p + "\n(supported formats are "@
                + revision_list_text(supported_revisions()) + ")"@,
            LoadingErrorView::Other(m) => "unexpected error: "@ + m,
        }
    }
}

impl LoadingError {
    /// The message that describes the error to a reader. For an unsupported
    /// revision it lists the revisions that this build understands.
    pub fn message(&self) -> (r: String)
        ensures
            r@ == self@.message(),
    {
        match self {
            LoadingError::MetadataParsing(m) => {
                let mut r = String::from_str("failed to parse 'cargo metadata' output: ");
                r.append(m.as_str());
                r
            },
            LoadingError::PackageNotFound(n) => {
                let mut r = String::from_str("failed to find package metadata for package ");
                r.append(n.as_str());
                r
            },
            LoadingError::AmbiguousPackage(n) => {
                let mut r = String::from_str("ambiguous package metadata found for ");
                r.append(n.as_str());
                r
            },
            LoadingError::RustdocIoError(p, _) => {
                let mut r = String::from_str("failed to read rustdoc JSON file: ");
                r.append(p.as_str());
                r
            },
            LoadingError::RustdocFormatDetection(p, _) => {
                let mut r = String::from_str(
                    "unable to detect rustdoc 'format_version' key in file: ",
                );
                r.append(p.as_str());
                r
            },
            LoadingError::RustdocParsing(v, p, _) => {
                let mut r = String::from_str("failed to parse rustdoc JSON format v");
                proof {
                    reveal_strlit("failed to parse rustdoc JSON format v");
                    reveal_strlit("failed to parse rustdoc JSON format ");
                }
                assert(r@ =~= "failed to parse rustdoc JSON format "@ + seq!['v']);
                push_decimal(&mut r, *v);
                r.append(" file: ");
                r.append(p.as_str());
                assert(r@ =~= self@.message());
                r
            },
            LoadingError::UnsupportedFormat(v, p) => {
                let mut r = String::from_str("unsupported rustdoc format v");
                proof {
                    reveal_strlit("unsupported rustdoc format v");
                    reveal_strlit("unsupported rustdoc format ");
                }
                assert(r@ =~= "unsupported rustdoc format "@ + seq!['v']);
                push_decimal(&mut r, *v);
                r.append(" for file: ");
                r.append(p.as_str());
                r.append("\n(supported formats are ");
                let all = supported_versions();
                push_revision_list(&mut r, &all);
                r.append(")");
                assert(r@ =~= self@.message());
                r
            },
            LoadingError::Other(m) => {
                let mut r = String::from_str("unexpected error: ");
                r.append(m.as_str());
                r
            },
        }
    }
}

} // verus!
