//! Loading a document: from the text of a file to a document of a known,
//! supported revision.

use vstd::prelude::*;
use vstd::string::StringExecFns;
use crate::detect::{detect_rustdoc_format_version, detected};
use crate::error::{outcome, LoadingError, LoadingErrorView};
use crate::metadata::{get_package_metadata, resolves_to, Metadata, PackageRecord};
use crate::revision::{is_supported, supports};

verus! {

/// The text of one rustdoc JSON file with the revision that was detected in
/// it, which is a supported one, and the package record that it belongs to,
/// where metadata was given.
#[derive(Debug)]
pub struct Document {
    path: String,
    text: String,
    version: u32,
    package: Option<PackageRecord>,
}

/// What a `Document` holds.
pub struct DocumentView {
    pub path: Seq<char>,
    pub text: Seq<char>,
    pub version: u32,
    pub package: Option<PackageRecord>,
}

impl View for Document {
    type V = DocumentView;

    closed spec fn view(&self) -> DocumentView {
        DocumentView {
            path: self.path@,
            text: self.text@,
            version: self.version,
            package: self.package,
        }
    }
}

impl Document {
    #[verifier::type_invariant]
    spec fn supported(&self) -> bool {
        is_supported(self.version)
    }

    /// The path of the file that the document was read from.
    pub fn path(&self) -> (r: &str)
        ensures
            r@ == self@.path,
    {
        self.path.as_str()
    }

    /// The text of the document.
    pub fn text(&self) -> (r: &str)
        ensures
            r@ == self@.text,
    {
        self.text.as_str()
    }

    /// The revision of the document, which is a supported one.
    pub fn version(&self) -> (r: u32)
        ensures
            r == self@.version,
            is_supported(r),
    {
        proof {
            use_type_invariant(self);
        }
        self.version
    }

    /// The package record that the document belongs to.
    pub fn package(&self) -> (r: &Option<PackageRecord>)
        ensures
            *r == self@.package,
    {
        &self.package
    }

    /// Takes the document apart.
    pub fn into_parts(self) -> (r: (String, String, u32, Option<PackageRecord>))
        ensures
            r.0@ == self@.path,
            r.1@ == self@.text,
            r.2 == self@.version,
            is_supported(r.2),
            r.3 == self@.package,
    {
        proof {
            use_type_invariant(&self);
        }
        (self.path, self.text, self.version, self.package)
    }
}

/// The outcome of parsing a document of a known revision: the value, or the
/// error that names the revision, the file and the cause.
pub open spec fn parse_report<T>(
    path: Seq<char>,
    format_version: u32,
    parsed: Result<T, String>,
) -> Result<T, LoadingErrorView> {
    match parsed {
        Ok(value) => Ok(value),
        Err(cause) => Err(LoadingErrorView::RustdocParsing(format_version, path, cause@)),
    }
}

/// Hands on what the parser of a revision made of the file at `path`, and
/// reports its failure as a failure to parse a document of that revision.
pub fn parse_or_report_error<T>(path: &str, format_version: u32, parsed: Result<T, String>) -> (r:
    Result<T, LoadingError>)
    ensures
        outcome(r) == parse_report(path@, format_version, parsed),
{
    match parsed {
        Ok(value) => Ok(value),
        Err(cause) => Err(
            LoadingError::RustdocParsing(format_version, String::from_str(path), cause),
        ),
    }
}

/// What opening the file at `path` yields, given what reading it gave: the
/// read's failure, a failed detection, an unsupported revision, or the
/// document, in this order.
pub open spec fn opened(
    path: Seq<char>,
    package: Option<PackageRecord>,
    file: Result<String, String>,
) -> Result<DocumentView, LoadingErrorView> {
    match file {
        Err(cause) => Err(LoadingErrorView::RustdocIoError(path, cause@)),
        Ok(text) => match detected(path, text@) {
            Err(e) => Err(e),
            Ok(version) => if is_supported(version) {
                Ok(DocumentView { path, text: text@, version, package })
            } else {
                Err(LoadingErrorView::UnsupportedFormat(version, path))
            },
        },
    }
}

/// A result with the document and the error taken by their views.
pub open spec fn document_outcome(r: Result<Document, LoadingError>) -> Result<
    DocumentView,
    LoadingErrorView,
> {
    match r {
        Ok(d) => Ok(d@),
        Err(e) => Err(e@),
    }
}

/// Makes a document of what reading the file at `path` gave: detects its
/// revision and refuses one that this build does not understand.
pub fn open_document(path: &str, package: Option<PackageRecord>, file: Result<String, String>) -> (r:
    Result<Document, LoadingError>)
    ensures
        document_outcome(r) == opened(path@, package, file),
{
    let text = match file {
        Ok(text) => text,
        Err(cause) => {
            return Err(LoadingError::RustdocIoError(String::from_str(path), cause));
        },
    };
    let version = match detect_rustdoc_format_version(path, text.as_str()) {
        Ok(version) => version,
        Err(e) => {
            return Err(e);
        },
    };
    if !supports(version) {
        return Err(LoadingError::UnsupportedFormat(version, String::from_str(path)));
    }
    Ok(Document { path: String::from_str(path), text, version, package })
}

/// `r` is an outcome of loading the file at `path`: with metadata, a failed
/// resolution of the package comes first; then the document is opened with
/// the package that was found.
pub open spec fn loads_to(
    path: Seq<char>,
    metadata: Option<Metadata>,
    file: Result<String, String>,
    r: Result<Document, LoadingError>,
) -> bool {
    match metadata {
        None => document_outcome(r) == opened(path, None, file),
        Some(m) => exists|package: Result<PackageRecord, LoadingError>|
            {
                &&& #[trigger] resolves_to(m, package)
                &&& match package {
                    Ok(record) => document_outcome(r) == opened(path, Some(record), file),
                    Err(e) => r matches Err(f) && f@ == e@,
                }
            },
    }
}

/// Loads the document in the file at `path`, given what reading the file
/// gave, and with metadata finds the package record that it belongs to.
pub fn load_rustdoc(path: &str, metadata: Option<Metadata>, file: Result<String, String>) -> (r:
    Result<Document, LoadingError>)
    ensures
        loads_to(path@, metadata, file, r),
{
    match metadata {
        None => open_document(path, None, file),
        Some(m) => {
            let package = get_package_metadata(m);
            match package {
                Ok(record) => {
                    let r = open_document(path, Some(record), file);
                    assert(resolves_to(m, Ok(record)));
                    r
                },
                Err(e) => {
                    assert(resolves_to(m, Err(e)));
                    Err(e)
                },
            }
        },
    }
}

} // verus!
