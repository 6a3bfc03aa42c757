//! The three stages that lead from a document to a query: the storage that
//! owns what a document holds, the index that is built from a storage and
//! borrows it, and the adapter that is built from one or two indexes and
//! borrows them. Each carries the revision of its document, and two indexes
//! that are compared are of one revision.

use vstd::prelude::*;
use vstd::string::StringExecFns;
use crate::decimal::push_decimal;
use crate::error::{LoadingError, LoadingErrorView};
use crate::metadata::PackageRecord;
use crate::parser::{parse_or_report_error, parse_report, Document, DocumentView};
use crate::revision::{is_supported, revision_label, takes_target_triple, TARGET_TRIPLE_CUTOFF};

verus! {

/// What the parser of a revision reports of a document: the version of the
/// crate that the document describes, where it states one.
pub struct ParsedCrate {
    pub crate_version: Option<String>,
}

/// What was parsed from one document, with the package record that it
/// belongs to.
#[derive(Debug)]
pub struct VersionedStorage {
    version: u32,
    crate_version: Option<String>,
    package: Option<PackageRecord>,
}

/// What a `VersionedStorage` holds.
pub struct VersionedStorageView {
    pub version: u32,
    pub crate_version: Option<Seq<char>>,
    pub package: Option<PackageRecord>,
}

impl View for VersionedStorage {
    type V = VersionedStorageView;

    closed spec fn view(&self) -> VersionedStorageView {
        VersionedStorageView {
            version: self.version,
            crate_version: match self.crate_version {
                Some(v) => Some(v@),
                None => None,
            },
            package: self.package,
        }
    }
}

/// The storage that a parsed document gives.
pub open spec fn stored(document: DocumentView, parsed: ParsedCrate) -> VersionedStorageView {
    VersionedStorageView {
        version: document.version,
        crate_version: match parsed.crate_version {
            Some(v) => Some(v@),
            None => None,
        },
        package: document.package,
    }
}

/// What building a storage yields, given what the parser of the document's
/// revision made of its text.
pub open spec fn storage_report(document: DocumentView, parsed: Result<ParsedCrate, String>) -> Result<
    VersionedStorageView,
    LoadingErrorView,
> {
    match parse_report(document.path, document.version, parsed) {
        Ok(value) => Ok(stored(document, value)),
        Err(e) => Err(e),
    }
}

impl VersionedStorage {
    #[verifier::type_invariant]
    spec fn supported(&self) -> bool {
        is_supported(self.version)
    }

    /// Builds the storage of a document from what the parser of its revision
    /// made of its text, or reports the parser's failure.
    pub fn from_document(document: Document, parsed: Result<ParsedCrate, String>) -> (r: Result<
        VersionedStorage,
        LoadingError,
    >)
        ensures
            match storage_report(document@, parsed) {
                Ok(s) => r matches Ok(storage) && storage@ == s,
                Err(e) => r matches Err(f) && f@ == e,
            },
    {
        let (path, _, version, package) = document.into_parts();
        match parse_or_report_error(path.as_str(), version, parsed) {
            Ok(value) => Ok(
                VersionedStorage { version, crate_version: value.crate_version, package },
            ),
            Err(e) => Err(e),
        }
    }

    /// The version of the crate held here, as its document states it: the
    /// version of the crate's manifest, not the revision of the format.
    pub fn crate_version(&self) -> (r: Option<&str>)
        ensures
            match r {
                Some(v) => self@.crate_version == Some(v@),
                None => self@.crate_version.is_none(),
            },
    {
        match &self.crate_version {
            Some(v) => Some(v.as_str()),
            None => None,
        }
    }

    /// The package record that the document belongs to.
    pub fn package(&self) -> (r: &Option<PackageRecord>)
        ensures
            *r == self@.package,
    {
        &self.package
    }

    /// The revision of the document, which is a supported one.
    pub fn version(&self) -> (r: u32)
        ensures
            r == self@.version,
            is_supported(r),
    {
        proof {
            use_type_invariant(self);
        }
        self.version
    }
}

/// The lookup structure that is built from one storage, for a target
/// platform where the revision's index takes one.
#[derive(Debug)]
pub struct VersionedIndex<'a> {
    storage: &'a VersionedStorage,
    target_triple: Option<String>,
}

/// What a `VersionedIndex` holds.
pub struct VersionedIndexView {
    pub storage: VersionedStorageView,
    pub target_triple: Option<Seq<char>>,
}

impl<'a> View for VersionedIndex<'a> {
    type V = VersionedIndexView;

    closed spec fn view(&self) -> VersionedIndexView {
        VersionedIndexView {
            storage: self.storage@,
            target_triple: match self.target_triple {
                Some(t) => Some(t@),
                None => None,
            },
        }
    }
}

impl<'a> VersionedIndex<'a> {
    /// Builds the index of a storage. The index is of the storage's revision.
    /// Up to revision 43 it is built for the target platform; later revisions
    /// take none, and the argument is dropped.
    pub fn from_storage(storage: &'a VersionedStorage, target_triple: &str) -> (r: Self)
        ensures
            r@.storage == storage@,
            r@.target_triple == if takes_target_triple(storage@.version) {
                Some(target_triple@)
            } else {
                None::<Seq<char>>
            },
    {
        let target_triple = if storage.version() <= TARGET_TRIPLE_CUTOFF {
            Some(String::from_str(target_triple))
        } else {
            None
        };
        VersionedIndex { storage, target_triple }
    }

    /// The storage that the index was built from.
    pub fn storage(&self) -> (r: &'a VersionedStorage)
        ensures
            r@ == self@.storage,
    {
        self.storage
    }

    /// The target platform that the index was built for.
    pub fn target_triple(&self) -> (r: Option<&str>)
        ensures
            match r {
                Some(t) => self@.target_triple == Some(t@),
                None => self@.target_triple.is_none(),
            },
    {
        match &self.target_triple {
            Some(t) => Some(t.as_str()),
            None => None,
        }
    }

    /// The revision of the index, which is that of its storage.
    pub fn version(&self) -> (r: u32)
        ensures
            r == self@.storage.version,
            is_supported(r),
    {
        self.storage.version()
    }
}

/// A failure to build an adapter.
#[non_exhaustive]
#[derive(Debug, Clone, Copy, PartialEq, Eq, Structural)]
pub enum AdapterError {
    /// The current index, of the first revision, and the baseline index, of
    /// the second, are of different revisions.
    VersionMismatch(u32, u32),
}

impl AdapterError {
    /// The message that describes the error to a reader.
    pub open spec fn message_text(self) -> Seq<char> {
        match self {
            AdapterError::VersionMismatch(current, baseline) =>
                "version mismatch between current ("@ + revision_label(current)
                    + ") and baseline ("@ + revision_label(baseline) + ") format versions"@,
        }
    }

    /// The message that describes the error to a reader.
    pub fn message(&self) -> (r: String)
        ensures
            r@ == self.message_text(),
    {
        match self {
            AdapterError::VersionMismatch(current, baseline) => {
                proof {
                    reveal_strlit("version mismatch between current (v");
                    reveal_strlit("version mismatch between current (");
                    reveal_strlit(") and baseline (v");
                    reveal_strlit(") and baseline (");
                }
                let mut r = String::from_str("version mismatch between current (v");
                assert(r@ =~= "version mismatch between current ("@ + seq!['v']);
                push_decimal(&mut r, *current);
                let ghost first = r@;
                r.append(") and baseline (v");
                assert(r@ =~= first + ") and baseline ("@ + seq!['v']);
                push_decimal(&mut r, *baseline);
                r.append(") format versions");
                assert(r@ =~= self.message_text());
                r
            },
        }
    }
}

/// What queries run on: the index of the current document and, for a
/// comparison, the index of a baseline document of the same revision.
#[derive(Debug)]
pub struct VersionedRustdocAdapter<'a> {
    current: &'a VersionedIndex<'a>,
    baseline: Option<&'a VersionedIndex<'a>>,
}

/// What a `VersionedRustdocAdapter` holds.
pub struct VersionedRustdocAdapterView {
    pub current: VersionedIndexView,
    pub baseline: Option<VersionedIndexView>,
}

impl<'a> View for VersionedRustdocAdapter<'a> {
    type V = VersionedRustdocAdapterView;

    closed spec fn view(&self) -> VersionedRustdocAdapterView {
        VersionedRustdocAdapterView {
            current: self.current@,
            baseline: match self.baseline {
                Some(b) => Some(b@),
                None => None,
            },
        }
    }
}

/// The view of an index that may be absent.
pub open spec fn index_view(index: Option<&VersionedIndex>) -> Option<VersionedIndexView> {
    match index {
        Some(b) => Some(b@),
        None => None,
    }
}

/// What building an adapter yields: a mismatch where a baseline is given and
/// is of another revision than the current index, and else the adapter of
/// the two.
pub open spec fn adapter_for(
    current: VersionedIndexView,
    baseline: Option<VersionedIndexView>,
) -> Result<VersionedRustdocAdapterView, AdapterError> {
    match baseline {
        Some(b) if b.storage.version != current.storage.version => Err(
            AdapterError::VersionMismatch(current.storage.version, b.storage.version),
        ),
        _ => Ok(VersionedRustdocAdapterView { current, baseline }),
    }
}

/// An adapter is built exactly where no baseline is given or the baseline is
/// of the revision of the current index; it then holds the two as they were
/// given. Where it is not built, the mismatch names both revisions, the
/// current one first.
pub proof fn lemma_adapter_needs_one_revision(
    current: VersionedIndexView,
    baseline: Option<VersionedIndexView>,
)
    ensures
        adapter_for(current, baseline) is Ok <==> (baseline matches Some(b) ==> b.storage.version
            == current.storage.version),
        adapter_for(current, baseline) matches Ok(a) ==> a.current == current && a.baseline
            == baseline,
        adapter_for(current, baseline) matches Err(e) ==> baseline matches Some(b) && e
            == AdapterError::VersionMismatch(current.storage.version, b.storage.version),
{
}

impl<'a> VersionedRustdocAdapter<'a> {
    #[verifier::type_invariant]
    spec fn same_revision(&self) -> bool {
        match self.baseline {
            Some(b) => b@.storage.version == self.current@.storage.version,
            None => true,
        }
    }

    /// Builds the adapter of a current index and, for a comparison, of a
    /// baseline index. Fails where the two are of different revisions, before
    /// anything else is done.
    pub fn new(current: &'a VersionedIndex<'a>, baseline: Option<&'a VersionedIndex<'a>>) -> (r:
        Result<Self, AdapterError>)
        ensures
            match adapter_for(current@, index_view(baseline)) {
                Ok(a) => r matches Ok(adapter) && adapter@ == a,
                Err(e) => r == Err::<Self, AdapterError>(e),
            },
    {
        match baseline {
            Some(b) => {
                if b.version() != current.version() {
                    return Err(AdapterError::VersionMismatch(current.version(), b.version()));
                }
            },
            None => {},
        }
        Ok(VersionedRustdocAdapter { current, baseline })
    }

    /// The index of the current document.
    pub fn current(&self) -> (r: &'a VersionedIndex<'a>)
        ensures
            r@ == self@.current,
    {
        self.current
    }

    /// The index of the baseline document, where there is one. It is of the
    /// revision of the current index.
    pub fn baseline(&self) -> (r: Option<&'a VersionedIndex<'a>>)
        ensures
            index_view(r) == self@.baseline,
            r matches Some(b) ==> b@.storage.version == self@.current.storage.version,
    {
        proof {
            use_type_invariant(self);
        }
        self.baseline
    }

    /// The revision of the adapter, which is that of its indexes.
    pub fn version(&self) -> (r: u32)
        ensures
            r == self@.current.storage.version,
            self@.baseline matches Some(b) ==> r == b.storage.version,
            is_supported(r),
    {
        proof {
            use_type_invariant(self);
        }
        self.current.version()
    }
}

} // verus!
