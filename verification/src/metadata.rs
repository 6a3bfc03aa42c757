//! Package metadata, and the choice of the one package record that a loaded
//! document belongs to.
//!
//! The metadata names a root record with a single dependency, the package
//! under study, and lists all package records. Several records may bear the
//! dependency's name, so a second test decides: a path dependency keeps the
//! records whose manifest lies under its path, a version dependency keeps
//! those whose version meets its requirement. Exactly one record must remain.

use vstd::prelude::*;
use vstd::string::StringExecFns;
use crate::error::{outcome, LoadingError, LoadingErrorView};

verus! {

/// How the root record refers to the package under study.
#[derive(Debug, Clone, PartialEq, Eq)]
pub enum DependencySource {
    /// By a directory on disk.
    Path(String),
    /// By a version requirement, as text (`^1.0.0`).
    Requirement(String),
}

/// A dependency of the root record.
#[derive(Debug, Clone, PartialEq, Eq)]
pub struct TargetDependency {
    pub name: String,
    pub source: DependencySource,
}

/// One package of the dependency graph.
#[derive(Debug, Clone, PartialEq, Eq)]
pub struct PackageRecord {
    pub name: String,
    /// The package's own version, as text (`1.2.3`).
    pub version: Option<String>,
    /// The path of the package's manifest file.
    pub manifest_path: Option<String>,
}

/// The root record of the dependency graph.
#[derive(Debug, Clone, PartialEq, Eq)]
pub struct RootRecord {
    pub dependencies: Vec<TargetDependency>,
}

/// The dependency graph: its root, where it has one, and all its packages.
#[derive(Debug, Clone, PartialEq, Eq)]
pub struct Metadata {
    pub root: Option<RootRecord>,
    pub packages: Vec<PackageRecord>,
}

/// A `DependencySource` with its text as a sequence of characters.
pub enum DependencySourceView {
    Path(Seq<char>),
    Requirement(Seq<char>),
}

/// A `PackageRecord` with its texts as sequences of characters.
pub struct PackageRecordView {
    pub name: Seq<char>,
    pub version: Option<Seq<char>>,
    pub manifest_path: Option<Seq<char>>,
}

/// The view of a text that may be absent.
pub open spec fn text_view(text: Option<String>) -> Option<Seq<char>> {
    match text {
        Some(t) => Some(t@),
        None => None,
    }
}

impl View for DependencySource {
    type V = DependencySourceView;

    open spec fn view(&self) -> DependencySourceView {
        match *self {
            DependencySource::Path(p) => DependencySourceView::Path(p@),
            DependencySource::Requirement(r) => DependencySourceView::Requirement(r@),
        }
    }
}

impl View for PackageRecord {
    type V = PackageRecordView;

    open spec fn view(&self) -> PackageRecordView {
        PackageRecordView {
            name: self.name@,
            version: text_view(self.version),
            manifest_path: text_view(self.manifest_path),
        }
    }
}

/// The views of the package records, in their order.
pub open spec fn records(packages: Seq<PackageRecord>) -> Seq<PackageRecordView> {
    packages.map_values(|p: PackageRecord| p@)
}

/// Whether a version meets a requirement, as `semver` decides it on their
/// texts; `None` where either text does not parse.
pub uninterp spec fn semver_admits(requirement: Seq<char>, version: Seq<char>) -> Option<bool>;

/// Parses the requirement with `semver::VersionReq::parse` and the version
/// with `semver::Version::parse`, and asks `VersionReq::matches`. Nothing is
/// proved of `semver`: the contract only gives its answer a name.
#[verifier::external_body]
fn requirement_admits(requirement: &str, version: &str) -> (r: Option<bool>)
    ensures
        r == semver_admits(requirement@, version@),
{
    let requirement = cargo_metadata::semver::VersionReq::parse(requirement).ok()?;
    let version = cargo_metadata::semver::Version::parse(version).ok()?;
    Some(requirement.matches(&version))
}

/// Asks `camino::Utf8Path::starts_with` whether `base` is a prefix of `path`
/// by whole path components. What a component is depends on the platform, so
/// nothing is stated of the answer.
#[verifier::external_body]
fn path_starts_with(path: &str, base: &str) -> (r: bool)
{
    cargo_metadata::camino::Utf8Path::new(path).starts_with(base)
}

/// The record at `i` bears the name and was kept by the second test.
pub open spec fn is_candidate(
    packages: Seq<PackageRecordView>,
    name: Seq<char>,
    keep: Seq<bool>,
    i: int,
) -> bool {
    0 <= i < packages.len() && i < keep.len() && packages[i].name == name && keep[i]
}

/// The place of the one candidate: an error names the dependency where there
/// is no candidate, or more than one.
pub open spec fn selection(
    packages: Seq<PackageRecordView>,
    name: Seq<char>,
    keep: Seq<bool>,
) -> Result<int, LoadingErrorView> {
    if !exists|i: int| is_candidate(packages, name, keep, i) {
        Err(LoadingErrorView::PackageNotFound(name))
    } else {
        let i = choose|i: int| is_candidate(packages, name, keep, i);
        if exists|j: int| j != i && is_candidate(packages, name, keep, j) {
            Err(LoadingErrorView::AmbiguousPackage(name))
        } else {
            Ok(i)
        }
    }
}

/// A candidate beside which there is no other is the selection.
pub proof fn lemma_selection_unique(
    packages: Seq<PackageRecordView>,
    name: Seq<char>,
    keep: Seq<bool>,
    i: int,
)
    requires
        is_candidate(packages, name, keep, i),
        forall|j: int| j != i ==> !is_candidate(packages, name, keep, j),
    ensures
        selection(packages, name, keep) == Ok::<int, LoadingErrorView>(i),
{
}

/// Two distinct candidates make the selection ambiguous.
pub proof fn lemma_selection_ambiguous(
    packages: Seq<PackageRecordView>,
    name: Seq<char>,
    keep: Seq<bool>,
    i: int,
    j: int,
)
    requires
        is_candidate(packages, name, keep, i),
        is_candidate(packages, name, keep, j),
        i != j,
    ensures
        selection(packages, name, keep) == Err::<int, LoadingErrorView>(
            LoadingErrorView::AmbiguousPackage(name),
        ),
{
    let c = choose|c: int| is_candidate(packages, name, keep, c);
    if c == i {
        assert(j != c && is_candidate(packages, name, keep, j));
    } else {
        assert(i != c && is_candidate(packages, name, keep, i));
    }
}

/// The selection succeeds exactly where there is one candidate and no other,
/// reports a missing package exactly where there is no candidate, and an
/// ambiguous one exactly where there are two.
pub proof fn lemma_selection_cases(
    packages: Seq<PackageRecordView>,
    name: Seq<char>,
    keep: Seq<bool>,
)
    ensures
        match selection(packages, name, keep) {
            Ok(i) => is_candidate(packages, name, keep, i) && forall|j: int|
                j != i ==> !is_candidate(packages, name, keep, j),
            Err(LoadingErrorView::PackageNotFound(n)) => n == name && forall|j: int|
                !is_candidate(packages, name, keep, j),
            Err(LoadingErrorView::AmbiguousPackage(n)) => n == name && exists|i: int, j: int|
                i != j && is_candidate(packages, name, keep, i) && is_candidate(
                    packages,
                    name,
                    keep,
                    j,
                ),
            Err(_) => false,
        },
{
    if exists|i: int| is_candidate(packages, name, keep, i) {
        let i = choose|i: int| is_candidate(packages, name, keep, i);
        if exists|j: int| j != i && is_candidate(packages, name, keep, j) {
            let j = choose|j: int| j != i && is_candidate(packages, name, keep, j);
            assert(i != j && is_candidate(packages, name, keep, i) && is_candidate(
                packages,
                name,
                keep,
                j,
            ));
        }
    }
}

/// Chooses among the records that bear `name` and that `keep` marks: the place
/// of the only one, or the error that says whether there was none or several.
pub fn pick_unique(packages: &Vec<PackageRecord>, name: &str, keep: &Vec<bool>) -> (r: Result<
    usize,
    LoadingError,
>)
    ensures
        match selection(records(packages@), name@, keep@) {
            Ok(i) => r == Ok::<usize, LoadingError>(i as usize) && i < packages.len(),
            Err(e) => r matches Err(f) && f@ == e,
        },
{
    let ghost views = records(packages@);
    let wanted = String::from_str(name);
    let mut found: Option<usize> = None;
    let mut i: usize = 0;
    while i < packages.len()
        invariant
            i <= packages.len(),
            views == records(packages@),
            wanted@ == name@,
            match found {
                Some(k) => k < i && is_candidate(views, name@, keep@, k as int) && forall|j: int|
                    0 <= j < i && j != k ==> !is_candidate(views, name@, keep@, j),
                None => forall|j: int| 0 <= j < i ==> !is_candidate(views, name@, keep@, j),
            },
        decreases packages.len() - i,
    {
        let kept: bool = i < keep.len() && keep[i];
        assert(views[i as int] == packages@[i as int]@);
        if kept && packages[i].name == wanted {
            match found {
                Some(k) => {
                    proof {
                        lemma_selection_ambiguous(views, name@, keep@, k as int, i as int);
                    }
                    return Err(LoadingError::AmbiguousPackage(wanted));
                },
                None => {
                    found = Some(i);
                },
            }
        }
        i = i + 1;
    }
    match found {
        Some(k) => {
            proof {
                lemma_selection_unique(views, name@, keep@, k as int);
            }
            Ok(k)
        },
        None => Err(LoadingError::PackageNotFound(wanted)),
    }
}

/// What the second test may say of the record `p`: for a version dependency
/// the record is kept exactly when it has a version that meets the
/// requirement; for a path dependency on the `starts_with` of the platform's
/// paths, of which only this is known: a record without a manifest path is not
/// kept.
pub open spec fn second_test_allows(
    source: DependencySourceView,
    p: PackageRecordView,
    kept: bool,
) -> bool {
    match source {
        DependencySourceView::Requirement(requirement) => kept == (p.version matches Some(v)
            && semver_admits(requirement, v) == Some(true)),
        DependencySourceView::Path(_) => kept ==> p.manifest_path is Some,
    }
}

/// `keep` holds, for every record, an answer that the second test may give.
pub open spec fn second_test(
    source: DependencySourceView,
    packages: Seq<PackageRecordView>,
    keep: Seq<bool>,
) -> bool {
    &&& keep.len() == packages.len()
    &&& forall|i: int|
        0 <= i < packages.len() ==> second_test_allows(source, #[trigger] packages[i], keep[i])
}

/// The message for metadata without a root record.
pub open spec fn no_root_message() -> Seq<char> {
    "no root package found in 'cargo metadata' output"@
}

/// The message for a root record that has not exactly one dependency.
pub open spec fn dependency_count_message() -> Seq<char> {
    "the metadata unexpectedly contained more than one dependency; we expected our target package to be the only dependency"@
}

/// The outcome of the resolution, once the second test has answered `keep`.
pub open spec fn resolution(
    packages: Seq<PackageRecordView>,
    name: Seq<char>,
    keep: Seq<bool>,
) -> Result<PackageRecordView, LoadingErrorView> {
    match selection(packages, name, keep) {
        Ok(i) => Ok(packages[i]),
        Err(e) => Err(e),
    }
}

/// The answers of the second test for every record.
fn apply_second_test(source: &DependencySource, packages: &Vec<PackageRecord>) -> (keep: Vec<bool>)
    ensures
        second_test(source@, records(packages@), keep@),
{
    let mut keep: Vec<bool> = Vec::new();
    let mut i: usize = 0;
    while i < packages.len()
        invariant
            i <= packages.len(),
            keep.len() == i,
            forall|j: int|
                0 <= j < i ==> second_test_allows(
                    source@,
                    #[trigger] records(packages@)[j],
                    keep@[j],
                ),
        decreases packages.len() - i,
    {
        let p = &packages[i];
        assert(records(packages@)[i as int] == p@);
        let kept: bool = match source {
            DependencySource::Path(base) => match &p.manifest_path {
                Some(path) => path_starts_with(path.as_str(), base.as_str()),
                None => false,
            },
            DependencySource::Requirement(requirement) => match &p.version {
                Some(version) => match requirement_admits(requirement.as_str(), version.as_str()) {
                    Some(admitted) => admitted,
                    None => false,
                },
                None => false,
            },
        };
        keep.push(kept);
        i = i + 1;
    }
    keep
}

/// `r` is an outcome of the resolution on `metadata`: the error for metadata
/// without a root record or with a root record that has not exactly one
/// dependency, and else what the selection yields on some answers that the
/// second test may give.
pub open spec fn resolves_to(metadata: Metadata, r: Result<PackageRecord, LoadingError>) -> bool {
    match metadata.root {
        None => r matches Err(e) && e@ == LoadingErrorView::MetadataParsing(no_root_message()),
        Some(root) => if root.dependencies.len() != 1 {
            r matches Err(e) && e@ == LoadingErrorView::MetadataParsing(dependency_count_message())
        } else {
            exists|keep: Seq<bool>|
                {
                    &&& #[trigger] second_test(
                        root.dependencies[0].source@,
                        records(metadata.packages@),
                        keep,
                    )
                    &&& match selection(
                        records(metadata.packages@),
                        root.dependencies[0].name@,
                        keep,
                    ) {
                        Ok(i) => r == Ok::<PackageRecord, LoadingError>(metadata.packages[i]),
                        Err(e) => r matches Err(f) && f@ == e,
                    }
                }
        },
    }
}

/// Picks the package record that the single dependency of the root record
/// refers to: among the records of the dependency's name, the only one whose
/// manifest lies under the dependency's path, or whose version meets the
/// dependency's requirement.
pub fn get_package_metadata(metadata: Metadata) -> (r: Result<PackageRecord, LoadingError>)
    ensures
        resolves_to(metadata, r),
{
    let Metadata { root, packages } = metadata;
    let mut packages = packages;
    let root = match root {
        Some(root) => root,
        None => {
            return Err(
                LoadingError::MetadataParsing(
                    String::from_str("no root package found in 'cargo metadata' output"),
                ),
            );
        },
    };
    if root.dependencies.len() != 1 {
        return Err(
            LoadingError::MetadataParsing(
                String::from_str(
                    "the metadata unexpectedly contained more than one dependency; we expected our target package to be the only dependency",
                ),
            ),
        );
    }
    let dependency = &root.dependencies[0];
    let keep = apply_second_test(&dependency.source, &packages);
    match pick_unique(&packages, dependency.name.as_str(), &keep) {
        Ok(i) => Ok(packages.remove(i)),
        Err(e) => Err(e),
    }
}

} // verus!
