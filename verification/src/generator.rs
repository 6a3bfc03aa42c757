//! What the generator of the per-revision dispatch source decides: which
//! revisions its arguments name, which of them a template keeps on either
//! side of a cutoff, and whether anything is written.
//!
//! The templates are rendered against the list of revisions. Where the shape
//! of a revision's dispatch changes at a cutoff, a template splits the list in
//! two with `map_lte` and `map_ge`. Nothing is written unless every template
//! was rendered.

use vstd::prelude::*;
use vstd::utf8::encode_utf8;
use crate::decimal::{parse_signed, signed_decimal};

verus! {

/// A failure of a generator run, with the input that caused it.
#[non_exhaustive]
#[derive(Debug, Clone, PartialEq, Eq)]
pub enum GeneratorError {
    /// The argument is no revision number.
    InvalidVersion(String),
    /// The template file could not be read; the second field is the cause.
    TemplateUnreadable(String, String),
    /// The template could not be rendered; the second field is the cause.
    RenderFailed(String, String),
}

/// A `GeneratorError` with its texts as sequences of characters.
pub enum GeneratorErrorView {
    InvalidVersion(Seq<char>),
    TemplateUnreadable(Seq<char>, Seq<char>),
    RenderFailed(Seq<char>, Seq<char>),
}

impl View for GeneratorError {
    type V = GeneratorErrorView;

    open spec fn view(&self) -> GeneratorErrorView {
        match *self {
            GeneratorError::InvalidVersion(a) => GeneratorErrorView::InvalidVersion(a@),
            GeneratorError::TemplateUnreadable(t, c) => GeneratorErrorView::TemplateUnreadable(
                t@,
                c@,
            ),
            GeneratorError::RenderFailed(t, c) => GeneratorErrorView::RenderFailed(t@, c@),
        }
    }
}

/// The elements of `versions` that are at most `cutoff`, in their order.
pub open spec fn at_most(versions: Seq<i64>, cutoff: i64) -> Seq<i64> {
    versions.filter(|v: i64| v <= cutoff)
}

/// The elements of `versions` that are above `cutoff`, in their order.
pub open spec fn above(versions: Seq<i64>, cutoff: i64) -> Seq<i64> {
    versions.filter(|v: i64| v > cutoff)
}

/// Keeps the revisions that are at most `cutoff`, in their order.
pub fn map_lte(versions: &[i64], cutoff: i64) -> (r: Vec<i64>)
    ensures
        r@ == at_most(versions@, cutoff),
{
    let mut r: Vec<i64> = Vec::new();
    let mut i: usize = 0;
    proof {
        reveal(Seq::filter);
        assert(versions@.take(0) =~= Seq::<i64>::empty());
    }
    while i < versions.len()
        invariant
            i <= versions.len(),
            r@ == at_most(versions@.take(i as int), cutoff),
        decreases versions.len() - i,
    {
        proof {
            reveal(Seq::filter);
            assert(versions@.take(i + 1).drop_last() =~= versions@.take(i as int));
        }
        if versions[i] <= cutoff {
            r.push(versions[i]);
        }
        i = i + 1;
    }
    assert(versions@.take(i as int) =~= versions@);
    r
}

/// Keeps the revisions that are above `cutoff`, in their order.
pub fn map_ge(versions: &[i64], cutoff: i64) -> (r: Vec<i64>)
    ensures
        r@ == above(versions@, cutoff),
{
    let mut r: Vec<i64> = Vec::new();
    let mut i: usize = 0;
    proof {
        reveal(Seq::filter);
        assert(versions@.take(0) =~= Seq::<i64>::empty());
    }
    while i < versions.len()
        invariant
            i <= versions.len(),
            r@ == above(versions@.take(i as int), cutoff),
        decreases versions.len() - i,
    {
        proof {
            reveal(Seq::filter);
            assert(versions@.take(i + 1).drop_last() =~= versions@.take(i as int));
        }
        if versions[i] > cutoff {
            r.push(versions[i]);
        }
        i = i + 1;
    }
    assert(versions@.take(i as int) =~= versions@);
    r
}

/// The two transforms part the list: what one keeps the other drops, each
/// keeps only elements of the list on its side of the cutoff, and every
/// element of the list is kept by the one on whose side it lies.
pub proof fn lemma_split_parts(versions: Seq<i64>, cutoff: i64)
    ensures
        at_most(versions, cutoff).len() + above(versions, cutoff).len() == versions.len(),
        forall|i: int|
            0 <= i < at_most(versions, cutoff).len() ==> (#[trigger] at_most(versions, cutoff)[i])
                <= cutoff && versions.contains(at_most(versions, cutoff)[i]),
        forall|i: int|
            0 <= i < above(versions, cutoff).len() ==> (#[trigger] above(versions, cutoff)[i])
                > cutoff && versions.contains(above(versions, cutoff)[i]),
        forall|i: int|
            0 <= i < versions.len() && versions[i] <= cutoff ==> at_most(versions, cutoff).contains(
                #[trigger] versions[i],
            ),
        forall|i: int|
            0 <= i < versions.len() && versions[i] > cutoff ==> above(versions, cutoff).contains(
                #[trigger] versions[i],
            ),
    decreases versions.len(),
{
    reveal(Seq::filter);
    if versions.len() > 0 {
        let rest = versions.drop_last();
        let last = versions.last();
        lemma_split_parts(rest, cutoff);
        let low = at_most(versions, cutoff);
        let high = above(versions, cutoff);
        let low_rest = at_most(rest, cutoff);
        let high_rest = above(rest, cutoff);
        assert(low == if last <= cutoff { low_rest.push(last) } else { low_rest });
        assert(high == if last > cutoff { high_rest.push(last) } else { high_rest });
        assert forall|i: int| 0 <= i < low.len() implies (#[trigger] low[i]) <= cutoff
            && versions.contains(low[i]) by {
            if i < low_rest.len() {
                assert(low[i] == low_rest[i]);
                assert(rest.contains(low_rest[i]));
                let k = choose|k: int| 0 <= k < rest.len() && rest[k] == low_rest[i];
                assert(versions[k] == low[i]);
            } else {
                assert(versions[versions.len() - 1] == low[i]);
            }
        }
        assert forall|i: int| 0 <= i < high.len() implies (#[trigger] high[i]) > cutoff
            && versions.contains(high[i]) by {
            if i < high_rest.len() {
                assert(high[i] == high_rest[i]);
                assert(rest.contains(high_rest[i]));
                let k = choose|k: int| 0 <= k < rest.len() && rest[k] == high_rest[i];
                assert(versions[k] == high[i]);
            } else {
                assert(versions[versions.len() - 1] == high[i]);
            }
        }
        assert forall|i: int| 0 <= i < versions.len() && versions[i] <= cutoff implies low.contains(
            #[trigger] versions[i],
        ) by {
            if i < rest.len() {
                assert(rest[i] == versions[i]);
                assert(low_rest.contains(rest[i]));
                let k = choose|k: int| 0 <= k < low_rest.len() && low_rest[k] == rest[i];
                assert(low[k] == versions[i]);
            } else {
                assert(low[low.len() - 1] == versions[i]);
            }
        }
        assert forall|i: int| 0 <= i < versions.len() && versions[i] > cutoff implies high.contains(
            #[trigger] versions[i],
        ) by {
            if i < rest.len() {
                assert(rest[i] == versions[i]);
                assert(high_rest.contains(rest[i]));
                let k = choose|k: int| 0 <= k < high_rest.len() && high_rest[k] == rest[i];
                assert(high[k] == versions[i]);
            } else {
                assert(high[high.len() - 1] == versions[i]);
            }
        }
    }
}

/// The two transforms keep the order of the list: what they keep of the first
/// `k` elements is the beginning of what they keep of all.
pub proof fn lemma_split_keeps_order(versions: Seq<i64>, cutoff: i64, k: int)
    requires
        0 <= k <= versions.len(),
    ensures
        at_most(versions.take(k), cutoff).is_prefix_of(at_most(versions, cutoff)),
        above(versions.take(k), cutoff).is_prefix_of(above(versions, cutoff)),
{
    assert(versions.take(k).is_prefix_of(versions));
    versions.take(k).lemma_filter_monotone(versions, |v: i64| v <= cutoff);
    versions.take(k).lemma_filter_monotone(versions, |v: i64| v > cutoff);
}

/// The list is in ascending order.
#[verifier::opaque]
pub open spec fn ascending(versions: Seq<i64>) -> bool {
    forall|i: int, j: int| 0 <= i <= j < versions.len() ==> versions[i] <= versions[j]
}

/// Of a list that lies at or below the cutoff, everything is kept by the one
/// transform and nothing by the other.
pub proof fn lemma_split_all_low(versions: Seq<i64>, cutoff: i64)
    requires
        forall|i: int| 0 <= i < versions.len() ==> versions[i] <= cutoff,
    ensures
        at_most(versions, cutoff) == versions,
        above(versions, cutoff) == Seq::<i64>::empty(),
    decreases versions.len(),
{
    reveal(Seq::filter);
    if versions.len() > 0 {
        let rest = versions.drop_last();
        assert forall|i: int| 0 <= i < rest.len() implies rest[i] <= cutoff by {
            assert(rest[i] == versions[i]);
        }
        lemma_split_all_low(rest, cutoff);
        assert(versions.last() <= cutoff);
        assert(rest.push(versions.last()) =~= versions);
    } else {
        assert(at_most(versions, cutoff) =~= versions);
    }
}

/// An element above the cutoff at the end of a list is kept by the one
/// transform and dropped by the other.
pub proof fn lemma_split_push_high(rest: Seq<i64>, last: i64, cutoff: i64)
    requires
        last > cutoff,
    ensures
        at_most(rest.push(last), cutoff) == at_most(rest, cutoff),
        above(rest.push(last), cutoff) == above(rest, cutoff).push(last),
{
    reveal(Seq::filter);
    assert(rest.push(last).drop_last() =~= rest);
}

/// Of a list in ascending order, the last element is the greatest, and the
/// elements before it are in ascending order.
pub proof fn lemma_ascending_last(versions: Seq<i64>)
    requires
        ascending(versions),
        versions.len() > 0,
    ensures
        ascending(versions.drop_last()),
        forall|i: int| 0 <= i < versions.len() ==> versions[i] <= versions.last(),
{
    reveal(ascending);
}

/// A list that lies at or below the cutoff is cut in two at its end.
proof fn lemma_split_low_case(versions: Seq<i64>, cutoff: i64)
    requires
        forall|i: int| 0 <= i < versions.len() ==> versions[i] <= cutoff,
    ensures
        at_most(versions, cutoff) + above(versions, cutoff) == versions,
{
    lemma_split_all_low(versions, cutoff);
    assert(versions + Seq::<i64>::empty() =~= versions);
}

/// A list that is cut in two stays so when an element above the cutoff is
/// put at its end.
proof fn lemma_split_high_case(rest: Seq<i64>, last: i64, cutoff: i64)
    requires
        last > cutoff,
        at_most(rest, cutoff) + above(rest, cutoff) == rest,
    ensures
        at_most(rest.push(last), cutoff) + above(rest.push(last), cutoff) == rest.push(last),
{
    lemma_split_push_high(rest, last, cutoff);
    let low = at_most(rest, cutoff);
    let high = above(rest, cutoff);
    assert(low + high.push(last) =~= (low + high).push(last));
}

/// An ascending list is cut in two at the cutoff: what is at most the cutoff,
/// followed by what is above it, is the list.
pub proof fn lemma_split_ascending(versions: Seq<i64>, cutoff: i64)
    requires
        ascending(versions),
    ensures
        at_most(versions, cutoff) + above(versions, cutoff) == versions,
    decreases versions.len(),
{
    if versions.len() == 0 {
        lemma_split_low_case(versions, cutoff);
    } else if versions.last() <= cutoff {
        lemma_ascending_last(versions);
        lemma_split_low_case(versions, cutoff);
    } else {
        let rest = versions.drop_last();
        let last = versions.last();
        assert(rest.push(last) =~= versions);
        assert(ascending(rest)) by {
            lemma_ascending_last(versions);
        }
        lemma_split_ascending(rest, cutoff);
        lemma_split_high_case(rest, last, cutoff);
    }
}

/// The revisions that the arguments name, or the first argument that names
/// none.
pub open spec fn parsed_versions(args: Seq<String>) -> Result<Seq<i64>, GeneratorErrorView>
    decreases args.len(),
{
    if args.len() == 0 {
        Ok(Seq::empty())
    } else {
        match parsed_versions(args.drop_last()) {
            Err(e) => Err(e),
            Ok(versions) => match signed_decimal(encode_utf8(args.last()@)) {
                Some(v) => Ok(versions.push(v)),
                None => Err(GeneratorErrorView::InvalidVersion(args.last()@)),
            },
        }
    }
}

/// Reads the revisions from the arguments of the generator, one decimal
/// number each. Fails on the first argument that is none, and names it.
pub fn parse_versions(args: &Vec<String>) -> (r: Result<Vec<i64>, GeneratorError>)
    ensures
        match parsed_versions(args@) {
            Ok(versions) => r matches Ok(v) && v@ == versions,
            Err(e) => r matches Err(f) && f@ == e,
        },
{
    let mut versions: Vec<i64> = Vec::new();
    let mut i: usize = 0;
    assert(args@.take(0) =~= Seq::<String>::empty());
    while i < args.len()
        invariant
            i <= args.len(),
            parsed_versions(args@.take(i as int)) == Ok::<Seq<i64>, GeneratorErrorView>(
                versions@,
            ),
        decreases args.len() - i,
    {
        proof {
            assert(args@.take(i + 1).drop_last() =~= args@.take(i as int));
            assert(args@.take(i + 1).last() == args@[i as int]);
        }
        match parse_signed(args[i].as_str().as_bytes()) {
            Some(v) => {
                versions.push(v);
            },
            None => {
                proof {
                    lemma_failure_stays(args@, i + 1);
                }
                return Err(GeneratorError::InvalidVersion(args[i].clone()));
            },
        }
        i = i + 1;
    }
    assert(args@.take(i as int) =~= args@);
    Ok(versions)
}

/// Once a prefix of the arguments fails, the whole fails in the same way.
pub proof fn lemma_failure_stays(args: Seq<String>, k: int)
    requires
        0 <= k <= args.len(),
        parsed_versions(args.take(k)) is Err,
    ensures
        parsed_versions(args) == parsed_versions(args.take(k)),
    decreases args.len() - k,
{
    if k == args.len() {
        assert(args.take(k) =~= args);
    } else {
        assert(args.take(k + 1).drop_last() =~= args.take(k));
        lemma_failure_stays(args, k + 1);
    }
}

/// Why a template gave no text.
#[derive(Debug, Clone, PartialEq, Eq)]
pub enum RenderFailure {
    /// The template file could not be read; the field is the cause.
    Unreadable(String),
    /// The template could not be rendered; the field is the cause.
    Failed(String),
}

/// What became of one template: the text to write to `target`, or the reason
/// why there is none.
#[derive(Debug)]
pub struct Rendering {
    pub template: String,
    pub target: String,
    pub outcome: Result<String, RenderFailure>,
}

/// A text to write to the file `target`.
#[derive(Debug, Clone, PartialEq, Eq)]
pub struct Output {
    pub target: String,
    pub text: String,
}

/// An `Output` with its texts as sequences of characters.
pub struct OutputView {
    pub target: Seq<char>,
    pub text: Seq<char>,
}

impl View for Output {
    type V = OutputView;

    open spec fn view(&self) -> OutputView {
        OutputView { target: self.target@, text: self.text@ }
    }
}

/// The write that a rendering asks for, or the error that its failure is.
pub open spec fn rendering_result(r: Rendering) -> Result<OutputView, GeneratorErrorView> {
    match r.outcome {
        Ok(text) => Ok(OutputView { target: r.target@, text: text@ }),
        Err(RenderFailure::Unreadable(cause)) => Err(
            GeneratorErrorView::TemplateUnreadable(r.template@, cause@),
        ),
        Err(RenderFailure::Failed(cause)) => Err(
            GeneratorErrorView::RenderFailed(r.template@, cause@),
        ),
    }
}

/// The writes of a run, in the order of the templates: all of them where
/// every template gave a text, and otherwise none, but the error of the
/// first template that gave none.
pub open spec fn collected(renderings: Seq<Rendering>) -> Result<
    Seq<OutputView>,
    GeneratorErrorView,
>
    decreases renderings.len(),
{
    if renderings.len() == 0 {
        Ok(Seq::empty())
    } else {
        match collected(renderings.drop_last()) {
            Err(e) => Err(e),
            Ok(outputs) => match rendering_result(renderings.last()) {
                Ok(output) => Ok(outputs.push(output)),
                Err(e) => Err(e),
            },
        }
    }
}

/// The views of the outputs, in their order.
pub open spec fn output_views(outputs: Seq<Output>) -> Seq<OutputView> {
    outputs.map_values(|o: Output| o@)
}

/// Once a prefix of the renderings fails, the whole fails in the same way.
pub proof fn lemma_collected_failure_stays(renderings: Seq<Rendering>, k: int)
    requires
        0 <= k <= renderings.len(),
        collected(renderings.take(k)) is Err,
    ensures
        collected(renderings) == collected(renderings.take(k)),
    decreases renderings.len() - k,
{
    if k == renderings.len() {
        assert(renderings.take(k) =~= renderings);
    } else {
        assert(renderings.take(k + 1).drop_last() =~= renderings.take(k));
        lemma_collected_failure_stays(renderings, k + 1);
    }
}

/// Decides what a run writes: every text, where every template gave one, and
/// nothing where one gave none. No file is touched on a failed run.
pub fn collect_outputs(renderings: &Vec<Rendering>) -> (r: Result<Vec<Output>, GeneratorError>)
    ensures
        match collected(renderings@) {
            Ok(outputs) => r matches Ok(o) && output_views(o@) == outputs,
            Err(e) => r matches Err(f) && f@ == e,
        },
{
    let mut outputs: Vec<Output> = Vec::new();
    let mut i: usize = 0;
    assert(renderings@.take(0) =~= Seq::<Rendering>::empty());
    assert(output_views(outputs@) =~= Seq::<OutputView>::empty());
    while i < renderings.len()
        invariant
            i <= renderings.len(),
            collected(renderings@.take(i as int)) == Ok::<Seq<OutputView>, GeneratorErrorView>(
                output_views(outputs@),
            ),
        decreases renderings.len() - i,
    {
        proof {
            assert(renderings@.take(i + 1).drop_last() =~= renderings@.take(i as int));
            assert(renderings@.take(i + 1).last() == renderings@[i as int]);
        }
        let rendering = &renderings[i];
        let ghost before = outputs@;
        match &rendering.outcome {
            Ok(text) => {
                let output = Output { target: rendering.target.clone(), text: text.clone() };
                outputs.push(output);
                assert(output_views(outputs@) =~= output_views(before).push(output@));
            },
            Err(RenderFailure::Unreadable(cause)) => {
                proof {
                    lemma_collected_failure_stays(renderings@, i + 1);
                }
                return Err(
                    GeneratorError::TemplateUnreadable(rendering.template.clone(), cause.clone()),
                );
            },
            Err(RenderFailure::Failed(cause)) => {
                proof {
                    lemma_collected_failure_stays(renderings@, i + 1);
                }
                return Err(
                    GeneratorError::RenderFailed(rendering.template.clone(), cause.clone()),
                );
            },
        }
        i = i + 1;
    }
    assert(renderings@.take(i as int) =~= renderings@);
    Ok(outputs)
}

/// The templates of the dispatch source and the files that they are
/// rendered to, as paths from the generator's directory.
pub fn template_and_output() -> (r: Vec<(&'static str, &'static str)>)
    ensures
        r@.len() == 3,
        r@[0].0@ == "../../template/parser.rs.template"@,
        r@[0].1@ == "../../src/parser.rs"@,
        r@[1].0@ == "../../template/query.rs.template"@,
        r@[1].1@ == "../../src/query.rs"@,
        r@[2].0@ == "../../template/versioned.rs.template"@,
        r@[2].1@ == "../../src/versioned.rs"@,
{
    let mut r: Vec<(&'static str, &'static str)> = Vec::new();
    r.push(("../../template/parser.rs.template", "../../src/parser.rs"));
    r.push(("../../template/query.rs.template", "../../src/query.rs"));
    r.push(("../../template/versioned.rs.template", "../../src/versioned.rs"));
    r
}

} // verus!
