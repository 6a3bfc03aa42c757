//! The closed set of format revisions that this build understands.

use vstd::prelude::*;
use vstd::string::StringExecFns;
use crate::decimal::{decimal_text, push_decimal};

verus! {

/// The last revision whose index is built for a given target platform. Later
/// revisions build their index from the storage alone.
pub const TARGET_TRIPLE_CUTOFF: u32 = 43;

/// The revisions that this build understands, in ascending order.
pub open spec fn supported_revisions() -> Seq<u32> {
    seq![37u32, 39u32, 43u32, 45u32, 48u32]
}

/// The revision is one of the supported ones.
pub open spec fn is_supported(version: u32) -> bool {
    supported_revisions().contains(version)
}

/// An index of this revision is built for a target platform.
pub open spec fn takes_target_triple(version: u32) -> bool {
    version <= TARGET_TRIPLE_CUTOFF
}

/// How a revision is written in messages: `v` and its number.
pub open spec fn revision_label(version: u32) -> Seq<char> {
    seq!['v'] + decimal_text(version as nat)
}

/// The labels of the revisions, separated by a comma and a space.
pub open spec fn revision_list_text(revisions: Seq<u32>) -> Seq<char>
    decreases revisions.len(),
{
    if revisions.len() == 0 {
        Seq::empty()
    } else if revisions.len() == 1 {
        revision_label(revisions[0])
    } else {
        revision_list_text(revisions.drop_last()) + seq![',', ' '] + revision_label(
            revisions.last(),
        )
    }
}

/// The supported revisions, in ascending order.
pub fn supported_versions() -> (r: Vec<u32>)
    ensures
        r@ == supported_revisions(),
{
    let mut r: Vec<u32> = Vec::new();
    r.push(37);
    r.push(39);
    r.push(43);
    r.push(45);
    r.push(48);
    assert(r@ =~= supported_revisions());
    r
}

/// Whether this build understands the revision.
pub fn supports(version: u32) -> (r: bool)
    ensures
        r == is_supported(version),
{
    let all = supported_versions();
    let mut i: usize = 0;
    while i < all.len()
        invariant
            i <= all.len(),
            all@ == supported_revisions(),
            forall|j: int| 0 <= j < i ==> all@[j] != version,
        decreases all.len() - i,
    {
        if all[i] == version {
            assert(supported_revisions()[i as int] == version);
            return true;
        }
        i = i + 1;
    }
    false
}

/// Appends the label of a revision to `out`.
pub fn push_revision_label(out: &mut String, version: u32)
    ensures
        final(out)@ == old(out)@ + revision_label(version),
{
    proof {
        reveal_strlit("v");
    }
    out.append("v");
    assert(out@ =~= old(out)@ + seq!['v']);
    push_decimal(out, version);
    assert(out@ =~= old(out)@ + revision_label(version));
}

/// Appends the labels of the revisions to `out`, separated by a comma and a
/// space.
pub fn push_revision_list(out: &mut String, revisions: &Vec<u32>)
    ensures
        final(out)@ == old(out)@ + revision_list_text(revisions@),
{
    proof {
        reveal_strlit(", ");
    }
    let mut i: usize = 0;
    assert(revisions@.take(0) =~= Seq::<u32>::empty());
    assert(out@ =~= old(out)@ + revision_list_text(revisions@.take(0)));
    while i < revisions.len()
        invariant
            i <= revisions.len(),
            ", "@ == seq![',', ' '],
            out@ == old(out)@ + revision_list_text(revisions@.take(i as int)),
        decreases revisions.len() - i,
    {
        let ghost before = out@;
        if i > 0 {
            out.append(", ");
        }
        push_revision_label(out, revisions[i]);
        proof {
            let next = revisions@.take(i + 1);
            assert(next.drop_last() =~= revisions@.take(i as int));
            assert(next.last() == revisions@[i as int]);
            if i == 0 {
                assert(revisions@.take(0).len() == 0);
                assert(out@ =~= old(out)@ + revision_list_text(next));
            } else {
                assert(out@ =~= old(out)@ + revision_list_text(next));
            }
        }
        i = i + 1;
    }
    assert(revisions@.take(i as int) =~= revisions@);
}

/// The supported revisions stand in strictly ascending order, so none occurs
/// twice.
pub proof fn lemma_supported_ascending()
    ensures
        forall|i: int, j: int|
            0 <= i < j < supported_revisions().len() ==> supported_revisions()[i]
                < supported_revisions()[j],
{
}

} // verus!
