//! Relative path diffs between absolute file paths: walk up out of the
//! source file's containing directory to the deepest common ancestor, then
//! down into the target.

use vstd::prelude::*;
use crate::segments::seg_views;
use crate::segments::spec_segments;
use crate::segments::split_segments;

verus! {

/// Length of the longest common prefix of two component sequences.
pub open spec fn spec_lcp(a: Seq<Seq<char>>, b: Seq<Seq<char>>) -> nat
    decreases a.len(),
{
    if a.len() == 0 || b.len() == 0 || a[0] != b[0] {
        0
    } else {
        (1 + spec_lcp(a.drop_first(), b.drop_first())) as nat
    }
}

/// The longest common prefix is no longer than either sequence and the
/// sequences agree on it.
pub proof fn lemma_lcp_bounds(a: Seq<Seq<char>>, b: Seq<Seq<char>>)
    ensures
        spec_lcp(a, b) <= a.len(),
        spec_lcp(a, b) <= b.len(),
    decreases a.len(),
{
    if a.len() == 0 || b.len() == 0 || a[0] != b[0] {
    } else {
        lemma_lcp_bounds(a.drop_first(), b.drop_first());
    }
}

/// A position up to which two sequences agree, and at which they first
/// disagree or end, is their longest common prefix.
proof fn lemma_lcp_at(a: Seq<Seq<char>>, b: Seq<Seq<char>>, k: nat)
    requires
        k <= a.len(),
        k <= b.len(),
        forall|i: int| 0 <= i < k ==> a[i] == b[i],
        k == a.len() || k == b.len() || a[k as int] != b[k as int],
    ensures
        spec_lcp(a, b) == k,
    decreases k,
{
    if k == 0 {
    } else {
        assert(a[0] == b[0]);
        let a1 = a.drop_first();
        let b1 = b.drop_first();
        assert(forall|i: int| 0 <= i < k - 1 ==> a1[i] == b1[i]);
        lemma_lcp_at(a1, b1, (k - 1) as nat);
    }
}

/// The diff from the directory `base` to the location `target`: one `..`
/// step for each component of `base` beyond the deepest common ancestor,
/// then the components of `target` beneath that ancestor.
pub open spec fn spec_diff(base: Seq<Seq<char>>, target: Seq<Seq<char>>) -> Seq<Seq<char>> {
    let k = spec_lcp(base, target) as int;
    Seq::new((base.len() - k) as nat, |i: int| seq!['.', '.']) + target.skip(k)
}

/// Whether `path` has a containing directory, that is, at least one
/// component of its own: a filesystem root has none.
pub open spec fn has_containing_directory(path: Seq<char>) -> bool {
    spec_segments(path).len() >= 1
}

/// The relative path from the containing directory of the file `from` to
/// `to`, as a sequence of components. `from` must not be a filesystem
/// root: a file to rewrite always has a containing directory, so a rootless
/// `from` is a caller defect and is ruled out here.
pub fn get_relative_path(from: &str, to: &str) -> (diff: Vec<String>)
    requires
        has_containing_directory(from@),
    ensures
        seg_views(diff@) == spec_diff(
            spec_segments(from@).drop_last(),
            spec_segments(to@),
        ),
{
    let mut parent = split_segments(from);
    let tsegs = split_segments(to);
    proof {
        assert(parent@.len() == seg_views(parent@).len());
    }
    let _name = parent.pop();
    let ghost base = seg_views(parent@);
    let ghost target = seg_views(tsegs@);
    proof {
        assert(base =~= spec_segments(from@).drop_last());
    }
    let mut k: usize = 0;
    while k < parent.len() && k < tsegs.len() && parent[k] == tsegs[k]
        invariant
            k <= base.len(),
            k <= target.len(),
            base == seg_views(parent@),
            target == seg_views(tsegs@),
            forall|i: int| 0 <= i < k ==> base[i] == target[i],
        decreases base.len() - k,
    {
        k = k + 1;
    }
    proof {
        lemma_lcp_at(base, target, k as nat);
    }
    let ups = parent.len() - k;
    let mut diff: Vec<String> = Vec::new();
    let mut j: usize = 0;
    while j < ups
        invariant
            j <= ups,
            seg_views(diff@) =~= Seq::new(j as nat, |i: int| seq!['.', '.']),
        decreases ups - j,
    {
        let ghost prev = diff@;
        diff.push(String::from_str(".."));
        proof {
            reveal_strlit("..");
            assert(".."@ =~= seq!['.', '.']);
            assert(seg_views(diff@) =~= seg_views(prev).push(seq!['.', '.']));
            assert(seg_views(prev).push(seq!['.', '.']) =~= Seq::new(
                j as nat + 1,
                |i: int| seq!['.', '.'],
            ));
        }
        j = j + 1;
    }
    let mut m: usize = k;
    while m < tsegs.len()
        invariant
            k <= m <= target.len(),
            target == seg_views(tsegs@),
            seg_views(diff@) =~= Seq::new(ups as nat, |i: int| seq!['.', '.']) + target.subrange(
                k as int,
                m as int,
            ),
        decreases target.len() - m,
    {
        let ghost prev = diff@;
        diff.push(tsegs[m].clone());
        proof {
            assert(seg_views(diff@) =~= seg_views(prev).push(target[m as int]));
            assert(seg_views(prev).push(target[m as int]) =~= Seq::new(
                ups as nat,
                |i: int| seq!['.', '.'],
            ) + target.subrange(k as int, m as int + 1));
        }
        m = m + 1;
    }
    proof {
        assert(target.subrange(k as int, target.len() as int) =~= target.skip(k as int));
        assert(seg_views(diff@) =~= spec_diff(base, target));
    }
    diff
}

} // verus!
