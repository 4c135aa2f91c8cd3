//! Which of a list of patterns match a path.

use crate::pattern::pattern_matches;
use crate::regexp::matching_sources;
use crate::router::sources_of;
use vstd::prelude::*;

verus! {

/// In ascending order, the positions of the paths whose pattern matches
/// the normalized request path `target`.
pub open spec fn matching(paths: Seq<Seq<char>>, target: Seq<char>) -> Seq<usize> {
    matching_sources(sources_of(paths), target, paths.len() as int)
}

proof fn lemma_matching_upto(paths: Seq<Seq<char>>, target: Seq<char>, n: int)
    requires
        0 <= n <= paths.len() <= usize::MAX,
    ensures
        forall|k: int|
            0 <= k < matching_sources(sources_of(paths), target, n).len() ==> (
            #[trigger] matching_sources(sources_of(paths), target, n)[k]) < n && pattern_matches(
                paths[matching_sources(sources_of(paths), target, n)[k] as int],
                target,
            ),
        forall|j: int, k: int|
            0 <= j < k < matching_sources(sources_of(paths), target, n).len()
                ==> matching_sources(sources_of(paths), target, n)[j] < matching_sources(
                sources_of(paths),
                target,
                n,
            )[k],
        forall|i: int|
            0 <= i < n && pattern_matches(#[trigger] paths[i], target) ==> matching_sources(
                sources_of(paths),
                target,
                n,
            ).contains(i as usize),
        matching_sources(sources_of(paths), target, n).len() <= n,
    decreases n,
{
    if n > 0 {
        lemma_matching_upto(paths, target, n - 1);
        let before = matching_sources(sources_of(paths), target, n - 1);
        let cur = matching_sources(sources_of(paths), target, n);
        let last = (n - 1) as usize;
        assert(sources_of(paths)[n - 1] == crate::pattern::pattern_source(paths[n - 1]));
        if pattern_matches(paths[n - 1], target) {
            assert(cur == before.push(last));
            assert forall|k: int| 0 <= k < cur.len() implies (#[trigger] cur[k]) < n
                && pattern_matches(paths[cur[k] as int], target) by {
                if k < before.len() {
                    assert(cur[k] == before[k]);
                }
            }
            assert forall|j: int, k: int| 0 <= j < k < cur.len() implies cur[j] < cur[k] by {
                assert(cur[j] == before[j]);
                if k < before.len() {
                    assert(cur[k] == before[k]);
                }
            }
            assert forall|i: int|
                0 <= i < n && pattern_matches(#[trigger] paths[i], target) implies cur.contains(
                i as usize,
            ) by {
                if i < n - 1 {
                    assert(before.contains(i as usize));
                    let k = choose|k: int| 0 <= k < before.len() && before[k] == i as usize;
                    assert(cur[k] == i as usize);
                } else {
                    assert(cur[cur.len() - 1] == i as usize);
                }
            }
        } else {
            assert(cur == before);
        }
    }
}

/// The matching positions are positions of the list, each of a matching
/// path, in ascending order, and none is missing.
pub proof fn lemma_matching(paths: Seq<Seq<char>>, target: Seq<char>)
    requires
        paths.len() <= usize::MAX,
    ensures
        forall|k: int|
            0 <= k < matching(paths, target).len() ==> (#[trigger] matching(paths, target)[k])
                < paths.len() && pattern_matches(paths[matching(paths, target)[k] as int], target),
        forall|j: int, k: int|
            0 <= j < k < matching(paths, target).len() ==> matching(paths, target)[j] < matching(
                paths,
                target,
            )[k],
        forall|i: int|
            0 <= i < paths.len() && pattern_matches(#[trigger] paths[i], target) ==> matching(
                paths,
                target,
            ).contains(i as usize),
        matching(paths, target).len() <= paths.len(),
{
    lemma_matching_upto(paths, target, paths.len() as int);
}

} // verus!
