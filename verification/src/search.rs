//! Ranking of semantic-search hits: each hit names its file in the
//! document's FILE_PATH header, hits of the same file keep the best score,
//! and the files come out best first, at most fifty of them.
use vstd::prelude::*;
use crate::document::{document_file_path, parse_file_path};
use crate::engine::{lemma_position_some, lookup, AISearchEngine};
use crate::metadata::{FileMetadata, FileMetadataView};
use crate::text::str_eq;

verus! {

/// How many hits a search asks of the semantic table.
pub const SEARCH_HITS: usize = 20;

/// The most files a search returns.
pub const MAX_SEARCH_RESULTS: usize = 50;

/// One hit of the semantic table: the text of the matching document and its
/// similarity. The similarity is a non-negative `f32` carried as its bit
/// pattern; for such values the integer order of the bits is the numeric
/// order, so the ranking compares the bits.
pub struct SearchHit {
    pub text: String,
    pub score_bits: u32,
}

/// The indexed path a hit resolves to: the path in its FILE_PATH header, if
/// a record with that path is indexed.
pub open spec fn hit_path(files: Seq<FileMetadataView>, text: Seq<char>) -> Option<Seq<char>> {
    match document_file_path(text) {
        Some(p) => if lookup(files, p) is Some {
            Some(p)
        } else {
            None
        },
        None => None,
    }
}

/// `s` is the best score among the first `n` hits that resolve to `p`.
pub open spec fn best_in(
    files: Seq<FileMetadataView>,
    hits: Seq<SearchHit>,
    n: int,
    p: Seq<char>,
    s: u32,
) -> bool {
    &&& exists|k: int|
        0 <= k < n && #[trigger] hit_path(files, hits[k].text@) == Some(p) && hits[k].score_bits == s
    &&& forall|k: int|
        0 <= k < n && #[trigger] hit_path(files, hits[k].text@) == Some(p) ==> hits[k].score_bits <= s
}

proof fn lemma_lookup_path(files: Seq<FileMetadataView>, p: Seq<char>)
    ensures
        lookup(files, p) matches Some(m) ==> m.path@ == p,
{
    lemma_position_some(files, p, 0);
}

/// The paths of a list of records.
spec fn paths_of(v: Seq<FileMetadata>) -> Seq<Seq<char>> {
    v.map_values(|m: FileMetadata| m.path@)
}

/// `paths` and `scores` list, once each, every path that the first `n`
/// hits resolve to, with its best score.
spec fn table_ok(
    files: Seq<FileMetadataView>,
    hits: Seq<SearchHit>,
    n: int,
    paths: Seq<Seq<char>>,
    scores: Seq<u32>,
) -> bool {
    &&& paths.len() == scores.len()
    &&& forall|a: int| 0 <= a < paths.len() ==> best_in(files, hits, n, #[trigger] paths[a], scores[a])
    &&& forall|a: int, b: int| 0 <= a < b < paths.len() ==> #[trigger] paths[a] != #[trigger] paths[b]
    &&& forall|k: int|
        0 <= k < n && (#[trigger] hit_path(files, hits[k].text@)) is Some ==> exists|a: int|
            0 <= a < paths.len() && Some(paths[a]) == hit_path(files, hits[k].text@)
}

proof fn lemma_best_extends(
    files: Seq<FileMetadataView>,
    hits: Seq<SearchHit>,
    n: int,
    p: Seq<char>,
    s: u32,
)
    requires
        0 <= n < hits.len(),
        best_in(files, hits, n, p, s),
        hit_path(files, hits[n].text@) != Some(p),
    ensures
        best_in(files, hits, n + 1, p, s),
{
    let w = choose|k: int|
        0 <= k < n && #[trigger] hit_path(files, hits[k].text@) == Some(p) && hits[k].score_bits == s;
    assert(hit_path(files, hits[w].text@) == Some(p));
}

proof fn lemma_table_skip(
    files: Seq<FileMetadataView>,
    hits: Seq<SearchHit>,
    n: int,
    paths: Seq<Seq<char>>,
    scores: Seq<u32>,
)
    requires
        0 <= n < hits.len(),
        table_ok(files, hits, n, paths, scores),
        hit_path(files, hits[n].text@) is None,
    ensures
        table_ok(files, hits, n + 1, paths, scores),
{
    assert forall|a: int| 0 <= a < paths.len() implies best_in(files, hits, n + 1, #[trigger] paths[a], scores[a]) by {
        lemma_best_extends(files, hits, n, paths[a], scores[a]);
    }
}

proof fn lemma_table_update(
    files: Seq<FileMetadataView>,
    hits: Seq<SearchHit>,
    n: int,
    paths: Seq<Seq<char>>,
    scores: Seq<u32>,
    j: int,
)
    requires
        0 <= n < hits.len(),
        table_ok(files, hits, n, paths, scores),
        0 <= j < paths.len(),
        hit_path(files, hits[n].text@) == Some(paths[j]),
    ensures
        table_ok(
            files,
            hits,
            n + 1,
            paths,
            scores.update(j, if hits[n].score_bits > scores[j] { hits[n].score_bits } else { scores[j] }),
        ),
{
    let ns = scores.update(j, if hits[n].score_bits > scores[j] { hits[n].score_bits } else { scores[j] });
    assert forall|a: int| 0 <= a < paths.len() implies best_in(files, hits, n + 1, #[trigger] paths[a], ns[a]) by {
        if a == j {
            let w = choose|k: int|
                0 <= k < n && #[trigger] hit_path(files, hits[k].text@) == Some(paths[a]) && hits[k].score_bits
                    == scores[a];
            assert(hit_path(files, hits[w].text@) == Some(paths[a]));
        } else {
            assert(paths[a] != paths[j]) by {
                if a < j {
                    assert(paths[a] != paths[j]);
                } else {
                    assert(paths[j] != paths[a]);
                }
            }
            lemma_best_extends(files, hits, n, paths[a], scores[a]);
        }
    }
    assert forall|k: int|
        0 <= k < n + 1 && (#[trigger] hit_path(files, hits[k].text@)) is Some implies exists|a: int|
        0 <= a < paths.len() && Some(paths[a]) == hit_path(files, hits[k].text@) by {
        if k == n {
            assert(Some(paths[j]) == hit_path(files, hits[k].text@));
        }
    }
}

proof fn lemma_table_push(
    files: Seq<FileMetadataView>,
    hits: Seq<SearchHit>,
    n: int,
    paths: Seq<Seq<char>>,
    scores: Seq<u32>,
    p: Seq<char>,
)
    requires
        0 <= n < hits.len(),
        table_ok(files, hits, n, paths, scores),
        hit_path(files, hits[n].text@) == Some(p),
        forall|a: int| 0 <= a < paths.len() ==> paths[a] != p,
    ensures
        table_ok(files, hits, n + 1, paths.push(p), scores.push(hits[n].score_bits)),
{
    let np = paths.push(p);
    let ns = scores.push(hits[n].score_bits);
    assert forall|a: int| 0 <= a < np.len() implies best_in(files, hits, n + 1, #[trigger] np[a], ns[a]) by {
        if a == paths.len() {
            assert(hit_path(files, hits[n].text@) == Some(np[a]));
            assert forall|k: int|
                0 <= k < n + 1 && #[trigger] hit_path(files, hits[k].text@) == Some(np[a]) implies hits[k].score_bits
                <= ns[a] by {
                if k < n {
                    let w = choose|w: int|
                        0 <= w < paths.len() && Some(paths[w]) == hit_path(files, hits[k].text@);
                    assert(paths[w] != p);
                }
            }
        } else {
            assert(np[a] == paths[a]);
            lemma_best_extends(files, hits, n, paths[a], scores[a]);
        }
    }
    assert forall|a: int, b: int| 0 <= a < b < np.len() implies #[trigger] np[a] != #[trigger] np[b] by {
        if b == paths.len() {
            assert(np[a] == paths[a]);
        } else {
            assert(np[a] == paths[a] && np[b] == paths[b]);
        }
    }
    assert forall|k: int|
        0 <= k < n + 1 && (#[trigger] hit_path(files, hits[k].text@)) is Some implies exists|a: int|
        0 <= a < np.len() && Some(np[a]) == hit_path(files, hits[k].text@) by {
        if k == n {
            assert(Some(np[paths.len() as int]) == hit_path(files, hits[k].text@));
        } else {
            let w = choose|w: int| 0 <= w < paths.len() && Some(paths[w]) == hit_path(files, hits[k].text@);
            assert(Some(np[w]) == hit_path(files, hits[k].text@));
        }
    }
}

impl AISearchEngine {
    /// Maps search hits to indexed records: a hit whose FILE_PATH names no
    /// indexed record is skipped, each file appears once with the best
    /// score of its hits, files come out by score, best first, and at most
    /// [`MAX_SEARCH_RESULTS`] of them.
    #[verifier::spinoff_prover]
    #[verifier::rlimit(40)]
    pub fn rank_search_hits(&self, hits: &Vec<SearchHit>) -> (r: Vec<(FileMetadata, u32)>)
        ensures
            r@.len() <= MAX_SEARCH_RESULTS,
            forall|a: int|
                0 <= a < r@.len() ==> lookup(self.files(), (#[trigger] r@[a]).0.path@) == Some(
                    r@[a].0@,
                ) && best_in(self.files(), hits@, hits@.len() as int, r@[a].0.path@, r@[a].1),
            forall|a: int, b: int|
                0 <= a < b < r@.len() ==> (#[trigger] r@[a]).0.path@ != (#[trigger] r@[b]).0.path@
                    && r@[a].1 >= r@[b].1,
            forall|k: int|
                0 <= k < hits@.len() && (#[trigger] hit_path(self.files(), hits@[k].text@)) is Some
                    && (forall|a: int| 0 <= a < r@.len() ==> Some(r@[a].0.path@) != hit_path(self.files(), hits@[k].text@))
                    ==> r@.len() == MAX_SEARCH_RESULTS && forall|a: int|
                    0 <= a < r@.len() ==> r@[a].1 >= hits@[k].score_bits,
    {
        let ghost files = self.files();
        // Best record and score per resolved path, in order of first hit.
        let mut bf: Vec<FileMetadata> = Vec::new();
        let mut bs: Vec<u32> = Vec::new();
        let mut i: usize = 0;
        proof {
            assert(paths_of(bf@) =~= Seq::<Seq<char>>::empty());
        }
        while i < hits.len()
            invariant
                i <= hits.len(),
                files == self.files(),
                bf@.len() == bs@.len(),
                table_ok(files, hits@, i as int, paths_of(bf@), bs@),
                forall|a: int|
                    0 <= a < bf@.len() ==> lookup(files, (#[trigger] bf@[a]).path@) == Some(bf@[a]@),
            decreases hits.len() - i,
        {
            let s = hits[i].score_bits;
            let ghost old_paths = paths_of(bf@);
            let ghost old_bs = bs@;
            let mut resolved: Option<FileMetadata> = None;
            match parse_file_path(hits[i].text.as_str()) {
                Some(p) => {
                    resolved = self.get_file_metadata(p.as_str());
                    proof {
                        lemma_lookup_path(files, p@);
                    }
                },
                None => {},
            }
            match resolved {
                Some(m) => {
                    assert(hit_path(files, hits@[i as int].text@) == Some(m.path@));
                    let mut j: usize = 0;
                    while j < bf.len() && !str_eq(bf[j].path.as_str(), m.path.as_str())
                        invariant
                            j <= bf@.len(),
                            forall|a: int| 0 <= a < j ==> (#[trigger] bf@[a]).path@ != m.path@,
                        decreases bf@.len() - j,
                    {
                        j = j + 1;
                    }
                    if j < bf.len() {
                        if s > bs[j] {
                            bs.set(j, s);
                        }
                        proof {
                            lemma_table_update(files, hits@, i as int, old_paths, old_bs, j as int);
                            assert(bs@ =~= old_bs.update(
                                j as int,
                                if s > old_bs[j as int] { s } else { old_bs[j as int] },
                            ));
                        }
                    } else {
                        proof {
                            lemma_table_push(files, hits@, i as int, old_paths, old_bs, m.path@);
                        }
                        bf.push(m);
                        bs.push(s);
                        proof {
                            assert(paths_of(bf@) =~= old_paths.push(bf@[bf@.len() - 1].path@));
                        }
                    }
                },
                None => {
                    proof {
                        lemma_table_skip(files, hits@, i as int, old_paths, old_bs);
                    }
                },
            }
            i = i + 1;
        }
        let order = order_by_score(&bs);
        let n = if bf.len() < MAX_SEARCH_RESULTS {
            bf.len()
        } else {
            MAX_SEARCH_RESULTS
        };
        let mut r: Vec<(FileMetadata, u32)> = Vec::new();
        let mut c: usize = 0;
        while c < n
            invariant
                c <= n <= bf@.len(),
                n <= MAX_SEARCH_RESULTS,
                bf@.len() == bs@.len() == order@.len(),
                forall|a: int| 0 <= a < order@.len() ==> (#[trigger] order@[a]) < bs@.len(),
                r@.len() == c,
                forall|a: int|
                    0 <= a < c ==> (#[trigger] r@[a]).0@ == bf@[order@[a] as int]@ && r@[a].1
                        == bs@[order@[a] as int],
            decreases n - c,
        {
            let x = order[c];
            r.push((bf[x].duplicate(), bs[x]));
            c = c + 1;
        }
        proof {
            let paths = paths_of(bf@);
            assert forall|a: int| 0 <= a < r@.len() implies lookup(self.files(), (#[trigger] r@[a]).0.path@)
                == Some(r@[a].0@) && best_in(self.files(), hits@, hits@.len() as int, r@[a].0.path@, r@[a].1) by {
                let x = order@[a] as int;
                assert(paths[x] == bf@[x].path@);
            }
            assert forall|a: int, b: int| 0 <= a < b < r@.len() implies (#[trigger] r@[a]).0.path@
                != (#[trigger] r@[b]).0.path@ && r@[a].1 >= r@[b].1 by {
                assert(order@[a] != order@[b]);
                let x = order@[a] as int;
                let y = order@[b] as int;
                assert(paths[x] == bf@[x].path@ && paths[y] == bf@[y].path@);
                if x < y {
                    assert(paths[x] != paths[y]);
                } else {
                    assert(paths[y] != paths[x]);
                }
            }
            assert forall|k: int|
                0 <= k < hits@.len() && (#[trigger] hit_path(files, hits@[k].text@)) is Some && (forall|a: int|
                    0 <= a < r@.len() ==> Some(r@[a].0.path@) != hit_path(files, hits@[k].text@))
                    implies r@.len() == MAX_SEARCH_RESULTS && forall|a: int|
                0 <= a < r@.len() ==> r@[a].1 >= hits@[k].score_bits by {
                let w = choose|w: int|
                    0 <= w < paths.len() && Some(paths[w]) == hit_path(files, hits@[k].text@);
                assert(listed(order@, w));
                let cpos = choose|cpos: int| 0 <= cpos < order@.len() && order@[cpos] == w;
                if cpos < n {
                    assert(r@[cpos].0.path@ == paths[w]);
                    assert(false);
                }
                assert(best_in(files, hits@, hits@.len() as int, paths[w], bs@[w]));
                assert forall|a: int| 0 <= a < r@.len() implies r@[a].1 >= hits@[k].score_bits by {
                    assert(bs@[order@[a] as int] >= bs@[order@[cpos] as int]);
                }
            }
        }
        r
    }
}

/// Position `x` occurs in `order`.
pub open spec fn listed(order: Seq<usize>, x: int) -> bool {
    exists|c: int| 0 <= c < order.len() && order[c] == x
}

/// The positions of `scores`, ordered by score, highest first, equal
/// scores in their original order.
fn order_by_score(scores: &Vec<u32>) -> (order: Vec<usize>)
    ensures
        order@.len() == scores@.len(),
        forall|a: int| 0 <= a < order@.len() ==> (#[trigger] order@[a]) < scores@.len(),
        forall|a: int, b: int| 0 <= a < b < order@.len() ==> (#[trigger] order@[a]) != (#[trigger] order@[b]),
        forall|a: int, b: int|
            0 <= a < b < order@.len() ==> scores@[(#[trigger] order@[a]) as int] >= scores@[(#[trigger] order@[b]) as int],
        forall|x: int| 0 <= x < scores@.len() ==> #[trigger] listed(order@, x),
{
    let mut order: Vec<usize> = Vec::new();
    let mut k: usize = 0;
    while k < scores.len()
        invariant
            k <= scores@.len(),
            order@.len() == k,
            forall|a: int| 0 <= a < order@.len() ==> (#[trigger] order@[a]) < k,
            forall|a: int, b: int| 0 <= a < b < order@.len() ==> (#[trigger] order@[a]) != (#[trigger] order@[b]),
            forall|a: int, b: int|
                0 <= a < b < order@.len() ==> scores@[(#[trigger] order@[a]) as int] >= scores@[(#[trigger] order@[b]) as int],
            forall|x: int| 0 <= x < k ==> #[trigger] listed(order@, x),
        decreases scores@.len() - k,
    {
        let sk = scores[k];
        let mut pos: usize = 0;
        while pos < order.len() && scores[order[pos]] >= sk
            invariant
                pos <= order@.len(),
                k < scores@.len(),
                forall|a: int| 0 <= a < order@.len() ==> (#[trigger] order@[a]) < k,
                forall|a: int| 0 <= a < pos ==> scores@[(#[trigger] order@[a]) as int] >= sk,
            decreases order@.len() - pos,
        {
            pos = pos + 1;
        }
        let ghost old_order = order@;
        order.insert(pos, k);
        proof {
            let np = order@;
            assert(np =~= old_order.insert(pos as int, k));
            assert forall|a: int| 0 <= a < np.len() implies (#[trigger] np[a]) < k + 1 by {
                if a < pos {
                    assert(np[a] == old_order[a]);
                } else if a > pos {
                    assert(np[a] == old_order[a - 1]);
                }
            }
            assert forall|a: int, b: int| 0 <= a < b < np.len() implies (#[trigger] np[a]) != (#[trigger] np[b])
                && scores@[np[a] as int] >= scores@[np[b] as int] by {
                if b < pos {
                    assert(np[a] == old_order[a] && np[b] == old_order[b]);
                } else if b == pos {
                    assert(np[a] == old_order[a]);
                } else if a < pos {
                    assert(np[a] == old_order[a] && np[b] == old_order[b - 1]);
                } else if a == pos {
                    assert(np[b] == old_order[b - 1]);
                    if pos < old_order.len() {
                        assert(scores@[old_order[pos as int] as int] < sk);
                        if b - 1 > pos {
                            assert(scores@[old_order[pos as int] as int] >= scores@[old_order[b - 1] as int]);
                        }
                    }
                } else {
                    assert(np[a] == old_order[a - 1] && np[b] == old_order[b - 1]);
                }
            }
            assert forall|x: int| 0 <= x < k + 1 implies #[trigger] listed(np, x) by {
                if x == k {
                    assert(np[pos as int] == x);
                } else {
                    assert(listed(old_order, x));
                    let c = choose|c: int| 0 <= c < old_order.len() && old_order[c] == x;
                    if c < pos {
                        assert(np[c] == x);
                    } else {
                        assert(np[c + 1] == x);
                    }
                }
            }
        }
        k = k + 1;
    }
    order
}

} // verus!
