use vstd::prelude::*;

verus! {

/// One entry of the merged list: the score read from the result, whether it
/// stands first in the list, and the result itself.
pub struct Ranked<R> {
    pub score: usize,
    pub first: bool,
    pub result: R,
}

/// The highest score among `c`; 0 for an empty list.
pub open spec fn top_score<R>(c: Seq<(usize, R)>) -> nat
    decreases c.len(),
{
    if c.len() == 0 {
        0
    } else {
        let rest = top_score(c.drop_last());
        if c.last().0 as nat > rest {
            c.last().0 as nat
        } else {
            rest
        }
    }
}

/// The cut-off for a query of `query_len` characters whose best result
/// scored `top`, scaled by four: `max(top * 0.75, query_len * 5) * 4`.
pub open spec fn threshold_times_four(top: nat, query_len: nat) -> nat {
    if 3 * top > 20 * query_len {
        3 * top
    } else {
        20 * query_len
    }
}

/// Whether a result scored `s` stays in the list: it is positive and not
/// below `max(top * 0.75, query_len * 5)`.
pub open spec fn survives(s: nat, top: nat, query_len: nat) -> bool {
    s > 0 && 4 * s >= threshold_times_four(top, query_len)
}

/// Entry `k` of the list comes before entry `l`: a higher score, or an
/// equal score and an earlier place among the candidates.
pub open spec fn ordered_before(score_k: nat, pos_k: int, score_l: nat, pos_l: int) -> bool {
    score_k > score_l || (score_k == score_l && pos_k < pos_l)
}

/// `idx` maps each entry of `out` to the candidate it came from, and shows
/// that `out` holds exactly the surviving candidates, each once, ordered by
/// descending score with ties in candidate order, the first one marked.
pub open spec fn ranking_witness<R>(
    out: Seq<Ranked<R>>,
    c: Seq<(usize, R)>,
    query_len: nat,
    idx: Seq<int>,
) -> bool {
    let top = top_score(c);
    &&& idx.len() == out.len()
    &&& forall|k: int|
        0 <= k < out.len() ==> {
            &&& 0 <= #[trigger] idx[k] < c.len()
            &&& out[k].score == c[idx[k]].0
            &&& out[k].result == c[idx[k]].1
            &&& survives(out[k].score as nat, top, query_len)
            &&& out[k].first == (k == 0)
        }
    &&& forall|j: int|
        0 <= j < c.len() && survives(#[trigger] c[j].0 as nat, top, query_len) ==> exists|k: int|
            0 <= k < out.len() && idx[k] == j
    &&& forall|k: int, l: int|
        0 <= k < l < out.len() ==> ordered_before(
            #[trigger] out[k].score as nat,
            idx[k],
            #[trigger] out[l].score as nat,
            idx[l],
        )
}

/// `out` is the ranked list made from the candidates `c` for a query of
/// `query_len` characters: the candidates that survive the cut-off, each
/// once, by descending score, ties kept in candidate order, and only the
/// first entry marked first.
pub open spec fn is_ranking_of<R>(out: Seq<Ranked<R>>, c: Seq<(usize, R)>, query_len: nat) -> bool {
    exists|idx: Seq<int>| ranking_witness(out, c, query_len, idx)
}

proof fn lemma_top_score<R>(c: Seq<(usize, R)>)
    ensures
        forall|j: int| 0 <= j < c.len() ==> #[trigger] c[j].0 as nat <= top_score(c),
        c.len() > 0 ==> exists|j: int| 0 <= j < c.len() && c[j].0 as nat == top_score(c),
        c.len() == 0 ==> top_score(c) == 0,
    decreases c.len(),
{
    if c.len() > 0 {
        let d = c.drop_last();
        lemma_top_score(d);
        assert forall|j: int| 0 <= j < c.len() implies #[trigger] c[j].0 as nat <= top_score(c) by {
            if j < c.len() - 1 {
                assert(c[j] == d[j]);
            }
        }
        if c.last().0 as nat <= top_score(d) && d.len() > 0 {
            let j = choose|j: int| 0 <= j < d.len() && d[j].0 as nat == top_score(d);
            assert(c[j] == d[j]);
        } else {
            assert(c[c.len() - 1] == c.last());
        }
    }
}

/// Every entry of a ranked list has a positive score: results scored 0 never
/// survive.
pub proof fn lemma_ranked_scores_positive<R>(out: Seq<Ranked<R>>, c: Seq<(usize, R)>, query_len: nat)
    requires
        is_ranking_of(out, c, query_len),
    ensures
        forall|k: int| 0 <= k < out.len() ==> #[trigger] out[k].score > 0,
{
    let idx = choose|idx: Seq<int>| ranking_witness(out, c, query_len, idx);
    assert forall|k: int| 0 <= k < out.len() implies #[trigger] out[k].score > 0 by {
        assert(0 <= idx[k]);
    }
}

/// A non-empty ranked list starts with the best candidate's score.
pub proof fn lemma_ranked_head_is_top<R>(out: Seq<Ranked<R>>, c: Seq<(usize, R)>, query_len: nat)
    requires
        is_ranking_of(out, c, query_len),
        out.len() > 0,
    ensures
        out[0].score as nat == top_score(c),
{
    let idx = choose|idx: Seq<int>| ranking_witness(out, c, query_len, idx);
    lemma_top_score(c);
    assert(0 <= idx[0]);
    let top = top_score(c);
    let j = choose|j: int| 0 <= j < c.len() && c[j].0 as nat == top;
    assert(survives(out[0].score as nat, top, query_len));
    assert(survives(c[j].0 as nat, top, query_len));
    let k = choose|k: int| 0 <= k < out.len() && idx[k] == j;
    if k > 0 {
        assert(ordered_before(out[0].score as nat, idx[0], out[k].score as nat, idx[k]));
    }
    assert(out[0].score as nat <= top);
}

/// Every entry of a non-empty ranked list scores at least
/// `max(head * 0.75, query_len * 5)`, where `head` is the first entry's score.
pub proof fn lemma_ranked_above_threshold<R>(out: Seq<Ranked<R>>, c: Seq<(usize, R)>, query_len: nat)
    requires
        is_ranking_of(out, c, query_len),
    ensures
        out.len() > 0 ==> forall|k: int|
            0 <= k < out.len() ==> 4 * (#[trigger] out[k].score as nat) >= threshold_times_four(
                out[0].score as nat,
                query_len,
            ),
{
    if out.len() > 0 {
        lemma_ranked_head_is_top(out, c, query_len);
        let idx = choose|idx: Seq<int>| ranking_witness(out, c, query_len, idx);
        assert forall|k: int| 0 <= k < out.len() implies 4 * (#[trigger] out[k].score as nat)
            >= threshold_times_four(out[0].score as nat, query_len) by {
            assert(0 <= idx[k]);
        }
    }
}

/// A ranked list never rises in score, and entries of equal score keep the
/// order in which their candidates came.
pub proof fn lemma_ranking_is_stable_descending<R>(
    out: Seq<Ranked<R>>,
    c: Seq<(usize, R)>,
    query_len: nat,
)
    requires
        is_ranking_of(out, c, query_len),
    ensures
        forall|k: int, l: int|
            0 <= k < l < out.len() ==> #[trigger] out[k].score >= #[trigger] out[l].score,
        exists|idx: Seq<int>|
            {
                &&& idx.len() == out.len()
                &&& forall|k: int|
                    0 <= k < out.len() ==> 0 <= #[trigger] idx[k] < c.len() && out[k].score == c[idx[k]].0
                        && out[k].result == c[idx[k]].1
                &&& forall|k: int, l: int|
                    0 <= k < l < out.len() && #[trigger] out[k].score == #[trigger] out[l].score
                        ==> idx[k] < idx[l]
            },
{
    let idx = choose|idx: Seq<int>| ranking_witness(out, c, query_len, idx);
    assert forall|k: int, l: int| 0 <= k < l < out.len() implies #[trigger] out[k].score
        >= #[trigger] out[l].score by {
        assert(ordered_before(out[k].score as nat, idx[k], out[l].score as nat, idx[l]));
    }
    assert forall|k: int, l: int|
        0 <= k < l < out.len() && #[trigger] out[k].score == #[trigger] out[l].score implies idx[k]
        < idx[l] by {
        assert(ordered_before(out[k].score as nat, idx[k], out[l].score as nat, idx[l]));
    }
}

/// Only the first entry of a ranked list is marked first: one entry when the
/// list is not empty, none when it is.
pub proof fn lemma_only_head_marked_first<R>(out: Seq<Ranked<R>>, c: Seq<(usize, R)>, query_len: nat)
    requires
        is_ranking_of(out, c, query_len),
    ensures
        forall|k: int| 0 <= k < out.len() ==> (#[trigger] out[k].first <==> k == 0),
{
    let idx = choose|idx: Seq<int>| ranking_witness(out, c, query_len, idx);
    assert forall|k: int| 0 <= k < out.len() implies (#[trigger] out[k].first <==> k == 0) by {
        assert(0 <= idx[k]);
    }
}

/// A ranked list is empty exactly when no candidate survives the cut-off.
pub proof fn lemma_ranking_empty_iff<R>(out: Seq<Ranked<R>>, c: Seq<(usize, R)>, query_len: nat)
    requires
        is_ranking_of(out, c, query_len),
    ensures
        out.len() == 0 <==> forall|j: int|
            0 <= j < c.len() ==> !survives(#[trigger] c[j].0 as nat, top_score(c), query_len),
{
    let idx = choose|idx: Seq<int>| ranking_witness(out, c, query_len, idx);
    if out.len() > 0 {
        assert(0 <= idx[0] < c.len());
        assert(survives(c[idx[0]].0 as nat, top_score(c), query_len));
    }
}

/// No candidates rank as an empty list.
pub proof fn lemma_ranking_of_nothing<R>(out: Seq<Ranked<R>>, c: Seq<(usize, R)>, query_len: nat)
    requires
        is_ranking_of(out, c, query_len),
        c.len() == 0,
    ensures
        out.len() == 0,
{
    let idx = choose|idx: Seq<int>| ranking_witness(out, c, query_len, idx);
    if out.len() > 0 {
        assert(0 <= idx[0]);
    }
}

/// The highest score among the candidates.
fn top_of<R>(c: &Vec<(usize, R)>) -> (r: usize)
    ensures
        r == top_score(c@),
{
    let mut best: usize = 0;
    let mut i: usize = 0;
    while i < c.len()
        invariant
            i <= c@.len(),
            best == top_score(c@.take(i as int)),
        decreases c@.len() - i,
    {
        assert(c@.take(i + 1).drop_last() =~= c@.take(i as int));
        assert(c@.take(i + 1).last() == c@[i as int]);
        if c[i].0 > best {
            best = c[i].0;
        }
        i = i + 1;
    }
    assert(c@.take(c@.len() as int) =~= c@);
    best
}

/// Whether a result scored `score` stays in the list for a query of
/// `query_len` characters whose best result scored `top`.
pub fn stays(score: usize, top: usize, query_len: usize) -> (r: bool)
    ensures
        r == survives(score as nat, top as nat, query_len as nat),
{
    let four = (score as u128) * 4;
    score > 0 && four >= (top as u128) * 3 && four >= (query_len as u128) * 20
}

/// Place at which an entry scored `score` goes into `out`: after every entry
/// that scored higher, before the others.
fn insertion_point<R>(out: &Vec<Ranked<R>>, score: usize) -> (pos: usize)
    requires
        forall|k: int, l: int|
            0 <= k < l < out@.len() ==> #[trigger] out@[k].score >= #[trigger] out@[l].score,
    ensures
        pos <= out@.len(),
        forall|q: int| 0 <= q < pos ==> #[trigger] out@[q].score > score,
        forall|q: int| pos <= q < out@.len() ==> #[trigger] out@[q].score <= score,
{
    let mut pos: usize = 0;
    while pos < out.len() && out[pos].score > score
        invariant
            pos <= out@.len(),
            forall|q: int| 0 <= q < pos ==> #[trigger] out@[q].score > score,
        decreases out@.len() - pos,
    {
        pos = pos + 1;
    }
    if pos < out.len() {
        assert forall|q: int| pos <= q < out@.len() implies #[trigger] out@[q].score <= score by {
            if q > pos {
                assert(out@[pos as int].score >= out@[q].score);
            }
        }
    }
    pos
}

/// Ranks the merged candidates of one query of `query_len` characters: drops
/// every candidate scored 0 or below `max(top * 0.75, query_len * 5)`, where
/// `top` is the best score, orders the rest by descending score (equal
/// scores keep their order among the candidates) and marks the first entry.
pub fn rank<R>(candidates: Vec<(usize, R)>, query_len: usize) -> (out: Vec<Ranked<R>>)
    ensures
        is_ranking_of(out@, candidates@, query_len as nat),
{
    let top = top_of(&candidates);
    let ghost c = candidates@;
    let ghost q = query_len as nat;
    let mut rest = candidates;
    let mut out: Vec<Ranked<R>> = Vec::new();
    let ghost mut idx: Seq<int> = Seq::empty();
    assert(c.take(c.len() as int) =~= c);
    while rest.len() > 0
        invariant
            rest@.len() <= c.len(),
            rest@ == c.take(rest@.len() as int),
            top == top_score(c),
            q == query_len as nat,
            idx.len() == out@.len(),
            forall|k: int|
                0 <= k < out@.len() ==> {
                    &&& rest@.len() <= #[trigger] idx[k] < c.len()
                    &&& out@[k].score == c[idx[k]].0
                    &&& out@[k].result == c[idx[k]].1
                    &&& survives(out@[k].score as nat, top_score(c), q)
                    &&& !out@[k].first
                },
            forall|j: int|
                rest@.len() <= j < c.len() && survives(#[trigger] c[j].0 as nat, top_score(c), q)
                    ==> exists|k: int| 0 <= k < out@.len() && idx[k] == j,
            forall|k: int, l: int|
                0 <= k < l < out@.len() ==> ordered_before(
                    #[trigger] out@[k].score as nat,
                    idx[k],
                    #[trigger] out@[l].score as nat,
                    idx[l],
                ),
        decreases rest@.len(),
    {
        let ghost j: int = rest@.len() - 1;
        let ghost old_out = out@;
        let ghost old_idx = idx;
        let item = rest.pop().unwrap();
        assert(rest@ =~= c.take(j));
        assert(item == c[j]);
        let (score, result) = item;
        assert(score == c[j].0 && result == c[j].1);
        let keep = stays(score, top, query_len);
        assert(keep == survives(c[j].0 as nat, top_score(c), q));
        if keep {
            let pos = insertion_point(&out, score);
            out.insert(pos, Ranked { score, first: false, result });
            proof {
                idx = old_idx.insert(pos as int, j);
                assert forall|k: int| 0 <= k < out@.len() implies {
                    &&& rest@.len() <= #[trigger] idx[k] < c.len()
                    &&& out@[k].score == c[idx[k]].0
                    &&& out@[k].result == c[idx[k]].1
                    &&& survives(out@[k].score as nat, top_score(c), q)
                    &&& !out@[k].first
                } by {
                    if k == pos {
                        assert(out@[k].score == c[j].0);
                    } else if k < pos {
                        assert(out@[k] == old_out[k] && idx[k] == old_idx[k]);
                    } else if k > pos {
                        assert(out@[k] == old_out[k - 1] && idx[k] == old_idx[k - 1]);
                    }
                }
                assert forall|k: int, l: int| 0 <= k < l < out@.len() implies ordered_before(
                    #[trigger] out@[k].score as nat,
                    idx[k],
                    #[trigger] out@[l].score as nat,
                    idx[l],
                ) by {
                    if k < pos && l < pos {
                        assert(ordered_before(old_out[k].score as nat, old_idx[k], old_out[l].score as nat, old_idx[l]));
                    } else if k < pos && l == pos {
                        assert(old_out[k].score > score);
                    } else if k < pos && l > pos {
                        assert(ordered_before(old_out[k].score as nat, old_idx[k], old_out[l - 1].score as nat, old_idx[l - 1]));
                    } else if k == pos {
                        assert(old_out[l - 1].score <= score);
                        assert(old_idx[l - 1] >= rest@.len() + 1);
                    } else {
                        assert(ordered_before(old_out[k - 1].score as nat, old_idx[k - 1], old_out[l - 1].score as nat, old_idx[l - 1]));
                    }
                }
                assert forall|jj: int|
                    rest@.len() <= jj < c.len() && survives(#[trigger] c[jj].0 as nat, top_score(c), q)
                    implies exists|k: int| 0 <= k < out@.len() && idx[k] == jj by {
                    if jj == j {
                        assert(idx[pos as int] == jj);
                    } else {
                        let k0 = choose|k: int| 0 <= k < old_out.len() && old_idx[k] == jj;
                        if k0 < pos {
                            assert(idx[k0] == jj);
                        } else {
                            assert(idx[k0 + 1] == jj);
                        }
                    }
                }
            }
        } else {
            proof {
                assert forall|jj: int|
                    rest@.len() <= jj < c.len() && survives(#[trigger] c[jj].0 as nat, top_score(c), q)
                    implies exists|k: int| 0 <= k < out@.len() && idx[k] == jj by {
                    assert(jj != j);
                }
            }
        }
    }
    let ghost before = out@;
    let ghost h = Ranked { score: 0, first: true, result: c[0].1 };
    if out.len() > 0 {
        let mut head = out.remove(0);
        head.first = true;
        proof {
            h = head;
        }
        out.insert(0, head);
        assert(out@ =~= before.update(0, h));
    }
    proof {
        assert forall|k: int| 0 <= k < out@.len() implies out@[k].first == (k == 0) && out@[k].score
            == before[k].score && out@[k].result == before[k].result by {
            if k > 0 {
                assert(out@[k] == before[k]);
                assert(0 <= idx[k]);
            } else {
                assert(out@[0] == h);
            }
        }
        assert(ranking_witness(out@, c, q, idx));
    }
    out
}

} // verus!
