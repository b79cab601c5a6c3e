use vstd::prelude::*;
use crate::error::InvocationError;
use crate::rank::{Ranked, is_ranking_of, rank};

verus! {

/// The results of every batch that succeeded, in batch order; a failed batch
/// adds nothing.
pub open spec fn flatten_ok<R>(batches: Seq<Result<Vec<R>, InvocationError>>) -> Seq<R>
    decreases batches.len(),
{
    if batches.len() == 0 {
        Seq::empty()
    } else {
        let prev = flatten_ok(batches.drop_last());
        match batches.last() {
            Ok(v) => prev + v@,
            Err(_) => prev,
        }
    }
}

/// Flattening splits over concatenation.
pub proof fn lemma_flatten_ok_append<R>(
    a: Seq<Result<Vec<R>, InvocationError>>,
    b: Seq<Result<Vec<R>, InvocationError>>,
)
    ensures
        flatten_ok(a + b) == flatten_ok(a) + flatten_ok(b),
    decreases b.len(),
{
    if b.len() == 0 {
        assert(a + b =~= a);
        assert(flatten_ok(a) + flatten_ok(b) =~= flatten_ok(a));
    } else {
        assert((a + b).drop_last() =~= a + b.drop_last());
        assert((a + b).last() == b.last());
        lemma_flatten_ok_append(a, b.drop_last());
        match b.last() {
            Ok(v) => {
                assert(flatten_ok(a) + flatten_ok(b.drop_last()) + v@ =~= flatten_ok(a) + (
                flatten_ok(b.drop_last()) + v@));
            },
            Err(_) => {},
        }
    }
}

/// A provider that fails on a query keeps nobody else's results out: the
/// merged list is what the other providers returned, in their order.
pub proof fn lemma_failure_is_isolated<R>(
    before: Seq<Result<Vec<R>, InvocationError>>,
    error: InvocationError,
    after: Seq<Result<Vec<R>, InvocationError>>,
)
    ensures
        flatten_ok(before + seq![Err(error)] + after) == flatten_ok(before) + flatten_ok(after),
{
    let failed: Seq<Result<Vec<R>, InvocationError>> = seq![Err(error)];
    lemma_flatten_ok_append(before + failed, after);
    lemma_flatten_ok_append(before, failed);
    assert(failed.drop_last() =~= Seq::<Result<Vec<R>, InvocationError>>::empty());
    assert(failed.last() == Err::<Vec<R>, InvocationError>(error));
    assert(flatten_ok(failed.drop_last()) =~= Seq::<R>::empty());
    assert(flatten_ok(failed) =~= Seq::<R>::empty());
    assert(flatten_ok(before) + flatten_ok(failed) =~= flatten_ok(before));
}

/// Concatenates the batches that succeeded, in order, and skips the failed ones.
pub fn merge_batches<R>(batches: Vec<Result<Vec<R>, InvocationError>>) -> (r: Vec<R>)
    ensures
        r@ == flatten_ok(batches@),
{
    let ghost all = batches@;
    let mut out: Vec<R> = Vec::new();
    for batch in it: batches
        invariant
            it.seq() == all,
            out@ == flatten_ok(all.take(it.index() as int)),
    {
        let ghost i = it.index();
        assert(all.take(i + 1).drop_last() =~= all.take(i as int));
        assert(all.take(i + 1).last() == batch);
        match batch {
            Ok(mut items) => {
                out.append(&mut items);
            },
            Err(_) => {},
        }
    }
    assert(all.take(all.len() as int) =~= all);
    out
}

/// Ranks one query's answers, one batch per provider in load order: the
/// batches that failed add nothing, the others are concatenated in order,
/// and the result is their ranking for a query of `query_len` characters.
pub fn rank_batches<R>(batches: Vec<Result<Vec<(usize, R)>, InvocationError>>, query_len: usize) -> (out:
    Vec<Ranked<R>>)
    ensures
        is_ranking_of(out@, flatten_ok(batches@), query_len as nat),
{
    rank(merge_batches(batches), query_len)
}

} // verus!
