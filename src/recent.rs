use vstd::prelude::*;
use crate::providers::DirectoryResult;
use crate::text::chars_of;

verus! {

/// How many recently used files a directory entry suggests.
pub const SUGGESTED_FILES: usize = 5;

/// `out` holds the entries of `input`, each once, by descending time, ties
/// in input order; `idx` maps each to where it was.
pub open spec fn newest_first_witness<T>(out: Seq<(u64, T)>, input: Seq<(u64, T)>, idx: Seq<int>) -> bool {
    &&& idx.len() == out.len()
    &&& out.len() == input.len()
    &&& forall|k: int|
        0 <= k < out.len() ==> 0 <= #[trigger] idx[k] < input.len() && out[k] == input[idx[k]]
    &&& forall|k: int, l: int|
        0 <= k < l < out.len() ==> (#[trigger] out[k].0 > #[trigger] out[l].0 || (out[k].0
            == out[l].0 && idx[k] < idx[l]))
}

/// Sorts entries by descending time, keeping entries of equal time in
/// input order.
pub fn newest_first<T>(items: Vec<(u64, T)>) -> (out: Vec<(u64, T)>)
    ensures
        exists|idx: Seq<int>| newest_first_witness(out@, items@, idx),
{
    let ghost input = items@;
    let mut rest = items;
    let mut out: Vec<(u64, T)> = Vec::new();
    let ghost mut idx: Seq<int> = Seq::empty();
    assert(input.take(input.len() as int) =~= input);
    while rest.len() > 0
        invariant
            rest@.len() <= input.len(),
            rest@ == input.take(rest@.len() as int),
            idx.len() == out@.len(),
            out@.len() + rest@.len() == input.len(),
            forall|k: int|
                0 <= k < out@.len() ==> rest@.len() <= #[trigger] idx[k] < input.len() && out@[k]
                    == input[idx[k]],
            forall|k: int, l: int|
                0 <= k < l < out@.len() ==> (#[trigger] out@[k].0 > #[trigger] out@[l].0 || (
                out@[k].0 == out@[l].0 && idx[k] < idx[l])),
        decreases rest@.len(),
    {
        let ghost j: int = rest@.len() - 1;
        let ghost old_out = out@;
        let ghost old_idx = idx;
        let item = rest.pop().unwrap();
        assert(rest@ =~= input.take(j));
        let key = item.0;
        let mut pos: usize = 0;
        while pos < out.len() && out[pos].0 > key
            invariant
                pos <= out@.len(),
                out@ == old_out,
                forall|q: int| 0 <= q < pos ==> #[trigger] out@[q].0 > key,
            decreases out@.len() - pos,
        {
            pos = pos + 1;
        }
        proof {
            assert forall|q: int| pos <= q < old_out.len() implies #[trigger] old_out[q].0 <= key by {
                if q > pos {
                    assert(old_out[pos as int].0 >= old_out[q].0);
                }
            }
        }
        out.insert(pos, item);
        proof {
            idx = old_idx.insert(pos as int, j);
            assert forall|k: int|
                0 <= k < out@.len() implies rest@.len() <= #[trigger] idx[k] < input.len() && out@[k]
                == input[idx[k]] by {
                if k < pos {
                    assert(out@[k] == old_out[k] && idx[k] == old_idx[k]);
                } else if k > pos {
                    assert(out@[k] == old_out[k - 1] && idx[k] == old_idx[k - 1]);
                }
            }
            assert forall|k: int, l: int| 0 <= k < l < out@.len() implies (#[trigger] out@[k].0
                > #[trigger] out@[l].0 || (out@[k].0 == out@[l].0 && idx[k] < idx[l])) by {
                if k < pos && l > pos {
                    assert(old_out[k].0 > key);
                    assert(old_out[l - 1].0 <= key);
                } else if k == pos && l > pos {
                    assert(old_out[l - 1].0 <= key);
                    assert(old_idx[l - 1] >= rest@.len() + 1);
                } else if k > pos {
                    assert(out@[k] == old_out[k - 1] && out@[l] == old_out[l - 1]);
                } else if l < pos {
                    assert(out@[k] == old_out[k] && out@[l] == old_out[l]);
                }
            }
        }
    }
    assert(newest_first_witness(out@, input, idx));
    out
}

/// A file name that starts with `.` is hidden.
pub open spec fn is_hidden(name: Seq<char>) -> bool {
    name.len() > 0 && name[0] == '.'
}

/// The entries of `s` whose names are not hidden, in order.
pub open spec fn visible(s: Seq<(u64, String)>) -> Seq<(u64, String)> {
    s.filter(|e: (u64, String)| !is_hidden(e.1@))
}

/// Whether the file called `name` is hidden.
pub fn hidden(name: &String) -> (r: bool)
    ensures
        r == is_hidden(name@),
{
    let chars = chars_of(name.as_str());
    chars.len() > 0 && chars[0] == '.'
}

impl DirectoryResult {
    /// The files a directory entry suggests, from its entries as (last access
    /// time, name) pairs: hidden files are left out, the rest are taken newest
    /// first (ties in listing order), and at most five are kept.
    pub fn get_suggested_files(entries: Vec<(u64, String)>) -> (out: Vec<(u64, String)>)
        ensures
            exists|sorted: Seq<(u64, String)>|
                (exists|idx: Seq<int>| newest_first_witness(sorted, visible(entries@), idx)) && out@
                    == sorted.take(
                    if sorted.len() < SUGGESTED_FILES {
                        sorted.len() as int
                    } else {
                        SUGGESTED_FILES as int
                    },
                ),
    {
        let ghost input = entries@;
        let mut shown: Vec<(u64, String)> = Vec::new();
        for e in it: entries
            invariant
                it.seq() == input,
                shown@ == visible(input.take(it.index() as int)),
        {
            let ghost i = it.index();
            assert(input.take(i + 1).drop_last() =~= input.take(i as int));
            assert(input.take(i + 1).last() == e);
            reveal(Seq::filter);
            if !hidden(&e.1) {
                shown.push(e);
            }
        }
        assert(input.take(input.len() as int) =~= input);
        let sorted = newest_first(shown);
        let ghost all = sorted@;
        let mut out = sorted;
        if out.len() > SUGGESTED_FILES {
            out.truncate(SUGGESTED_FILES);
        }
        assert(out@ =~= all.take(
            if all.len() < SUGGESTED_FILES {
                all.len() as int
            } else {
                SUGGESTED_FILES as int
            },
        ));
        out
    }
}

} // verus!
