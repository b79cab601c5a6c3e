use vstd::prelude::*;
use crate::desktop::ApplicationResult;
use crate::text::chars_of;

verus! {

/// `a` sorts strictly before `b`: character by character, by code point, a
/// proper prefix first. This is the order `String` compares by.
pub open spec fn text_lt(a: Seq<char>, b: Seq<char>) -> bool
    decreases a.len(),
{
    if a.len() == 0 {
        b.len() > 0
    } else if b.len() == 0 {
        false
    } else if a[0] != b[0] {
        a[0] < b[0]
    } else {
        text_lt(a.drop_first(), b.drop_first())
    }
}

proof fn lemma_text_lt_irreflexive(a: Seq<char>)
    ensures
        !text_lt(a, a),
    decreases a.len(),
{
    if a.len() > 0 {
        lemma_text_lt_irreflexive(a.drop_first());
    }
}

proof fn lemma_text_lt_total(a: Seq<char>, b: Seq<char>)
    ensures
        a == b || text_lt(a, b) || text_lt(b, a),
    decreases a.len(),
{
    if a.len() > 0 && b.len() > 0 && a[0] == b[0] {
        lemma_text_lt_total(a.drop_first(), b.drop_first());
        if a.drop_first() == b.drop_first() {
            assert(a =~= seq![a[0]] + a.drop_first());
            assert(b =~= seq![b[0]] + b.drop_first());
        }
    } else if a.len() > 0 && b.len() > 0 {
        assert(a[0] < b[0] || b[0] < a[0]);
    } else if a.len() == 0 && b.len() == 0 {
        assert(a =~= b);
    }
}

proof fn lemma_text_lt_transitive(a: Seq<char>, b: Seq<char>, c: Seq<char>)
    requires
        text_lt(a, b),
        text_lt(b, c),
    ensures
        text_lt(a, c),
    decreases a.len(),
{
    if a.len() > 0 && b.len() > 0 && c.len() > 0 && a[0] == b[0] && b[0] == c[0] {
        lemma_text_lt_transitive(a.drop_first(), b.drop_first(), c.drop_first());
    }
}

/// Whether `a` sorts strictly before `b`.
fn text_before(a: &String, b: &String) -> (r: bool)
    ensures
        r == text_lt(a@, b@),
{
    let x = chars_of(a.as_str());
    let y = chars_of(b.as_str());
    let mut i: usize = 0;
    assert(x@.skip(0) =~= x@);
    assert(y@.skip(0) =~= y@);
    while i < x.len() && i < y.len() && x[i] == y[i]
        invariant
            i <= x@.len(),
            i <= y@.len(),
            text_lt(x@, y@) == text_lt(x@.skip(i as int), y@.skip(i as int)),
        decreases x@.len() - i,
    {
        assert(x@.skip(i as int).drop_first() =~= x@.skip(i + 1));
        assert(y@.skip(i as int).drop_first() =~= y@.skip(i + 1));
        i = i + 1;
    }
    assert(x@.skip(i as int).len() == 0 ==> i == x@.len());
    if i == x.len() {
        i < y.len()
    } else if i == y.len() {
        false
    } else {
        x[i] < y[i]
    }
}

/// Entry `k` comes before entry `l` of a list sorted by name: a smaller
/// name, or the same name and an earlier place in the input.
pub open spec fn name_order(name_k: Seq<char>, pos_k: int, name_l: Seq<char>, pos_l: int) -> bool {
    text_lt(name_k, name_l) || (name_k == name_l && pos_k < pos_l)
}

/// `out` holds the entries of `input`, each once, sorted by name, entries
/// of equal name kept in input order; `idx` maps each to where it was.
pub open spec fn sorted_by_name_witness(
    out: Seq<ApplicationResult>,
    input: Seq<ApplicationResult>,
    idx: Seq<int>,
) -> bool {
    &&& idx.len() == out.len()
    &&& out.len() == input.len()
    &&& forall|k: int|
        0 <= k < out.len() ==> 0 <= #[trigger] idx[k] < input.len() && out[k] == input[idx[k]]
    &&& forall|k: int, l: int|
        0 <= k < l < out.len() ==> name_order(
            #[trigger] out[k].name@,
            idx[k],
            #[trigger] out[l].name@,
            idx[l],
        )
}

/// `s` with every entry dropped that has the same name and command as the
/// entry kept just before it.
pub open spec fn dedup_spec(s: Seq<ApplicationResult>) -> Seq<ApplicationResult>
    decreases s.len(),
{
    if s.len() <= 1 {
        s
    } else {
        let prev = dedup_spec(s.drop_last());
        if prev.last().name@ == s.last().name@ && prev.last().command@ == s.last().command@ {
            prev
        } else {
            prev.push(s.last())
        }
    }
}

proof fn lemma_dedup_keeps_last(s: Seq<ApplicationResult>)
    requires
        s.len() > 0,
    ensures
        dedup_spec(s).len() > 0,
        dedup_spec(s).last().name@ == s.last().name@,
        dedup_spec(s).last().command@ == s.last().command@,
    decreases s.len(),
{
    if s.len() > 1 {
        lemma_dedup_keeps_last(s.drop_last());
    }
}

/// Where an entry named `name` goes into `out`: after every entry whose
/// name sorts before it.
fn name_insertion_point(out: &Vec<ApplicationResult>, name: &String) -> (pos: usize)
    ensures
        pos <= out@.len(),
        forall|q: int| 0 <= q < pos ==> text_lt(#[trigger] out@[q].name@, name@),
        pos < out@.len() ==> !text_lt(out@[pos as int].name@, name@),
{
    let mut pos: usize = 0;
    while pos < out.len() && text_before(&out[pos].name, name)
        invariant
            pos <= out@.len(),
            forall|q: int| 0 <= q < pos ==> text_lt(#[trigger] out@[q].name@, name@),
        decreases out@.len() - pos,
    {
        pos = pos + 1;
    }
    pos
}

/// Sorts applications by name, keeping entries of equal name in their
/// input order.
pub fn sort_by_name(apps: Vec<ApplicationResult>) -> (out: Vec<ApplicationResult>)
    ensures
        exists|idx: Seq<int>| sorted_by_name_witness(out@, apps@, idx),
{
    let ghost input = apps@;
    let mut rest = apps;
    let mut out: Vec<ApplicationResult> = Vec::new();
    let ghost mut idx: Seq<int> = Seq::empty();
    assert(input.take(input.len() as int) =~= input);
    while rest.len() > 0
        invariant
            rest@.len() <= input.len(),
            rest@ == input.take(rest@.len() as int),
            idx.len() == out@.len(),
            out@.len() + rest@.len() == input.len(),
            forall|k: int|
                0 <= k < out@.len() ==> rest@.len() <= #[trigger] idx[k] < input.len() && out@[k]
                    == input[idx[k]],
            forall|k: int, l: int|
                0 <= k < l < out@.len() ==> name_order(
                    #[trigger] out@[k].name@,
                    idx[k],
                    #[trigger] out@[l].name@,
                    idx[l],
                ),
        decreases rest@.len(),
    {
        let ghost j: int = rest@.len() - 1;
        let ghost old_out = out@;
        let ghost old_idx = idx;
        let item = rest.pop().unwrap();
        assert(rest@ =~= input.take(j));
        let pos = name_insertion_point(&out, &item.name);
        let ghost name = item.name@;
        proof {
            assert forall|q: int| pos <= q < old_out.len() implies !text_lt(
                #[trigger] old_out[q].name@,
                name,
            ) by {
                if q > pos {
                    let p = old_out[pos as int].name@;
                    assert(name_order(p, old_idx[pos as int], old_out[q].name@, old_idx[q]));
                    if text_lt(old_out[q].name@, name) {
                        if p != old_out[q].name@ {
                            lemma_text_lt_transitive(p, old_out[q].name@, name);
                        }
                    }
                }
            }
        }
        out.insert(pos, item);
        proof {
            idx = old_idx.insert(pos as int, j);
            assert forall|k: int|
                0 <= k < out@.len() implies rest@.len() <= #[trigger] idx[k] < input.len() && out@[k]
                == input[idx[k]] by {
                if k < pos {
                    assert(out@[k] == old_out[k] && idx[k] == old_idx[k]);
                } else if k > pos {
                    assert(out@[k] == old_out[k - 1] && idx[k] == old_idx[k - 1]);
                }
            }
            assert forall|k: int, l: int| 0 <= k < l < out@.len() implies name_order(
                #[trigger] out@[k].name@,
                idx[k],
                #[trigger] out@[l].name@,
                idx[l],
            ) by {
                if k < pos && l < pos {
                    assert(name_order(old_out[k].name@, old_idx[k], old_out[l].name@, old_idx[l]));
                } else if k < pos && l == pos {
                    assert(text_lt(old_out[k].name@, name));
                } else if k < pos && l > pos {
                    assert(name_order(
                        old_out[k].name@,
                        old_idx[k],
                        old_out[l - 1].name@,
                        old_idx[l - 1],
                    ));
                } else if k == pos {
                    assert(!text_lt(old_out[l - 1].name@, name));
                    lemma_text_lt_total(name, old_out[l - 1].name@);
                    assert(old_idx[l - 1] >= rest@.len() + 1);
                } else {
                    assert(name_order(
                        old_out[k - 1].name@,
                        old_idx[k - 1],
                        old_out[l - 1].name@,
                        old_idx[l - 1],
                    ));
                }
            }
        }
    }
    assert(sorted_by_name_witness(out@, input, idx));
    out
}

/// Drops every application that repeats the name and command of the one
/// kept just before it.
pub fn dedup_applications(apps: Vec<ApplicationResult>) -> (out: Vec<ApplicationResult>)
    ensures
        out@ == dedup_spec(apps@),
{
    let ghost input = apps@;
    let mut out: Vec<ApplicationResult> = Vec::new();
    for app in it: apps
        invariant
            it.seq() == input,
            out@ == dedup_spec(input.take(it.index() as int)),
    {
        let ghost i = it.index();
        assert(input.take(i + 1).drop_last() =~= input.take(i as int));
        assert(input.take(i + 1).last() == app);
        if out.len() == 0 {
            proof {
                if i > 0 {
                    lemma_dedup_keeps_last(input.take(i as int));
                }
            }
            assert(input.take(i + 1) =~= seq![app]);
            out.push(app);
        } else {
            let n = out.len() - 1;
            if out[n].name == app.name && out[n].command == app.command {
            } else {
                out.push(app);
            }
        }
    }
    assert(input.take(input.len() as int) =~= input);
    out
}

/// The applications to list: sorted by name, with an entry dropped where it
/// repeats the name and command of the one before it.
pub fn sort_and_dedup(apps: Vec<ApplicationResult>) -> (out: Vec<ApplicationResult>)
    ensures
        exists|sorted: Seq<ApplicationResult>|
            (exists|idx: Seq<int>| sorted_by_name_witness(sorted, apps@, idx)) && out@ == dedup_spec(
                sorted,
            ),
{
    let sorted = sort_by_name(apps);
    let out = dedup_applications(sorted);
    assert((exists|idx: Seq<int>| sorted_by_name_witness(sorted@, apps@, idx)) && out@ == dedup_spec(
        sorted@,
    ));
    out
}

} // verus!
