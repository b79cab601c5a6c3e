use vstd::prelude::*;
use crate::text::{chars_of, normalize_chars, normalize_spec};

verus! {

/// The first position at or after `from` where `label` holds `c`, if any.
pub open spec fn find_from(label: Seq<char>, c: char, from: int) -> Option<int>
    decreases label.len() - from,
{
    if from < 0 || from >= label.len() {
        None
    } else if label[from] == c {
        Some(from)
    } else {
        find_from(label, c, from + 1)
    }
}

/// Points earned by a match found `distance` places after the cursor.
pub open spec fn points(distance: int) -> nat {
    if distance < 10 {
        (10 - distance) as nat
    } else {
        0
    }
}

/// Score of `query` against `label` with the cursor standing at `cursor`:
/// each query character is looked for from the cursor on; a hit `d` places
/// after the cursor earns `max(10 - d, 0)` and moves the cursor past it, a
/// miss earns nothing and leaves the cursor where it is.
pub open spec fn score_from(label: Seq<char>, query: Seq<char>, cursor: int) -> nat
    decreases query.len(),
{
    if query.len() == 0 {
        0
    } else {
        match find_from(label, query[0], cursor) {
            Some(p) => points(p - cursor) + score_from(label, query.drop_first(), p + 1),
            None => score_from(label, query.drop_first(), cursor),
        }
    }
}

/// The relevance of `label` for `query` under the sequential subsequence rule.
pub open spec fn score_spec(label: Seq<char>, query: Seq<char>) -> nat {
    score_from(label, query, 0)
}

proof fn lemma_find_from_bounds(label: Seq<char>, c: char, from: int)
    ensures
        match find_from(label, c, from) {
            Some(p) => from <= p < label.len() && label[p] == c && forall|j: int|
                from <= j < p ==> label[j] != c,
            None => forall|j: int| 0 <= from <= j < label.len() ==> label[j] != c,
        },
    decreases label.len() - from,
{
    if from >= 0 && from < label.len() && label[from] != c {
        lemma_find_from_bounds(label, c, from + 1);
    }
}

/// Looks for `c` in `label` from position `from` on.
fn find_char_from(label: &Vec<char>, c: char, from: usize) -> (r: Option<usize>)
    requires
        from <= label@.len(),
    ensures
        match r {
            Some(p) => find_from(label@, c, from as int) == Some(p as int),
            None => find_from(label@, c, from as int) is None,
        },
{
    let mut i: usize = from;
    while i < label.len()
        invariant
            from <= i <= label@.len(),
            find_from(label@, c, from as int) == find_from(label@, c, i as int),
        decreases label@.len() - i,
    {
        if label[i] == c {
            return Some(i);
        }
        i = i + 1;
    }
    None
}

/// Scores a normalised `label` against a normalised `query`: each query
/// character found `d` places after the cursor earns `max(10 - d, 0)` and
/// moves the cursor just past it; a character not found earns nothing.
pub fn score_chars(label: &Vec<char>, query: &Vec<char>) -> (r: usize)
    requires
        query@.len() <= usize::MAX / 10,
    ensures
        r == score_spec(label@, query@),
{
    let mut total: usize = 0;
    let mut cursor: usize = 0;
    let mut k: usize = 0;
    assert(query@.skip(0) =~= query@);
    while k < query.len()
        invariant
            k <= query@.len() <= usize::MAX / 10,
            cursor <= label@.len(),
            total <= 10 * k,
            total + score_from(label@, query@.skip(k as int), cursor as int) == score_spec(
                label@,
                query@,
            ),
        decreases query@.len() - k,
    {
        let ghost rest = query@.skip(k as int);
        assert(rest.drop_first() =~= query@.skip(k + 1));
        let c = query[k];
        proof {
            lemma_find_from_bounds(label@, c, cursor as int);
        }
        match find_char_from(label, c, cursor) {
            Some(p) => {
                assert(cursor <= p < label@.len());
                assert(label@.len() == label.len());
                let d = p - cursor;
                if d < 10 {
                    total = total + (10 - d);
                }
                cursor = p + 1;
            },
            None => {},
        }
        k = k + 1;
    }
    total
}

/// Scores a normalised `label` against a normalised `query` under the
/// sequential subsequence rule.
pub fn score(label: &str, query: &str) -> (r: usize)
    requires
        query@.len() <= usize::MAX / 10,
    ensures
        r == score_spec(label@, query@),
{
    let l = chars_of(label);
    let q = chars_of(query);
    score_chars(&l, &q)
}

/// Scores a display name against a normalised `query`: the name is first
/// brought to normal form (lower case, white space removed).
pub fn score_label(name: &str, query: &str) -> (r: usize)
    requires
        query@.len() <= usize::MAX / 10,
    ensures
        r == score_spec(normalize_spec(name@), query@),
{
    let l = normalize_chars(name);
    let q = chars_of(query);
    score_chars(&l, &q)
}

/// A query character that does not occur in the label from the cursor on
/// earns nothing and leaves the cursor where it was, so the characters after
/// it are scored as if it were not there.
pub proof fn lemma_missing_char_scores_nothing(
    label: Seq<char>,
    c: char,
    rest: Seq<char>,
    cursor: int,
)
    requires
        0 <= cursor,
        forall|j: int| cursor <= j < label.len() ==> label[j] != c,
    ensures
        score_from(label, seq![c] + rest, cursor) == score_from(label, rest, cursor),
{
    lemma_find_from_bounds(label, c, cursor);
    assert((seq![c] + rest).drop_first() =~= rest);
    assert((seq![c] + rest)[0] == c);
    if find_from(label, c, cursor) is Some {
        let p = find_from(label, c, cursor)->Some_0;
        assert(label[p] == c);
    }
}

} // verus!
