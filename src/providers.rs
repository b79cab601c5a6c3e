use vstd::prelude::*;
use vstd::string::StringSliceAdditionalSpecFns;
use crate::icons::{described_directory_icon, reads, standard_folder_icon_of};
use crate::score::{score_label, score_spec};
use crate::text::{chars_of, normalize_spec, pieces, split_pieces, string_of};

verus! {

/// The address `url` makes of `base` with the query pair `key=value`
/// appended, or `None` where `base` does not parse; it depends on the three
/// strings alone.
pub uninterp spec fn url_with_pair_of(base: Seq<char>, key: Seq<char>, value: Seq<char>) -> Option<
    Seq<char>,
>;

/// Relies on `url::Url::parse` and `query_pairs_mut().append_pair`: `base`
/// with `key=value` added to its query, form-encoded; `None` when `base` is
/// not an absolute URL.
#[verifier::external_body]
fn url_with_pair(base: &str, key: &str, value: &str) -> (r: Option<String>)
    ensures
        match r {
            Some(u) => url_with_pair_of(base@, key@, value@) == Some(u@),
            None => url_with_pair_of(base@, key@, value@) is None,
        },
{
    let mut url = url::Url::parse(base).ok()?;
    url.query_pairs_mut().append_pair(key, value);
    Some(url.as_str().to_owned())
}

/// A web search engine: where its search page is and which query parameter
/// carries the search text.
pub struct SearchEngine {
    pub name: String,
    pub base_url: String,
    pub query_argument: String,
    pub icon: Option<String>,
}

/// The score of a web search for a query of `len` bytes: `len * 5 + 1`,
/// just above the cut-off that the query's length sets.
pub open spec fn web_search_score_spec(len: nat) -> nat {
    len * 5 + 1
}

impl SearchEngine {
    /// The engines offered when none are configured.
    pub fn defaults() -> (r: Vec<SearchEngine>)
        ensures
            r@.len() == 1,
            r@[0].name@ == "Google"@,
            r@[0].base_url@ == "https://google.com/search"@,
            r@[0].query_argument@ == "q"@,
            r@[0].icon is None,
    {
        let mut r: Vec<SearchEngine> = Vec::new();
        r.push(
            SearchEngine {
                name: "Google".to_owned(),
                base_url: "https://google.com/search".to_owned(),
                query_argument: "q".to_owned(),
                icon: None,
            },
        );
        r
    }

    /// The page that searches this engine for `query`.
    pub fn search_url(&self, query: &str) -> (r: Option<String>)
        ensures
            match r {
                Some(u) => url_with_pair_of(self.base_url@, self.query_argument@, query@) == Some(
                    u@,
                ),
                None => url_with_pair_of(self.base_url@, self.query_argument@, query@) is None,
            },
    {
        url_with_pair(self.base_url.as_str(), self.query_argument.as_str(), query)
    }
}

/// The score of a web search result for `query`: five points per byte of
/// the query, plus one.
pub fn web_search_score(query: &str) -> (r: usize)
    requires
        query.spec_bytes().len() <= (usize::MAX - 1) / 5,
    ensures
        r == web_search_score_spec(query.spec_bytes().len()),
{
    query.len() * 5 + 1
}

/// For each engine, in order, the score of searching it for `query`, with
/// the engine's index; nothing for an empty query.
pub fn web_search_results(engines: &Vec<SearchEngine>, query: &str) -> (r: Vec<(usize, usize)>)
    requires
        query.spec_bytes().len() <= (usize::MAX - 1) / 5,
    ensures
        query@.len() == 0 ==> r@.len() == 0,
        query@.len() > 0 ==> r@.len() == engines@.len() && forall|i: int|
            0 <= i < r@.len() ==> #[trigger] r@[i] == (
            web_search_score_spec(query.spec_bytes().len()) as usize,
            i as usize,
        ),
{
    let mut out: Vec<(usize, usize)> = Vec::new();
    if query.is_empty() {
        return out;
    }
    let score = web_search_score(query);
    let mut i: usize = 0;
    while i < engines.len()
        invariant
            i <= engines@.len(),
            score == web_search_score_spec(query.spec_bytes().len()),
            out@.len() == i,
            forall|k: int| 0 <= k < i ==> #[trigger] out@[k] == (score, k as usize),
        decreases engines@.len() - i,
    {
        out.push((score, i));
        i = i + 1;
    }
    out
}

/// The labels among the first `n` of `labels` that match `query`, as
/// (score, index) pairs in label order; a label matches when its normal form
/// scores above 0.
pub open spec fn matching_prefix(labels: Seq<Seq<char>>, query: Seq<char>, n: int) -> Seq<
    (usize, usize),
>
    decreases n,
{
    if n <= 0 {
        Seq::empty()
    } else {
        let prev = matching_prefix(labels, query, n - 1);
        let s = score_spec(normalize_spec(labels[n - 1]), query);
        if s > 0 {
            prev.push((s as usize, (n - 1) as usize))
        } else {
            prev
        }
    }
}

/// Scores every label against a normalised `query` and keeps the ones that
/// match, as (score, index) pairs in label order.
pub fn matching_labels(labels: &Vec<String>, query: &str) -> (r: Vec<(usize, usize)>)
    requires
        query@.len() <= usize::MAX / 10,
    ensures
        r@ == matching_prefix(labels@.map_values(|l: String| l@), query@, labels@.len() as int),
{
    let ghost views = labels@.map_values(|l: String| l@);
    let mut out: Vec<(usize, usize)> = Vec::new();
    let mut i: usize = 0;
    while i < labels.len()
        invariant
            i <= labels@.len(),
            query@.len() <= usize::MAX / 10,
            views == labels@.map_values(|l: String| l@),
            out@ == matching_prefix(views, query@, i as int),
        decreases labels@.len() - i,
    {
        assert(views[i as int] == labels@[i as int]@);
        let s = score_label(labels[i].as_str(), query);
        if s > 0 {
            out.push((s, i));
        }
        i = i + 1;
    }
    out
}

/// How a directory's path is shown: with a trailing `/`, and relative to
/// the home directory `home` when it lies strictly inside it.
pub open spec fn display_path_spec(path: Seq<char>, home: Seq<char>) -> Seq<char> {
    let p = path + "/"@;
    if home.len() <= p.len() && p.take(home.len() as int) == home && p.len() > home.len() + 1 {
        p.skip(home.len() as int + 1)
    } else {
        p
    }
}

/// The path of a directory as the launcher shows it, given the user's home
/// directory `home`.
pub fn display_path(path: &str, home: &str) -> (r: String)
    requires
        path@.len() < usize::MAX,
    ensures
        r@ == display_path_spec(path@, home@),
{
    let mut p = chars_of(path);
    p.push('/');
    let h = chars_of(home);
    let ghost full = path@ + "/"@;
    assert(p@ =~= full) by {
        reveal_strlit("/");
    }
    let mut prefix = h.len() <= p.len();
    let mut k: usize = 0;
    while prefix && k < h.len()
        invariant
            h@ == home@,
            p@ == full,
            prefix ==> h@.len() <= p@.len(),
            k <= h@.len(),
            prefix ==> forall|m: int| 0 <= m < k ==> p@[m] == h@[m],
            !prefix ==> !(h@.len() <= p@.len() && p@.take(h@.len() as int) == h@),
        decreases (h@.len() - k) * 2 + if prefix {
            1int
        } else {
            0
        },
    {
        if p[k] != h[k] {
            assert(p@.take(h@.len() as int)[k as int] != h@[k as int]);
            prefix = false;
        } else {
            k = k + 1;
        }
    }
    if prefix {
        assert(p@.take(h@.len() as int) =~= h@);
    }
    if prefix && p.len() - h.len() > 1 {
        let mut out: Vec<char> = Vec::new();
        let mut i: usize = h.len() + 1;
        while i < p.len()
            invariant
                h.len() + 1 <= i <= p@.len(),
                out@ == p@.subrange(h@.len() as int + 1, i as int),
            decreases p@.len() - i,
        {
            out.push(p[i]);
            assert(out@ =~= p@.subrange(h@.len() as int + 1, i + 1));
            i = i + 1;
        }
        assert(out@ =~= p@.skip(h@.len() as int + 1));
        string_of(&out)
    } else {
        string_of(&p)
    }
}

/// The last of `parts` that is not `.`, if any.
pub open spec fn last_component(parts: Seq<Seq<char>>) -> Option<Seq<char>>
    decreases parts.len(),
{
    if parts.len() == 0 {
        None
    } else if parts.last() == "."@ {
        last_component(parts.drop_last())
    } else {
        Some(parts.last())
    }
}

/// The file name of a path, as `Path::file_name` reads it: the last
/// component, where `.` components do not count, unless that is `..`.
pub open spec fn file_name_spec(path: Seq<char>) -> Option<Seq<char>> {
    match last_component(pieces(path, '/')) {
        Some(c) => if c == ".."@ {
            None
        } else {
            Some(c)
        },
        None => None,
    }
}

/// The label of a directory entry: `description` when given, else the
/// file name of `path`; `None` when there is neither.
pub open spec fn directory_label_spec(description: Option<Seq<char>>, path: Seq<char>) -> Option<
    Seq<char>,
> {
    match description {
        Some(d) => Some(d),
        None => file_name_spec(path),
    }
}

/// Whether `p` reads `.` (for `n` of 1) or `..` (for `n` of 2).
fn is_dots(p: &Vec<char>, n: usize) -> (r: bool)
    requires
        n == 1 || n == 2,
    ensures
        n == 1 ==> r == (p@ == "."@),
        n == 2 ==> r == (p@ == ".."@),
{
    proof {
        reveal_strlit(".");
        reveal_strlit("..");
    }
    if p.len() != n {
        return false;
    }
    let r = p[0] == '.' && (n == 1 || p[1] == '.');
    if r {
        if n == 1 {
            assert(p@ =~= "."@);
        } else {
            assert(p@ =~= ".."@);
        }
    }
    r
}

/// The label of a directory entry from its description, or from its path.
pub fn directory_label(description: Option<&str>, path: &str) -> (r: Option<String>)
    ensures
        match r {
            Some(s) => directory_label_spec(
                match description {
                    Some(d) => Some(d@),
                    None => None,
                },
                path@,
            ) == Some(s@),
            None => directory_label_spec(
                match description {
                    Some(d) => Some(d@),
                    None => None,
                },
                path@,
            ) is None,
        },
{
    match description {
        Some(d) => Some(d.to_owned()),
        None => {
            let chars = chars_of(path);
            let parts = split_pieces(&chars, '/');
            let ghost views = parts@.map_values(|p: Vec<char>| p@);
            let mut j: usize = parts.len();
            assert(views.take(j as int) =~= views);
            while j > 0 && is_dots(&parts[j - 1], 1)
                invariant
                    j <= parts@.len(),
                    views == parts@.map_values(|p: Vec<char>| p@),
                    last_component(views) == last_component(views.take(j as int)),
                decreases j,
            {
                assert(views.take(j as int).drop_last() =~= views.take(j - 1));
                assert(views.take(j as int).last() == views[j - 1]);
                j = j - 1;
            }
            if j == 0 {
                assert(views.take(0) =~= Seq::<Seq<char>>::empty());
                return None;
            }
            assert(views.take(j as int).last() == views[j - 1]);
            if is_dots(&parts[j - 1], 2) {
                return None;
            }
            let last = string_of(&parts[j - 1]);
            assert(last@ == views[j - 1]);
            Some(last)
        },
    }
}

/// One of the user's folders as a search result: its label, its icon, and
/// its path as shown and as it is.
pub struct DirectoryResult {
    pub icon: String,
    pub path_str: String,
    pub description: String,
    pub path: String,
}

impl DirectoryResult {
    /// The icon for a directory entry described as `description`.
    pub fn get_dir_icon(description: &str) -> (r: String)
        ensures
            r@ == described_directory_icon(description@),
    {
        let d = description.to_owned();
        if reads(&d, "Home") {
            "user-home".to_owned()
        } else {
            standard_folder_icon_of(&d)
        }
    }

    /// The entry for the folder at `path`, labelled `description` or else
    /// by the path's last component, for a user whose home directory is
    /// `home`; `None` when the path has no component to label it by.
    pub fn new(description: Option<&str>, path: &str, home: &str) -> (r: Option<DirectoryResult>)
        requires
            path@.len() < usize::MAX,
        ensures
            match directory_label_spec(
                match description {
                    Some(d) => Some(d@),
                    None => None,
                },
                path@,
            ) {
                Some(label) => r matches Some(d) && d.description@ == label && d.icon@
                    == described_directory_icon(label) && d.path_str@ == display_path_spec(
                    path@,
                    home@,
                ) && d.path@ == path@,
                None => r is None,
            },
    {
        let description = match directory_label(description, path) {
            Some(label) => label,
            None => {
                return None;
            },
        };
        let icon = DirectoryResult::get_dir_icon(description.as_str());
        let path_str = display_path(path, home);
        Some(DirectoryResult { icon, path_str, description, path: path.to_owned() })
    }

    /// Scores this folder's label against a normalised `query`.
    pub fn get_ranking(&self, query: &str) -> (r: usize)
        requires
            query@.len() <= usize::MAX / 10,
        ensures
            r == score_spec(normalize_spec(self.description@), query@),
    {
        score_label(self.description.as_str(), query)
    }
}

/// A web search for one query on one engine.
pub struct WebSearchResult {
    pub engine: SearchEngine,
    pub query: String,
}

impl WebSearchResult {
    /// The search for `query` on `engine`.
    pub fn new(engine: SearchEngine, query: &str) -> (r: WebSearchResult)
        ensures
            r.engine == engine,
            r.query@ == query@,
    {
        WebSearchResult { engine, query: query.to_owned() }
    }

    /// The score of a web search for `query`: five points per byte of the
    /// query, plus one.
    pub fn get_ranking(&self, query: &str) -> (r: usize)
        requires
            query.spec_bytes().len() <= (usize::MAX - 1) / 5,
        ensures
            r == web_search_score_spec(query.spec_bytes().len()),
    {
        web_search_score(query)
    }

    /// The page that activating this result opens: the engine's search page
    /// with the query added as its query argument.
    pub fn url(&self) -> (r: Option<String>)
        ensures
            match r {
                Some(u) => url_with_pair_of(
                    self.engine.base_url@,
                    self.engine.query_argument@,
                    self.query@,
                ) == Some(u@),
                None => url_with_pair_of(
                    self.engine.base_url@,
                    self.engine.query_argument@,
                    self.query@,
                ) is None,
            },
    {
        self.engine.search_url(self.query.as_str())
    }
}

} // verus!
