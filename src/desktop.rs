use vstd::prelude::*;
use crate::score::{score_label, score_spec};
use crate::text::{
    chars_of, normalize_spec, pieces, replace_chars, replace_spec, split_pieces, string_of,
};

verus! {

/// What `str::to_uppercase` makes of a string: it depends on the characters
/// alone.
pub uninterp spec fn upper_of(s: Seq<char>) -> Seq<char>;

/// What `convert_case` makes of a string in title case: it depends on the
/// characters alone.
pub uninterp spec fn title_case_of(s: Seq<char>) -> Seq<char>;

/// The words `shell_words::split` finds in a command line, or `None` where
/// it reports unbalanced quoting; it depends on the characters alone.
pub uninterp spec fn shell_split_of(s: Seq<char>) -> Option<Seq<Seq<char>>>;

/// Relies on `str::to_uppercase`: the upper-case form of `s`.
#[verifier::external_body]
fn uppercase(s: &str) -> (r: String)
    ensures
        r@ == upper_of(s@),
{
    s.to_uppercase()
}

/// Relies on `convert_case`'s `to_case(Case::Title)`: `s` in title case.
/// It splits words at byte offsets mixed with character counts, so it is
/// called on ASCII text only.
#[verifier::external_body]
fn title_case(s: &str) -> (r: String)
    requires
        is_ascii_text(s@),
    ensures
        r@ == title_case_of(s@),
{
    convert_case::Casing::to_case(s, convert_case::Case::Title)
}

/// Relies on `shell_words::split`: the words of a command line, `None` on a
/// parse error.
#[verifier::external_body]
fn shell_split(s: &str) -> (r: Option<Vec<String>>)
    ensures
        match r {
            Some(words) => shell_split_of(s@) == Some(words@.map_values(|w: String| w@)),
            None => shell_split_of(s@) is None,
        },
{
    shell_words::split(s).ok()
}

/// A desktop file's command line with its field codes taken out: `%f`,
/// `%F`, `%u` and `%U` are dropped, `%D` becomes `~`.
pub open spec fn format_exec_spec(command: Seq<char>) -> Seq<char> {
    let a = replace_spec(command, "%f"@, ""@);
    let b = replace_spec(a, "%F"@, ""@);
    let c = replace_spec(b, "%D"@, "~"@);
    let d = replace_spec(c, "%u"@, ""@);
    replace_spec(d, "%U"@, ""@)
}

/// Every character of `s` is ASCII.
pub open spec fn is_ascii_text(s: Seq<char>) -> bool {
    forall|i: int| 0 <= i < s.len() ==> s[i] < '\u{80}'
}

/// Whether every character of `s` is ASCII.
pub fn ascii_only(s: &str) -> (r: bool)
    ensures
        r == is_ascii_text(s@),
{
    let chars = chars_of(s);
    let mut i: usize = 0;
    while i < chars.len()
        invariant
            i <= chars@.len(),
            chars@ == s@,
            forall|k: int| 0 <= k < i ==> chars@[k] < '\u{80}',
        decreases chars@.len() - i,
    {
        if chars[i] >= '\u{80}' {
            return false;
        }
        i = i + 1;
    }
    true
}

/// The displayed form of a chosen category: title case, then upper case;
/// a category with a non-ASCII character skips the title-casing step.
pub open spec fn shown_category(chosen: Seq<char>) -> Seq<char> {
    if is_ascii_text(chosen) {
        upper_of(title_case_of(chosen))
    } else {
        upper_of(chosen)
    }
}

/// Categories that say nothing useful to a user, in upper case.
pub open spec fn is_excluded_category(upper: Seq<char>) -> bool {
    upper == "APPLICATION"@ || upper == "CONSOLEONLY"@ || upper == "NETWORK"@ || upper
        == "FILETRANSFER"@ || upper == "TEXTEDITOR"@ || upper == "X-XFCE"@ || upper == "GNOME"@
        || upper == "XFCE"@ || upper == "GTK"@ || upper == "KDE"@ || upper == ""@
}

/// The first category of `parts` that is not excluded.
pub open spec fn first_shown_category(parts: Seq<Seq<char>>) -> Option<Seq<char>>
    decreases parts.len(),
{
    if parts.len() == 0 {
        None
    } else if !is_excluded_category(upper_of(parts[0])) {
        Some(parts[0])
    } else {
        first_shown_category(parts.drop_first())
    }
}

/// The category shown for an application whose `Categories` key holds
/// `list`: the first useful one, or `Application`, in title case and then
/// upper case (only upper case when it holds a non-ASCII character).
pub open spec fn category_spec(list: Option<Seq<char>>) -> Seq<char> {
    let parts = match list {
        Some(l) => pieces(l, ';'),
        None => Seq::empty(),
    };
    let chosen = match first_shown_category(parts) {
        Some(p) => p,
        None => "Application"@,
    };
    shown_category(chosen)
}

/// The keys of a desktop file's `Desktop Entry` section that the launcher
/// reads; `None` where a key is absent.
pub struct DesktopEntry {
    pub name: Option<String>,
    pub comment: Option<String>,
    pub categories: Option<String>,
    pub command: Option<String>,
    pub icon: Option<String>,
    pub no_display: Option<String>,
    pub hidden: Option<String>,
    pub actions: Option<String>,
}

/// The keys of one `Desktop Action` section.
pub struct ActionSection {
    pub name: Option<String>,
    pub command: Option<String>,
}

/// A secondary action of an application.
pub struct Action {
    pub name: String,
    pub command: String,
}

/// An installed application as the launcher lists it.
pub struct ApplicationResult {
    pub name: String,
    pub description: String,
    pub category: String,
    pub version: Option<String>,
    pub command: String,
    pub icon: Option<String>,
    pub actions: Option<Vec<Action>>,
}

/// The text of an optional key, or `default` when it is absent.
pub open spec fn text_or(v: Option<String>, default: Seq<char>) -> Seq<char> {
    match v {
        Some(s) => s@,
        None => default,
    }
}

/// The view of an optional key.
pub open spec fn opt_view(v: Option<String>) -> Option<Seq<char>> {
    match v {
        Some(s) => Some(s@),
        None => None,
    }
}

/// An entry is listed unless `NoDisplay` or `Hidden` says otherwise: each
/// must be absent or read `false`.
pub open spec fn is_shown(e: DesktopEntry) -> bool {
    text_or(e.no_display, "false"@) == "false"@ && text_or(e.hidden, "false"@) == "false"@
}

/// `a` describes the action section `s`.
pub open spec fn action_from_section(a: Action, s: ActionSection) -> bool {
    &&& a.name@ == text_or(s.name, "Unnamed Action"@)
    &&& s.command matches Some(e) && a.command@ == e@
}

/// The action sections that name a command to run, in order.
pub open spec fn runnable(sections: Seq<ActionSection>) -> Seq<ActionSection> {
    sections.filter(|s: ActionSection| s.command is Some)
}

/// `r` is the application listed for `e` with the action sections
/// `sections`: the name defaults to `Unnamed Application`, the description
/// to nothing, the category is chosen from `Categories`, and, when the entry
/// lists any action, the actions are those of the sections that name a
/// command, in order; a section without a command is skipped.
pub open spec fn describes(r: ApplicationResult, e: DesktopEntry, sections: Seq<ActionSection>) -> bool {
    &&& r.name@ == text_or(e.name, "Unnamed Application"@)
    &&& r.description@ == text_or(e.comment, ""@)
    &&& r.category@ == category_spec(opt_view(e.categories))
    &&& r.version is None
    &&& e.command matches Some(x) && r.command@ == x@
    &&& opt_view(r.icon) == opt_view(e.icon)
    &&& if sections.len() == 0 {
        r.actions is None
    } else {
        r.actions matches Some(v) && v@.len() == runnable(sections).len() && forall|i: int|
            0 <= i < v@.len() ==> action_from_section(#[trigger] v@[i], runnable(sections)[i])
    }
}

/// The names listed in an entry's `Actions` key, in order.
pub fn action_names(actions: Option<&str>) -> (r: Vec<String>)
    ensures
        r@.map_values(|s: String| s@) == match actions {
            Some(l) => pieces(l@, ';'),
            None => Seq::<Seq<char>>::empty(),
        },
{
    let mut out: Vec<String> = Vec::new();
    match actions {
        Some(l) => {
            let chars = chars_of(l);
            let parts = split_pieces(&chars, ';');
            let ghost views = parts@.map_values(|p: Vec<char>| p@);
            let mut i: usize = 0;
            while i < parts.len()
                invariant
                    i <= parts@.len(),
                    views == parts@.map_values(|p: Vec<char>| p@),
                    out@.len() == i,
                    forall|j: int| 0 <= j < i ==> #[trigger] out@[j]@ == views[j],
                decreases parts@.len() - i,
            {
                out.push(string_of(&parts[i]));
                i = i + 1;
            }
            assert(out@.map_values(|s: String| s@) =~= views);
        },
        None => {
            assert(out@.map_values(|s: String| s@) =~= Seq::<Seq<char>>::empty());
        },
    }
    out
}

/// The text of an optional key, or `default`.
fn text_or_default(v: &Option<String>, default: &str) -> (r: String)
    ensures
        r@ == text_or(*v, default@),
{
    match v {
        Some(s) => s.clone(),
        None => default.to_owned(),
    }
}

/// A copy of an optional key.
fn copy_opt(v: &Option<String>) -> (r: Option<String>)
    ensures
        opt_view(r) == opt_view(*v),
{
    match v {
        Some(s) => Some(s.clone()),
        None => None,
    }
}

/// Replaces every `pat` in `s` by `with`.
fn replace_text(s: &Vec<char>, pat: &str, with: &str) -> (r: Vec<char>)
    ensures
        r@ == replace_spec(s@, pat@, with@),
{
    let p = chars_of(pat);
    let w = chars_of(with);
    replace_chars(s, &p, &w)
}

/// Whether a category, once in upper case, is one of those too general to
/// show.
pub fn is_excluded(upper: &String) -> (r: bool)
    ensures
        r == is_excluded_category(upper@),
{
    let words = ["APPLICATION", "CONSOLEONLY", "NETWORK", "FILETRANSFER", "TEXTEDITOR", "X-XFCE",
        "GNOME", "XFCE", "GTK", "KDE", ""];
    *upper == words[0].to_owned() || *upper == words[1].to_owned() || *upper == words[2].to_owned()
        || *upper == words[3].to_owned() || *upper == words[4].to_owned() || *upper
        == words[5].to_owned() || *upper == words[6].to_owned() || *upper == words[7].to_owned()
        || *upper == words[8].to_owned() || *upper == words[9].to_owned() || *upper
        == words[10].to_owned()
}

impl ApplicationResult {
    /// The application to list for the desktop entry `entry`, whose action
    /// sections, in the order of its `Actions` key, are `sections`. An entry
    /// without `Exec`, or one marked `NoDisplay` or `Hidden`, gives none; an
    /// action section without `Exec` is skipped.
    pub fn from_entry(entry: &DesktopEntry, sections: &Vec<ActionSection>) -> (r: Option<
        ApplicationResult,
    >)
        ensures
            (entry.command is Some && is_shown(*entry)) ==> (r matches Some(a) && describes(a, *entry, sections@)),
            !(entry.command is Some && is_shown(*entry)) ==> r is None,
    {
        let no_display = text_or_default(&entry.no_display, "false");
        let hidden = text_or_default(&entry.hidden, "false");
        let false_word = "false".to_owned();
        let shown = no_display == false_word && hidden == false_word;
        let command = match &entry.command {
            Some(x) => x.clone(),
            None => {
                return None;
            },
        };
        if !shown {
            return None;
        }
        let mut actions: Vec<Action> = Vec::new();
        let mut i: usize = 0;
        while i < sections.len()
            invariant
                i <= sections@.len(),
                actions@.len() == runnable(sections@.take(i as int)).len(),
                forall|k: int|
                    0 <= k < actions@.len() ==> action_from_section(
                        #[trigger] actions@[k],
                        runnable(sections@.take(i as int))[k],
                    ),
            decreases sections@.len() - i,
        {
            let ghost before = runnable(sections@.take(i as int));
            assert(sections@.take(i + 1).drop_last() =~= sections@.take(i as int));
            assert(sections@.take(i + 1).last() == sections@[i as int]);
            reveal(Seq::filter);
            let s = &sections[i];
            match &s.command {
                Some(x) => {
                    let name = text_or_default(&s.name, "Unnamed Action");
                    actions.push(Action { name, command: x.clone() });
                    assert(runnable(sections@.take(i + 1)) == before.push(sections@[i as int]));
                },
                None => {
                    assert(runnable(sections@.take(i + 1)) == before);
                },
            }
            i = i + 1;
        }
        assert(sections@.take(sections@.len() as int) =~= sections@);
        let categories: Option<&str> = match &entry.categories {
            Some(c) => Some(c.as_str()),
            None => None,
        };
        let category = ApplicationResult::choose_category(categories);
        let a = ApplicationResult {
            name: text_or_default(&entry.name, "Unnamed Application"),
            description: text_or_default(&entry.comment, ""),
            category,
            version: None,
            command,
            icon: copy_opt(&entry.icon),
            actions: if sections.len() > 0 {
                Some(actions)
            } else {
                None
            },
        };
        Some(a)
    }

    /// Takes the field codes out of a desktop file's command line.
    pub fn format_exec(command: &str) -> (r: String)
        ensures
            r@ == format_exec_spec(command@),
    {
        let e = chars_of(command);
        let a = replace_text(&e, "%f", "");
        let b = replace_text(&a, "%F", "");
        let c = replace_text(&b, "%D", "~");
        let d = replace_text(&c, "%u", "");
        let f = replace_text(&d, "%U", "");
        string_of(&f)
    }

    /// The program and arguments to run for a desktop command line: the field
    /// codes are taken out and the rest is split into words as a shell would.
    /// `None` when the quoting does not balance or no word is left.
    pub fn command_args(command: &str) -> (r: Option<Vec<String>>)
        ensures
            match shell_split_of(format_exec_spec(command@)) {
                Some(words) => if words.len() > 0 {
                    r matches Some(v) && v@.map_values(|w: String| w@) == words
                } else {
                    r is None
                },
                None => r is None,
            },
    {
        let line = ApplicationResult::format_exec(command);
        match shell_split(line.as_str()) {
            Some(words) => if words.len() > 0 {
                Some(words)
            } else {
                None
            },
            None => None,
        }
    }

    /// The category to show for an application whose `Categories` key holds
    /// `list`.
    pub fn choose_category(list: Option<&str>) -> (r: String)
        ensures
            r@ == category_spec(
                match list {
                    Some(l) => Some(l@),
                    None => None,
                },
            ),
    {
        let ghost list_view: Option<Seq<char>> = match list {
            Some(l) => Some(l@),
            None => None,
        };
        let parts: Vec<Vec<char>> = match list {
            Some(l) => {
                let chars = chars_of(l);
                split_pieces(&chars, ';')
            },
            None => Vec::new(),
        };
        let ghost views = parts@.map_values(|p: Vec<char>| p@);
        assert(views == match list_view {
            Some(l) => pieces(l, ';'),
            None => Seq::<Seq<char>>::empty(),
        }) by {
            if list_view is None {
                assert(views =~= Seq::<Seq<char>>::empty());
            }
        }
        let mut chosen: Option<String> = None;
        let mut i: usize = 0;
        assert(views.skip(0) =~= views);
        while i < parts.len()
            invariant_except_break
                chosen is None,
            invariant
                i <= parts@.len(),
                views == parts@.map_values(|p: Vec<char>| p@),
                first_shown_category(views) == first_shown_category(views.skip(i as int)),
            ensures
                chosen matches Some(p) ==> first_shown_category(views) == Some(p@),
                chosen is None ==> i == parts@.len(),
            decreases parts@.len() - i,
        {
            assert(views.skip(i as int).drop_first() =~= views.skip(i + 1));
            assert(views.skip(i as int)[0] == views[i as int]);
            let part = string_of(&parts[i]);
            let upper = uppercase(part.as_str());
            if !is_excluded(&upper) {
                chosen = Some(part);
                break;
            }
            i = i + 1;
        }
        let name = match chosen {
            Some(p) => p,
            None => {
                assert(views.skip(i as int) =~= Seq::<Seq<char>>::empty());
                "Application".to_owned()
            },
        };
        if ascii_only(name.as_str()) {
            let titled = title_case(name.as_str());
            uppercase(titled.as_str())
        } else {
            uppercase(name.as_str())
        }
    }

    /// Scores this application's name against a normalised `query`.
    pub fn get_ranking(&self, query: &str) -> (r: usize)
        requires
            query@.len() <= usize::MAX / 10,
        ensures
            r == score_spec(normalize_spec(self.name@), query@),
    {
        score_label(self.name.as_str(), query)
    }
}

} // verus!
