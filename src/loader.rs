use vstd::prelude::*;
use crate::error::{InvocationError, LoadError};
use crate::merge::{flatten_ok, rank_batches};
use crate::plugin::{Plugin, SearchResult};
use crate::rank::{
    Ranked, is_ranking_of, lemma_only_head_marked_first, lemma_ranked_above_threshold,
    lemma_ranked_scores_positive, lemma_ranking_is_stable_descending, lemma_ranking_of_nothing, lemma_ranking_empty_iff,
    lemma_ranked_head_is_top, survives, top_score,
    threshold_times_four,
};
use crate::text::{normalize_chars, normalize_spec, string_of};

verus! {

/// The version tags of a plugin descriptor: the toolchain it was built with
/// and the core protocol it speaks.
pub struct PluginDeclaration {
    pub rustc_version: String,
    pub core_version: String,
}

/// Whether a plugin built as `found` may be loaded by a host built as `host`:
/// both tags must be equal, with no partial compatibility.
pub open spec fn compatible(found: PluginDeclaration, host: PluginDeclaration) -> bool {
    found.rustc_version@ == host.rustc_version@ && found.core_version@ == host.core_version@
}

/// What happened at the last step of loading one plugin file.
pub enum LoadEvent {
    /// The shared library was opened, or the loader's message why not.
    Opened(Result<(), String>),
    /// The descriptor was read, or the loader's message why not.
    DescriptorRead(Result<PluginDeclaration, String>),
}

/// What the loader does next.
pub enum LoadAction {
    /// Look up and read the plugin descriptor.
    ReadDescriptor,
    /// Call the plugin's registration entry point with a fresh host context.
    InvokeRegistration,
    /// Give up on this file with the given error.
    Fail(LoadError),
}

/// The loader's decision after `event`, for a host built as `host`.
pub open spec fn load_step_spec(host: PluginDeclaration, event: LoadEvent) -> LoadAction {
    match event {
        LoadEvent::Opened(Ok(())) => LoadAction::ReadDescriptor,
        LoadEvent::Opened(Err(m)) => LoadAction::Fail(LoadError::Open(m)),
        LoadEvent::DescriptorRead(Err(m)) => LoadAction::Fail(LoadError::MalformedPlugin(m)),
        LoadEvent::DescriptorRead(Ok(d)) => if compatible(d, host) {
            LoadAction::InvokeRegistration
        } else {
            LoadAction::Fail(LoadError::VersionMismatch)
        },
    }
}

/// Checks a plugin's version tags against the host's.
pub fn check_declaration(found: &PluginDeclaration, host: &PluginDeclaration) -> (r: Result<
    (),
    LoadError,
>)
    ensures
        compatible(*found, *host) ==> r == Ok::<(), LoadError>(()),
        !compatible(*found, *host) ==> r == Err::<(), LoadError>(LoadError::VersionMismatch),
{
    if found.rustc_version == host.rustc_version && found.core_version == host.core_version {
        Ok(())
    } else {
        Err(LoadError::VersionMismatch)
    }
}

/// Decides the loader's next step after `event`: a library that did not
/// open or has no descriptor fails, a descriptor whose tags differ from the
/// host's fails with `VersionMismatch`, and only a compatible one leads to
/// the registration call.
pub fn load_step(host: &PluginDeclaration, event: LoadEvent) -> (r: LoadAction)
    ensures
        r == load_step_spec(*host, event),
{
    match event {
        LoadEvent::Opened(Ok(())) => LoadAction::ReadDescriptor,
        LoadEvent::Opened(Err(m)) => LoadAction::Fail(LoadError::Open(m)),
        LoadEvent::DescriptorRead(Err(m)) => LoadAction::Fail(LoadError::MalformedPlugin(m)),
        LoadEvent::DescriptorRead(Ok(d)) => match check_declaration(&d, host) {
            Ok(()) => LoadAction::InvokeRegistration,
            Err(e) => LoadAction::Fail(e),
        },
    }
}

/// A plugin whose descriptor does not match the host's is refused with
/// `VersionMismatch`, and its registration entry point is never called.
pub proof fn lemma_mismatch_never_registers(host: PluginDeclaration, found: PluginDeclaration)
    requires
        !compatible(found, host),
    ensures
        load_step_spec(host, LoadEvent::DescriptorRead(Ok(found))) == LoadAction::Fail(
            LoadError::VersionMismatch,
        ),
        load_step_spec(host, LoadEvent::DescriptorRead(Ok(found))) != LoadAction::InvokeRegistration,
{
}

/// The first place in `regs` that holds `name`, if any.
pub open spec fn position_of<P>(regs: Seq<(Seq<char>, P)>, name: Seq<char>) -> Option<int>
    decreases regs.len(),
{
    if regs.len() == 0 {
        None
    } else {
        match position_of(regs.drop_last(), name) {
            Some(i) => Some(i),
            None => if regs.last().0 == name {
                Some(regs.len() - 1)
            } else {
                None
            },
        }
    }
}

/// `regs` after registering `plugin` under `name`: a registration of the same
/// name is replaced in place, a new name is added at the end.
pub open spec fn registered<P>(regs: Seq<(Seq<char>, P)>, name: Seq<char>, plugin: P) -> Seq<
    (Seq<char>, P),
> {
    match position_of(regs, name) {
        Some(i) => regs.update(i, (name, plugin)),
        None => regs.push((name, plugin)),
    }
}

/// The names of `regs`, in order.
pub open spec fn names_of<P>(regs: Seq<(Seq<char>, P)>) -> Seq<Seq<char>> {
    regs.map_values(|e: (Seq<char>, P)| e.0)
}

/// The host context handed to a plugin's registration entry point: it
/// collects the providers the plugin registers, keyed by name, and the
/// stylesheets it declares.
pub struct PluginBindings<P> {
    registrations: Vec<(String, P)>,
    stylesheets: Vec<String>,
}

impl<P> PluginBindings<P> {
    /// The registrations so far, in the order their names first came.
    pub closed spec fn registrations(&self) -> Seq<(Seq<char>, P)> {
        self.registrations@.map_values(|e: (String, P)| (e.0@, e.1))
    }

    /// The stylesheets declared so far, in order.
    pub closed spec fn stylesheets(&self) -> Seq<Seq<char>> {
        self.stylesheets@.map_values(|s: String| s@)
    }

    /// An empty host context.
    pub fn new() -> (r: PluginBindings<P>)
        ensures
            r.registrations() == Seq::<(Seq<char>, P)>::empty(),
            r.stylesheets() == Seq::<Seq<char>>::empty(),
    {
        let r = PluginBindings { registrations: Vec::new(), stylesheets: Vec::new() };
        assert(r.registrations() =~= Seq::<(Seq<char>, P)>::empty());
        assert(r.stylesheets() =~= Seq::<Seq<char>>::empty());
        r
    }

    /// Where `name` stands among the registrations, if anywhere.
    fn find(&self, name: &String) -> (r: Option<usize>)
        ensures
            match r {
                Some(i) => position_of(self.registrations(), name@) == Some(i as int),
                None => position_of(self.registrations(), name@) is None,
            },
    {
        let ghost regs = self.registrations();
        let mut i: usize = 0;
        while i < self.registrations.len()
            invariant
                i <= self.registrations@.len(),
                regs == self.registrations(),
                position_of(regs.take(i as int), name@) is None,
            decreases self.registrations@.len() - i,
        {
            assert(regs.take(i + 1).drop_last() =~= regs.take(i as int));
            if self.registrations[i].0 == *name {
                proof {
                    lemma_position_of_prefix(regs, (i + 1) as int, name@);
                }
                return Some(i);
            }
            i = i + 1;
        }
        assert(regs.take(i as int) =~= regs);
        None
    }

    /// Registers `plugin` under `name`. A second registration under the
    /// same name replaces the first.
    pub fn register(&mut self, name: &str, plugin: P)
        ensures
            final(self).registrations() == registered(old(self).registrations(), name@, plugin),
            final(self).stylesheets() == old(self).stylesheets(),
    {
        let key = name.to_owned();
        match self.find(&key) {
            Some(i) => {
                proof {
                    lemma_position_of_bounds(self.registrations(), name@);
                }
                let ghost before = self.registrations@;
                let _ = self.registrations.remove(i);
                self.registrations.insert(i, (key, plugin));
                assert(self.registrations@ =~= before.update(i as int, (self.registrations@[i as int])));
                assert(self.registrations() =~= registered(old(self).registrations(), name@, plugin));
            },
            None => {
                self.registrations.push((key, plugin));
                assert(self.registrations() =~= registered(old(self).registrations(), name@, plugin));
            },
        }
    }

    /// Records a stylesheet for the user interface, unchanged.
    pub fn add_stylesheet(&mut self, stylesheet: &str)
        ensures
            final(self).stylesheets() == old(self).stylesheets().push(stylesheet@),
            final(self).registrations() == old(self).registrations(),
    {
        self.stylesheets.push(stylesheet.to_owned());
        assert(self.stylesheets() =~= old(self).stylesheets().push(stylesheet@));
    }
}

/// The loaded providers, in load order, with the stylesheets their plugins
/// declared; the aggregator that answers every query.
pub struct PluginParser<P> {
    plugins: Vec<(String, P)>,
    stylesheets: Vec<String>,
}

impl<P> PluginParser<P> {
    /// The loaded providers with their names, in load order.
    pub closed spec fn providers(&self) -> Seq<(Seq<char>, P)> {
        self.plugins@.map_values(|e: (String, P)| (e.0@, e.1))
    }

    /// The stylesheets declared by the loaded plugins, in load order.
    pub closed spec fn styles(&self) -> Seq<Seq<char>> {
        self.stylesheets@.map_values(|s: String| s@)
    }

    /// A store with no provider loaded.
    pub fn new() -> (r: PluginParser<P>)
        ensures
            r.providers() == Seq::<(Seq<char>, P)>::empty(),
            r.styles() == Seq::<Seq<char>>::empty(),
    {
        let r = PluginParser { plugins: Vec::new(), stylesheets: Vec::new() };
        assert(r.providers() =~= Seq::<(Seq<char>, P)>::empty());
        assert(r.styles() =~= Seq::<Seq<char>>::empty());
        r
    }

    /// How many providers are loaded.
    pub fn len(&self) -> (r: usize)
        ensures
            r == self.providers().len(),
    {
        self.plugins.len()
    }

    /// The stylesheets the loaded plugins declared, in load order.
    pub fn get_styles(&self) -> (r: Vec<String>)
        ensures
            r@.map_values(|s: String| s@) == self.styles(),
    {
        let mut out: Vec<String> = Vec::new();
        let mut i: usize = 0;
        while i < self.stylesheets.len()
            invariant
                i <= self.stylesheets@.len(),
                out@.len() == i,
                forall|k: int| 0 <= k < i ==> #[trigger] out@[k]@ == self.stylesheets@[k]@,
            decreases self.stylesheets@.len() - i,
        {
            out.push(self.stylesheets[i].clone());
            i = i + 1;
        }
        assert(out@.map_values(|s: String| s@) =~= self.styles());
        out
    }

    /// Takes over what a plugin registered through `bindings` once its
    /// registration entry point has returned. A plugin that registered
    /// nothing fails with `RegistrationFailed` and changes nothing; otherwise
    /// its providers join the end of the store, earlier ones stay, its
    /// stylesheets are kept for the user interface, and the registered names
    /// come back.
    pub fn finish_load(&mut self, bindings: PluginBindings<P>) -> (r: Result<Vec<String>, LoadError>)
        ensures
            bindings.registrations().len() == 0 ==> {
                &&& r == Err::<Vec<String>, LoadError>(LoadError::RegistrationFailed)
                &&& final(self).providers() == old(self).providers()
                &&& final(self).styles() == old(self).styles()
            },
            bindings.registrations().len() > 0 ==> {
                &&& r is Ok
                &&& r->Ok_0@.map_values(|s: String| s@) == names_of(bindings.registrations())
                &&& final(self).providers() == old(self).providers() + bindings.registrations()
                &&& final(self).styles() == old(self).styles() + bindings.stylesheets()
            },
    {
        let PluginBindings { registrations, stylesheets } = bindings;
        if registrations.len() == 0 {
            return Err(LoadError::RegistrationFailed);
        }
        let ghost regs = registrations@;
        let ghost old_plugins = self.plugins@;
        let mut names: Vec<String> = Vec::new();
        for entry in it: registrations
            invariant
                it.seq() == regs,
                self.plugins@ == old_plugins + regs.take(it.index() as int),
                forall|j: int| 0 <= j < it.index() ==> #[trigger] names@[j]@ == regs[j].0@,
                self.stylesheets == old(self).stylesheets,
                names@.len() == it.index(),
        {
            let ghost i = it.index();
            assert(regs.take(i + 1) =~= regs.take(i as int).push(entry));
            let ghost e = entry;
            let (name, plugin) = entry;
            let copy = name.clone();
            assert(copy@ == e.0@);
            names.push(copy);
            self.plugins.push((name, plugin));
            assert(self.plugins@ =~= old_plugins + regs.take(i + 1));
        }
        assert(regs.take(regs.len() as int) =~= regs);
        let mut styles = stylesheets;
        self.stylesheets.append(&mut styles);
        assert(self.providers() =~= old(self).providers() + bindings.registrations());
        assert(self.styles() =~= old(self).styles() + bindings.stylesheets());
        assert(names@.map_values(|s: String| s@) =~= names_of(bindings.registrations()));
        Ok(names)
    }
}

impl<P: Plugin> PluginParser<P> {
    /// Answers one query: normalises `query` once (lower case, white space
    /// removed), asks every provider in load order, leaves out the providers
    /// that fail, reads each result's score, ranks the merged results and
    /// tells each result whether it stands first. Whatever the providers
    /// returned, the list is a ranking of what they returned for the
    /// normalised query's length.
    pub fn get_results(&self, query: &str) -> (out: Vec<Ranked<<P as Plugin>::Output>>)
        ensures
            exists|batches: Seq<Result<Vec<(usize, <P as Plugin>::Output)>, InvocationError>>|
                {
                    &&& batches.len() == self.providers().len()
                    &&& is_ranking_of(out@, flatten_ok(batches), normalize_spec(query@).len())
                    &&& out@.len() > 0 ==> out@[0].score as nat == top_score(flatten_ok(batches))
                    &&& (out@.len() == 0 <==> forall|j: int|
                        0 <= j < flatten_ok(batches).len() ==> !survives(
                            #[trigger] flatten_ok(batches)[j].0 as nat,
                            top_score(flatten_ok(batches)),
                            normalize_spec(query@).len(),
                        ))
                },
            forall|k: int| 0 <= k < out@.len() ==> #[trigger] out@[k].score > 0,
            out@.len() > 0 ==> forall|k: int|
                0 <= k < out@.len() ==> 4 * (#[trigger] out@[k].score as nat) >= threshold_times_four(
                    out@[0].score as nat,
                    normalize_spec(query@).len(),
                ),
            forall|k: int, l: int|
                0 <= k < l < out@.len() ==> #[trigger] out@[k].score >= #[trigger] out@[l].score,
            forall|k: int| 0 <= k < out@.len() ==> (#[trigger] out@[k].first <==> k == 0),
            self.providers().len() == 0 ==> out@.len() == 0,
    {
        let normal = normalize_chars(query);
        let text = string_of(&normal);
        let mut batches: Vec<Result<Vec<(usize, <P as Plugin>::Output)>, InvocationError>> =
            Vec::new();
        let mut i: usize = 0;
        while i < self.plugins.len()
            invariant
                i <= self.plugins@.len(),
                batches@.len() == i,
            decreases self.plugins@.len() - i,
        {
            match self.plugins[i].1.get_results(text.as_str()) {
                Ok(batch) => {
                    let mut scored: Vec<(usize, <P as Plugin>::Output)> = Vec::new();
                    for result in batch {
                        let score = result.get_score();
                        scored.push((score, result));
                    }
                    batches.push(Ok(scored));
                },
                Err(e) => {
                    batches.push(Err(e));
                },
            }
            i = i + 1;
        }
        let ghost b = batches@;
        let ghost c = flatten_ok(b);
        proof {
            if b.len() == 0 {
                assert(c =~= Seq::<(usize, <P as Plugin>::Output)>::empty());
            }
        }
        let out = rank_batches(batches, normal.len());
        let mut k: usize = 0;
        while k < out.len()
            invariant
                k <= out@.len(),
            decreases out@.len() - k,
        {
            out[k].result.set_first(out[k].first);
            k = k + 1;
        }
        proof {
            let n = normalize_spec(query@).len();
            assert(is_ranking_of(out@, flatten_ok(b), n));
            lemma_ranked_scores_positive(out@, c, n);
            lemma_ranked_above_threshold(out@, c, n);
            lemma_ranking_is_stable_descending(out@, c, n);
            lemma_only_head_marked_first(out@, c, n);
            lemma_ranking_empty_iff(out@, c, n);
            if out@.len() > 0 {
                lemma_ranked_head_is_top(out@, c, n);
            }
            if self.plugins@.len() == 0 {
                lemma_ranking_of_nothing(out@, c, n);
            }
        }
        out
    }
}

proof fn lemma_position_of_bounds<P>(regs: Seq<(Seq<char>, P)>, name: Seq<char>)
    ensures
        position_of(regs, name) matches Some(i) ==> 0 <= i < regs.len() && regs[i].0 == name,
    decreases regs.len(),
{
    if regs.len() > 0 {
        lemma_position_of_bounds(regs.drop_last(), name);
    }
}

proof fn lemma_position_of_prefix<P>(regs: Seq<(Seq<char>, P)>, n: int, name: Seq<char>)
    requires
        0 < n <= regs.len(),
        position_of(regs.take(n - 1), name) is None,
        regs[n - 1].0 == name,
    ensures
        position_of(regs, name) == Some(n - 1),
    decreases regs.len(),
{
    if n < regs.len() {
        assert(regs.drop_last().take(n) =~= regs.take(n));
        assert(regs.drop_last().take(n - 1) =~= regs.take(n - 1));
        lemma_position_of_prefix(regs.drop_last(), n, name);
    } else {
        assert(regs.take(n - 1) =~= regs.drop_last());
    }
}

} // verus!
