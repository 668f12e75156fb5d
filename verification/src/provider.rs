//! Model providers: those of the configuration and those of plugins.
use vstd::prelude::*;

use crate::registry::{find_entry, Keyed};
use crate::text::strip_prefix;

verus! {

/// What is known of a provider.
#[derive(Debug, PartialEq, Eq)]
pub struct ProviderEntry {
    pub provider_type: Option<String>,
    pub base_url: Option<String>,
    /// The variable that holds the key.
    pub api_key_env: Option<String>,
    /// Whether the base URL may be plain HTTP.
    pub allow_insecure: bool,
    pub multimodal: Option<bool>,
}

/// The mathematical form of a [`ProviderEntry`].
pub struct ProviderView {
    pub provider_type: Option<Seq<char>>,
    pub base_url: Option<Seq<char>>,
    pub api_key_env: Option<Seq<char>>,
    pub allow_insecure: bool,
    pub multimodal: Option<bool>,
}

impl DeepView for ProviderEntry {
    type V = ProviderView;

    open spec fn deep_view(&self) -> ProviderView {
        ProviderView {
            provider_type: self.provider_type.deep_view(),
            base_url: self.base_url.deep_view(),
            api_key_env: self.api_key_env.deep_view(),
            allow_insecure: self.allow_insecure,
            multimodal: self.multimodal,
        }
    }
}

impl Default for ProviderEntry {
    fn default() -> (out: Self)
        ensures
            out.deep_view() == (ProviderView {
                provider_type: None,
                base_url: None,
                api_key_env: None,
                allow_insecure: false,
                multimodal: None,
            }),
    {
        ProviderEntry {
            provider_type: None,
            base_url: None,
            api_key_env: None,
            allow_insecure: false,
            multimodal: None,
        }
    }
}

impl Keyed for (String, ProviderEntry) {
    open spec fn key_of(v: (Seq<char>, ProviderView)) -> Seq<char> {
        v.0
    }

    fn key(&self) -> (k: &str) {
        self.0.as_str()
    }
}

/// What a caller needs to reach a provider.
#[derive(Debug, PartialEq, Eq)]
pub struct ProviderInfo {
    pub provider_type: Option<String>,
    pub base_url: Option<String>,
    pub api_key_env: Option<String>,
}

/// The mathematical form of a [`ProviderInfo`].
pub struct ProviderInfoView {
    pub provider_type: Option<Seq<char>>,
    pub base_url: Option<Seq<char>>,
    pub api_key_env: Option<Seq<char>>,
}

impl DeepView for ProviderInfo {
    type V = ProviderInfoView;

    open spec fn deep_view(&self) -> ProviderInfoView {
        ProviderInfoView {
            provider_type: self.provider_type.deep_view(),
            base_url: self.base_url.deep_view(),
            api_key_env: self.api_key_env.deep_view(),
        }
    }
}

/// The first entry with that name, where there is one.
pub open spec fn named(
    entries: Seq<(Seq<char>, ProviderView)>,
    name: Seq<char>,
) -> Option<ProviderView> {
    let at = crate::registry::place::<(String, ProviderEntry)>(entries, name);
    if at < entries.len() {
        Some(entries[at].1)
    } else {
        None
    }
}

/// Providers by their names.
#[derive(Debug)]
pub struct ProviderMap {
    entries: Vec<(String, ProviderEntry)>,
}

impl View for ProviderMap {
    type V = Map<Seq<char>, ProviderView>;

    closed spec fn view(&self) -> Map<Seq<char>, ProviderView> {
        by_name(self.entries.deep_view())
    }
}

/// What entries say of each name.
pub open spec fn by_name(entries: Seq<(Seq<char>, ProviderView)>) -> Map<
    Seq<char>,
    ProviderView,
> {
    Map::new(|name: Seq<char>| named(entries, name) is Some, |name: Seq<char>|
        named(entries, name)->0)
}

/// No name occurs twice.
pub open spec fn distinct_names(entries: Seq<(Seq<char>, ProviderView)>) -> bool {
    forall|i: int, j: int|
        0 <= i < j < entries.len() ==> (#[trigger] entries[i]).0 != (#[trigger] entries[j]).0
}

impl ProviderMap {
    /// No name stands in the map twice.
    #[verifier::type_invariant]
    spec fn wf(self) -> bool {
        distinct_names(self.entries.deep_view())
    }

    /// A map without providers.
    pub fn new() -> (out: ProviderMap)
        ensures
            out@ == Map::<Seq<char>, ProviderView>::empty(),
    {
        let entries: Vec<(String, ProviderEntry)> = Vec::new();
        assert(by_name(entries.deep_view()) =~= Map::empty());
        ProviderMap { entries }
    }

    /// Puts a provider under a name, in the place of one that was there.
    pub fn insert(&mut self, name: String, entry: ProviderEntry)
        ensures
            final(self)@ == old(self)@.insert(name@, entry.deep_view()),
    {
        proof {
            use_type_invariant(&*self);
            lemma_put(self.entries.deep_view(), name@, entry.deep_view());
        }
        let ghost before = self.entries.deep_view();
        let ghost item = (name@, entry.deep_view());
        let mut entries: Vec<(String, ProviderEntry)> = Vec::new();
        std::mem::swap(&mut entries, &mut self.entries);
        let at: usize = find_entry(&entries, name.as_str());
        if at < entries.len() {
            entries.set(at, (name, entry));
            assert(entries.deep_view() =~= before.update(at as int, item));
        } else {
            entries.push((name, entry));
            assert(entries.deep_view() =~= before.push(item));
        }
        self.entries = entries;
    }

    fn find(&self, name: &str) -> (out: Option<&ProviderEntry>)
        ensures
            out is Some <==> self@.contains_key(name@),
            out matches Some(e) ==> self@[name@] == e.deep_view(),
    {
        let at: usize = find_entry(&self.entries, name);
        if at < self.entries.len() {
            assert(self.entries.deep_view()[at as int] == self.entries@[at as int].deep_view());
            Some(&self.entries[at].1)
        } else {
            None
        }
    }
}

proof fn lemma_put(entries: Seq<(Seq<char>, ProviderView)>, name: Seq<char>, entry: ProviderView)
    requires
        distinct_names(entries),
    ensures
        ({
            let after = crate::registry::upsert::<(String, ProviderEntry)>(entries, (name, entry));
            &&& distinct_names(after)
            &&& by_name(after) == by_name(entries).insert(name, entry)
        }),
{
    let after = crate::registry::upsert::<(String, ProviderEntry)>(entries, (name, entry));
    let at = crate::registry::place::<(String, ProviderEntry)>(entries, name);
    crate::registry::lemma_place::<(String, ProviderEntry)>(entries, name);
    assert forall|i: int, j: int| 0 <= i < j < after.len() implies (#[trigger] after[i]).0 != (
    #[trigger] after[j]).0 by {
        if j < entries.len() {
            assert(after[i].0 == entries[i].0);
            assert(after[j].0 == entries[j].0);
        } else {
            assert(after[i] == entries[i]);
        }
    }
    assert forall|other: Seq<char>| #[trigger]
        named(after, other) == (if other == name {
            Some(entry)
        } else {
            named(entries, other)
        }) by {
        let p = crate::registry::place::<(String, ProviderEntry)>(entries, other);
        let q = crate::registry::place::<(String, ProviderEntry)>(after, other);
        crate::registry::lemma_place::<(String, ProviderEntry)>(entries, other);
        crate::registry::lemma_place::<(String, ProviderEntry)>(after, other);
        if other == name {
            assert(after[at].0 == name);
            if q < at {
                assert(after[q] == entries[q]);
            }
        } else if p < entries.len() {
            assert(after[p] == entries[p]);
            if q < p {
                assert(after[q].0 == entries[q].0);
            }
        } else if q < after.len() {
            if q < entries.len() {
                assert(after[q].0 == entries[q].0);
            }
        }
    }
    assert(by_name(after) =~= by_name(entries).insert(name, entry));
}

/// Whether an entry may be used: a plain HTTP URL must be allowed.
pub open spec fn is_allowed(entry: ProviderView) -> bool {
    entry.allow_insecure || !(entry.base_url matches Some(url) && "http://"@.is_prefix_of(url))
}

/// The provider under a name. The configuration comes before what plugins
/// have registered, and an entry that may not be used is not replaced by
/// another.
pub open spec fn resolved(
    config: Map<Seq<char>, ProviderView>,
    plugins: Map<Seq<char>, ProviderView>,
    name: Seq<char>,
) -> Option<ProviderInfoView> {
    let found = if config.contains_key(name) {
        config
    } else {
        plugins
    };
    if found.contains_key(name) && is_allowed(found[name]) {
        Some(
            ProviderInfoView {
                provider_type: found[name].provider_type,
                base_url: found[name].base_url,
                api_key_env: found[name].api_key_env,
            },
        )
    } else {
        None
    }
}

fn may_use(entry: &ProviderEntry) -> (yes: bool)
    ensures
        yes == is_allowed(entry.deep_view()),
{
    if entry.allow_insecure {
        return true;
    }
    match &entry.base_url {
        Some(url) => strip_prefix(url.as_str(), "http://").is_none(),
        None => true,
    }
}

/// The providers that plugins have registered. They are installed once.
#[derive(Debug)]
pub struct PluginProviders {
    pub installed: Option<ProviderMap>,
}

impl View for PluginProviders {
    type V = Option<Map<Seq<char>, ProviderView>>;

    open spec fn view(&self) -> Option<Map<Seq<char>, ProviderView>> {
        match self.installed {
            Some(map) => Some(map@),
            None => None,
        }
    }
}

impl PluginProviders {
    /// No providers are installed.
    pub fn new() -> (out: PluginProviders)
        ensures
            out@ is None,
    {
        PluginProviders { installed: None }
    }

    /// Installs the providers, unless some were installed before.
    pub fn install_plugin_providers(&mut self, entries: ProviderMap) -> (first: bool)
        ensures
            first == (old(self)@ is None),
            first ==> final(self)@ == Some(entries@),
            !first ==> final(self)@ == old(self)@,
    {
        if self.installed.is_none() {
            self.installed = Some(entries);
            true
        } else {
            false
        }
    }

    /// Finds the provider under a name.
    pub fn resolve_provider_info(&self, name: &str, config: &ProviderMap) -> (out: Option<
        ProviderInfo,
    >)
        ensures
            out.deep_view() == resolved(
                config@,
                match self@ {
                    Some(plugins) => plugins,
                    None => Map::empty(),
                },
                name@,
            ),
    {
        let entry = match config.find(name) {
            Some(e) => Some(e),
            None => match &self.installed {
                Some(plugins) => plugins.find(name),
                None => None,
            },
        };
        match entry {
            Some(e) => if may_use(e) {
                Some(
                    ProviderInfo {
                        provider_type: e.provider_type.clone(),
                        base_url: e.base_url.clone(),
                        api_key_env: e.api_key_env.clone(),
                    },
                )
            } else {
                None
            },
            None => None,
        }
    }
}

/// Whatever plugins have registered under the name of a provider of the
/// configuration, the provider of the configuration is the one that is found.
pub proof fn lemma_config_provider_wins(
    config: Map<Seq<char>, ProviderView>,
    plugins: Map<Seq<char>, ProviderView>,
    others: Map<Seq<char>, ProviderView>,
    name: Seq<char>,
)
    requires
        config.contains_key(name),
    ensures
        resolved(config, plugins, name) == resolved(config, others, name),
{
}

/// No provider with a plain HTTP URL is found unless it is allowed.
pub proof fn lemma_insecure_provider_is_refused(
    config: Map<Seq<char>, ProviderView>,
    plugins: Map<Seq<char>, ProviderView>,
    name: Seq<char>,
)
    requires
        config.contains_key(name) ==> !config[name].allow_insecure,
        plugins.contains_key(name) ==> !plugins[name].allow_insecure,
    ensures
        resolved(config, plugins, name) matches Some(info) ==> !(info.base_url matches Some(url)
            && "http://"@.is_prefix_of(url)),
{
}

/// The provider that is found is the entry under its name, the one of the
/// configuration where there is one: its type, its URL and the variable of its
/// key are those of the entry, whatever the entry says beside them. An entry
/// with a plain HTTP URL that does not allow it is not found, and neither is a
/// name without an entry.
pub proof fn lemma_found_provider_is_the_entry(
    config: Map<Seq<char>, ProviderView>,
    plugins: Map<Seq<char>, ProviderView>,
    name: Seq<char>,
    entry: ProviderView,
)
    requires
        (config.contains_key(name) && entry == config[name]) || (!config.contains_key(name)
            && plugins.contains_key(name) && entry == plugins[name]),
    ensures
        ({
            let refused = !entry.allow_insecure && entry.base_url is Some
                && "http://"@.is_prefix_of(entry.base_url->0);
            &&& refused ==> resolved(config, plugins, name) is None
            &&& !refused ==> {
                let found = resolved(config, plugins, name);
                &&& found is Some
                &&& found->0.provider_type == entry.provider_type
                &&& found->0.base_url == entry.base_url
                &&& found->0.api_key_env == entry.api_key_env
            }
        }),
{
}

/// A name that neither the configuration nor a plugin has is not found.
pub proof fn lemma_unknown_provider_is_not_found(
    config: Map<Seq<char>, ProviderView>,
    plugins: Map<Seq<char>, ProviderView>,
    name: Seq<char>,
)
    requires
        !config.contains_key(name),
        !plugins.contains_key(name),
    ensures
        resolved(config, plugins, name) is None,
{
}

/// Two entries that differ only in whether they allow plain HTTP, or in what
/// else the result does not hold, are found alike where both are found.
pub proof fn lemma_other_fields_do_not_matter(
    config: Map<Seq<char>, ProviderView>,
    plugins: Map<Seq<char>, ProviderView>,
    name: Seq<char>,
    entry: ProviderView,
    allow: bool,
    multimodal: Option<bool>,
)
    ensures
        ({
            let other = ProviderView { allow_insecure: allow, multimodal, ..entry };
            let a = resolved(config.insert(name, entry), plugins, name);
            let b = resolved(config.insert(name, other), plugins, name);
            a is Some && b is Some ==> a == b
        }),
{
}

} // verus!
