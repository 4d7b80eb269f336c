//! Configuration: what the YAML file says, and the resolved form the
//! server runs on, with `$NAME` references read from the environment.
use vstd::prelude::*;
use crate::json::{owned, str_eq};
use crate::text::{starts_with, strip_prefix};

verus! {

#[derive(Debug)]
pub struct Config {
    pub server: ServerConfig,
    pub models: Vec<ModelEntry>,
}

#[derive(Debug)]
pub struct ServerConfig {
    pub listen_addr: String,
    pub request_timeout_secs: u64,
    pub auth: AuthConfig,
    pub tool_type_allowlist: Vec<String>,
}

#[derive(Debug)]
pub struct AuthConfig {
    pub enabled: bool,
    pub keys: Vec<String>,
}

#[derive(Debug, Clone)]
pub struct ModelEntry {
    pub model: String,
    pub provider: ProviderConfig,
    pub downstream_model: Option<String>,
}

#[derive(Debug, Clone)]
pub struct ProviderConfig {
    pub base_url: String,
    pub api_key: String,
}

/// A provider with its API key read from the environment where asked.
#[derive(Debug, Clone)]
pub struct ResolvedProvider {
    pub base_url: String,
    pub api_key: String,
    pub downstream_model: String,
}

pub ghost struct ProviderV {
    pub base_url: Seq<char>,
    pub api_key: Seq<char>,
    pub downstream_model: Seq<char>,
}

impl View for ResolvedProvider {
    type V = ProviderV;

    open spec fn view(&self) -> ProviderV {
        ProviderV {
            base_url: self.base_url@,
            api_key: self.api_key@,
            downstream_model: self.downstream_model@,
        }
    }
}

/// Providers by model name; each name occurs once.
#[derive(Debug)]
pub struct ModelMap {
    pub entries: Vec<(String, ResolvedProvider)>,
}

pub open spec fn entries_view(e: Seq<(String, ResolvedProvider)>) -> Seq<(Seq<char>, ProviderV)> {
    e.map_values(|p: (String, ResolvedProvider)| (p.0@, p.1@))
}

/// The provider of the first entry named `name`.
pub open spec fn table_get(t: Seq<(Seq<char>, ProviderV)>, name: Seq<char>) -> Option<ProviderV>
    decreases t.len(),
{
    if t.len() == 0 {
        None
    } else if t[0].0 == name {
        Some(t[0].1)
    } else {
        table_get(t.drop_first(), name)
    }
}

/// Inserting as a map does: an existing name keeps its place and takes the
/// new provider; a new name goes last.
pub open spec fn table_insert(t: Seq<(Seq<char>, ProviderV)>, name: Seq<char>, p: ProviderV) -> Seq<
    (Seq<char>, ProviderV),
>
    decreases t.len(),
{
    if t.len() == 0 {
        seq![(name, p)]
    } else if t[0].0 == name {
        t.update(0, (name, p))
    } else {
        seq![t[0]] + table_insert(t.drop_first(), name, p)
    }
}

impl View for ModelMap {
    type V = Seq<(Seq<char>, ProviderV)>;

    open spec fn view(&self) -> Seq<(Seq<char>, ProviderV)> {
        entries_view(self.entries@)
    }
}

impl ModelMap {
    /// The provider configured for `model`.
    pub fn get(&self, model: &str) -> (r: Option<&ResolvedProvider>)
        ensures
            match r {
                Some(p) => table_get(self@, model@) == Some(p@),
                None => table_get(self@, model@).is_none(),
            },
    {
        let mut i: usize = 0;
        assert(self@.skip(0) =~= self@);
        while i < self.entries.len()
            invariant
                i <= self.entries@.len(),
                table_get(self@, model@) == table_get(self@.skip(i as int), model@),
            decreases self.entries.len() - i,
        {
            let ghost rest = self@.skip(i as int);
            assert(rest[0] == (self.entries@[i as int].0@, self.entries@[i as int].1@));
            if str_eq(self.entries[i].0.as_str(), model) {
                return Some(&self.entries[i].1);
            }
            assert(rest.drop_first() =~= self@.skip(i + 1));
            i = i + 1;
        }
        assert(self@.skip(i as int) =~= Seq::<(Seq<char>, ProviderV)>::empty());
        None
    }

    pub fn contains_key(&self, model: &str) -> (r: bool)
        ensures
            r == table_get(self@, model@).is_some(),
    {
        self.get(model).is_some()
    }

    pub fn len(&self) -> (r: usize)
        ensures
            r == self@.len(),
    {
        self.entries.len()
    }

    /// A map with no models.
    pub fn new() -> (r: Self)
        ensures
            r@.len() == 0,
    {
        ModelMap { entries: Vec::new() }
    }

    /// Sets the provider of `model`, as a map inserts (see [`table_insert`]).
    pub fn insert(&mut self, model: String, p: ResolvedProvider)
        ensures
            final(self)@ == table_insert(old(self)@, model@, p@),
    {
        let ghost t0 = self@;
        let mut i: usize = 0;
        while i < self.entries.len()
            invariant
                i <= self.entries@.len(),
                self@ == t0,
                t0 == old(self)@,
                forall|k: int| 0 <= k < i ==> self@[k].0 != model@,
            decreases self.entries.len() - i,
        {
            assert(self@[i as int].0 == self.entries@[i as int].0@);
            if str_eq(self.entries[i].0.as_str(), model.as_str()) {
                let ghost pv = p@;
                let ghost mv = model@;
                assert(t0[i as int].0 == mv);
                self.entries.set(i, (model, p));
                proof {
                    lemma_insert_at(t0, mv, pv, i as int);
                }
                assert(self@ =~= t0.update(i as int, (mv, pv)));
                return;
            }
            i = i + 1;
        }
        let ghost pv = p@;
        let ghost mv = model@;
        self.entries.push((model, p));
        proof {
            lemma_insert_new(t0, mv, pv);
        }
        assert(self@ =~= t0.push((mv, pv)));
    }
}

/// After inserting a provider under a name, that name reads as the new
/// provider and every other name reads as before.
pub proof fn law_get_after_insert(t: Seq<(Seq<char>, ProviderV)>, name: Seq<char>, p: ProviderV, k: Seq<char>)
    ensures
        table_get(table_insert(t, name, p), k) == if k == name {
            Some(p)
        } else {
            table_get(t, k)
        },
    decreases t.len(),
{
    if t.len() == 0 {
        let s = seq![(name, p)];
        assert(s.drop_first() =~= Seq::<(Seq<char>, ProviderV)>::empty());
        assert(table_insert(t, name, p) == s);
        assert(table_get(s, k) == if s[0].0 == k {
            Some(s[0].1)
        } else {
            table_get(s.drop_first(), k)
        });
    } else if t[0].0 != name {
        law_get_after_insert(t.drop_first(), name, p, k);
        let s = seq![t[0]] + table_insert(t.drop_first(), name, p);
        assert(s[0] == t[0]);
        assert(s.drop_first() =~= table_insert(t.drop_first(), name, p));
        assert(table_insert(t, name, p) == s);
        assert(table_get(s, k) == if s[0].0 == k {
            Some(s[0].1)
        } else {
            table_get(s.drop_first(), k)
        });
    } else {
        let u = t.update(0, (name, p));
        assert(u[0] == (name, p));
        assert(u.drop_first() =~= t.drop_first());
        assert(table_insert(t, name, p) == u);
        assert(table_get(u, k) == if u[0].0 == k {
            Some(u[0].1)
        } else {
            table_get(u.drop_first(), k)
        });
    }
}

proof fn lemma_insert_at(t: Seq<(Seq<char>, ProviderV)>, name: Seq<char>, p: ProviderV, i: int)
    requires
        0 <= i < t.len(),
        t[i].0 == name,
        forall|k: int| 0 <= k < i ==> t[k].0 != name,
    ensures
        table_insert(t, name, p) == t.update(i, (name, p)),
    decreases t.len(),
{
    if i > 0 {
        lemma_insert_at(t.drop_first(), name, p, i - 1);
        assert(seq![t[0]] + t.drop_first().update(i - 1, (name, p)) =~= t.update(i, (name, p)));
    }
}

proof fn lemma_insert_new(t: Seq<(Seq<char>, ProviderV)>, name: Seq<char>, p: ProviderV)
    requires
        forall|k: int| 0 <= k < t.len() ==> t[k].0 != name,
    ensures
        table_insert(t, name, p) == t.push((name, p)),
    decreases t.len(),
{
    if t.len() > 0 {
        lemma_insert_new(t.drop_first(), name, p);
        assert(seq![t[0]] + t.drop_first().push((name, p)) =~= t.push((name, p)));
    }
}

/// The fully resolved configuration.
#[derive(Debug)]
pub struct ResolvedConfig {
    pub listen_addr: String,
    pub request_timeout_secs: u64,
    pub auth_enabled: bool,
    pub auth_keys: Vec<String>,
    pub tool_type_allowlist: Vec<String>,
    pub models: ModelMap,
    /// Model names in configured order, for `/v1/models`.
    pub model_names: Vec<String>,
}

// ─── Defaults ───────────────────────────────────────────────────────────

pub open spec fn strings_view(s: Seq<String>) -> Seq<Seq<char>> {
    s.map_values(|x: String| x@)
}

pub fn default_tool_allowlist() -> (r: Vec<String>)
    ensures
        strings_view(r@) == seq!["function"@],
{
    let r = vec![owned("function")];
    assert(strings_view(r@) =~= seq!["function"@]);
    r
}

pub fn default_listen_addr() -> (r: String)
    ensures
        r@ == "0.0.0.0:3000"@,
{
    owned("0.0.0.0:3000")
}

pub fn default_timeout() -> (r: u64)
    ensures
        r == 120,
{
    120
}

impl Default for AuthConfig {
    fn default() -> (r: Self)
        ensures
            !r.enabled,
            r.keys@.len() == 0,
    {
        AuthConfig { enabled: false, keys: Vec::new() }
    }
}

impl Default for ServerConfig {
    fn default() -> (r: Self)
        ensures
            r.listen_addr@ == "0.0.0.0:3000"@,
            r.request_timeout_secs == 120,
            !r.auth.enabled,
            r.auth.keys@.len() == 0,
            strings_view(r.tool_type_allowlist@) == seq!["function"@],
    {
        ServerConfig {
            listen_addr: default_listen_addr(),
            request_timeout_secs: default_timeout(),
            auth: AuthConfig { enabled: false, keys: Vec::new() },
            tool_type_allowlist: default_tool_allowlist(),
        }
    }
}

// ─── Resolving ──────────────────────────────────────────────────────────

/// The value of the first variable named `name`.
pub open spec fn env_lookup(env: Seq<(Seq<char>, Seq<char>)>, name: Seq<char>) -> Option<Seq<char>>
    decreases env.len(),
{
    if env.len() == 0 {
        None
    } else if env[0].0 == name {
        Some(env[0].1)
    } else {
        env_lookup(env.drop_first(), name)
    }
}

pub open spec fn env_view(env: Seq<(String, String)>) -> Seq<(Seq<char>, Seq<char>)> {
    env.map_values(|p: (String, String)| (p.0@, p.1@))
}

/// A value beginning with `$` names an environment variable, read as empty
/// when unset; any other value stands as written.
pub open spec fn resolved_value(raw: Seq<char>, env: Seq<(Seq<char>, Seq<char>)>) -> Seq<char> {
    if starts_with(raw, "$"@) {
        match env_lookup(env, raw.skip(1)) {
            Some(v) => v,
            None => Seq::empty(),
        }
    } else {
        raw
    }
}

/// Reads a configured value, resolving a `$NAME` reference in `env`.
pub fn resolve_env(raw: &str, env: &[(String, String)]) -> (r: String)
    ensures
        r@ == resolved_value(raw@, env_view(env@)),
{
    match strip_prefix(raw, "$") {
        Some(var) => {
            proof {
                reveal_strlit("$");
            }
            let mut i: usize = 0;
            assert(env_view(env@).skip(0) =~= env_view(env@));
            while i < env.len()
                invariant
                    i <= env@.len(),
                    var@ == raw@.skip(1),
                    starts_with(raw@, "$"@),
                    env_lookup(env_view(env@), var@) == env_lookup(env_view(env@).skip(i as int), var@),
                decreases env.len() - i,
            {
                let ghost rest = env_view(env@).skip(i as int);
                assert(rest[0] == (env@[i as int].0@, env@[i as int].1@));
                if str_eq(env[i].0.as_str(), var.as_str()) {
                    return env[i].1.clone();
                }
                assert(rest.drop_first() =~= env_view(env@).skip(i + 1));
                i = i + 1;
            }
            assert(env_view(env@).skip(i as int) =~= Seq::<(Seq<char>, Seq<char>)>::empty());
            String::new()
        },
        None => owned(raw),
    }
}

pub open spec fn provider_of(e: ModelEntry, env: Seq<(Seq<char>, Seq<char>)>) -> ProviderV {
    ProviderV {
        base_url: resolved_value(e.provider.base_url@, env),
        api_key: resolved_value(e.provider.api_key@, env),
        downstream_model: match e.downstream_model {
            Some(d) => d@,
            None => e.model@,
        },
    }
}

/// The provider table of the first `n` entries.
pub open spec fn table_of(entries: Seq<ModelEntry>, n: int, env: Seq<(Seq<char>, Seq<char>)>) -> Seq<
    (Seq<char>, ProviderV),
>
    decreases n,
{
    if n <= 0 {
        Seq::empty()
    } else {
        table_insert(table_of(entries, n - 1, env), entries[n - 1].model@, provider_of(entries[n - 1], env))
    }
}

/// Resolves a configuration: API keys and base URLs are read from `env`
/// where they name a variable. A configuration without models is refused.
pub fn resolve_config(config: Config, env: &[(String, String)]) -> (r: Result<ResolvedConfig, String>)
    ensures
        r is Err <==> config.models@.len() == 0,
        r is Err ==> r->Err_0@ == "No models configured in models"@,
        r is Ok ==> {
            let c = r->Ok_0;
            &&& c.listen_addr == config.server.listen_addr
            &&& c.request_timeout_secs == config.server.request_timeout_secs
            &&& c.auth_enabled == config.server.auth.enabled
            &&& c.auth_keys == config.server.auth.keys
            &&& c.tool_type_allowlist == config.server.tool_type_allowlist
            &&& c.models@ == table_of(config.models@, config.models@.len() as int, env_view(env@))
            &&& strings_view(c.model_names@) == config.models@.map_values(|e: ModelEntry| e.model@)
        },
{
    if config.models.len() == 0 {
        return Err(owned("No models configured in models"));
    }
    let mut models = ModelMap { entries: Vec::new() };
    let mut model_names: Vec<String> = Vec::new();
    let ghost ev = env_view(env@);
    assert(models@ =~= Seq::<(Seq<char>, ProviderV)>::empty());
    let mut i: usize = 0;
    while i < config.models.len()
        invariant
            i <= config.models@.len(),
            ev == env_view(env@),
            models@ == table_of(config.models@, i as int, ev),
            strings_view(model_names@) == config.models@.take(i as int).map_values(|e: ModelEntry| e.model@),
        decreases config.models.len() - i,
    {
        let entry = &config.models[i];
        let base_url = resolve_env(entry.provider.base_url.as_str(), env);
        let api_key = resolve_env(entry.provider.api_key.as_str(), env);
        let downstream_model = match &entry.downstream_model {
            Some(d) => d.clone(),
            None => entry.model.clone(),
        };
        let p = ResolvedProvider { base_url, api_key, downstream_model };
        assert(p@ == provider_of(*entry, ev));
        models.insert(entry.model.clone(), p);
        let ghost names0 = model_names@;
        model_names.push(entry.model.clone());
        assert(strings_view(model_names@) =~= strings_view(names0).push(entry.model@));
        assert(config.models@.take(i + 1).map_values(|e: ModelEntry| e.model@) =~= config.models@.take(
            i as int,
        ).map_values(|e: ModelEntry| e.model@).push(entry.model@));
        i = i + 1;
    }
    assert(config.models@.take(config.models@.len() as int) =~= config.models@);
    Ok(
        ResolvedConfig {
            listen_addr: config.server.listen_addr,
            request_timeout_secs: config.server.request_timeout_secs,
            auth_enabled: config.server.auth.enabled,
            auth_keys: config.server.auth.keys,
            tool_type_allowlist: config.server.tool_type_allowlist,
            models,
            model_names,
        },
    )
}

} // verus!
