//! The application's state: the providers and the active one, the runtime
//! settings, the record shown by the popup, and the time of the last accepted
//! shortcut press; with the form in which it is kept on disk.
use vstd::prelude::*;
use crate::config::{
    default_providers, opt_view, providers_view, spec_default_providers, ProviderModel,
    SettingsModel,
};
pub use crate::config::{
    default_agent_prompt, ProviderConfig, ProviderConfigView, ProviderStateView, RuntimeSettings,
};
use crate::popup::{PopupModel, PopupPayload};
use crate::text::str_eq;

verus! {

broadcast use vstd::string::group_string_axioms;

/// A provider as it is kept in the configuration file: everything but the key,
/// which is kept apart.
#[derive(Debug)]
pub struct PersistedProviderConfig {
    pub id: String,
    pub name: String,
    pub protocol: String,
    pub base_url: String,
    pub model: String,
    pub agent_prompt: String,
}

/// The character view of a provider as kept in the configuration file.
pub struct PersistedProviderModel {
    pub id: Seq<char>,
    pub name: Seq<char>,
    pub protocol: Seq<char>,
    pub base_url: Seq<char>,
    pub model: Seq<char>,
    pub agent_prompt: Seq<char>,
}

impl View for PersistedProviderConfig {
    type V = PersistedProviderModel;

    open spec fn view(&self) -> PersistedProviderModel {
        PersistedProviderModel {
            id: self.id@,
            name: self.name@,
            protocol: self.protocol@,
            base_url: self.base_url@,
            model: self.model@,
            agent_prompt: self.agent_prompt@,
        }
    }
}

impl Clone for PersistedProviderConfig {
    fn clone(&self) -> (r: Self)
        ensures
            r@ == self@,
    {
        PersistedProviderConfig {
            id: self.id.clone(),
            name: self.name.clone(),
            protocol: self.protocol.clone(),
            base_url: self.base_url.clone(),
            model: self.model.clone(),
            agent_prompt: self.agent_prompt.clone(),
        }
    }
}

/// A provider as kept on disk: the same fields without the key.
pub open spec fn spec_persist_provider(c: ProviderModel) -> PersistedProviderModel {
    PersistedProviderModel {
        id: c.id,
        name: c.name,
        protocol: c.protocol,
        base_url: c.base_url,
        model: c.model,
        agent_prompt: c.agent_prompt,
    }
}

/// A provider read from disk, not yet given its key.
pub open spec fn spec_into_provider(p: PersistedProviderModel) -> ProviderModel {
    ProviderModel {
        id: p.id,
        name: p.name,
        protocol: p.protocol,
        base_url: p.base_url,
        model: p.model,
        agent_prompt: p.agent_prompt,
        api_key: None,
    }
}

/// A provider without its key.
pub open spec fn strip_key(c: ProviderModel) -> ProviderModel {
    ProviderModel { api_key: None, ..c }
}

impl PersistedProviderConfig {
    /// The provider read from disk, without a key.
    pub fn into_provider(self) -> (r: ProviderConfig)
        ensures
            r@ == spec_into_provider(self@),
    {
        ProviderConfig {
            id: self.id,
            name: self.name,
            protocol: self.protocol,
            base_url: self.base_url,
            model: self.model,
            agent_prompt: self.agent_prompt,
            api_key: None,
        }
    }

    /// The provider as it is kept on disk: its key is left out.
    pub fn from_provider(config: &ProviderConfig) -> (r: PersistedProviderConfig)
        ensures
            r@ == spec_persist_provider(config@),
    {
        PersistedProviderConfig {
            id: config.id.clone(),
            name: config.name.clone(),
            protocol: config.protocol.clone(),
            base_url: config.base_url.clone(),
            model: config.model.clone(),
            agent_prompt: config.agent_prompt.clone(),
        }
    }
}

/// The configuration file: the active provider, the settings and the
/// providers without their keys.
#[derive(Debug)]
pub struct PersistedAppConfig {
    pub active_provider_id: String,
    pub settings: RuntimeSettings,
    pub providers: Vec<PersistedProviderConfig>,
}

/// The character view of the configuration file.
pub struct PersistedAppModel {
    pub active_provider_id: Seq<char>,
    pub settings: SettingsModel,
    pub providers: Seq<PersistedProviderModel>,
}

impl View for PersistedAppConfig {
    type V = PersistedAppModel;

    open spec fn view(&self) -> PersistedAppModel {
        PersistedAppModel {
            active_provider_id: self.active_provider_id@,
            settings: self.settings@,
            providers: self.providers@.map_values(|p: PersistedProviderConfig| p@),
        }
    }
}

/// The position of the first provider with the given id, or -1.
pub open spec fn index_of_id(ps: Seq<ProviderModel>, id: Seq<char>) -> int
    decreases ps.len(),
{
    if ps.len() == 0 {
        -1
    } else if ps[0].id == id {
        0
    } else {
        let k = index_of_id(ps.drop_first(), id);
        if k < 0 {
            -1
        } else {
            k + 1
        }
    }
}

/// `index_of_id` is the first position holding the id, or -1 when none does.
pub proof fn lemma_index_of_id(ps: Seq<ProviderModel>, id: Seq<char>)
    ensures
        -1 <= index_of_id(ps, id) < ps.len(),
        index_of_id(ps, id) >= 0 ==> ps[index_of_id(ps, id)].id == id,
        forall|j: int|
            0 <= j < ps.len() && (index_of_id(ps, id) < 0 || j < index_of_id(ps, id)) ==> (
            #[trigger] ps[j]).id != id,
    decreases ps.len(),
{
    if ps.len() > 0 && ps[0].id != id {
        lemma_index_of_id(ps.drop_first(), id);
        assert forall|j: int|
            0 <= j < ps.len() && (index_of_id(ps, id) < 0 || j < index_of_id(ps, id)) implies (
            #[trigger] ps[j]).id != id by {
            if j > 0 {
                assert(ps[j] == ps.drop_first()[j - 1]);
            }
        }
    }
}

/// The position of the first provider with the given id, if any.
pub fn find_provider(providers: &Vec<ProviderConfig>, id: &str) -> (r: Option<usize>)
    ensures
        match r {
            Some(k) => k as int == index_of_id(providers_view(providers@), id@),
            None => index_of_id(providers_view(providers@), id@) == -1,
        },
{
    let ghost ps = providers_view(providers@);
    proof {
        lemma_index_of_id(ps, id@);
    }
    let mut i: usize = 0;
    while i < providers.len()
        invariant
            i <= providers.len(),
            ps == providers_view(providers@),
            ps.len() == providers.len(),
            -1 <= index_of_id(ps, id@) < ps.len(),
            index_of_id(ps, id@) >= 0 ==> ps[index_of_id(ps, id@)].id == id@,
            forall|j: int|
                0 <= j < ps.len() && (index_of_id(ps, id@) < 0 || j < index_of_id(ps, id@)) ==> (
                #[trigger] ps[j]).id != id@,
            forall|j: int| 0 <= j < i ==> (#[trigger] ps[j]).id != id@,
        decreases providers.len() - i,
    {
        if str_eq(providers[i].id.as_str(), id) {
            assert(ps[i as int].id == id@);
            return Some(i);
        }
        i = i + 1;
    }
    None
}

/// Whether no two providers share an id.
pub open spec fn ids_unique(ps: Seq<ProviderModel>) -> bool {
    forall|i: int, j: int| 0 <= i < j < ps.len() ==> (#[trigger] ps[i]).id != (#[trigger] ps[j]).id
}

/// The provider list that a configuration file gives: the default providers,
/// each replaced by the file's provider with the same id, followed by the
/// file's other providers in their order.
pub open spec fn merge_providers(base: Seq<ProviderModel>, persisted: Seq<PersistedProviderModel>) -> Seq<ProviderModel>
    decreases persisted.len(),
{
    if persisted.len() == 0 {
        base
    } else {
        let m = merge_providers(base, persisted.drop_last());
        let q = spec_into_provider(persisted.last());
        let k = index_of_id(m, q.id);
        if k >= 0 {
            m.update(k, q)
        } else {
            m.push(q)
        }
    }
}

/// The shape every provider list keeps: MyMemory first, DeepSeek second, and
/// no id twice.
pub open spec fn providers_wf(ps: Seq<ProviderModel>) -> bool {
    &&& ps.len() >= 2
    &&& ps[0].id == "mymemory"@
    &&& ps[1].id == "deepseek"@
    &&& ids_unique(ps)
}

/// Replacing a provider by one with the same id, or adding one with a new id,
/// keeps the shape of the list.
pub proof fn lemma_providers_wf_step(ps: Seq<ProviderModel>, q: ProviderModel)
    requires
        providers_wf(ps),
    ensures
        index_of_id(ps, q.id) >= 0 ==> providers_wf(ps.update(index_of_id(ps, q.id), q)),
        index_of_id(ps, q.id) < 0 ==> providers_wf(ps.push(q)),
{
    lemma_index_of_id(ps, q.id);
    let k = index_of_id(ps, q.id);
    if k >= 0 {
        let u = ps.update(k, q);
        assert forall|i: int, j: int| 0 <= i < j < u.len() implies (#[trigger] u[i]).id != (
        #[trigger] u[j]).id by {
            if i != k && j != k {
                assert(u[i] == ps[i] && u[j] == ps[j]);
            } else if i == k {
                assert(u[j] == ps[j]);
                assert(ps[i].id != ps[j].id);
            } else {
                assert(u[i] == ps[i]);
                assert(ps[i].id != ps[j].id);
            }
        }
    } else {
        let u = ps.push(q);
        assert forall|i: int, j: int| 0 <= i < j < u.len() implies (#[trigger] u[i]).id != (
        #[trigger] u[j]).id by {
            if j < ps.len() {
                assert(u[i] == ps[i] && u[j] == ps[j]);
            } else {
                assert(u[i] == ps[i]);
            }
        }
    }
}

proof fn lemma_default_providers_wf()
    ensures
        providers_wf(spec_default_providers()),
{
    reveal_strlit("mymemory");
    reveal_strlit("deepseek");
    assert(("mymemory"@)[0] != ("deepseek"@)[0]);
}

/// Whatever the configuration file holds, the merged list keeps the shape.
pub proof fn lemma_merge_providers_wf(persisted: Seq<PersistedProviderModel>)
    ensures
        providers_wf(merge_providers(spec_default_providers(), persisted)),
    decreases persisted.len(),
{
    if persisted.len() == 0 {
        lemma_default_providers_wf();
    } else {
        lemma_merge_providers_wf(persisted.drop_last());
        lemma_providers_wf_step(
            merge_providers(spec_default_providers(), persisted.drop_last()),
            spec_into_provider(persisted.last()),
        );
    }
}

/// Merges the providers of a configuration file into the default ones.
pub fn merge_persisted_providers(persisted: &Vec<PersistedProviderConfig>) -> (r: Vec<ProviderConfig>)
    ensures
        providers_view(r@) == merge_providers(
            spec_default_providers(),
            persisted@.map_values(|p: PersistedProviderConfig| p@),
        ),
{
    let ghost pv = persisted@.map_values(|p: PersistedProviderConfig| p@);
    let mut providers = default_providers();
    let mut i: usize = 0;
    assert(pv.take(0) == Seq::<PersistedProviderModel>::empty());
    while i < persisted.len()
        invariant
            i <= persisted.len(),
            pv == persisted@.map_values(|p: PersistedProviderConfig| p@),
            providers_view(providers@) == merge_providers(spec_default_providers(), pv.take(i as int)),
        decreases persisted.len() - i,
    {
        assert(pv.take(i + 1).drop_last() == pv.take(i as int));
        assert(pv.take(i + 1).last() == persisted@[i as int]@);
        let provider = persisted[i].clone().into_provider();
        let ghost before = providers_view(providers@);
        proof {
            lemma_index_of_id(before, provider.id@);
        }
        match find_provider(&providers, provider.id.as_str()) {
            Some(k) => {
                let ghost pv_new = provider@;
                providers.set(k, provider);
                assert(providers_view(providers@) =~= before.update(k as int, pv_new));
                assert(providers_view(providers@) == merge_providers(
                    spec_default_providers(),
                    pv.take(i + 1),
                ));
            },
            None => {
                let ghost pv_new = provider@;
                providers.push(provider);
                assert(providers_view(providers@) =~= before.push(pv_new));
                assert(providers_view(providers@) == merge_providers(
                    spec_default_providers(),
                    pv.take(i + 1),
                ));
            },
        }
        i = i + 1;
    }
    assert(pv.take(persisted.len() as int) == pv);
    providers
}


/// The application's state. Its invariant (`state_wf`): MyMemory and
/// DeepSeek lead the provider list, no id appears twice, and the active
/// provider is in the list.
pub struct AppState {
    last_trigger_at: Option<u64>,
    providers: Vec<ProviderConfig>,
    active_provider_id: String,
    settings: RuntimeSettings,
    popup_payload: Option<PopupPayload>,
}

/// The abstract view of the application's state.
pub struct AppStateModel {
    /// When the last shortcut press was accepted, in nanoseconds of a
    /// monotonic clock.
    pub last_trigger_at: Option<u64>,
    pub providers: Seq<ProviderModel>,
    pub active_provider_id: Seq<char>,
    pub settings: SettingsModel,
    pub popup_payload: Option<PopupModel>,
}

impl View for AppState {
    type V = AppStateModel;

    closed spec fn view(&self) -> AppStateModel {
        AppStateModel {
            last_trigger_at: self.last_trigger_at,
            providers: providers_view(self.providers@),
            active_provider_id: self.active_provider_id@,
            settings: self.settings@,
            popup_payload: match self.popup_payload {
                Some(p) => Some(p@),
                None => None,
            },
        }
    }
}

/// The invariant of the state: the provider list keeps its shape and holds
/// the active provider.
pub open spec fn state_wf(m: AppStateModel) -> bool {
    &&& providers_wf(m.providers)
    &&& index_of_id(m.providers, m.active_provider_id) >= 0
}

/// The state of a fresh start: the default providers with MyMemory active,
/// the default settings, no popup record and no shortcut press yet.
pub open spec fn spec_initial_state() -> AppStateModel {
    AppStateModel {
        last_trigger_at: None,
        providers: spec_default_providers(),
        active_provider_id: "mymemory"@,
        settings: crate::config::spec_default_settings(),
        popup_payload: None,
    }
}

/// Elapsed nanoseconds from `prev` to `now`, zero when `now` is earlier
/// (as `Instant::duration_since` saturates).
pub open spec fn elapsed_nanos(now: u64, prev: u64) -> int {
    if now >= prev {
        now - prev
    } else {
        0
    }
}

/// Whether a shortcut press at `now` is accepted: the first one is, and a later
/// one only once `debounce` nanoseconds have passed since the last accepted one.
pub open spec fn spec_accepts_trigger(last: Option<u64>, now: u64, debounce: u64) -> bool {
    match last {
        None => true,
        Some(prev) => elapsed_nanos(now, prev) >= debounce,
    }
}

/// The provider that translations use: the active one, else the first one,
/// else MyMemory.
pub open spec fn spec_provider_config(m: AppStateModel) -> ProviderModel {
    let k = index_of_id(m.providers, m.active_provider_id);
    if k >= 0 {
        m.providers[k]
    } else if m.providers.len() > 0 {
        m.providers[0]
    } else {
        crate::config::spec_mymemory_provider()
    }
}

/// What a provider record checked against the state becomes, or why it is
/// refused: after cleaning, a provider other than MyMemory needs a key, given
/// now or kept from the provider with the same id.
pub open spec fn spec_check_provider(ps: Seq<ProviderModel>, c: ProviderModel) -> Result<ProviderModel, crate::config::ConfigError> {
    match crate::config::spec_normalize_provider(c) {
        Err(e) => Err(e),
        Ok(n) => {
            let k = index_of_id(ps, n.id);
            let existing = if k >= 0 {
                ps[k].api_key
            } else {
                None
            };
            if n.protocol != "mymemory"@ && n.api_key is None && existing is None {
                Err(crate::config::ConfigError::ApiKeyRequired)
            } else {
                Ok(n)
            }
        },
    }
}

/// The provider list after saving a provider: it replaces the provider with
/// the same id, which keeps its key when none is given, or is added at the end.
pub open spec fn spec_commit_provider(ps: Seq<ProviderModel>, c: ProviderModel) -> Seq<ProviderModel> {
    let k = index_of_id(ps, c.id);
    if k >= 0 {
        if c.api_key is Some {
            ps.update(k, c)
        } else {
            ps.update(k, ProviderModel { api_key: ps[k].api_key, ..c })
        }
    } else {
        ps.push(c)
    }
}

/// The provider list after keys were read: each provider other than MyMemory
/// takes the key read for it.
pub open spec fn spec_hydrate(ps: Seq<ProviderModel>, keys: Seq<Option<Seq<char>>>) -> Seq<ProviderModel> {
    Seq::new(
        ps.len(),
        |i: int|
            if ps[i].protocol != "mymemory"@ {
                ProviderModel { api_key: keys[i], ..ps[i] }
            } else {
                ps[i]
            },
    )
}

/// The `(id, key)` pairs to keep in the secret store: the providers other than
/// MyMemory whose key, trimmed, is not empty, in order.
pub open spec fn spec_keys_to_persist(ps: Seq<ProviderModel>) -> Seq<(Seq<char>, Seq<char>)>
    decreases ps.len(),
{
    if ps.len() == 0 {
        Seq::empty()
    } else {
        let rest = spec_keys_to_persist(ps.drop_last());
        let p = ps.last();
        match crate::config::spec_clean_key(p.api_key) {
            Some(k) => if p.protocol != "mymemory"@ {
                rest.push((p.id, k))
            } else {
                rest
            },
            None => rest,
        }
    }
}

/// The configuration file written for a state.
pub open spec fn spec_persisted(m: AppStateModel) -> PersistedAppModel {
    PersistedAppModel {
        active_provider_id: m.active_provider_id,
        settings: m.settings,
        providers: m.providers.map_values(|p: ProviderModel| spec_persist_provider(p)),
    }
}

/// The state after a configuration file is read: its providers merged into
/// the default ones, its active provider when the list holds it (else
/// MyMemory), and its settings repaired.
pub open spec fn spec_load_config(m: AppStateModel, c: PersistedAppModel) -> AppStateModel {
    let ps = merge_providers(spec_default_providers(), c.providers);
    AppStateModel {
        last_trigger_at: m.last_trigger_at,
        providers: ps,
        active_provider_id: if index_of_id(ps, c.active_provider_id) >= 0 {
            c.active_provider_id
        } else {
            "mymemory"@
        },
        settings: crate::config::spec_migrate_settings(c.settings),
        popup_payload: m.popup_payload,
    }
}

/// How the settings screen shows the providers of a state.
pub open spec fn spec_state_view_matches(r: &crate::config::ProviderStateView, m: AppStateModel) -> bool {
    &&& r.active_provider_id@ == m.active_provider_id
    &&& r.providers@.len() == m.providers.len()
    &&& forall|i: int|
        0 <= i < m.providers.len() ==> (#[trigger] r.providers@[i])@
            == crate::config::spec_provider_view(m.providers[i])
}


/// A copy of a provider list.
fn clone_providers(v: &Vec<ProviderConfig>) -> (r: Vec<ProviderConfig>)
    ensures
        providers_view(r@) == providers_view(v@),
{
    let mut r: Vec<ProviderConfig> = Vec::new();
    let mut i: usize = 0;
    while i < v.len()
        invariant
            i <= v.len(),
            r@.len() == i,
            forall|j: int| 0 <= j < i ==> (#[trigger] r@[j])@ == v@[j]@,
        decreases v.len() - i,
    {
        r.push(v[i].clone());
        i = i + 1;
    }
    assert(providers_view(r@) =~= providers_view(v@));
    r
}

impl AppState {
    #[verifier::type_invariant]
    spec fn inv(self) -> bool {
        state_wf(self@)
    }

    /// The state of a fresh start.
    pub fn new() -> (r: AppState)
        ensures
            state_wf(r@),
            r@ == spec_initial_state(),
    {
        let providers = default_providers();
        let active = "mymemory".to_string();
        proof {
            lemma_default_providers_wf();
            reveal_strlit("mymemory");
            assert(index_of_id(providers_view(providers@), active@) == 0);
        }
        let r = AppState {
            last_trigger_at: None,
            providers,
            active_provider_id: active,
            settings: RuntimeSettings::default(),
            popup_payload: None,
        };
        assert(r@ == spec_initial_state());
        r
    }

    /// Decides whether a shortcut press at `now_nanos` (nanoseconds of a
    /// monotonic clock) is handled, and if so records it as the last one.
    pub fn should_accept_trigger(&mut self, now_nanos: u64, debounce_nanos: u64) -> (accepted: bool)
        ensures
            accepted == spec_accepts_trigger(old(self)@.last_trigger_at, now_nanos, debounce_nanos),
            final(self)@ == (if accepted {
                AppStateModel { last_trigger_at: Some(now_nanos), ..old(self)@ }
            } else {
                old(self)@
            }),
    {
        proof {
            use_type_invariant(&*self);
        }
        if let Some(prev) = self.last_trigger_at {
            let elapsed = if now_nanos >= prev {
                now_nanos - prev
            } else {
                0
            };
            if elapsed < debounce_nanos {
                return false;
            }
        }
        self.last_trigger_at = Some(now_nanos);
        true
    }

    /// The provider that translations use (see `spec_provider_config`).
    pub fn provider_config(&self) -> (r: ProviderConfig)
        ensures
            r@ == spec_provider_config(self@),
    {
        match find_provider(&self.providers, self.active_provider_id.as_str()) {
            Some(k) => {
                proof {
                    lemma_index_of_id(self@.providers, self@.active_provider_id);
                }
                self.providers[k].clone()
            },
            None => {
                if self.providers.len() > 0 {
                    self.providers[0].clone()
                } else {
                    ProviderConfig::default()
                }
            },
        }
    }

    /// All providers as the settings screen shows them, and the active one.
    pub fn provider_state_view(&self) -> (r: crate::config::ProviderStateView)
        ensures
            spec_state_view_matches(&r, self@),
    {
        let mut views: Vec<crate::config::ProviderConfigView> = Vec::new();
        let mut i: usize = 0;
        while i < self.providers.len()
            invariant
                i <= self.providers.len(),
                views@.len() == i,
                forall|j: int|
                    0 <= j < i ==> (#[trigger] views@[j])@ == crate::config::spec_provider_view(
                        self@.providers[j],
                    ),
            decreases self.providers.len() - i,
        {
            views.push(crate::config::provider_view(&self.providers[i]));
            i = i + 1;
        }
        crate::config::ProviderStateView {
            active_provider_id: self.active_provider_id.clone(),
            providers: views,
        }
    }

    /// Makes the provider with the given id (trimmed) the active one.
    pub fn set_active_provider(&mut self, provider_id: String) -> (r: Result<
        crate::config::ProviderStateView,
        crate::config::ConfigError,
    >)
        ensures
            state_wf(final(self)@),
            index_of_id(old(self)@.providers, crate::text::trim(provider_id@)) >= 0 ==> {
                &&& final(self)@ == AppStateModel {
                    active_provider_id: crate::text::trim(provider_id@),
                    ..old(self)@
                }
                &&& r matches Ok(v) && spec_state_view_matches(&v, final(self)@)
            },
            index_of_id(old(self)@.providers, crate::text::trim(provider_id@)) < 0 ==> {
                &&& final(self)@ == old(self)@
                &&& r matches Err(e) && e == crate::config::ConfigError::ProviderNotFound
            },
    {
        proof {
            use_type_invariant(&*self);
        }
        let id = crate::text::trim_str(provider_id.as_str());
        match find_provider(&self.providers, id.as_str()) {
            None => Err(crate::config::ConfigError::ProviderNotFound),
            Some(_) => {
                self.active_provider_id = id;
                Ok(self.provider_state_view())
            },
        }
    }

    /// Cleans and checks a provider record before it is saved (see
    /// `spec_check_provider`).
    pub fn check_provider_config(&self, config: ProviderConfig) -> (r: Result<
        ProviderConfig,
        crate::config::ConfigError,
    >)
        ensures
            match r {
                Ok(c) => spec_check_provider(self@.providers, config@) == Ok::<
                    ProviderModel,
                    crate::config::ConfigError,
                >(c@),
                Err(e) => spec_check_provider(self@.providers, config@) == Err::<
                    ProviderModel,
                    crate::config::ConfigError,
                >(e),
            },
    {
        let config = match crate::config::normalize_provider_config(config) {
            Ok(c) => c,
            Err(e) => return Err(e),
        };
        let existing_key = match find_provider(&self.providers, config.id.as_str()) {
            Some(k) => {
                proof {
                    lemma_index_of_id(self@.providers, config@.id);
                }
                crate::config::clone_opt_string(&self.providers[k].api_key)
            },
            None => None,
        };
        if !str_eq(config.protocol.as_str(), "mymemory") && config.api_key.is_none()
            && existing_key.is_none() {
            return Err(crate::config::ConfigError::ApiKeyRequired);
        }
        Ok(config)
    }

    /// Puts a checked provider record into the list (see
    /// `spec_commit_provider`).
    pub fn commit_provider_config(&mut self, config: ProviderConfig) -> (r:
        crate::config::ProviderStateView)
        ensures
            state_wf(final(self)@),
            final(self)@ == (AppStateModel {
                providers: spec_commit_provider(old(self)@.providers, config@),
                ..old(self)@
            }),
            spec_state_view_matches(&r, final(self)@),
    {
        proof {
            use_type_invariant(&*self);
        }
        let ghost ps = self@.providers;
        let ghost c = config@;
        proof {
            lemma_index_of_id(ps, c.id);
        }
        let mut providers = clone_providers(&self.providers);
        match find_provider(&self.providers, config.id.as_str()) {
            Some(k) => {
                if config.api_key.is_some() {
                    providers.set(k, config);
                    assert(providers_view(providers@) =~= ps.update(k as int, c));
                } else {
                    let mut config = config;
                    config.api_key = crate::config::clone_opt_string(&self.providers[k].api_key);
                    let ghost c2 = config@;
                    providers.set(k, config);
                    assert(providers_view(providers@) =~= ps.update(k as int, c2));
                }
            },
            None => {
                providers.push(config);
                assert(providers_view(providers@) =~= ps.push(c));
            },
        }
        proof {
            let q = if c.api_key is Some || index_of_id(ps, c.id) < 0 {
                c
            } else {
                ProviderModel { api_key: ps[index_of_id(ps, c.id)].api_key, ..c }
            };
            lemma_providers_wf_step(ps, q);
            assert(q.id == c.id);
            assert(providers_view(providers@) == spec_commit_provider(ps, c));
            lemma_active_kept(ps, providers_view(providers@), self@.active_provider_id);
        }
        self.providers = providers;
        self.provider_state_view()
    }

    /// Checks a provider record and saves it into the list.
    pub fn save_provider_config(&mut self, config: ProviderConfig) -> (r: Result<
        crate::config::ProviderStateView,
        crate::config::ConfigError,
    >)
        ensures
            state_wf(final(self)@),
            match spec_check_provider(old(self)@.providers, config@) {
                Ok(c) => {
                    &&& final(self)@ == (AppStateModel {
                        providers: spec_commit_provider(old(self)@.providers, c),
                        ..old(self)@
                    })
                    &&& r matches Ok(v) && spec_state_view_matches(&v, final(self)@)
                },
                Err(e) => final(self)@ == old(self)@ && r == Err::<
                    crate::config::ProviderStateView,
                    crate::config::ConfigError,
                >(e),
            },
    {
        proof {
            use_type_invariant(&*self);
        }
        match self.check_provider_config(config) {
            Ok(c) => Ok(self.commit_provider_config(c)),
            Err(e) => Err(e),
        }
    }

    /// The runtime settings.
    pub fn settings(&self) -> (r: RuntimeSettings)
        ensures
            r@ == self@.settings,
    {
        self.settings.clone()
    }

    /// Replaces the runtime settings with ones the user chose, when they are
    /// acceptable (see `spec_settings_error`), and returns them.
    pub fn update_settings(&mut self, settings: RuntimeSettings) -> (r: Result<
        RuntimeSettings,
        crate::config::ConfigError,
    >)
        ensures
            match crate::config::spec_settings_error(settings@) {
                None => {
                    &&& final(self)@ == (AppStateModel { settings: settings@, ..old(self)@ })
                    &&& r matches Ok(s) && s@ == settings@
                },
                Some(e) => final(self)@ == old(self)@ && r == Err::<
                    RuntimeSettings,
                    crate::config::ConfigError,
                >(e),
            },
    {
        proof {
            use_type_invariant(&*self);
        }
        match crate::config::check_settings(&settings) {
            Err(e) => Err(e),
            Ok(()) => {
                self.settings = settings;
                Ok(self.settings.clone())
            },
        }
    }

    /// Keeps the record that the popup window shows.
    pub fn set_popup_payload(&mut self, payload: PopupPayload)
        ensures
            final(self)@ == (AppStateModel { popup_payload: Some(payload@), ..old(self)@ }),
    {
        proof {
            use_type_invariant(&*self);
        }
        self.popup_payload = Some(payload);
    }

    /// The record that the popup window shows, if one was kept.
    pub fn popup_payload(&self) -> (r: Option<PopupPayload>)
        ensures
            match r {
                Some(p) => self@.popup_payload == Some(p@),
                None => self@.popup_payload is None,
            },
    {
        match &self.popup_payload {
            Some(p) => Some(p.clone()),
            None => None,
        }
    }

    /// For each provider, the id to read a key for (providers other than
    /// MyMemory), or `None`.
    pub fn key_requests(&self) -> (r: Vec<Option<String>>)
        ensures
            r@.len() == self@.providers.len(),
            forall|i: int|
                0 <= i < r@.len() ==> opt_view(#[trigger] r@[i]) == (if self@.providers[i].protocol
                    != "mymemory"@ {
                    Some(self@.providers[i].id)
                } else {
                    None
                }),
    {
        let mut r: Vec<Option<String>> = Vec::new();
        let mut i: usize = 0;
        while i < self.providers.len()
            invariant
                i <= self.providers.len(),
                r@.len() == i,
                forall|j: int|
                    0 <= j < i ==> opt_view(#[trigger] r@[j]) == (if self@.providers[j].protocol
                        != "mymemory"@ {
                        Some(self@.providers[j].id)
                    } else {
                        None
                    }),
            decreases self.providers.len() - i,
        {
            if str_eq(self.providers[i].protocol.as_str(), "mymemory") {
                r.push(None);
            } else {
                r.push(Some(self.providers[i].id.clone()));
            }
            i = i + 1;
        }
        r
    }

    /// Gives each provider other than MyMemory the key read for it
    /// (`keys[i]` for the i-th provider).
    pub fn hydrate_provider_keys(&mut self, keys: Vec<Option<String>>)
        requires
            keys@.len() == old(self)@.providers.len(),
        ensures
            state_wf(final(self)@),
            final(self)@ == (AppStateModel {
                providers: spec_hydrate(
                    old(self)@.providers,
                    keys@.map_values(|k: Option<String>| opt_view(k)),
                ),
                ..old(self)@
            }),
    {
        proof {
            use_type_invariant(&*self);
        }
        let ghost ps = self@.providers;
        let ghost kv = keys@.map_values(|k: Option<String>| opt_view(k));
        let mut providers: Vec<ProviderConfig> = Vec::new();
        let mut i: usize = 0;
        while i < self.providers.len()
            invariant
                i <= self.providers.len() == ps.len() == keys@.len() == kv.len(),
                kv == keys@.map_values(|k: Option<String>| opt_view(k)),
                ps == self@.providers,
                providers@.len() == i,
                forall|j: int|
                    0 <= j < i ==> (#[trigger] providers@[j])@ == spec_hydrate(ps, kv)[j],
            decreases self.providers.len() - i,
        {
            let mut p = self.providers[i].clone();
            if !str_eq(p.protocol.as_str(), "mymemory") {
                p.api_key = crate::config::clone_opt_string(&keys[i]);
                assert(kv[i as int] == opt_view(keys@[i as int]));
            }
            providers.push(p);
            i = i + 1;
        }
        proof {
            assert(providers_view(providers@) =~= spec_hydrate(ps, kv));
            assert forall|j: int| 0 <= j < ps.len() implies (#[trigger] providers_view(
                providers@,
            )[j]).id == ps[j].id by {}
            lemma_same_ids_wf(ps, providers_view(providers@), self@.active_provider_id);
        }
        self.providers = providers;
    }

    /// The `(id, key)` pairs to keep in the secret store (see
    /// `spec_keys_to_persist`).
    pub fn keys_to_persist(&self) -> (r: Vec<(String, String)>)
        ensures
            r@.map_values(|p: (String, String)| (p.0@, p.1@)) == spec_keys_to_persist(
                self@.providers,
            ),
    {
        let ghost ps = self@.providers;
        let mut r: Vec<(String, String)> = Vec::new();
        let mut i: usize = 0;
        assert(ps.take(0) == Seq::<ProviderModel>::empty());
        while i < self.providers.len()
            invariant
                i <= self.providers.len() == ps.len(),
                ps == self@.providers,
                r@.map_values(|p: (String, String)| (p.0@, p.1@)) == spec_keys_to_persist(
                    ps.take(i as int),
                ),
            decreases self.providers.len() - i,
        {
            assert(ps.take(i + 1).drop_last() == ps.take(i as int));
            assert(ps.take(i + 1).last() == ps[i as int]);
            let ghost before = r@;
            let p = &self.providers[i];
            if !str_eq(p.protocol.as_str(), "mymemory") {
                match crate::config::clean_key(crate::config::clone_opt_string(&p.api_key)) {
                    Some(k) => {
                        let ghost kk = k@;
                        r.push((p.id.clone(), k));
                        assert(r@.map_values(|p: (String, String)| (p.0@, p.1@)) =~= before.map_values(
                            |p: (String, String)| (p.0@, p.1@),
                        ).push((ps[i as int].id, kk)));
                    },
                    None => {},
                }
            } else {
                proof {
                    crate::config::lemma_clean_key_idempotent(ps[i as int].api_key);
                }
            }
            i = i + 1;
        }
        assert(ps.take(self.providers.len() as int) == ps);
        r
    }

    /// The configuration file for this state: the active provider, the
    /// settings and the providers without their keys.
    pub fn persisted_config(&self) -> (r: PersistedAppConfig)
        ensures
            r@ == spec_persisted(self@),
    {
        let mut providers: Vec<PersistedProviderConfig> = Vec::new();
        let mut i: usize = 0;
        while i < self.providers.len()
            invariant
                i <= self.providers.len(),
                providers@.len() == i,
                forall|j: int|
                    0 <= j < i ==> (#[trigger] providers@[j])@ == spec_persist_provider(
                        self@.providers[j],
                    ),
            decreases self.providers.len() - i,
        {
            providers.push(PersistedProviderConfig::from_provider(&self.providers[i]));
            i = i + 1;
        }
        let r = PersistedAppConfig {
            active_provider_id: self.active_provider_id.clone(),
            settings: self.settings.clone(),
            providers,
        };
        assert(r@.providers =~= spec_persisted(self@).providers);
        r
    }

    /// Takes over a configuration file (see `spec_load_config`); the keys are
    /// read afterwards.
    pub fn load_config(&mut self, config: PersistedAppConfig)
        ensures
            state_wf(final(self)@),
            final(self)@ == spec_load_config(old(self)@, config@),
    {
        proof {
            use_type_invariant(&*self);
        }
        let ghost cv = config@;
        let providers = merge_persisted_providers(&config.providers);
        let active = match find_provider(&providers, config.active_provider_id.as_str()) {
            Some(_) => config.active_provider_id,
            None => "mymemory".to_string(),
        };
        proof {
            lemma_merge_providers_wf(cv.providers);
            reveal_strlit("mymemory");
            lemma_index_of_id(providers_view(providers@), "mymemory"@);
            lemma_index_of_id(self@.providers, "mymemory"@);
        }
        // MyMemory leads every provider list, so it stays active while the
        // list is replaced.
        self.active_provider_id = "mymemory".to_string();
        self.providers = providers;
        self.active_provider_id = active;
        self.settings = crate::config::migrate_runtime_settings(config.settings);
    }
}

/// A list that keeps its ids keeps its shape and its active provider.
proof fn lemma_same_ids_wf(ps: Seq<ProviderModel>, qs: Seq<ProviderModel>, active: Seq<char>)
    requires
        providers_wf(ps),
        index_of_id(ps, active) >= 0,
        qs.len() == ps.len(),
        forall|j: int| 0 <= j < ps.len() ==> (#[trigger] qs[j]).id == ps[j].id,
    ensures
        providers_wf(qs),
        index_of_id(qs, active) >= 0,
{
    lemma_index_of_id(ps, active);
    lemma_index_of_id(qs, active);
    let k = index_of_id(ps, active);
    assert(qs[k].id == active);
    assert forall|i: int, j: int| 0 <= i < j < qs.len() implies (#[trigger] qs[i]).id != (
    #[trigger] qs[j]).id by {
        assert(ps[i].id != ps[j].id);
    }
}

/// Saving a provider keeps every id already in the list.
proof fn lemma_active_kept(ps: Seq<ProviderModel>, qs: Seq<ProviderModel>, active: Seq<char>)
    requires
        index_of_id(ps, active) >= 0,
        qs.len() >= ps.len(),
        forall|j: int| 0 <= j < ps.len() ==> (#[trigger] qs[j]).id == ps[j].id,
    ensures
        index_of_id(qs, active) >= 0,
{
    lemma_index_of_id(ps, active);
    lemma_index_of_id(qs, active);
    let k = index_of_id(ps, active);
    assert(qs[k].id == active);
}


/// The merge of the first `j` persisted providers of a well-formed list.
proof fn lemma_merge_prefix(ps: Seq<ProviderModel>, j: int)
    requires
        providers_wf(ps),
        0 <= j <= ps.len(),
    ensures
        merge_providers(
            spec_default_providers(),
            ps.map_values(|p: ProviderModel| spec_persist_provider(p)).take(j),
        ) == ps.map_values(|p: ProviderModel| strip_key(p)).take(j) + spec_default_providers().skip(
            if j < 2 {
                j
            } else {
                2
            },
        ),
    decreases j,
{
    let qs = ps.map_values(|p: ProviderModel| spec_persist_provider(p));
    let ss = ps.map_values(|p: ProviderModel| strip_key(p));
    let d = spec_default_providers();
    reveal_strlit("mymemory");
    reveal_strlit("deepseek");
    if j == 0 {
        assert(qs.take(0) == Seq::<PersistedProviderModel>::empty());
        assert(ss.take(0) + d.skip(0) =~= d);
    } else {
        lemma_merge_prefix(ps, j - 1);
        assert(qs.take(j).drop_last() == qs.take(j - 1));
        assert(qs.take(j).last() == qs[j - 1]);
        let m = merge_providers(d, qs.take(j - 1));
        let q = spec_into_provider(qs[j - 1]);
        assert(q == ss[j - 1]);
        lemma_index_of_id(m, q.id);
        if j == 1 {
            assert(m[0].id == q.id);
            assert(index_of_id(m, q.id) == 0);
            assert(m.update(0, q) =~= ss.take(1) + d.skip(1));
        } else if j == 2 {
            assert(m[0].id == "mymemory"@);
            assert(("mymemory"@)[0] != ("deepseek"@)[0]);
            assert(m[0].id != q.id);
            assert(m[1].id == q.id);
            assert(index_of_id(m, q.id) == 1);
            assert(m.update(1, q) =~= ss.take(2) + d.skip(2));
        } else {
            assert(d.skip(2) =~= Seq::<ProviderModel>::empty());
            assert(m =~= ss.take(j - 1));
            assert forall|i: int| 0 <= i < m.len() implies (#[trigger] m[i]).id != q.id by {
                assert(m[i].id == ps[i].id);
                assert(ps[i].id != ps[j - 1].id);
            }
            assert(index_of_id(m, q.id) < 0);
            assert(m.push(q) =~= ss.take(j) + d.skip(2));
        }
    }
}

/// What is written to the configuration file reads back as the same
/// providers (without their keys, which are kept apart), the same active
/// provider, and the settings as the load repairs them.
pub proof fn lemma_persist_load_roundtrip(m: AppStateModel, before: AppStateModel)
    requires
        state_wf(m),
    ensures
        spec_load_config(before, spec_persisted(m)).providers == m.providers.map_values(
            |p: ProviderModel| strip_key(p),
        ),
        spec_load_config(before, spec_persisted(m)).active_provider_id == m.active_provider_id,
        spec_load_config(before, spec_persisted(m)).settings == crate::config::spec_migrate_settings(
            m.settings,
        ),
{
    let ps = m.providers;
    lemma_merge_prefix(ps, ps.len() as int);
    let qs = ps.map_values(|p: ProviderModel| spec_persist_provider(p));
    let ss = ps.map_values(|p: ProviderModel| strip_key(p));
    assert(qs.take(ps.len() as int) == qs);
    assert(ss.take(ps.len() as int) + spec_default_providers().skip(2) =~= ss);
    assert(spec_persisted(m).providers == qs);
    lemma_index_of_id(ps, m.active_provider_id);
    lemma_index_of_id(ss, m.active_provider_id);
    let k = index_of_id(ps, m.active_provider_id);
    assert(ss[k].id == m.active_provider_id);
}

/// The provider used for translations is the active one.
pub proof fn lemma_provider_config_is_active(m: AppStateModel)
    requires
        state_wf(m),
    ensures
        spec_provider_config(m).id == m.active_provider_id,
        m.providers.contains(spec_provider_config(m)),
{
    lemma_index_of_id(m.providers, m.active_provider_id);
    assert(m.providers[index_of_id(m.providers, m.active_provider_id)] == spec_provider_config(m));
}

/// A saved provider is found under its id afterwards, as it was given, with
/// the key it had before when none was given.
pub proof fn lemma_saved_provider_found(ps: Seq<ProviderModel>, c: ProviderModel)
    requires
        providers_wf(ps),
    ensures
        index_of_id(spec_commit_provider(ps, c), c.id) >= 0,
        spec_commit_provider(ps, c)[index_of_id(spec_commit_provider(ps, c), c.id)] == (if c.api_key is Some
            || index_of_id(ps, c.id) < 0 {
            c
        } else {
            ProviderModel { api_key: ps[index_of_id(ps, c.id)].api_key, ..c }
        }),
{
    lemma_index_of_id(ps, c.id);
    let qs = spec_commit_provider(ps, c);
    lemma_index_of_id(qs, c.id);
    let k = index_of_id(ps, c.id);
    if k >= 0 {
        assert(qs[k].id == c.id);
        assert forall|j: int| 0 <= j < k implies (#[trigger] qs[j]).id != c.id by {
            assert(qs[j] == ps[j]);
        }
    } else {
        assert(qs[ps.len() as int].id == c.id);
        assert forall|j: int| 0 <= j < ps.len() implies (#[trigger] qs[j]).id != c.id by {
            assert(qs[j] == ps[j]);
        }
    }
}

/// After an accepted press at `now`, a press less than `debounce`
/// nanoseconds later (and not earlier) is refused.
pub proof fn lemma_debounce_refuses_repeat(now: u64, later: u64, debounce: u64)
    requires
        now <= later,
        later - now < debounce,
    ensures
        !spec_accepts_trigger(Some(now), later, debounce),
{
}


/// A state whose settings the user could have chosen (and whose selection
/// shortcut is not the retired `Alt+Q`) is written to the configuration file
/// and read back as itself, but for the provider keys, which are kept apart.
pub proof fn lemma_saved_state_reloads(m: AppStateModel, before: AppStateModel)
    requires
        state_wf(m),
        crate::config::spec_settings_error(m.settings) is None,
        !crate::text::eq_ignore_case(crate::text::trim(m.settings.shortcut), "Alt+Q"@),
    ensures
        spec_load_config(before, spec_persisted(m)) == (AppStateModel {
            last_trigger_at: before.last_trigger_at,
            providers: m.providers.map_values(|p: ProviderModel| strip_key(p)),
            active_provider_id: m.active_provider_id,
            settings: m.settings,
            popup_payload: before.popup_payload,
        }),
{
    lemma_persist_load_roundtrip(m, before);
    crate::config::lemma_valid_settings_survive_migration(m.settings);
}


/// The key a store holds for an id after the `(id, key)` pairs were written
/// in order: the last one written for that id.
pub open spec fn stored_key(pairs: Seq<(Seq<char>, Seq<char>)>, id: Seq<char>) -> Option<Seq<char>>
    decreases pairs.len(),
{
    if pairs.len() == 0 {
        None
    } else if pairs.last().0 == id {
        Some(pairs.last().1)
    } else {
        stored_key(pairs.drop_last(), id)
    }
}

/// The key that is kept for a provider: its cleaned key, unless it is MyMemory.
pub open spec fn kept_key(p: ProviderModel) -> Option<Seq<char>> {
    if p.protocol != "mymemory"@ {
        crate::config::spec_clean_key(p.api_key)
    } else {
        None
    }
}

proof fn lemma_stored_key_push(
    rest: Seq<(Seq<char>, Seq<char>)>,
    x: (Seq<char>, Seq<char>),
    id: Seq<char>,
)
    ensures
        stored_key(rest.push(x), id) == (if x.0 == id {
            Some(x.1)
        } else {
            stored_key(rest, id)
        }),
{
    assert(rest.push(x).drop_last() == rest);
    assert(rest.push(x).last() == x);
}

proof fn lemma_keys_to_persist_step(ps: Seq<ProviderModel>, id: Seq<char>)
    requires
        ps.len() > 0,
    ensures
        stored_key(spec_keys_to_persist(ps), id) == (if ps.last().id == id && kept_key(ps.last()) is Some {
            kept_key(ps.last())
        } else {
            stored_key(spec_keys_to_persist(ps.drop_last()), id)
        }),
{
    let rest = spec_keys_to_persist(ps.drop_last());
    let p = ps.last();
    match crate::config::spec_clean_key(p.api_key) {
        Some(k) => {
            if p.protocol != "mymemory"@ {
                lemma_stored_key_push(rest, (p.id, k), id);
            }
        },
        None => {},
    }
}

proof fn lemma_stored_key_absent(ps: Seq<ProviderModel>, id: Seq<char>)
    requires
        forall|j: int| 0 <= j < ps.len() ==> (#[trigger] ps[j]).id != id,
    ensures
        stored_key(spec_keys_to_persist(ps), id) is None,
    decreases ps.len(),
{
    if ps.len() > 0 {
        let init = ps.drop_last();
        assert forall|j: int| 0 <= j < init.len() implies (#[trigger] init[j]).id != id by {
            assert(init[j] == ps[j]);
        }
        lemma_stored_key_absent(init, id);
        assert(ps.last() == ps[ps.len() - 1]);
        lemma_keys_to_persist_step(ps, id);
    }
}

proof fn lemma_stored_key_found(ps: Seq<ProviderModel>, i: int)
    requires
        ids_unique(ps),
        0 <= i < ps.len(),
    ensures
        stored_key(spec_keys_to_persist(ps), ps[i].id) == kept_key(ps[i]),
    decreases ps.len(),
{
    let init = ps.drop_last();
    let p = ps.last();
    assert(p == ps[ps.len() - 1]);
    assert forall|a: int, b: int| 0 <= a < b < init.len() implies (#[trigger] init[a]).id != (
    #[trigger] init[b]).id by {
        assert(init[a] == ps[a] && init[b] == ps[b]);
    }
    if i == ps.len() - 1 {
        assert forall|j: int| 0 <= j < init.len() implies (#[trigger] init[j]).id != p.id by {
            assert(init[j] == ps[j]);
        }
        lemma_stored_key_absent(init, p.id);
        lemma_keys_to_persist_step(ps, p.id);
    } else {
        assert(ps[i] == init[i]);
        assert(ps[i].id != p.id);
        lemma_stored_key_found(init, i);
        lemma_keys_to_persist_step(ps, ps[i].id);
    }
}

/// The keys written to the secret store read back, through `key_requests` and
/// `hydrate_provider_keys`, as the keys the providers had (cleaned), on the
/// providers as the configuration file gives them back; MyMemory keeps none.
pub proof fn lemma_keys_reload(ps: Seq<ProviderModel>)
    requires
        ids_unique(ps),
    ensures
        spec_hydrate(
            ps.map_values(|p: ProviderModel| strip_key(p)),
            Seq::new(ps.len(), |i: int| stored_key(spec_keys_to_persist(ps), ps[i].id)),
        ) == ps.map_values(|p: ProviderModel| ProviderModel { api_key: kept_key(p), ..p }),
{
    let stripped = ps.map_values(|p: ProviderModel| strip_key(p));
    let read = Seq::new(ps.len(), |i: int| stored_key(spec_keys_to_persist(ps), ps[i].id));
    assert forall|i: int| 0 <= i < ps.len() implies #[trigger] spec_hydrate(stripped, read)[i] == (
    ProviderModel { api_key: kept_key(ps[i]), ..ps[i] }) by {
        lemma_stored_key_found(ps, i);
    }
    assert(spec_hydrate(stripped, read) =~= ps.map_values(
        |p: ProviderModel| ProviderModel { api_key: kept_key(p), ..p },
    ));
}


/// A provider that the save check accepts, other than MyMemory, has a key:
/// one given now, or the one kept for the provider with the same id. So after
/// the save, the provider found under that id holds a key; and a chat
/// provider given no key, with none kept under its id, is refused with
/// `ApiKeyRequired`.
pub proof fn lemma_saved_chat_provider_has_key(ps: Seq<ProviderModel>, c: ProviderModel)
    requires
        providers_wf(ps),
    ensures
        spec_check_provider(ps, c) matches Ok(n) ==> (n.api_key matches Some(k) ==> !crate::text::is_blank(k)),
        spec_check_provider(ps, c) matches Ok(n) ==> (n.protocol != "mymemory"@ ==> {
            &&& (n.api_key is Some || (index_of_id(ps, n.id) >= 0 && ps[index_of_id(ps, n.id)].api_key is Some))
            &&& index_of_id(spec_commit_provider(ps, n), n.id) >= 0
            &&& spec_commit_provider(ps, n)[index_of_id(spec_commit_provider(ps, n), n.id)].api_key is Some
        }),
        crate::config::spec_normalize_provider(c) matches Ok(n) ==> (n.protocol != "mymemory"@
            && n.api_key is None && (index_of_id(ps, n.id) < 0 || ps[index_of_id(
            ps,
            n.id,
        )].api_key is None) ==> spec_check_provider(ps, c) == Err::<
            ProviderModel,
            crate::config::ConfigError,
        >(crate::config::ConfigError::ApiKeyRequired)),
{
    if let Ok(n) = spec_check_provider(ps, c) {
        lemma_saved_provider_found(ps, n);
        if let Some(k) = c.api_key {
            crate::text::lemma_trim_idempotent(k);
        }
    }
}

} // verus!
