//! The configured models: their health, and the choice among them.
use vstd::prelude::*;

use crate::config::LlmStrength;
use crate::llm::index::{
    get_id, get_name, id_entries, insert_id, insert_name, key_index, name_entries, new_ids,
    new_names,
};
use crate::sorting::{
    is_total_preorder, law_stable_sorted, law_stable_sorted_keeps_ties, lemma_inserted_at, stable_sorted,
};
use crate::text::{
    contains_item, copy_opt, copy_texts, lemma_filter_last, opt_text, str_eq, texts,
};

verus! {

/// The number of failures in a row from which a model counts as degraded.
pub const FAILURE_DEGRADED: u32 = 3;

/// The number of failures in a row from which a model counts as down.
pub const FAILURE_DOWN: u32 = 5;

/// The client name that leaves the choice to the manager.
pub const AUTO_CLIENT: &'static str = "auto";

/// How a model is doing.
#[derive(Debug, Clone, Copy, PartialEq, Eq, Structural)]
pub enum ClientStatus {
    Healthy,
    Degraded,
    Down,
}

/// The health of a model.
#[derive(Debug)]
pub struct HealthState {
    pub status: ClientStatus,
    pub consecutive_failures: u32,
    pub last_error: Option<String>,
}

impl Default for HealthState {
    fn default() -> (r: HealthState)
        ensures
            r.status == ClientStatus::Healthy,
            r.consecutive_failures == 0,
            r.last_error is None,
    {
        HealthState { status: ClientStatus::Healthy, consecutive_failures: 0, last_error: None }
    }
}

/// A provider as stored.
#[derive(Debug)]
pub struct LlmProviderRecord {
    pub id: i64,
    pub name: String,
    /// The type of the provider.
    pub provider: String,
    pub api_key: Option<String>,
    pub base_url: Option<String>,
    pub description: Option<String>,
}

/// A model as stored.
#[derive(Debug)]
pub struct LlmModelRecord {
    pub id: i64,
    pub provider_id: i64,
    pub model_id: String,
    pub name: String,
    pub strength: Option<LlmStrength>,
    pub scope: Vec<String>,
    pub is_default: bool,
    pub priority: i32,
    /// Further request parameters as JSON text.
    pub extra_params: Option<String>,
    pub context_length: Option<i64>,
    pub max_output_tokens: Option<i64>,
    pub knowledge_cutoff: Option<String>,
    pub capabilities: Vec<String>,
}

/// A model in use.
#[derive(Debug)]
pub struct ModelSlot {
    pub model: LlmModelRecord,
    pub health: HealthState,
    /// The context length that the provider reports.
    pub context_length: Option<i64>,
}

/// The configured models in order of priority, and their providers.
pub struct LlmManager {
    pub names: indexmap::IndexMap<String, usize>,
    pub slots: Vec<ModelSlot>,
    pub provider_ids: indexmap::IndexMap<i64, usize>,
    pub providers: Vec<LlmProviderRecord>,
    pub default: String,
}

/// The index entries that belong to a list of models.
pub open spec fn model_keys(models: Seq<LlmModelRecord>) -> Seq<(Seq<char>, usize)> {
    Seq::new(models.len(), |k: int| (models[k].name@, k as usize))
}

/// The index entries that belong to a list of providers.
pub open spec fn provider_keys(providers: Seq<LlmProviderRecord>) -> Seq<(i64, usize)> {
    Seq::new(providers.len(), |k: int| (providers[k].id, k as usize))
}

/// The models of a list of slots.
pub open spec fn models_of(slots: Seq<ModelSlot>) -> Seq<LlmModelRecord> {
    slots.map_values(|s: ModelSlot| s.model)
}

/// The position of the model of that name.
pub open spec fn model_index(models: Seq<LlmModelRecord>, name: Seq<char>) -> Option<int> {
    key_index(model_keys(models), name)
}

/// The position of the provider of that id.
pub open spec fn provider_index(providers: Seq<LlmProviderRecord>, id: i64) -> Option<int> {
    key_index(provider_keys(providers), id)
}

proof fn lemma_key_index<K>(entries: Seq<(K, usize)>, key: K)
    ensures
        match key_index(entries, key) {
            Some(i) => 0 <= i < entries.len() && entries[i].0 == key,
            None => forall|j: int| 0 <= j < entries.len() ==> (#[trigger] entries[j]).0 != key,
        },
    decreases entries.len(),
{
    if entries.len() > 0 {
        lemma_key_index(entries.drop_last(), key);
        assert forall|j: int| 0 <= j < entries.len() - 1 implies entries[j]
            == entries.drop_last()[j] by {}
    }
}

/// A list of models with one more: it takes the place of the model of the
/// same name, or comes last.
pub open spec fn with_model(models: Seq<LlmModelRecord>, m: LlmModelRecord) -> Seq<LlmModelRecord> {
    match model_index(models, m.name@) {
        Some(i) => models.update(i, m),
        None => models.push(m),
    }
}

/// A list of providers with one more: it takes the place of the provider of
/// the same id, or comes last.
pub open spec fn with_provider(
    providers: Seq<LlmProviderRecord>,
    p: LlmProviderRecord,
) -> Seq<LlmProviderRecord> {
    match provider_index(providers, p.id) {
        Some(i) => providers.update(i, p),
        None => providers.push(p),
    }
}

/// The providers that the first `n` records make up.
pub open spec fn loaded_providers(records: Seq<LlmProviderRecord>, n: int) -> Seq<LlmProviderRecord>
    decreases n,
{
    if n <= 0 {
        Seq::empty()
    } else {
        with_provider(loaded_providers(records, n - 1), records[n - 1])
    }
}

/// Whether a model record is used: its provider is known, and a client could
/// be built for it.
pub open spec fn is_usable(
    records: Seq<LlmModelRecord>,
    built: Seq<bool>,
    providers: Seq<LlmProviderRecord>,
    i: int,
) -> bool {
    provider_index(providers, records[i].provider_id) is Some && built[i]
}

/// The models that the first `n` records make up.
pub open spec fn loaded_models(
    records: Seq<LlmModelRecord>,
    built: Seq<bool>,
    providers: Seq<LlmProviderRecord>,
    n: int,
) -> Seq<LlmModelRecord>
    decreases n,
{
    if n <= 0 {
        Seq::empty()
    } else {
        let before = loaded_models(records, built, providers, n - 1);
        if is_usable(records, built, providers, n - 1) {
            with_model(before, records[n - 1])
        } else {
            before
        }
    }
}

/// The default model after the first `n` records: the last one marked as
/// such, else the first one used.
pub open spec fn loaded_default(
    records: Seq<LlmModelRecord>,
    built: Seq<bool>,
    providers: Seq<LlmProviderRecord>,
    n: int,
) -> Seq<char>
    decreases n,
{
    if n <= 0 {
        Seq::empty()
    } else {
        let before = loaded_default(records, built, providers, n - 1);
        if is_usable(records, built, providers, n - 1) && (records[n - 1].is_default
            || before.len() == 0) {
            records[n - 1].name@
        } else {
            before
        }
    }
}

/// Whether two states of health say the same.
pub open spec fn same_health(a: HealthState, b: HealthState) -> bool {
    &&& a.status == b.status
    &&& a.consecutive_failures == b.consecutive_failures
    &&& opt_text(a.last_error) == opt_text(b.last_error)
}

/// Whether a state of health is that of a model nothing is known of.
pub open spec fn is_fresh(h: HealthState) -> bool {
    h.status == ClientStatus::Healthy && h.consecutive_failures == 0 && h.last_error is None
}

/// Whether a strength meets what is required.
pub open spec fn strength_meets(required: Option<LlmStrength>, available: Option<LlmStrength>) -> bool {
    match (required, available) {
        (Some(r), Some(a)) => a.level() >= r.level(),
        (Some(_), None) => false,
        (None, _) => true,
    }
}

/// Whether a strength is the required one, as far as both are known.
pub open spec fn strength_matches(required: Option<LlmStrength>, available: Option<LlmStrength>) -> bool {
    match (required, available) {
        (Some(r), Some(a)) => a == r,
        _ => true,
    }
}

/// Whether a model's scopes contain the required one.
pub open spec fn scope_meets(required: Option<Seq<char>>, scopes: Seq<Seq<char>>) -> bool {
    match required {
        Some(s) => scopes.contains(s),
        None => true,
    }
}

/// How well a model suits an agent: 0 for the exact strength and a fitting
/// scope, 1 for more strength than needed, 2 for a scope that does not fit, 3
/// for too little strength.
pub open spec fn tier_of(
    strength: Option<LlmStrength>,
    scopes: Seq<Seq<char>>,
    req_scope: Option<Seq<char>>,
    req_strength: Option<LlmStrength>,
) -> int {
    if !strength_meets(req_strength, strength) {
        3
    } else if !scope_meets(req_scope, scopes) {
        2
    } else if !strength_matches(req_strength, strength) {
        1
    } else {
        0
    }
}

/// How well a model suits an agent. A model of exactly the required strength
/// comes before a stronger one.
pub fn model_tier(
    strength: Option<LlmStrength>,
    scopes: &Vec<String>,
    req_scope: Option<&str>,
    req_strength: Option<LlmStrength>,
) -> (r: u8)
    ensures
        r == tier_of(strength, texts(scopes@), scope_text(req_scope), req_strength),
{
    let strength_ok: bool = match (req_strength, strength) {
        (Some(q), Some(a)) => a.rank() >= q.rank(),
        (Some(_), None) => false,
        (None, _) => true,
    };
    let exact: bool = match (req_strength, strength) {
        (Some(q), Some(a)) => a == q,
        _ => true,
    };
    let scope_ok: bool = match req_scope {
        Some(s) => contains_item(scopes, s),
        None => true,
    };
    if !strength_ok {
        3
    } else if !scope_ok {
        2
    } else if !exact {
        1
    } else {
        0
    }
}

pub open spec fn scope_text(scope: Option<&str>) -> Option<Seq<char>> {
    match scope {
        Some(s) => Some(s@),
        None => None,
    }
}

/// Whether one model comes no later than another for an agent: by tier, then
/// by priority.
pub open spec fn suits_no_less(
    a: LlmModelRecord,
    b: LlmModelRecord,
    scope: Option<Seq<char>>,
    strength: Option<LlmStrength>,
) -> bool {
    let ta = tier_of(a.strength, texts(a.scope@), scope, strength);
    let tb = tier_of(b.strength, texts(b.scope@), scope, strength);
    ta < tb || (ta == tb && a.priority <= b.priority)
}

/// The order of slots, given by their positions.
pub open spec fn by_fit(
    slots: Seq<ModelSlot>,
    scope: Option<Seq<char>>,
    strength: Option<LlmStrength>,
) -> spec_fn(usize, usize) -> bool {
    |i: usize, j: usize|
        suits_no_less(slots[i as int].model, slots[j as int].model, scope, strength)
}

proof fn lemma_by_fit_is_total(
    slots: Seq<ModelSlot>,
    scope: Option<Seq<char>>,
    strength: Option<LlmStrength>,
)
    ensures
        is_total_preorder(by_fit(slots, scope, strength)),
{
}

/// The first of a list of slots that is not down; the first of all where all
/// are down.
pub open spec fn first_up(slots: Seq<ModelSlot>, order: Seq<usize>) -> Option<usize>
    decreases order.len(),
{
    if order.len() == 0 {
        None
    } else if slots[order[0] as int].health.status != ClientStatus::Down {
        Some(order[0])
    } else {
        match first_up(slots, order.skip(1)) {
            Some(i) if slots[i as int].health.status != ClientStatus::Down => Some(i),
            _ => Some(order[0]),
        }
    }
}

/// The positions of the slots whose models are not excluded, in order.
pub open spec fn candidates(slots: Seq<ModelSlot>, excluded: Seq<Seq<char>>, n: int) -> Seq<usize>
    decreases n,
{
    if n <= 0 {
        Seq::empty()
    } else if excluded.contains(slots[n - 1].model.name@) {
        candidates(slots, excluded, n - 1)
    } else {
        candidates(slots, excluded, n - 1).push((n - 1) as usize)
    }
}

/// The slot an agent gets: of those not excluded, best fit first, the first
/// that is not down.
pub open spec fn chosen(
    slots: Seq<ModelSlot>,
    excluded: Seq<Seq<char>>,
    scope: Option<Seq<char>>,
    strength: Option<LlmStrength>,
) -> Option<usize> {
    first_up(
        slots,
        stable_sorted(
            candidates(slots, excluded, slots.len() as int),
            by_fit(slots, scope, strength),
        ),
    )
}

/// The status that goes with a number of failures in a row.
pub open spec fn status_after(failures: u32) -> ClientStatus {
    if failures >= FAILURE_DOWN {
        ClientStatus::Down
    } else if failures >= FAILURE_DEGRADED {
        ClientStatus::Degraded
    } else {
        ClientStatus::Healthy
    }
}

fn copy_health(h: &HealthState) -> (r: HealthState)
    ensures
        same_health(r, *h),
{
    HealthState {
        status: h.status,
        consecutive_failures: h.consecutive_failures,
        last_error: match &h.last_error {
            Some(e) => Some(e.clone()),
            None => None,
        },
    }
}

/// Whether one slot comes no later than another for an agent.
fn slot_not_after(a: &ModelSlot, b: &ModelSlot, scope: Option<&str>, strength: Option<LlmStrength>) -> (r:
    bool)
    ensures
        r == suits_no_less(a.model, b.model, scope_text(scope), strength),
{
    let ta: u8 = model_tier(a.model.strength, &a.model.scope, scope, strength);
    let tb: u8 = model_tier(b.model.strength, &b.model.scope, scope, strength);
    ta < tb || (ta == tb && a.model.priority <= b.model.priority)
}

/// The positions of slots sorted for an agent, best fit first, ties in the
/// order they had.
pub fn sort_slots_for_agent(
    slots: &Vec<ModelSlot>,
    positions: &Vec<usize>,
    scope: Option<&str>,
    strength: Option<LlmStrength>,
) -> (r: Vec<usize>)
    requires
        forall|i: int| 0 <= i < positions@.len() ==> (#[trigger] positions@[i]) < slots@.len(),
    ensures
        r@ == stable_sorted(positions@, by_fit(slots@, scope_text(scope), strength)),
        forall|i: int| 0 <= i < r@.len() ==> (#[trigger] r@[i]) < slots@.len(),
        r@.len() == positions@.len(),
{
    let ghost le = by_fit(slots@, scope_text(scope), strength);
    let mut out: Vec<usize> = Vec::new();
    let mut i: usize = 0;
    assert(out@ =~= stable_sorted(positions@.take(0), le));
    while i < positions.len()
        invariant
            i <= positions@.len(),
            le == by_fit(slots@, scope_text(scope), strength),
            forall|j: int| 0 <= j < positions@.len() ==> (#[trigger] positions@[j]) < slots@.len(),
            forall|j: int| 0 <= j < out@.len() ==> (#[trigger] out@[j]) < slots@.len(),
            out@ == stable_sorted(positions@.take(i as int), le),
            out@.len() == i,
        decreases positions@.len() - i,
    {
        let x: usize = positions[i];
        assert(positions@.take(i + 1).drop_last() =~= positions@.take(i as int));
        let mut k: usize = out.len();
        while k > 0 && !slot_not_after(&slots[out[k - 1]], &slots[x], scope, strength)
            invariant
                k <= out@.len(),
                x < slots@.len(),
                le == by_fit(slots@, scope_text(scope), strength),
                forall|j: int| 0 <= j < out@.len() ==> (#[trigger] out@[j]) < slots@.len(),
                forall|j: int| k <= j < out@.len() ==> !le(#[trigger] out@[j], x),
            decreases k,
        {
            k = k - 1;
        }
        proof {
            lemma_inserted_at(out@, x, le, k as int);
        }
        out.insert(k, x);
        i = i + 1;
    }
    assert(positions@.take(positions@.len() as int) =~= positions@);
    out
}

impl LlmManager {
    /// The indexes point to where the models and the providers are, and the
    /// provider of every model is known.
    pub open spec fn wf(&self) -> bool {
        &&& name_entries(self.names) == model_keys(models_of(self.slots@))
        &&& id_entries(self.provider_ids) == provider_keys(self.providers@)
        &&& forall|k: int|
            0 <= k < self.slots@.len() ==> provider_index(
                self.providers@,
                (#[trigger] self.slots@[k]).model.provider_id,
            ) is Some
    }

    /// The position of the model of that name.
    pub open spec fn index_of(&self, name: Seq<char>) -> Option<int> {
        model_index(models_of(self.slots@), name)
    }

    pub fn new() -> (r: LlmManager)
        ensures
            r.wf(),
            r.slots@.len() == 0,
            r.providers@.len() == 0,
            r.default@.len() == 0,
    {
        let r: LlmManager = LlmManager {
            names: new_names(),
            slots: Vec::new(),
            provider_ids: new_ids(),
            providers: Vec::new(),
            default: String::new(),
        };
        assert(name_entries(r.names) =~= model_keys(models_of(r.slots@)));
        assert(id_entries(r.provider_ids) =~= provider_keys(r.providers@));
        r
    }

    /// The position of the model of that name.
    pub fn position(&self, name: &str) -> (r: Option<usize>)
        requires
            self.wf(),
        ensures
            match r {
                Some(i) => self.index_of(name@) == Some(i as int) && i < self.slots@.len(),
                None => self.index_of(name@) is None,
            },
    {
        let n: usize = self.slots.len();
        proof {
            lemma_key_index(model_keys(models_of(self.slots@)), name@);
            assert(models_of(self.slots@).len() == n);
        }
        get_name(&self.names, name)
    }

    /// The model of that name.
    pub fn get(&self, name: &str) -> (r: Option<&ModelSlot>)
        requires
            self.wf(),
        ensures
            match self.index_of(name@) {
                Some(i) => r == Some(&self.slots@[i]),
                None => r is None,
            },
    {
        match self.position(name) {
            Some(i) => Some(&self.slots[i]),
            None => None,
        }
    }

    pub fn default_name(&self) -> (r: &str)
        ensures
            r@ == self.default@,
    {
        self.default.as_str()
    }

    /// The names for the model selector: `auto`, then the models in order.
    pub fn client_names(&self) -> (r: Vec<String>)
        ensures
            texts(r@) == seq!["auto"@] + models_of(self.slots@).map_values(
                |m: LlmModelRecord| m.name@,
            ),
    {
        let ghost names = models_of(self.slots@).map_values(|m: LlmModelRecord| m.name@);
        let mut out: Vec<String> = Vec::new();
        out.push("auto".to_owned());
        let mut i: usize = 0;
        assert(texts(out@) =~= seq!["auto"@] + names.take(0));
        while i < self.slots.len()
            invariant
                i <= self.slots@.len(),
                names == models_of(self.slots@).map_values(|m: LlmModelRecord| m.name@),
                texts(out@) == seq!["auto"@] + names.take(i as int),
            decreases self.slots@.len() - i,
        {
            let ghost had = texts(out@);
            out.push(self.slots[i].model.name.clone());
            assert(texts(out@) =~= had.push(names[i as int]));
            i = i + 1;
            assert(texts(out@) =~= seq!["auto"@] + names.take(i as int));
        }
        assert(names.take(names.len() as int) =~= names);
        out
    }

    /// Whether only the health of one model differs.
    pub open spec fn health_changed(&self, before: &LlmManager, i: int, health: HealthState) -> bool {
        &&& self.names == before.names
        &&& self.provider_ids == before.provider_ids
        &&& self.providers == before.providers
        &&& self.default == before.default
        &&& self.slots@ == before.slots@.update(
            i,
            ModelSlot { health, ..before.slots@[i] },
        )
    }

    fn set_health(&mut self, i: usize, health: HealthState)
        requires
            old(self).wf(),
            i < old(self).slots@.len(),
        ensures
            final(self).wf(),
            final(self).health_changed(old(self), i as int, health),
    {
        self.slots[i].health = health;
        assert(self.slots@ =~= old(self).slots@.update(
            i as int,
            ModelSlot { health, ..old(self).slots@[i as int] },
        ));
        assert(models_of(self.slots@) =~= models_of(old(self).slots@));
    }

    /// Whether a model was marked as healthy again, with nothing else changed.
    pub open spec fn marked_well(&self, before: &LlmManager, name: Seq<char>) -> bool {
        match before.index_of(name) {
            Some(i) => {
                let health = self.slots@[i].health;
                is_fresh(health) && self.health_changed(before, i, health)
            },
            None => *self == *before,
        }
    }

    /// Whether the failures of a model can be counted.
    pub open spec fn can_mark_failure(&self, name: Seq<char>) -> bool {
        self.index_of(name) matches Some(i) ==> self.slots@[i].health.consecutive_failures
            < u32::MAX
    }

    /// Whether one more failure of a model was counted, with nothing else
    /// changed.
    pub open spec fn marked_failed(&self, before: &LlmManager, name: Seq<char>, error: Seq<char>) -> bool {
        match before.index_of(name) {
            Some(i) => {
                let health = self.slots@[i].health;
                &&& health.consecutive_failures == before.slots@[i].health.consecutive_failures + 1
                &&& opt_text(health.last_error) == Some(error)
                &&& health.status == status_after(health.consecutive_failures)
                &&& self.health_changed(before, i, health)
            },
            None => *self == *before,
        }
    }

    /// A call of the model succeeded: it is healthy again.
    pub fn mark_success(&mut self, name: &str)
        requires
            old(self).wf(),
        ensures
            final(self).wf(),
            final(self).marked_well(old(self), name@),
    {
        match self.position(name) {
            Some(i) => {
                self.set_health(i, HealthState::default());
            },
            None => {},
        }
    }

    /// A call of the model failed. From the third failure in a row it counts
    /// as degraded, from the fifth as down.
    pub fn mark_failure(&mut self, name: &str, error: &str)
        requires
            old(self).wf(),
            old(self).can_mark_failure(name@),
        ensures
            final(self).wf(),
            final(self).marked_failed(old(self), name@, error@),
    {
        match self.position(name) {
            Some(i) => {
                let failures: u32 = self.slots[i].health.consecutive_failures + 1;
                let status: ClientStatus = if failures >= FAILURE_DOWN {
                    ClientStatus::Down
                } else if failures >= FAILURE_DEGRADED {
                    ClientStatus::Degraded
                } else {
                    ClientStatus::Healthy
                };
                self.set_health(
                    i,
                    HealthState {
                        status,
                        consecutive_failures: failures,
                        last_error: Some(error.to_owned()),
                    },
                );
            },
            None => {},
        }
    }

    fn candidate_positions(&self, excluded: &Vec<String>) -> (r: Vec<usize>)
        ensures
            r@ == candidates(self.slots@, texts(excluded@), self.slots@.len() as int),
            forall|i: int| 0 <= i < r@.len() ==> (#[trigger] r@[i]) < self.slots@.len(),
    {
        let mut out: Vec<usize> = Vec::new();
        let mut i: usize = 0;
        while i < self.slots.len()
            invariant
                i <= self.slots@.len(),
                out@ == candidates(self.slots@, texts(excluded@), i as int),
                forall|j: int| 0 <= j < out@.len() ==> (#[trigger] out@[j]) < self.slots@.len(),
            decreases self.slots@.len() - i,
        {
            if !contains_item(excluded, self.slots[i].model.name.as_str()) {
                out.push(i);
            }
            i = i + 1;
        }
        out
    }

    fn first_not_down(&self, order: &Vec<usize>) -> (r: Option<usize>)
        requires
            forall|i: int| 0 <= i < order@.len() ==> (#[trigger] order@[i]) < self.slots@.len(),
        ensures
            r == first_up(self.slots@, order@),
            r matches Some(i) ==> i < self.slots@.len(),
    {
        let mut i: usize = 0;
        while i < order.len()
            invariant
                i <= order@.len(),
                forall|j: int| 0 <= j < order@.len() ==> (#[trigger] order@[j]) < self.slots@.len(),
                forall|j: int|
                    0 <= j < i ==> self.slots@[(#[trigger] order@[j]) as int].health.status
                        == ClientStatus::Down,
            decreases order@.len() - i,
        {
            if self.slots[order[i]].health.status != ClientStatus::Down {
                proof {
                    lemma_first_up(self.slots@, order@, i as int);
                }
                return Some(order[i]);
            }
            i = i + 1;
        }
        if order.len() > 0 {
            proof {
                lemma_all_down(self.slots@, order@);
            }
            Some(order[0])
        } else {
            None
        }
    }

    /// Chooses a model for an agent, leaving some out: the best fit that is
    /// not down, the best fit of all where all are down.
    pub fn select_excluding(
        &self,
        excluded: &Vec<String>,
        scope: Option<&str>,
        strength: Option<LlmStrength>,
    ) -> (r: Result<usize, String>)
        ensures
            match chosen(self.slots@, texts(excluded@), scope_text(scope), strength) {
                Some(i) => r == Ok::<usize, String>(i) && i < self.slots@.len(),
                None => r matches Err(e) && e@ == "no alternative LLM models available"@,
            },
    {
        let positions: Vec<usize> = self.candidate_positions(excluded);
        let order: Vec<usize> = sort_slots_for_agent(&self.slots, &positions, scope, strength);
        match self.first_not_down(&order) {
            Some(i) => Ok(i),
            None => Err("no alternative LLM models available".to_owned()),
        }
    }

    /// Chooses a model for an agent among all.
    pub fn select(&self, scope: Option<&str>, strength: Option<LlmStrength>) -> (r: Result<usize, String>)
        ensures
            match chosen(self.slots@, Seq::empty(), scope_text(scope), strength) {
                Some(i) => r == Ok::<usize, String>(i) && i < self.slots@.len(),
                None => r matches Err(e) && e@ == "no LLM models configured — add one via the UI"@,
            },
    {
        let none: Vec<String> = Vec::new();
        assert(texts(none@) =~= Seq::<Seq<char>>::empty());
        match self.select_excluding(&none, scope, strength) {
            Ok(i) => Ok(i),
            Err(_) => Err("no LLM models configured — add one via the UI".to_owned()),
        }
    }

    /// The model for a request: the named one, or the manager's choice where
    /// none or `auto` is named.
    pub fn resolve(
        &self,
        client_name: Option<&str>,
        scope: Option<&str>,
        strength: Option<LlmStrength>,
    ) -> (r: Result<usize, String>)
        requires
            self.wf(),
        ensures
            match client_name {
                Some(n) if n@ != "auto"@ => match self.index_of(n@) {
                    Some(i) => r matches Ok(k) && k == i && k < self.slots@.len(),
                    None => r matches Err(e) && e@ == "LLM model '"@ + n@ + "' not found"@,
                },
                _ => match chosen(self.slots@, Seq::empty(), scope_text(scope), strength) {
                    Some(i) => r == Ok::<usize, String>(i) && i < self.slots@.len(),
                    None => r matches Err(e) && e@
                        == "no LLM models configured — add one via the UI"@,
                },
            },
    {
        match client_name {
            Some(n) => {
                if str_eq(n, "auto") {
                    return self.select(scope, strength);
                }
                match self.position(n) {
                    Some(i) => Ok(i),
                    None => {
                        let mut e: String = "LLM model '".to_owned();
                        e.append(n);
                        e.append("' not found");
                        Err(e)
                    },
                }
            },
            None => self.select(scope, strength),
        }
    }

    /// Takes over the context length that a provider reports for a model.
    pub fn refresh_context_length(&mut self, name: &str, reported: Option<i64>)
        requires
            old(self).wf(),
        ensures
            final(self).wf(),
            match (old(self).index_of(name@), reported) {
                (Some(i), Some(n)) => {
                    &&& final(self).names == old(self).names
                    &&& final(self).provider_ids == old(self).provider_ids
                    &&& final(self).providers == old(self).providers
                    &&& final(self).default == old(self).default
                    &&& final(self).slots@ == old(self).slots@.update(
                        i,
                        ModelSlot { context_length: Some(n), ..old(self).slots@[i] },
                    )
                },
                _ => *final(self) == *old(self),
            },
    {
        match reported {
            None => {},
            Some(n) => match self.position(name) {
                Some(i) => {
                    self.slots[i].context_length = Some(n);
                    assert(self.slots@ =~= old(self).slots@.update(
                        i as int,
                        ModelSlot { context_length: Some(n), ..old(self).slots@[i as int] },
                    ));
                    assert(models_of(self.slots@) =~= models_of(old(self).slots@));
                },
                None => {},
            },
        }
    }

    /// The provider of that id.
    pub fn get_provider(&self, id: i64) -> (r: Option<&LlmProviderRecord>)
        requires
            self.wf(),
        ensures
            match provider_index(self.providers@, id) {
                Some(i) => r == Some(&self.providers@[i]),
                None => r is None,
            },
    {
        let n: usize = self.providers.len();
        proof {
            lemma_key_index(provider_keys(self.providers@), id);
        }
        match get_id(&self.provider_ids, id) {
            Some(i) => Some(&self.providers[i]),
            None => None,
        }
    }

    fn add_provider_record(&mut self, p: LlmProviderRecord)
        requires
            old(self).wf(),
            old(self).slots@.len() == 0,
        ensures
            final(self).wf(),
            final(self).providers@ == with_provider(old(self).providers@, p),
            final(self).names == old(self).names,
            final(self).slots == old(self).slots,
            final(self).default == old(self).default,
    {
        let ghost keys = provider_keys(self.providers@);
        let n: usize = self.providers.len();
        proof {
            lemma_key_index(keys, p.id);
        }
        match get_id(&self.provider_ids, p.id) {
            Some(i) => {
                self.providers.set(i, p);
                assert(provider_keys(self.providers@) =~= keys);
            },
            None => {
                insert_id(&mut self.provider_ids, p.id, n);
                self.providers.push(p);
                assert(provider_keys(self.providers@) =~= keys.push((p.id, n)));
            },
        }
    }

    fn add_slot(&mut self, slot: ModelSlot)
        requires
            old(self).wf(),
            provider_index(old(self).providers@, slot.model.provider_id) is Some,
        ensures
            final(self).wf(),
            final(self).provider_ids == old(self).provider_ids,
            final(self).providers == old(self).providers,
            final(self).default == old(self).default,
            final(self).slots@ == match model_index(models_of(old(self).slots@), slot.model.name@) {
                Some(i) => old(self).slots@.update(i, slot),
                None => old(self).slots@.push(slot),
            },
    {
        let ghost models = models_of(self.slots@);
        let ghost keys = model_keys(models);
        let n: usize = self.slots.len();
        assert(models.len() == n);
        proof {
            lemma_key_index(keys, slot.model.name@);
        }
        match get_name(&self.names, slot.model.name.as_str()) {
            Some(i) => {
                self.slots.set(i, slot);
                assert(models_of(self.slots@) =~= models.update(i as int, slot.model));
                assert(model_keys(models_of(self.slots@)) =~= keys);
            },
            None => {
                insert_name(&mut self.names, slot.model.name.clone(), n);
                self.slots.push(slot);
                assert(models_of(self.slots@) =~= models.push(slot.model));
                assert(model_keys(models_of(self.slots@)) =~= keys.push((slot.model.name@, n)));
            },
        }
    }

    /// The health of the model of that name, fresh where there is none.
    fn carried_health(&self, name: &str) -> (r: HealthState)
        requires
            self.wf(),
        ensures
            match self.index_of(name@) {
                Some(i) => same_health(r, self.slots@[i].health),
                None => is_fresh(r),
            },
    {
        match self.position(name) {
            Some(i) => copy_health(&self.slots[i].health),
            None => HealthState::default(),
        }
    }

    /// Whether the health of each model is what it was, fresh for a model that
    /// was not there.
    pub open spec fn keeps_health(&self, before: &LlmManager) -> bool {
        forall|k: int|
            0 <= k < self.slots@.len() ==> match before.index_of(
                (#[trigger] self.slots@[k]).model.name@,
            ) {
                Some(i) => same_health(self.slots@[k].health, before.slots@[i].health),
                None => is_fresh(self.slots@[k].health),
            }
    }

    /// The manager for new records of providers and models. A model is left
    /// out where its provider is unknown or no client could be built for it;
    /// `built` says of each model record whether one could. What is known of
    /// the health of a model is kept.
    pub fn reload(
        &self,
        providers: Vec<LlmProviderRecord>,
        models: Vec<LlmModelRecord>,
        built: &Vec<bool>,
    ) -> (r: LlmManager)
        requires
            self.wf(),
            built@.len() == models@.len(),
        ensures
            r.wf(),
            r.providers@ == loaded_providers(providers@, providers@.len() as int),
            models_of(r.slots@) == loaded_models(
                models@,
                built@,
                r.providers@,
                models@.len() as int,
            ),
            r.default@ == loaded_default(models@, built@, r.providers@, models@.len() as int),
            r.keeps_health(self),
            forall|k: int|
                0 <= k < r.slots@.len() ==> (#[trigger] r.slots@[k]).context_length
                    == r.slots@[k].model.context_length,
    {
        let ghost all_providers = providers@;
        let ghost all_models = models@;
        let mut out: LlmManager = LlmManager::new();
        let mut rest: Vec<LlmProviderRecord> = providers;
        let ghost mut n: int = 0;
        assert(all_providers.skip(0) =~= all_providers);
        assert(out.providers@ =~= loaded_providers(all_providers, 0));
        while rest.len() > 0
            invariant
                0 <= n <= all_providers.len(),
                rest@ == all_providers.skip(n),
                out.wf(),
                out.slots@.len() == 0,
                out.default@.len() == 0,
                out.providers@ == loaded_providers(all_providers, n),
            decreases rest@.len(),
        {
            let p: LlmProviderRecord = rest.remove(0);
            assert(p == all_providers[n]);
            assert(all_providers.skip(n).remove(0) =~= all_providers.skip(n + 1));
            out.add_provider_record(p);
            proof {
                n = n + 1;
            }
        }
        assert(n == all_providers.len());
        let ghost known = out.providers@;
        let mut left: Vec<LlmModelRecord> = models;
        let mut default: String = String::new();
        let total: usize = built.len();
        let mut i: usize = 0;
        assert(all_models.skip(0) =~= all_models);
        assert(models_of(out.slots@) =~= loaded_models(all_models, built@, known, 0));
        assert(default@ =~= loaded_default(all_models, built@, known, 0));
        while left.len() > 0
            invariant
                i <= total,
                total == built@.len(),
                total == all_models.len(),
                left@ == all_models.skip(i as int),
                self.wf(),
                out.wf(),
                out.providers@ == known,
                models_of(out.slots@) == loaded_models(all_models, built@, known, i as int),
                default@ == loaded_default(all_models, built@, known, i as int),
                out.keeps_health(self),
                forall|k: int|
                    0 <= k < out.slots@.len() ==> (#[trigger] out.slots@[k]).context_length
                        == out.slots@[k].model.context_length,
            decreases left@.len(),
        {
            let model: LlmModelRecord = left.remove(0);
            assert(model == all_models[i as int]);
            assert(all_models.skip(i as int).remove(0) =~= all_models.skip(i + 1));
            if out.get_provider(model.provider_id).is_some() && built[i] {
                if model.is_default || default.as_str().unicode_len() == 0 {
                    default = model.name.clone();
                }
                let health: HealthState = self.carried_health(model.name.as_str());
                let context_length: Option<i64> = model.context_length;
                let ghost before = out.slots@;
                let slot: ModelSlot = ModelSlot { model, health, context_length };
                proof {
                    lemma_key_index(model_keys(models_of(before)), slot.model.name@);
                    assert(models_of(before).len() == before.len());
                }
                out.add_slot(slot);
                proof {
                    assert(models_of(out.slots@) =~= with_model(models_of(before), slot.model));
                    assert forall|k: int| 0 <= k < out.slots@.len() implies match self.index_of(
                        (#[trigger] out.slots@[k]).model.name@,
                    ) {
                        Some(j) => same_health(out.slots@[k].health, self.slots@[j].health),
                        None => is_fresh(out.slots@[k].health),
                    } by {
                        if out.slots@[k] != slot {
                            assert(out.slots@[k] == before[k]);
                        }
                    }
                }
            }
            i = i + 1;
        }
        out.default = default;
        out
    }
}

proof fn lemma_first_up(slots: Seq<ModelSlot>, order: Seq<usize>, k: int)
    requires
        0 <= k < order.len(),
        slots[order[k] as int].health.status != ClientStatus::Down,
        forall|j: int|
            0 <= j < k ==> slots[(#[trigger] order[j]) as int].health.status == ClientStatus::Down,
    ensures
        first_up(slots, order) == Some(order[k]),
    decreases k,
{
    if k > 0 {
        let rest = order.skip(1);
        assert(slots[order[0] as int].health.status == ClientStatus::Down);
        assert forall|j: int| 0 <= j < k - 1 implies slots[(#[trigger] rest[j]) as int].health.status
            == ClientStatus::Down by {
            assert(rest[j] == order[j + 1]);
        }
        assert(rest[k - 1] == order[k]);
        lemma_first_up(slots, rest, k - 1);
    }
}

proof fn lemma_all_down(slots: Seq<ModelSlot>, order: Seq<usize>)
    requires
        order.len() > 0,
        forall|j: int|
            0 <= j < order.len() ==> slots[(#[trigger] order[j]) as int].health.status
                == ClientStatus::Down,
    ensures
        first_up(slots, order) == Some(order[0]),
    decreases order.len(),
{
    assert(slots[order[0] as int].health.status == ClientStatus::Down);
    let rest = order.skip(1);
    if rest.len() > 0 {
        assert forall|j: int| 0 <= j < rest.len() implies slots[(#[trigger] rest[j]) as int].health.status
            == ClientStatus::Down by {
            assert(rest[j] == order[j + 1]);
        }
        lemma_all_down(slots, rest);
        assert(rest[0] == order[1]);
    } else {
        assert(first_up(slots, rest) is None);
    }
}

/// A model as listed: its record, its provider's name and its health.
#[derive(Debug)]
pub struct LlmModelInfo {
    pub id: i64,
    pub provider_id: i64,
    pub provider_name: String,
    pub model_id: String,
    pub name: String,
    pub strength: Option<LlmStrength>,
    pub scope: Vec<String>,
    pub is_default: bool,
    pub priority: i32,
    pub extra_params: Option<String>,
    pub context_length: Option<i64>,
    pub max_output_tokens: Option<i64>,
    pub knowledge_cutoff: Option<String>,
    pub capabilities: Vec<String>,
    pub status: ClientStatus,
    pub last_error: Option<String>,
}

/// Whether a listed model shows what is known of it.
pub open spec fn describes(info: LlmModelInfo, slot: ModelSlot, provider: LlmProviderRecord) -> bool {
    &&& info.id == slot.model.id
    &&& info.provider_id == provider.id
    &&& info.provider_name@ == provider.name@
    &&& info.model_id@ == slot.model.model_id@
    &&& info.name@ == slot.model.name@
    &&& info.strength == slot.model.strength
    &&& texts(info.scope@) == texts(slot.model.scope@)
    &&& info.is_default == slot.model.is_default
    &&& info.priority == slot.model.priority
    &&& opt_text(info.extra_params) == opt_text(slot.model.extra_params)
    &&& info.context_length == slot.model.context_length
    &&& info.max_output_tokens == slot.model.max_output_tokens
    &&& opt_text(info.knowledge_cutoff) == opt_text(slot.model.knowledge_cutoff)
    &&& texts(info.capabilities@) == texts(slot.model.capabilities@)
    &&& info.status == slot.health.status
    &&& opt_text(info.last_error) == opt_text(slot.health.last_error)
}

fn describe_slot(slot: &ModelSlot, provider: &LlmProviderRecord) -> (r: LlmModelInfo)
    ensures
        describes(r, *slot, *provider),
{
    LlmModelInfo {
        id: slot.model.id,
        provider_id: provider.id,
        provider_name: provider.name.clone(),
        model_id: slot.model.model_id.clone(),
        name: slot.model.name.clone(),
        strength: slot.model.strength,
        scope: copy_texts(&slot.model.scope),
        is_default: slot.model.is_default,
        priority: slot.model.priority,
        extra_params: copy_opt(&slot.model.extra_params),
        context_length: slot.model.context_length,
        max_output_tokens: slot.model.max_output_tokens,
        knowledge_cutoff: copy_opt(&slot.model.knowledge_cutoff),
        capabilities: copy_texts(&slot.model.capabilities),
        status: slot.health.status,
        last_error: copy_opt(&slot.health.last_error),
    }
}

impl LlmManager {
    /// The models with what is known of them, in order.
    pub fn list_models_info(&self) -> (r: Vec<LlmModelInfo>)
        requires
            self.wf(),
        ensures
            r@.len() == self.slots@.len(),
            forall|k: int|
                0 <= k < r@.len() ==> describes(
                    #[trigger] r@[k],
                    self.slots@[k],
                    self.providers@[provider_index(
                        self.providers@,
                        self.slots@[k].model.provider_id,
                    )->0],
                ),
    {
        let mut out: Vec<LlmModelInfo> = Vec::new();
        let mut i: usize = 0;
        while i < self.slots.len()
            invariant
                self.wf(),
                i <= self.slots@.len(),
                out@.len() == i,
                forall|k: int|
                    0 <= k < i ==> describes(
                        #[trigger] out@[k],
                        self.slots@[k],
                        self.providers@[provider_index(
                            self.providers@,
                            self.slots@[k].model.provider_id,
                        )->0],
                    ),
            decreases self.slots@.len() - i,
        {
            match self.get_provider(self.slots[i].model.provider_id) {
                Some(p) => {
                    out.push(describe_slot(&self.slots[i], p));
                },
                None => {
                    assert(provider_index(
                        self.providers@,
                        self.slots@[i as int].model.provider_id,
                    ) is Some);
                },
            }
            i = i + 1;
        }
        out
    }

    /// The model with that id.
    pub fn get_model(&self, id: i64) -> (r: Option<&LlmModelRecord>)
        ensures
            match r {
                Some(m) => exists|k: int|
                    0 <= k < self.slots@.len() && *m == #[trigger] self.slots@[k].model && m.id == id
                        && forall|j: int| 0 <= j < k ==> (#[trigger] self.slots@[j]).model.id != id,
                None => forall|k: int|
                    0 <= k < self.slots@.len() ==> (#[trigger] self.slots@[k]).model.id != id,
            },
    {
        let mut i: usize = 0;
        while i < self.slots.len()
            invariant
                i <= self.slots@.len(),
                forall|j: int| 0 <= j < i ==> (#[trigger] self.slots@[j]).model.id != id,
            decreases self.slots@.len() - i,
        {
            if self.slots[i].model.id == id {
                return Some(&self.slots[i].model);
            }
            i = i + 1;
        }
        None
    }
}

/// The order of listed models for an agent: by tier, then by priority.
pub open spec fn by_info(
    scope: Option<Seq<char>>,
    strength: Option<LlmStrength>,
) -> spec_fn(LlmModelInfo, LlmModelInfo) -> bool {
    |a: LlmModelInfo, b: LlmModelInfo|
        {
            let ta = tier_of(a.strength, texts(a.scope@), scope, strength);
            let tb = tier_of(b.strength, texts(b.scope@), scope, strength);
            ta < tb || (ta == tb && a.priority <= b.priority)
        }
}

fn info_not_after(
    a: &LlmModelInfo,
    b: &LlmModelInfo,
    scope: Option<&str>,
    strength: Option<LlmStrength>,
) -> (r: bool)
    ensures
        r == by_info(scope_text(scope), strength)(*a, *b),
{
    let ta: u8 = model_tier(a.strength, &a.scope, scope, strength);
    let tb: u8 = model_tier(b.strength, &b.scope, scope, strength);
    ta < tb || (ta == tb && a.priority <= b.priority)
}

/// Listed models sorted for an agent, best fit first, ties in the order they
/// had.
pub fn sort_models_for_agent(
    models: Vec<LlmModelInfo>,
    scope: Option<&str>,
    strength: Option<LlmStrength>,
) -> (r: Vec<LlmModelInfo>)
    ensures
        r@ == stable_sorted(models@, by_info(scope_text(scope), strength)),
{
    let ghost all = models@;
    let ghost le = by_info(scope_text(scope), strength);
    let mut rest: Vec<LlmModelInfo> = models;
    let mut out: Vec<LlmModelInfo> = Vec::new();
    let ghost mut n: int = 0;
    assert(all.skip(0) =~= all);
    assert(out@ =~= stable_sorted(all.take(0), le));
    while rest.len() > 0
        invariant
            0 <= n <= all.len(),
            rest@ == all.skip(n),
            le == by_info(scope_text(scope), strength),
            out@ == stable_sorted(all.take(n), le),
        decreases rest@.len(),
    {
        let x: LlmModelInfo = rest.remove(0);
        proof {
            assert(x == all[n]);
            assert(all.skip(n).remove(0) =~= all.skip(n + 1));
            assert(all.take(n + 1).drop_last() =~= all.take(n));
            n = n + 1;
        }
        let mut k: usize = out.len();
        while k > 0 && !info_not_after(&out[k - 1], &x, scope, strength)
            invariant
                k <= out@.len(),
                le == by_info(scope_text(scope), strength),
                forall|j: int| k <= j < out@.len() ==> !le(#[trigger] out@[j], x),
            decreases k,
        {
            k = k - 1;
        }
        proof {
            lemma_inserted_at(out@, x, le, k as int);
        }
        out.insert(k, x);
    }
    assert(all.take(n) =~= all);
    out
}

proof fn lemma_candidates(slots: Seq<ModelSlot>, excluded: Seq<Seq<char>>, n: int)
    requires
        0 <= n <= slots.len(),
        slots.len() <= usize::MAX,
    ensures
        forall|i: int|
            0 <= i < candidates(slots, excluded, n).len() ==> (#[trigger] candidates(
                slots,
                excluded,
                n,
            )[i]) < n && !excluded.contains(
                slots[candidates(slots, excluded, n)[i] as int].model.name@,
            ),
        forall|k: int|
            0 <= k < n && !excluded.contains((#[trigger] slots[k]).model.name@) ==> candidates(
                slots,
                excluded,
                n,
            ).contains(k as usize),
    decreases n,
{
    if n > 0 {
        lemma_candidates(slots, excluded, n - 1);
        let before = candidates(slots, excluded, n - 1);
        let after = candidates(slots, excluded, n);
        assert forall|k: int| 0 <= k < n && !excluded.contains((#[trigger] slots[k]).model.name@)
            implies after.contains(k as usize) by {
            if k < n - 1 {
                assert(before.contains(k as usize));
                let j = before.index_of(k as usize);
                assert(after[j] == k as usize);
            } else {
                assert(after[after.len() - 1] == k as usize);
            }
        }
        assert forall|i: int| 0 <= i < after.len() implies (#[trigger] after[i]) < n
            && !excluded.contains(slots[after[i] as int].model.name@) by {
            if i < before.len() {
                assert(after[i] == before[i]);
            }
        }
    }
}

proof fn lemma_sorted_members(s: Seq<usize>, le: spec_fn(usize, usize) -> bool, x: usize)
    requires
        is_total_preorder(le),
    ensures
        stable_sorted(s, le).contains(x) == s.contains(x),
{
    broadcast use vstd::seq_lib::group_to_multiset_ensures;

    law_stable_sorted(s, le);
    assert(s.contains(x) == (s.to_multiset().count(x) > 0));
    assert(stable_sorted(s, le).contains(x) == (stable_sorted(s, le).to_multiset().count(x) > 0));
}

/// Whether a slot is down.
pub open spec fn is_down(slots: Seq<ModelSlot>, i: usize) -> bool {
    slots[i as int].health.status == ClientStatus::Down
}

/// Whether the first `k` slots of a list are down.
pub open spec fn down_before(slots: Seq<ModelSlot>, order: Seq<usize>, k: int) -> bool {
    forall|j: int| 0 <= j < k ==> is_down(slots, #[trigger] order[j])
}

proof fn lemma_first_up_at(slots: Seq<ModelSlot>, order: Seq<usize>, from: int) -> (k: int)
    requires
        0 <= from <= order.len(),
        order.len() > 0,
        down_before(slots, order, from),
    ensures
        0 <= k < order.len(),
        first_up(slots, order) == Some(order[k]),
        is_down(slots, order[k]) ==> k == 0 && down_before(slots, order, order.len() as int),
        !is_down(slots, order[k]) ==> down_before(slots, order, k),
    decreases order.len() - from,
{
    if from == order.len() {
        assert forall|j: int| 0 <= j < order.len() implies slots[(#[trigger] order[j]) as int].health.status
            == ClientStatus::Down by {
            assert(is_down(slots, order[j]));
        }
        lemma_all_down(slots, order);
        0
    } else if !is_down(slots, order[from]) {
        assert forall|j: int| 0 <= j < from implies slots[(#[trigger] order[j]) as int].health.status
            == ClientStatus::Down by {
            assert(is_down(slots, order[j]));
        }
        lemma_first_up(slots, order, from);
        from
    } else {
        lemma_first_up_at(slots, order, from + 1)
    }
}

/// What is chosen is never excluded; it is not down unless every model left is
/// down; and no model of the same standing suits the agent better.
pub proof fn law_choice_is_best(
    slots: Seq<ModelSlot>,
    excluded: Seq<Seq<char>>,
    scope: Option<Seq<char>>,
    strength: Option<LlmStrength>,
)
    requires
        slots.len() <= usize::MAX,
    ensures
        match chosen(slots, excluded, scope, strength) {
            Some(i) => {
                &&& i < slots.len()
                &&& !excluded.contains(slots[i as int].model.name@)
                &&& slots[i as int].health.status == ClientStatus::Down ==> forall|k: int|
                    0 <= k < slots.len() && !excluded.contains((#[trigger] slots[k]).model.name@)
                        ==> slots[k].health.status == ClientStatus::Down
                &&& forall|k: int|
                    0 <= k < slots.len() && !excluded.contains((#[trigger] slots[k]).model.name@) && (
                    slots[k].health.status != ClientStatus::Down || slots[i as int].health.status
                        == ClientStatus::Down) ==> suits_no_less(
                        slots[i as int].model,
                        slots[k].model,
                        scope,
                        strength,
                    )
            },
            None => forall|k: int|
                0 <= k < slots.len() ==> excluded.contains((#[trigger] slots[k]).model.name@),
        },
{
    let le = by_fit(slots, scope, strength);
    let all = candidates(slots, excluded, slots.len() as int);
    let order = stable_sorted(all, le);
    lemma_by_fit_is_total(slots, scope, strength);
    lemma_candidates(slots, excluded, slots.len() as int);
    law_stable_sorted(all, le);
    if order.len() == 0 {
        assert forall|k: int| 0 <= k < slots.len() implies excluded.contains(
            (#[trigger] slots[k]).model.name@,
        ) by {
            if !excluded.contains(slots[k].model.name@) {
                assert(all.contains(k as usize));
            }
        }
    } else {
        let at = lemma_first_up_at(slots, order, 0);
        let i = order[at];
        assert(order.contains(i));
        lemma_sorted_members(all, le, i);
        let c = all.index_of(i);
        assert(all[c] == i);
        assert forall|k: int|
            0 <= k < slots.len() && !excluded.contains((#[trigger] slots[k]).model.name@) implies {
            &&& is_down(slots, i) ==> slots[k].health.status == ClientStatus::Down
            &&& (slots[k].health.status != ClientStatus::Down || is_down(slots, i))
                ==> suits_no_less(slots[i as int].model, slots[k].model, scope, strength)
        } by {
            assert(all.contains(k as usize));
            lemma_sorted_members(all, le, k as usize);
            let j = order.index_of(k as usize);
            assert(order[j] == k as usize);
            if slots[k].health.status != ClientStatus::Down || is_down(slots, i) {
                assert(at <= j) by {
                    if j < at {
                        assert(is_down(slots, order[j]));
                    }
                }
                assert(le(order[at], order[j]));
            } else {
                assert(!is_down(slots, i));
            }
            if is_down(slots, i) {
                assert(is_down(slots, order[j]));
            }
        }
    }
}

/// The models tried in a round are pairwise different: what a fallback chooses
/// while leaving out those tried before is none of them.
pub proof fn law_fallback_is_new(
    slots: Seq<ModelSlot>,
    tried: Seq<Seq<char>>,
    scope: Option<Seq<char>>,
    strength: Option<LlmStrength>,
)
    requires
        slots.len() <= usize::MAX,
        tried.no_duplicates(),
    ensures
        chosen(slots, tried, scope, strength) matches Some(i) ==> tried.push(
            slots[i as int].model.name@,
        ).no_duplicates(),
{
    law_choice_is_best(slots, tried, scope, strength);
    if chosen(slots, tried, scope, strength) is Some {
        let name = slots[chosen(slots, tried, scope, strength).unwrap() as int].model.name@;
        let all = tried.push(name);
        assert forall|a: int, b: int| 0 <= a < all.len() && 0 <= b < all.len() && a != b implies all[a]
            != all[b] by {
            if a == tried.len() {
                assert(tried.contains(tried[b]));
            } else if b == tried.len() {
                assert(tried.contains(tried[a]));
            }
        }
    }
}

/// Whether a record is loaded and marked as the default.
pub open spec fn is_marked(
    records: Seq<LlmModelRecord>,
    built: Seq<bool>,
    providers: Seq<LlmProviderRecord>,
    i: int,
) -> bool {
    is_usable(records, built, providers, i) && records[i].is_default
}

/// The default model is the last one loaded that is marked as such; without
/// one it is the first one loaded. Models without a name are left aside.
pub proof fn law_default_model(
    records: Seq<LlmModelRecord>,
    built: Seq<bool>,
    providers: Seq<LlmProviderRecord>,
    n: int,
    k: int,
)
    requires
        0 <= k < n,
        is_usable(records, built, providers, k),
        records[k].name@.len() > 0,
        forall|j: int| k < j < n ==> !#[trigger] is_marked(records, built, providers, j),
        records[k].is_default || forall|j: int|
            0 <= j < k ==> !#[trigger] is_usable(records, built, providers, j),
    ensures
        loaded_default(records, built, providers, n) == records[k].name@,
    decreases n,
{
    if n - 1 > k {
        law_default_model(records, built, providers, n - 1, k);
        assert(!is_marked(records, built, providers, n - 1));
    } else if !records[k].is_default {
        lemma_nothing_loaded(records, built, providers, k);
    }
}

proof fn lemma_nothing_loaded(
    records: Seq<LlmModelRecord>,
    built: Seq<bool>,
    providers: Seq<LlmProviderRecord>,
    n: int,
)
    requires
        forall|j: int| 0 <= j < n ==> !#[trigger] is_usable(records, built, providers, j),
    ensures
        loaded_default(records, built, providers, n).len() == 0,
    decreases n,
{
    if n > 0 {
        lemma_nothing_loaded(records, built, providers, n - 1);
        assert(!is_usable(records, built, providers, n - 1));
    }
}

pub proof fn lemma_model_index(models: Seq<LlmModelRecord>, name: Seq<char>)
    ensures
        match model_index(models, name) {
            Some(i) => 0 <= i < models.len() && models[i].name@ == name,
            None => forall|j: int| 0 <= j < models.len() ==> (#[trigger] models[j]).name@ != name,
        },
{
    lemma_key_index(model_keys(models), name);
    if model_index(models, name) is None {
        assert forall|j: int| 0 <= j < models.len() implies (#[trigger] models[j]).name@ != name by {
            assert(model_keys(models)[j].0 != name);
        }
    }
}

/// How well a model suits an agent: the best are those of exactly the required
/// strength whose scopes hold the required one, then the stronger ones, then
/// those without the scope, then those that are too weak or whose strength is
/// not known. Whoever asks for nothing is suited by every model alike.
pub proof fn law_model_tiers(
    strength: Option<LlmStrength>,
    scopes: &Vec<String>,
    req_scope: Option<&str>,
    req_strength: Option<LlmStrength>,
    r: u8,
    too_weak: bool,
    out_of_scope: bool,
)
    requires
        call_ensures(model_tier, (strength, scopes, req_scope, req_strength), r),
        too_weak == (req_strength is Some && (strength is None || strength->Some_0.level()
            < req_strength->Some_0.level())),
        out_of_scope == (req_scope is Some && !texts(scopes@).contains(req_scope->Some_0@)),
    ensures
        r <= 3,
        r == 3 <==> too_weak,
        r == 2 <==> !too_weak && out_of_scope,
        r == 0 <==> !too_weak && !out_of_scope && (req_strength is None || strength
            == req_strength),
        req_strength is None && req_scope is None ==> r == 0,
{
}

/// What is chosen among the models that are not left out: a model that is not
/// down where there is one; none of a better tier is passed over, and among
/// those of its tier none of a lower priority number, nor an earlier one of
/// the same number.
pub proof fn law_the_choice(
    m: &LlmManager,
    excluded: &Vec<String>,
    scope: Option<&str>,
    strength: Option<LlmStrength>,
    r: Result<usize, String>,
    k: int,
    tier_r: u8,
    tier_k: u8,
)
    requires
        call_ensures(LlmManager::select_excluding, (m, excluded, scope, strength), r),
        0 <= k < m.slots@.len(),
        m.slots@.len() <= usize::MAX,
        !texts(excluded@).contains(m.slots@[k].model.name@),
        r matches Ok(i) ==> call_ensures(
            model_tier,
            (m.slots@[i as int].model.strength, &m.slots@[i as int].model.scope, scope, strength),
            tier_r,
        ),
        call_ensures(
            model_tier,
            (m.slots@[k].model.strength, &m.slots@[k].model.scope, scope, strength),
            tier_k,
        ),
    ensures
        r is Ok,
        ({
            let i = r->Ok_0 as int;
            let a = m.slots@[i];
            let b = m.slots@[k];
            &&& i < m.slots@.len()
            &&& !texts(excluded@).contains(a.model.name@)
            &&& a.health.status == ClientStatus::Down ==> b.health.status == ClientStatus::Down
            &&& b.health.status != ClientStatus::Down || a.health.status == ClientStatus::Down ==> {
                &&& tier_r <= tier_k
                &&& tier_r == tier_k ==> a.model.priority <= b.model.priority
                &&& tier_r == tier_k && a.model.priority == b.model.priority ==> i <= k
            }
        }),
{
    law_choice_is_best(m.slots@, texts(excluded@), scope_text(scope), strength);
    lemma_choice_is_first(m.slots@, texts(excluded@), scope_text(scope), strength, k);
}

proof fn lemma_choice_is_first(
    slots: Seq<ModelSlot>,
    excluded: Seq<Seq<char>>,
    scope: Option<Seq<char>>,
    strength: Option<LlmStrength>,
    k: int,
)
    requires
        slots.len() <= usize::MAX,
        0 <= k < slots.len(),
        !excluded.contains(slots[k].model.name@),
    ensures
        chosen(slots, excluded, scope, strength) matches Some(i) && (((slots[k].health.status
            != ClientStatus::Down || slots[i as int].health.status == ClientStatus::Down)
            && suits_no_less(slots[k].model, slots[i as int].model, scope, strength)) ==> i <= k),
{
    let le = by_fit(slots, scope, strength);
    let all = candidates(slots, excluded, slots.len() as int);
    let order = stable_sorted(all, le);
    lemma_by_fit_is_total(slots, scope, strength);
    lemma_candidates(slots, excluded, slots.len() as int);
    lemma_candidates_ascend(slots, excluded, slots.len() as int);
    law_stable_sorted(all, le);
    law_choice_is_best(slots, excluded, scope, strength);
    assert(all.contains(k as usize));
    let at = lemma_first_up_at(slots, order, 0);
    let i = order[at];
    assert(order.contains(i));
    lemma_sorted_members(all, le, i);
    lemma_sorted_members(all, le, k as usize);
    let j = order.index_of(k as usize);
    assert(order[j] == k as usize);
    if (slots[k].health.status != ClientStatus::Down || is_down(slots, i)) && suits_no_less(
        slots[k].model,
        slots[i as int].model,
        scope,
        strength,
    ) {
        assert(at <= j) by {
            if j < at {
                assert(is_down(slots, order[j]));
            }
        }
        assert(le(order[at], order[j]));
        let class = |x: usize| le(x, i) && le(i, x);
        law_stable_sorted_keeps_ties(all, le, class);
        if i > k {
            lemma_filter_keeps_order(order, class, at, j);
            lemma_ascending_filter(all, class);
            let kept = order.filter(class);
            let (p, q) = choose|p: int, q: int|
                0 <= p <= q < kept.len() && kept[p] == order[at] && kept[q] == order[j];
            assert(kept == all.filter(class));
        }
    }
}

proof fn lemma_candidates_ascend(slots: Seq<ModelSlot>, excluded: Seq<Seq<char>>, n: int)
    requires
        0 <= n <= slots.len(),
        slots.len() <= usize::MAX,
    ensures
        forall|a: int, b: int|
            0 <= a < b < candidates(slots, excluded, n).len() ==> (#[trigger] candidates(
                slots,
                excluded,
                n,
            )[a]) < (#[trigger] candidates(slots, excluded, n)[b]),
    decreases n,
{
    if n > 0 {
        lemma_candidates_ascend(slots, excluded, n - 1);
        lemma_candidates(slots, excluded, n - 1);
        let before = candidates(slots, excluded, n - 1);
        let after = candidates(slots, excluded, n);
        assert forall|a: int, b: int| 0 <= a < b < after.len() implies (#[trigger] after[a])
            < (#[trigger] after[b]) by {
            assert(after[a] == before[a]);
            if b < before.len() {
                assert(after[b] == before[b]);
            }
        }
    }
}

/// What passes a filter keeps its order.
proof fn lemma_filter_keeps_order(s: Seq<usize>, pred: spec_fn(usize) -> bool, a: int, b: int)
    requires
        0 <= a <= b < s.len(),
        pred(s[a]),
        pred(s[b]),
    ensures
        exists|p: int, q: int|
            0 <= p <= q < s.filter(pred).len() && #[trigger] s.filter(pred)[p] == s[a]
                && #[trigger] s.filter(pred)[q] == s[b],
    decreases s.len(),
{
    let init = s.drop_last();
    lemma_filter_last(s, pred);
    if b < s.len() - 1 {
        lemma_filter_keeps_order(init, pred, a, b);
        let (p, q) = choose|p: int, q: int|
            0 <= p <= q < init.filter(pred).len() && #[trigger] init.filter(pred)[p] == init[a]
                && #[trigger] init.filter(pred)[q] == init[b];
        assert(s.filter(pred)[p] == s[a] && s.filter(pred)[q] == s[b]);
    } else if a < b {
        lemma_filter_keeps_order(init, pred, a, a);
        let (p, q) = choose|p: int, q: int|
            0 <= p <= q < init.filter(pred).len() && #[trigger] init.filter(pred)[p] == init[a]
                && #[trigger] init.filter(pred)[q] == init[a];
        let last = s.filter(pred).len() - 1;
        assert(s.filter(pred)[p] == s[a] && s.filter(pred)[last] == s[b]);
    } else {
        let last = s.filter(pred).len() - 1;
        assert(s.filter(pred)[last] == s[a]);
    }
}

proof fn lemma_ascending_filter(s: Seq<usize>, pred: spec_fn(usize) -> bool)
    requires
        forall|a: int, b: int| 0 <= a < b < s.len() ==> (#[trigger] s[a]) < (#[trigger] s[b]),
    ensures
        forall|a: int, b: int|
            0 <= a < b < s.filter(pred).len() ==> (#[trigger] s.filter(pred)[a]) < (
            #[trigger] s.filter(pred)[b]),
        forall|a: int|
            0 <= a < s.filter(pred).len() ==> s.contains(#[trigger] s.filter(pred)[a]),
    decreases s.len(),
{
    reveal(Seq::filter);
    if s.len() > 0 {
        let init = s.drop_last();
        lemma_ascending_filter(init, pred);
        lemma_filter_last(s, pred);
        let kept = s.filter(pred);
        let had = init.filter(pred);
        assert forall|a: int| 0 <= a < kept.len() implies s.contains(#[trigger] kept[a]) by {
            if a < had.len() {
                assert(kept[a] == had[a]);
                let i = init.index_of(had[a]);
                assert(s[i] == had[a]);
            } else {
                assert(s[s.len() - 1] == s.last());
            }
        }
        assert forall|a: int, b: int| 0 <= a < b < kept.len() implies (#[trigger] kept[a]) < (
        #[trigger] kept[b]) by {
            assert(kept[a] == had[a]);
            if b < had.len() {
                assert(kept[b] == had[b]);
            } else {
                let i = init.index_of(had[a]);
                assert(init[i] == had[a]);
                assert(s[i] == had[a] && kept[b] == s[s.len() - 1]);
            }
        }
    }
}

/// Choosing among all models, and resolving a request that names none or
/// `auto`, leave no model out; there is a choice as long as there is a model.
pub proof fn law_who_names_no_model_gets_the_choice(
    m: &LlmManager,
    name: Option<&str>,
    scope: Option<&str>,
    strength: Option<LlmStrength>,
    r: Result<usize, String>,
    s: Result<usize, String>,
    t: Result<usize, String>,
    none: &Vec<String>,
)
    requires
        m.wf(),
        m.slots@.len() <= usize::MAX,
        name is None || name->Some_0@ == "auto"@,
        none@.len() == 0,
        call_ensures(LlmManager::select_excluding, (m, none, scope, strength), r),
        call_ensures(LlmManager::select, (m, scope, strength), s),
        call_ensures(LlmManager::resolve, (m, name, scope, strength), t),
    ensures
        r is Ok <==> m.slots@.len() > 0,
        s is Ok <==> m.slots@.len() > 0,
        t is Ok <==> m.slots@.len() > 0,
        r matches Ok(i) ==> s == r && t == r,
{
    assert(texts(none@) =~= Seq::<Seq<char>>::empty());
    law_choice_is_best(m.slots@, Seq::empty(), scope_text(scope), strength);
    if m.slots@.len() > 0 {
        if r is Err {
            assert(Seq::<Seq<char>>::empty().contains(m.slots@[0].model.name@));
        }
    }
}

/// A request that names a model gets that model, whatever its health, and
/// fails where there is none of that name.
pub proof fn law_who_names_a_model_gets_it(
    m: &LlmManager,
    name: &str,
    scope: Option<&str>,
    strength: Option<LlmStrength>,
    r: Result<usize, String>,
)
    requires
        m.wf(),
        name@ != "auto"@,
        call_ensures(LlmManager::resolve, (m, Some(name), scope, strength), r),
    ensures
        match r {
            Ok(i) => i < m.slots@.len() && m.slots@[i as int].model.name@ == name@,
            Err(e) => e@ == "LLM model '"@ + name@ + "' not found"@ && forall|k: int|
                0 <= k < m.slots@.len() ==> (#[trigger] m.slots@[k]).model.name@ != name@,
        },
{
    lemma_model_index(models_of(m.slots@), name@);
    if r is Err {
        assert forall|k: int| 0 <= k < m.slots@.len() implies (#[trigger] m.slots@[k]).model.name@
            != name@ by {
            assert(models_of(m.slots@)[k].name@ != name@);
        }
    }
}

/// A failure counts against the model of that name and no other; after the
/// third in a row the model is degraded, after the fifth it is down. A success
/// makes it healthy again.
pub proof fn law_health_follows_the_calls(
    m: &mut LlmManager,
    n: &mut LlmManager,
    name: &str,
    error: &str,
    k: int,
)
    requires
        call_ensures(LlmManager::mark_failure, (m, name, error), ()),
        call_ensures(LlmManager::mark_success, (n, name), ()),
        0 <= k < old(m).slots@.len(),
        *old(n) == *old(m),
    ensures
        final(m).slots@.len() == old(m).slots@.len(),
        final(n).slots@.len() == old(m).slots@.len(),
        old(m).slots@[k].model.name@ != name@ ==> final(m).slots@[k] == old(m).slots@[k]
            && final(n).slots@[k] == old(m).slots@[k],
        old(m).index_of(name@) == Some(k) ==> {
            let failures = old(m).slots@[k].health.consecutive_failures + 1;
            let health = final(m).slots@[k].health;
            &&& health.consecutive_failures == failures
            &&& health.status == if failures >= 5 {
                ClientStatus::Down
            } else if failures >= 3 {
                ClientStatus::Degraded
            } else {
                ClientStatus::Healthy
            }
            &&& opt_text(health.last_error) == Some(error@)
            &&& final(n).slots@[k].health.status == ClientStatus::Healthy
            &&& final(n).slots@[k].health.consecutive_failures == 0
            &&& final(n).slots@[k].health.last_error is None
        },
        final(m).slots@[k].model == old(m).slots@[k].model,
        final(n).slots@[k].model == old(m).slots@[k].model,
{
    lemma_model_index(models_of(old(m).slots@), name@);
    match old(m).index_of(name@) {
        Some(i) => {
            assert(models_of(old(m).slots@)[i] == old(m).slots@[i].model);
        },
        None => {},
    }
}

/// The models are sorted for an agent by how well they suit it, and among those
/// that suit it alike by their priority, the lower number first.
pub proof fn law_sorted_models(
    models: Vec<LlmModelInfo>,
    scope: Option<&str>,
    strength: Option<LlmStrength>,
    r: Vec<LlmModelInfo>,
    i: int,
    j: int,
    a: u8,
    b: u8,
)
    requires
        call_ensures(sort_models_for_agent, (models, scope, strength), r),
        0 <= i < j < r@.len(),
        call_ensures(model_tier, (r@[i].strength, &r@[i].scope, scope, strength), a),
        call_ensures(model_tier, (r@[j].strength, &r@[j].scope, scope, strength), b),
    ensures
        a <= b,
        a == b ==> r@[i].priority <= r@[j].priority,
        r@.to_multiset() == models@.to_multiset(),
        r@.len() == models@.len(),
{
    let le = by_info(scope_text(scope), strength);
    assert(is_total_preorder(le));
    law_stable_sorted(models@, le);
    assert(le(r@[i], r@[j]));
}

/// A model is found by its name, a model's record and a provider by their ids;
/// the names to choose from are `auto` and those of the models, in their order.
pub proof fn law_models_are_found(
    m: &LlmManager,
    name: &str,
    at: Option<usize>,
    slot: Option<&ModelSlot>,
    id: i64,
    record: Option<&LlmModelRecord>,
    names: Vec<String>,
    k: int,
)
    requires
        call_ensures(LlmManager::position, (m, name), at),
        call_ensures(LlmManager::get, (m, name), slot),
        call_ensures(LlmManager::get_model, (m, id), record),
        call_ensures(LlmManager::client_names, (m,), names),
    ensures
        at is None <==> forall|i: int|
            0 <= i < m.slots@.len() ==> (#[trigger] m.slots@[i]).model.name@ != name@,
        at matches Some(i) ==> i < m.slots@.len() && m.slots@[i as int].model.name@ == name@,
        slot is Some <==> at is Some,
        slot matches Some(s) ==> *s == m.slots@[at->Some_0 as int],
        record is None <==> forall|i: int|
            0 <= i < m.slots@.len() ==> (#[trigger] m.slots@[i]).model.id != id,
        record matches Some(q) ==> q.id == id,
        names@.len() == m.slots@.len() + 1,
        names@[0]@ == "auto"@,
        0 <= k < m.slots@.len() ==> names@[k + 1]@ == m.slots@[k].model.name@,
{
    let models = models_of(m.slots@);
    lemma_model_index(models, name@);
    assert forall|i: int| 0 <= i < models.len() implies models[i] == (
    #[trigger] m.slots@[i]).model by {}
    if at is Some {
        let i = at->Some_0 as int;
        assert(models[i].name@ == name@);
        assert(m.slots@[i].model.name@ == name@);
    } else {
        assert forall|i: int| 0 <= i < m.slots@.len() implies (
        #[trigger] m.slots@[i]).model.name@ != name@ by {
            assert(models[i].name@ != name@);
        }
    }
    if record is Some {
        let q = *record->Some_0;
        let i = choose|i: int|
            0 <= i < m.slots@.len() && q == #[trigger] m.slots@[i].model && q.id == id
                && forall|j: int| 0 <= j < i ==> (#[trigger] m.slots@[j]).model.id != id;
        assert(m.slots@[i].model.id == id);
    }
    let v = texts(names@);
    assert(v.len() == names@.len());
    assert(v[0] == names@[0]@);
    if 0 <= k < m.slots@.len() {
        assert(v[k + 1] == names@[k + 1]@);
        assert(models[k].name@ == m.slots@[k].model.name@);
    }
}

proof fn lemma_loaded_models(
    records: Seq<LlmModelRecord>,
    built: Seq<bool>,
    providers: Seq<LlmProviderRecord>,
    n: int,
)
    requires
        0 <= n <= records.len(),
    ensures
        forall|k: int|
            0 <= k < loaded_models(records, built, providers, n).len() ==> exists|i: int|
                0 <= i < n && is_usable(records, built, providers, i)
                    && #[trigger] records[i] == #[trigger] loaded_models(
                    records,
                    built,
                    providers,
                    n,
                )[k],
        forall|i: int|
            0 <= i < n && is_usable(records, built, providers, i) ==> model_index(
                loaded_models(records, built, providers, n),
                (#[trigger] records[i]).name@,
            ) is Some,
    decreases n,
{
    if n > 0 {
        lemma_loaded_models(records, built, providers, n - 1);
        let before = loaded_models(records, built, providers, n - 1);
        let after = loaded_models(records, built, providers, n);
        let m = records[n - 1];
        if is_usable(records, built, providers, n - 1) {
            lemma_model_index(before, m.name@);
            assert forall|k: int| 0 <= k < after.len() implies exists|i: int|
                0 <= i < n && is_usable(records, built, providers, i) && #[trigger] records[i]
                    == #[trigger] after[k] by {
                if after[k] == m {
                    assert(records[n - 1] == after[k]);
                } else {
                    assert(before[k] == after[k]);
                    let i = choose|i: int|
                        0 <= i < n - 1 && is_usable(records, built, providers, i)
                            && #[trigger] records[i] == before[k];
                    assert(records[i] == after[k]);
                }
            }
            assert forall|i: int|
                0 <= i < n && is_usable(records, built, providers, i) implies model_index(
                after,
                (#[trigger] records[i]).name@,
            ) is Some by {
                let name = records[i].name@;
                lemma_model_index(after, name);
                lemma_model_index(before, name);
                if i == n - 1 {
                    let at = match model_index(before, m.name@) {
                        Some(x) => x,
                        None => before.len() as int,
                    };
                    assert(after[at] == m);
                    assert(after[at].name@ == name);
                } else {
                    let at = model_index(before, name)->Some_0;
                    assert(before[at].name@ == name);
                    assert(after[at].name@ == name);
                }
            }
        } else {
            assert forall|k: int| 0 <= k < after.len() implies exists|i: int|
                0 <= i < n && is_usable(records, built, providers, i) && #[trigger] records[i]
                    == #[trigger] after[k] by {
                let i = choose|i: int|
                    0 <= i < n - 1 && is_usable(records, built, providers, i)
                        && #[trigger] records[i] == before[k];
                assert(records[i] == after[k]);
            }
        }
    }
}

proof fn lemma_loaded_default(
    records: Seq<LlmModelRecord>,
    built: Seq<bool>,
    providers: Seq<LlmProviderRecord>,
    n: int,
    k: int,
)
    requires
        0 <= k < n <= records.len(),
        is_usable(records, built, providers, k),
        records[k].is_default,
        forall|i: int|
            k < i < n ==> !(is_usable(records, built, providers, i) && (
            #[trigger] records[i]).is_default),
        records[k].name@.len() > 0,
    ensures
        loaded_default(records, built, providers, n) == records[k].name@,
    decreases n,
{
    if k < n - 1 {
        lemma_loaded_default(records, built, providers, n - 1, k);
        assert(!(is_usable(records, built, providers, n - 1) && records[n - 1].is_default));
    }
}

proof fn lemma_first_is_default(
    records: Seq<LlmModelRecord>,
    built: Seq<bool>,
    providers: Seq<LlmProviderRecord>,
    n: int,
    k: int,
)
    requires
        0 <= k < n <= records.len(),
        is_usable(records, built, providers, k),
        forall|i: int| 0 <= i < k ==> !is_usable(records, built, providers, i),
        forall|i: int|
            0 <= i < n ==> !(is_usable(records, built, providers, i) && (
            #[trigger] records[i]).is_default),
        records[k].name@.len() > 0,
    ensures
        loaded_default(records, built, providers, n) == records[k].name@,
    decreases n,
{
    assert(!(is_usable(records, built, providers, n - 1) && records[n - 1].is_default));
    if k < n - 1 {
        lemma_first_is_default(records, built, providers, n - 1, k);
    } else {
        lemma_none_is_default(records, built, providers, k);
    }
}

proof fn lemma_none_is_default(
    records: Seq<LlmModelRecord>,
    built: Seq<bool>,
    providers: Seq<LlmProviderRecord>,
    n: int,
)
    requires
        0 <= n <= records.len(),
        forall|i: int| 0 <= i < n ==> !is_usable(records, built, providers, i),
    ensures
        loaded_default(records, built, providers, n).len() == 0,
    decreases n,
{
    if n > 0 {
        assert(!is_usable(records, built, providers, n - 1));
        lemma_none_is_default(records, built, providers, n - 1);
    }
}

/// Whether a model can be used: its client could be built and its provider is
/// known.
pub open spec fn can_be_used(providers: Seq<LlmProviderRecord>, model: LlmModelRecord, built: bool) -> bool {
    built && exists|p: int|
        0 <= p < providers.len() && (#[trigger] providers[p]).id == model.provider_id
}

/// Reloading keeps exactly the models whose provider is known and whose client
/// could be built. The default is the last of them that is marked as such, else
/// the first of them. A model keeps its health by its name, and a new one is
/// healthy.
pub proof fn law_reloading(
    m: &LlmManager,
    providers: Vec<LlmProviderRecord>,
    models: Vec<LlmModelRecord>,
    built: &Vec<bool>,
    r: LlmManager,
    k: int,
    i: int,
)
    requires
        call_ensures(LlmManager::reload, (m, providers, models, built), r),
        built@.len() == models@.len(),
        0 <= i < models@.len(),
        0 <= k < r.slots@.len(),
    ensures
        ({
            &&& exists|j: int|
                0 <= j < models@.len() && can_be_used(r.providers@, models@[j], built@[j]) && #[trigger] models@[j] == r.slots@[k].model
            &&& can_be_used(r.providers@, models@[i], built@[i]) ==> exists|s: int|
                0 <= s < r.slots@.len() && (#[trigger] r.slots@[s]).model.name@ == models@[i].name@
            &&& can_be_used(r.providers@, models@[i], built@[i]) && models@[i].is_default && models@[i].name@.len() > 0 && (forall|j: int|
                i < j < models@.len() ==> !(can_be_used(r.providers@, models@[j], built@[j]) && (#[trigger] models@[j]).is_default))
                ==> r.default@ == models@[i].name@
            &&& can_be_used(r.providers@, models@[i], built@[i]) && models@[i].name@.len() > 0 && (forall|j: int|
                0 <= j < i ==> !can_be_used(r.providers@, #[trigger] models@[j], built@[j]))
                && (forall|j: int|
                0 <= j < models@.len() ==> !(can_be_used(r.providers@, models@[j], built@[j]) && (#[trigger] models@[j]).is_default))
                ==> r.default@ == models@[i].name@
        }),
{
    let n = models@.len() as int;
    let known = r.providers@;
    assert forall|j: int| 0 <= j < n implies can_be_used(known, models@[j], built@[j]) == #[trigger] is_usable(
        models@,
        built@,
        known,
        j,
    ) by {
        lemma_provider_index(known, models@[j].provider_id);
        if provider_index(known, models@[j].provider_id) is Some {
            let p = provider_index(known, models@[j].provider_id)->Some_0;
            assert(known[p].id == models@[j].provider_id);
        }
    }
    lemma_loaded_models(models@, built@, known, n);
    let loaded = loaded_models(models@, built@, known, n);
    assert(models_of(r.slots@) == loaded);
    assert(loaded[k] == r.slots@[k].model);
    let j = choose|j: int|
        0 <= j < n && is_usable(models@, built@, known, j) && #[trigger] models@[j] == loaded[k];
    assert(models@[j] == r.slots@[k].model && can_be_used(known, models@[j], built@[j]));
    assert(is_usable(models@, built@, known, i) == can_be_used(known, models@[i], built@[i]));
    if can_be_used(known, models@[i], built@[i]) {
        lemma_model_index(loaded, models@[i].name@);
        let s = model_index(loaded, models@[i].name@)->Some_0;
        assert(loaded[s] == r.slots@[s].model);
        assert(r.slots@[s].model.name@ == models@[i].name@);
        if models@[i].is_default && models@[i].name@.len() > 0 && (forall|j: int|
            i < j < n ==> !(can_be_used(known, models@[j], built@[j]) && (#[trigger] models@[j]).is_default)) {
            assert forall|j: int| i < j < n implies !(is_usable(models@, built@, known, j) && (
            #[trigger] models@[j]).is_default) by {
                assert(can_be_used(known, models@[j], built@[j]) == is_usable(models@, built@, known, j));
            }
            lemma_loaded_default(models@, built@, known, n, i);
        }
        if models@[i].name@.len() > 0 && (forall|j: int|
            0 <= j < i ==> !can_be_used(known, #[trigger] models@[j], built@[j])) && (forall|
            j: int,
        |
            0 <= j < n ==> !(can_be_used(known, models@[j], built@[j]) && (#[trigger] models@[j]).is_default)) {
            assert forall|j: int| 0 <= j < i implies !is_usable(models@, built@, known, j) by {
                assert(can_be_used(known, models@[j], built@[j]) == is_usable(models@, built@, known, j));
            }
            assert forall|j: int| 0 <= j < n implies !(is_usable(models@, built@, known, j) && (
            #[trigger] models@[j]).is_default) by {
                assert(can_be_used(known, models@[j], built@[j]) == is_usable(models@, built@, known, j));
            }
            lemma_first_is_default(models@, built@, known, n, i);
        }
    }
}

proof fn lemma_provider_index(providers: Seq<LlmProviderRecord>, id: i64)
    ensures
        provider_index(providers, id) is Some <==> exists|p: int|
            0 <= p < providers.len() && (#[trigger] providers[p]).id == id,
        provider_index(providers, id) matches Some(p) ==> 0 <= p < providers.len()
            && providers[p].id == id,
{
    let keys = provider_keys(providers);
    lemma_key_index(keys, id);
    if exists|p: int| 0 <= p < providers.len() && (#[trigger] providers[p]).id == id {
        let p = choose|p: int| 0 <= p < providers.len() && (#[trigger] providers[p]).id == id;
        assert(keys[p].0 == id);
    }
    if provider_index(providers, id) is Some {
        let p = provider_index(providers, id)->Some_0;
        assert(keys[p].0 == providers[p].id);
    }
}

/// A model that stays keeps its health over a reload; a new one is healthy. Its
/// context is as long as its record says.
pub proof fn law_health_over_a_reload(
    m: &LlmManager,
    providers: Vec<LlmProviderRecord>,
    models: Vec<LlmModelRecord>,
    built: &Vec<bool>,
    r: LlmManager,
    k: int,
    name: &str,
    before: Option<&ModelSlot>,
)
    requires
        call_ensures(LlmManager::reload, (m, providers, models, built), r),
        0 <= k < r.slots@.len(),
        name@ == r.slots@[k].model.name@,
        call_ensures(LlmManager::get, (m, name), before),
    ensures
        before matches Some(s) ==> r.slots@[k].health.status == s.health.status
            && r.slots@[k].health.consecutive_failures == s.health.consecutive_failures
            && opt_text(r.slots@[k].health.last_error) == opt_text(s.health.last_error),
        before is None ==> r.slots@[k].health.status is Healthy
            && r.slots@[k].health.consecutive_failures == 0 && r.slots@[k].health.last_error is None,
        r.slots@[k].context_length == r.slots@[k].model.context_length,
{
    assert(r.keeps_health(m));
}

/// The models are listed in their order, each with its provider and its health.
pub proof fn law_models_are_listed(m: &LlmManager, r: Vec<LlmModelInfo>, k: int)
    requires
        call_ensures(LlmManager::list_models_info, (m,), r),
        0 <= k < m.slots@.len(),
        m.wf(),
    ensures
        r@.len() == m.slots@.len(),
        r@[k].id == m.slots@[k].model.id && r@[k].name@ == m.slots@[k].model.name@ && r@[k].model_id@
            == m.slots@[k].model.model_id@ && r@[k].strength == m.slots@[k].model.strength
            && r@[k].priority == m.slots@[k].model.priority && r@[k].is_default
            == m.slots@[k].model.is_default,
        r@[k].provider_id == m.slots@[k].model.provider_id,
        r@[k].status == m.slots@[k].health.status,
        opt_text(r@[k].last_error) == opt_text(m.slots@[k].health.last_error),
        texts(r@[k].scope@) == texts(m.slots@[k].model.scope@),
        exists|p: int|
            0 <= p < m.providers@.len() && (#[trigger] m.providers@[p]).id
                == m.slots@[k].model.provider_id && r@[k].provider_name@ == m.providers@[p].name@,
{
    let id = m.slots@[k].model.provider_id;
    lemma_provider_index(m.providers@, id);
    assert(provider_index(m.providers@, id) is Some);
    let p = provider_index(m.providers@, id)->Some_0;
    assert(describes(r@[k], m.slots@[k], m.providers@[p]));
    assert(m.providers@[p].id == id);
}

/// What a provider reports of a model's context is kept, for that model alone;
/// nothing else of it changes.
pub proof fn law_reported_contexts(m: &mut LlmManager, name: &str, reported: Option<i64>, at: Option<usize>, k: int)
    requires
        call_ensures(LlmManager::refresh_context_length, (m, name, reported), ()),
        call_ensures(LlmManager::position, (&*old(m), name), at),
        0 <= k < old(m).slots@.len(),
    ensures
        final(m).slots@.len() == old(m).slots@.len(),
        final(m).slots@[k].model == old(m).slots@[k].model,
        final(m).slots@[k].health == old(m).slots@[k].health,
        final(m).slots@[k].context_length == if at is Some && at->Some_0 == k && reported is Some {
            reported
        } else {
            old(m).slots@[k].context_length
        },
        final(m).default == old(m).default,
{
}

/// A provider is found by its id, and only by it; a fresh manager has none.
pub proof fn law_providers_are_found(m: &LlmManager, id: i64, r: Option<&LlmProviderRecord>, fresh: LlmManager, name: &str)
    requires
        call_ensures(LlmManager::get_provider, (m, id), r),
        call_ensures(LlmManager::new, (), fresh),
        call_ensures(LlmManager::default_name, (m,), name),
    ensures
        r is Some <==> exists|p: int|
            0 <= p < m.providers@.len() && (#[trigger] m.providers@[p]).id == id,
        r matches Some(x) ==> x.id == id && m.providers@.contains(*x),
        fresh.slots@.len() == 0 && fresh.providers@.len() == 0 && fresh.default@.len() == 0,
        name@ == m.default@,
{
    lemma_provider_index(m.providers@, id);
    if r is Some {
        let p = provider_index(m.providers@, id)->Some_0;
        assert(m.providers@[p] == *r->Some_0);
    }
}

} // verus!
