//! The catalogs that providers list, and how long what they say holds.
use vstd::prelude::*;

use crate::llm::manager::{provider_index, LlmManager, LlmProviderRecord};
use crate::llm::providers::{LlmClientSetup, RemoteLlmModelInfo, ServiceType};
use crate::names::NameTable;
use crate::numerals::{decimal, i64_text};
use crate::text::{copy_opt, opt_text};

verus! {

/// How long a catalog holds, in seconds: a day.
pub const CATALOG_TTL: u64 = 86_400;

/// How long the data of one model holds, in seconds: an hour.
pub const MODEL_META_TTL: u64 = 3_600;

/// Whether data of that age, in milliseconds, still holds.
pub fn is_fresh(age_ms: Option<u64>, ttl_secs: u64) -> (r: bool)
    ensures
        r == match age_ms {
            Some(ms) => (ms as int) < ttl_secs * 1000,
            None => false,
        },
{
    match age_ms {
        Some(ms) => {
            assert((ms as int) < ttl_secs * 1000 <==> (ms as int) / 1000 < ttl_secs);
            ms / 1000 < ttl_secs
        },
        None => false,
    }
}

/// The known provider types, with what each can do.
pub struct ProviderRegistry {
    types: NameTable<Vec<ServiceType>>,
}

impl ProviderRegistry {
    pub closed spec fn wf(&self) -> bool {
        self.types.wf()
    }

    pub fn new() -> (r: ProviderRegistry)
        ensures
            r.wf(),
            r@ == Map::<Seq<char>, Vec<ServiceType>>::empty(),
    {
        ProviderRegistry { types: NameTable::new() }
    }

    /// Makes a provider type known.
    pub fn register_builtin(&mut self, type_id: &str, supported: Vec<ServiceType>)
        requires
            old(self).wf(),
        ensures
            final(self).wf(),
            final(self)@ == old(self)@.insert(type_id@, supported),
    {
        self.types.insert(type_id.to_owned(), supported);
    }

    /// What a provider type can do, where it is known.
    pub fn get(&self, type_id: &str) -> (r: Option<&Vec<ServiceType>>)
        requires
            self.wf(),
        ensures
            match r {
                Some(v) => self@.contains_key(type_id@) && *v == self@[type_id@],
                None => !self@.contains_key(type_id@),
            },
    {
        self.types.get(type_id)
    }
}

impl View for ProviderRegistry {
    type V = Map<Seq<char>, Vec<ServiceType>>;

    closed spec fn view(&self) -> Map<Seq<char>, Vec<ServiceType>> {
        self.types@
    }
}

/// A provider as listed.
#[derive(Debug)]
pub struct LlmProviderInfo {
    pub id: i64,
    pub name: String,
    pub provider: String,
    pub base_url: Option<String>,
    pub description: Option<String>,
    pub supported_types: Vec<ServiceType>,
}

/// Whether this is how a provider is listed: without its key, and with what
/// its type can do, nothing where the type is unknown.
pub open spec fn lists_provider(
    info: LlmProviderInfo,
    p: LlmProviderRecord,
    types: Map<Seq<char>, Vec<ServiceType>>,
) -> bool {
    &&& info.id == p.id
    &&& info.name@ == p.name@
    &&& info.provider@ == p.provider@
    &&& opt_text(info.base_url) == opt_text(p.base_url)
    &&& opt_text(info.description) == opt_text(p.description)
    &&& info.supported_types@ == if types.contains_key(p.provider@) {
        types[p.provider@]@
    } else {
        Seq::empty()
    }
}

fn copy_types(v: &Vec<ServiceType>) -> (r: Vec<ServiceType>)
    ensures
        r@ == v@,
{
    let mut out: Vec<ServiceType> = Vec::new();
    let mut i: usize = 0;
    while i < v.len()
        invariant
            i <= v@.len(),
            out@ == v@.take(i as int),
        decreases v@.len() - i,
    {
        out.push(v[i]);
        i = i + 1;
        assert(out@ =~= v@.take(i as int));
    }
    assert(v@.take(v@.len() as int) =~= v@);
    out
}

/// Lists the providers.
pub fn list_providers_info(manager: &LlmManager, registry: &ProviderRegistry) -> (r: Vec<
    LlmProviderInfo,
>)
    requires
        registry.wf(),
    ensures
        r@.len() == manager.providers@.len(),
        forall|i: int|
            0 <= i < r@.len() ==> lists_provider(
                #[trigger] r@[i],
                manager.providers@[i],
                registry@,
            ),
{
    let mut out: Vec<LlmProviderInfo> = Vec::new();
    let mut i: usize = 0;
    while i < manager.providers.len()
        invariant
            registry.wf(),
            i <= manager.providers@.len(),
            out@.len() == i,
            forall|k: int|
                0 <= k < i ==> lists_provider(
                    #[trigger] out@[k],
                    manager.providers@[k],
                    registry@,
                ),
        decreases manager.providers@.len() - i,
    {
        let p: &LlmProviderRecord = &manager.providers[i];
        let supported_types: Vec<ServiceType> = match registry.get(p.provider.as_str()) {
            Some(v) => copy_types(v),
            None => Vec::new(),
        };
        assert(supported_types@ =~= if registry@.contains_key(p.provider@) {
            registry@[p.provider@]@
        } else {
            Seq::empty()
        });
        out.push(
            LlmProviderInfo {
                id: p.id,
                name: p.name.clone(),
                provider: p.provider.clone(),
                base_url: copy_opt(&p.base_url),
                description: copy_opt(&p.description),
                supported_types,
            },
        );
        i = i + 1;
    }
    out
}

/// The provider whose catalog is asked for.
pub fn provider_to_list<'a>(manager: &'a LlmManager, registry: &ProviderRegistry, id: i64) -> (r:
    Result<&'a LlmProviderRecord, String>)
    requires
        manager.wf(),
        registry.wf(),
    ensures
        match provider_index(manager.providers@, id) {
            None => r matches Err(e) && e@ == "provider "@ + decimal(id as int) + " not found"@,
            Some(i) => {
                let p = manager.providers@[i];
                if registry@.contains_key(p.provider@) {
                    r == Ok::<&LlmProviderRecord, String>(&p)
                } else {
                    r matches Err(e) && e@ == "unknown provider type '"@ + p.provider@
                        + "' for provider "@ + decimal(id as int)
                }
            },
        },
{
    let number: String = i64_text(id);
    match manager.get_provider(id) {
        None => {
            let mut t: String = "provider ".to_owned();
            t.append(number.as_str());
            t.append(" not found");
            Err(t)
        },
        Some(p) => match registry.get(p.provider.as_str()) {
            Some(_) => Ok(p),
            None => {
                let mut t: String = "unknown provider type '".to_owned();
                t.append(p.provider.as_str());
                t.append("' for provider ");
                t.append(number.as_str());
                Err(t)
            },
        },
    }
}

/// The catalog that a provider listed, if it lists any.
pub fn listed_models(listing: Option<Vec<RemoteLlmModelInfo>>) -> (r: Result<
    Vec<RemoteLlmModelInfo>,
    String,
>)
    ensures
        match listing {
            Some(models) => r == Ok::<Vec<RemoteLlmModelInfo>, String>(models),
            None => r matches Err(e) && e@ == "this provider does not support model listing"@,
        },
{
    match listing {
        Some(models) => Ok(models),
        None => Err("this provider does not support model listing".to_owned()),
    }
}

/// The client of a model, given what its provider built: nothing where the
/// provider offers no chat.
pub fn build_entry(
    registry: &ProviderRegistry,
    provider: &LlmProviderRecord,
    built: Option<Result<LlmClientSetup, String>>,
) -> (r: Result<LlmClientSetup, String>)
    requires
        registry.wf(),
    ensures
        if !registry@.contains_key(provider.provider@) {
            r matches Err(e) && e@ == "unknown provider type '"@ + provider.provider@ + "'"@
        } else {
            match built {
                None => r matches Err(e) && e@ == "provider '"@ + provider.provider@
                    + "' does not support LLM"@,
                Some(b) => r == b,
            }
        },
{
    match registry.get(provider.provider.as_str()) {
        None => {
            let mut t: String = "unknown provider type '".to_owned();
            t.append(provider.provider.as_str());
            t.append("'");
            Err(t)
        },
        Some(_) => match built {
            Some(b) => b,
            None => {
                let mut t: String = "provider '".to_owned();
                t.append(provider.provider.as_str());
                t.append("' does not support LLM");
                Err(t)
            },
        },
    }
}

/// What was fetched is fresh for as many seconds as it is kept; what was never
/// fetched is not.
pub proof fn law_freshness(age_ms: Option<u64>, ttl_secs: u64, r: bool)
    requires
        call_ensures(is_fresh, (age_ms, ttl_secs), r),
    ensures
        r <==> age_ms is Some && age_ms->Some_0 < ttl_secs * 1000,
{
}

/// A provider's type is found under the name it was registered with; others
/// stay as they were.
pub proof fn law_provider_types(reg: &mut ProviderRegistry, id: &str, supported: Vec<ServiceType>, name: &str, r: Option<&Vec<ServiceType>>, before: Option<&Vec<ServiceType>>)
    requires
        call_ensures(ProviderRegistry::register_builtin, (reg, id, supported), ()),
        call_ensures(ProviderRegistry::get, (&*final(reg), name), r),
        call_ensures(ProviderRegistry::get, (&*old(reg), name), before),
    ensures
        name@ == id@ ==> r is Some && *r->Some_0 == supported,
        name@ != id@ ==> (r is Some <==> before is Some) && (r is Some ==> *r->Some_0
            == *before->Some_0),
{
}

/// The providers are listed as they are, each with what its type supports.
pub proof fn law_listed_providers(m: &LlmManager, reg: &ProviderRegistry, r: Vec<LlmProviderInfo>, i: int, name: &str, types: Option<&Vec<ServiceType>>)
    requires
        call_ensures(list_providers_info, (m, reg), r),
        0 <= i < m.providers@.len(),
        name@ == m.providers@[i].provider@,
        call_ensures(ProviderRegistry::get, (reg, name), types),
    ensures
        r@.len() == m.providers@.len(),
        r@[i].id == m.providers@[i].id && r@[i].name@ == m.providers@[i].name@ && r@[i].provider@
            == m.providers@[i].provider@,
        r@[i].base_url is Some <==> m.providers@[i].base_url is Some,
        r@[i].base_url matches Some(t) ==> t@ == m.providers@[i].base_url->Some_0@,
        r@[i].description is Some <==> m.providers@[i].description is Some,
        r@[i].description matches Some(t) ==> t@ == m.providers@[i].description->Some_0@,
        types matches Some(t) ==> r@[i].supported_types@ == t@,
        types is None ==> r@[i].supported_types@.len() == 0,
{
    assert(lists_provider(r@[i], m.providers@[i], reg@));
}

/// A client is built exactly where the provider's type is known and can build
/// one.
pub proof fn law_built_clients(
    reg: &ProviderRegistry,
    p: &LlmProviderRecord,
    built: Option<Result<LlmClientSetup, String>>,
    r: Result<LlmClientSetup, String>,
    name: &str,
    types: Option<&Vec<ServiceType>>,
)
    requires
        call_ensures(build_entry, (reg, p, built), r),
        name@ == p.provider@,
        call_ensures(ProviderRegistry::get, (reg, name), types),
    ensures
        types is None ==> r is Err && r->Err_0@ == "unknown provider type '"@ + p.provider@ + "'"@,
        types is Some && built is None ==> r is Err && r->Err_0@ == "provider '"@ + p.provider@
            + "' does not support LLM"@,
        types is Some && built is Some ==> r == built->Some_0,
{
}

/// A provider's models are listed where the provider is there and its type is
/// known; a type that lists none says so.
pub proof fn law_models_of_providers<'a>(
    m: &'a LlmManager,
    reg: &ProviderRegistry,
    id: i64,
    r: Result<&'a LlmProviderRecord, String>,
    found: Option<&LlmProviderRecord>,
    name: &str,
    types: Option<&Vec<ServiceType>>,
    listing: Option<Vec<RemoteLlmModelInfo>>,
    listed: Result<Vec<RemoteLlmModelInfo>, String>,
)
    requires
        call_ensures(provider_to_list, (m, reg, id), r),
        call_ensures(LlmManager::get_provider, (m, id), found),
        found matches Some(p) ==> name@ == p.provider@ && call_ensures(
            ProviderRegistry::get,
            (reg, name),
            types,
        ),
        call_ensures(listed_models, (listing,), listed),
    ensures
        r is Ok <==> found is Some && types is Some,
        r matches Ok(p) ==> *p == *found->Some_0,
        r matches Err(e) ==> e@ == match found {
            None => "provider "@ + decimal(id as int) + " not found"@,
            Some(p) => "unknown provider type '"@ + p.provider@ + "' for provider "@ + decimal(
                id as int,
            ),
        },
        listed is Ok <==> listing is Some,
        listing matches Some(v) ==> listed->Ok_0 == v,
        listed matches Err(e) ==> e@ == "this provider does not support model listing"@,
{
}

} // verus!
