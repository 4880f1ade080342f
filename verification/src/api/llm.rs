//! The records of providers and models that requests describe.
use vstd::prelude::*;

use crate::api::ApiError;
use crate::config::{LlmProvider, LlmStrength};
use crate::llm::manager::{models_of, LlmManager, LlmModelRecord, LlmProviderRecord};
use crate::numerals::{decimal, i64_text};
use crate::text::{str_eq, texts};

verus! {

/// The models that can be picked.
#[derive(Debug)]
pub struct SelectorResponse {
    pub models: Vec<String>,
    pub default: String,
}

/// Lists the models that can be picked, and the default one.
pub fn selector(manager: &LlmManager) -> (r: SelectorResponse)
    ensures
        texts(r.models@) == seq!["auto"@] + models_of(manager.slots@).map_values(
            |m: LlmModelRecord| m.name@,
        ),
        r.default@ == manager.default@,
{
    let models: Vec<String> = manager.client_names();
    SelectorResponse { models, default: manager.default_name().to_owned() }
}

/// A provider to store.
#[derive(Debug)]
pub struct ProviderPayload {
    pub name: String,
    /// The name of the provider's type.
    pub provider: String,
    pub api_key: Option<String>,
    pub base_url: Option<String>,
    pub description: Option<String>,
}

/// The provider type of a name.
pub fn parse_provider(s: &str) -> (r: Result<LlmProvider, ApiError>)
    ensures
        match r {
            Ok(p) => p.name() == s@,
            Err(e) => (forall|q: LlmProvider| #[trigger] q.name() != s@) && e.is_bad_request(
                "unknown provider type '"@ + s@ + "'"@,
            ),
        },
{
    if str_eq(s, "lm_studio") {
        Ok(LlmProvider::LmStudio)
    } else if str_eq(s, "ollama") {
        Ok(LlmProvider::Ollama)
    } else if str_eq(s, "open_ai") {
        Ok(LlmProvider::OpenAi)
    } else if str_eq(s, "openrouter") {
        Ok(LlmProvider::OpenRouter)
    } else if str_eq(s, "anthropic") {
        Ok(LlmProvider::Anthropic)
    } else if str_eq(s, "deepseek") {
        Ok(LlmProvider::DeepSeek)
    } else if str_eq(s, "elevenlabs") {
        Ok(LlmProvider::ElevenLabs)
    } else {
        let mut t: String = "unknown provider type '".to_owned();
        t.append(s);
        t.append("'");
        Err(ApiError::bad_request(t.as_str()))
    }
}

/// The strength of a name.
pub fn parse_strength(s: &str) -> (r: Result<LlmStrength, ApiError>)
    ensures
        match r {
            Ok(p) => p.name() == s@,
            Err(e) => (forall|q: LlmStrength| #[trigger] q.name() != s@) && e.is_bad_request(
                "unknown strength '"@ + s@ + "'"@,
            ),
        },
{
    if str_eq(s, "very_low") {
        Ok(LlmStrength::VeryLow)
    } else if str_eq(s, "low") {
        Ok(LlmStrength::Low)
    } else if str_eq(s, "average") {
        Ok(LlmStrength::Average)
    } else if str_eq(s, "high") {
        Ok(LlmStrength::High)
    } else if str_eq(s, "very_high") {
        Ok(LlmStrength::VeryHigh)
    } else {
        let mut t: String = "unknown strength '".to_owned();
        t.append(s);
        t.append("'");
        Err(ApiError::bad_request(t.as_str()))
    }
}

/// Two provider types with the same name are the same, so a name is read as
/// the type that it was written for.
pub proof fn law_provider_names_differ(a: LlmProvider, b: LlmProvider)
    ensures
        a.name() == b.name() ==> a == b,
{
    reveal_strlit("lm_studio");
    reveal_strlit("ollama");
    reveal_strlit("open_ai");
    reveal_strlit("openrouter");
    reveal_strlit("anthropic");
    reveal_strlit("deepseek");
    reveal_strlit("elevenlabs");
    assert("lm_studio"@[0] == 'l' && "ollama"@[0] == 'o' && "open_ai"@[0] == 'o' && "openrouter"@[0]
        == 'o' && "anthropic"@[0] == 'a' && "deepseek"@[0] == 'd' && "elevenlabs"@[0] == 'e');
    assert("ollama"@.len() == 6 && "open_ai"@.len() == 7 && "openrouter"@.len() == 10);
}

/// Two strengths with the same name are the same.
pub proof fn law_strength_names_differ(a: LlmStrength, b: LlmStrength)
    ensures
        a.name() == b.name() ==> a == b,
{
    reveal_strlit("very_low");
    reveal_strlit("low");
    reveal_strlit("average");
    reveal_strlit("high");
    reveal_strlit("very_high");
    assert("very_low"@.len() == 8 && "low"@.len() == 3 && "average"@.len() == 7 && "high"@.len()
        == 4 && "very_high"@.len() == 9);
}

/// The record of a provider to store. Its id is given when it is stored.
pub fn provider_record(p: ProviderPayload) -> (r: Result<LlmProviderRecord, ApiError>)
    ensures
        match r {
            Ok(record) => {
                &&& record.id == 0
                &&& record.name@ == p.name@
                &&& record.provider@ == p.provider@
                &&& exists|t: LlmProvider| #[trigger] t.name() == p.provider@
                &&& record.api_key == p.api_key
                &&& record.base_url == p.base_url
                &&& record.description == p.description
            },
            Err(e) => (forall|t: LlmProvider| #[trigger] t.name() != p.provider@)
                && e.is_bad_request("unknown provider type '"@ + p.provider@ + "'"@),
        },
{
    match parse_provider(p.provider.as_str()) {
        Ok(_) => Ok(
            LlmProviderRecord {
                id: 0,
                name: p.name,
                provider: p.provider,
                api_key: p.api_key,
                base_url: p.base_url,
                description: p.description,
            },
        ),
        Err(e) => Err(e),
    }
}

/// A model to store.
#[derive(Debug)]
pub struct ModelPayload {
    pub provider_id: i64,
    pub model_id: String,
    pub name: String,
    pub strength: Option<String>,
    pub scope: Option<Vec<String>>,
    pub is_default: Option<bool>,
    pub priority: Option<i32>,
    /// Further request parameters as JSON text.
    pub extra_params: Option<String>,
    pub context_length: Option<i64>,
    pub max_output_tokens: Option<i64>,
    pub knowledge_cutoff: Option<String>,
    pub capabilities: Option<Vec<String>>,
}

/// The texts of an optional list, none where there is no list.
pub open spec fn listed(o: Option<Vec<String>>) -> Seq<Seq<char>> {
    match o {
        Some(v) => texts(v@),
        None => Seq::empty(),
    }
}

fn list_or_none(o: Option<Vec<String>>) -> (r: Vec<String>)
    ensures
        texts(r@) == listed(o),
{
    match o {
        Some(v) => v,
        None => {
            let v: Vec<String> = Vec::new();
            assert(texts(v@) =~= Seq::empty());
            v
        },
    }
}

/// The record of a model to store: named after the model where it has no name
/// of its own, not the default, and of priority 100, where the request does
/// not say otherwise.
pub fn model_record(p: ModelPayload) -> (r: Result<LlmModelRecord, ApiError>)
    ensures
        match r {
            Ok(record) => {
                &&& record.id == 0
                &&& record.provider_id == p.provider_id
                &&& record.model_id@ == p.model_id@
                &&& record.name@ == if p.name@.len() == 0 {
                    p.model_id@
                } else {
                    p.name@
                }
                &&& match p.strength {
                    Some(s) => record.strength matches Some(t) && t.name() == s@,
                    None => record.strength is None,
                }
                &&& texts(record.scope@) == listed(p.scope)
                &&& record.is_default == (p.is_default == Some(true))
                &&& record.priority == match p.priority {
                    Some(n) => n,
                    None => 100,
                }
                &&& record.extra_params == p.extra_params
                &&& record.context_length == p.context_length
                &&& record.max_output_tokens == p.max_output_tokens
                &&& record.knowledge_cutoff == p.knowledge_cutoff
                &&& texts(record.capabilities@) == listed(p.capabilities)
            },
            Err(e) => p.strength matches Some(s) && (forall|q: LlmStrength| #[trigger]
                q.name() != s@) && e.is_bad_request("unknown strength '"@ + s@ + "'"@),
        },
{
    let strength: Option<LlmStrength> = match &p.strength {
        Some(s) => match parse_strength(s.as_str()) {
            Ok(t) => Some(t),
            Err(e) => {
                return Err(e);
            },
        },
        None => None,
    };
    let model_id: String = p.model_id.clone();
    let name: String = if p.name.as_str().unicode_len() == 0 {
        p.model_id
    } else {
        p.name
    };
    let is_default: bool = match p.is_default {
        Some(b) => b,
        None => false,
    };
    let priority: i32 = match p.priority {
        Some(n) => n,
        None => 100,
    };
    Ok(
        LlmModelRecord {
            id: 0,
            provider_id: p.provider_id,
            model_id,
            name,
            strength,
            scope: list_or_none(p.scope),
            is_default,
            priority,
            extra_params: p.extra_params,
            context_length: p.context_length,
            max_output_tokens: p.max_output_tokens,
            knowledge_cutoff: p.knowledge_cutoff,
            capabilities: list_or_none(p.capabilities),
        },
    )
}

/// The answer where a provider does not exist.
pub fn provider_not_found(id: i64) -> (r: ApiError)
    ensures
        r.is_not_found("provider "@ + decimal(id as int) + " not found"@),
{
    let number: String = i64_text(id);
    let mut t: String = "provider ".to_owned();
    t.append(number.as_str());
    t.append(" not found");
    ApiError::not_found(t.as_str())
}

/// The answer where a model does not exist.
pub fn model_not_found(id: i64) -> (r: ApiError)
    ensures
        r.is_not_found("model "@ + decimal(id as int) + " not found"@),
{
    let number: String = i64_text(id);
    let mut t: String = "model ".to_owned();
    t.append(number.as_str());
    t.append(" not found");
    ApiError::not_found(t.as_str())
}

/// What can be chosen: `auto`, and behind it each model by its name, in their
/// order.
pub proof fn law_choices(m: &LlmManager, r: SelectorResponse, i: int)
    requires
        call_ensures(selector, (m,), r),
    ensures
        r.models@.len() == m.slots@.len() + 1,
        r.models@[0]@ == "auto"@,
        0 <= i < m.slots@.len() ==> r.models@[i + 1]@ == m.slots@[i].model.name@,
        r.default@ == m.default@,
{
    let v = texts(r.models@);
    assert(v.len() == r.models@.len());
    assert(v[0] == r.models@[0]@);
    if 0 <= i < m.slots@.len() {
        assert(v[i + 1] == r.models@[i + 1]@);
    }
}

/// A provider and a strength are read from their names, and from nothing else.
pub proof fn law_names_are_read(s: &str, p: Result<LlmProvider, ApiError>, q: Result<LlmStrength, ApiError>)
    requires
        call_ensures(parse_provider, (s,), p),
        call_ensures(parse_strength, (s,), q),
    ensures
        s@ == "lm_studio"@ ==> p == Ok::<LlmProvider, ApiError>(LlmProvider::LmStudio),
        s@ == "ollama"@ ==> p == Ok::<LlmProvider, ApiError>(LlmProvider::Ollama),
        s@ == "open_ai"@ ==> p == Ok::<LlmProvider, ApiError>(LlmProvider::OpenAi),
        s@ == "openrouter"@ ==> p == Ok::<LlmProvider, ApiError>(LlmProvider::OpenRouter),
        s@ == "anthropic"@ ==> p == Ok::<LlmProvider, ApiError>(LlmProvider::Anthropic),
        s@ == "deepseek"@ ==> p == Ok::<LlmProvider, ApiError>(LlmProvider::DeepSeek),
        s@ == "elevenlabs"@ ==> p == Ok::<LlmProvider, ApiError>(LlmProvider::ElevenLabs),
        s@ == "very_low"@ ==> q == Ok::<LlmStrength, ApiError>(LlmStrength::VeryLow),
        s@ == "low"@ ==> q == Ok::<LlmStrength, ApiError>(LlmStrength::Low),
        s@ == "average"@ ==> q == Ok::<LlmStrength, ApiError>(LlmStrength::Average),
        s@ == "high"@ ==> q == Ok::<LlmStrength, ApiError>(LlmStrength::High),
        s@ == "very_high"@ ==> q == Ok::<LlmStrength, ApiError>(LlmStrength::VeryHigh),
        p matches Err(e) ==> e.status == 400 && e.message@ == "unknown provider type '"@ + s@ + "'"@,
        q matches Err(e) ==> e.status == 400 && e.message@ == "unknown strength '"@ + s@ + "'"@,
{
    lemma_provider_name(s@, p, LlmProvider::LmStudio);
    lemma_provider_name(s@, p, LlmProvider::Ollama);
    lemma_provider_name(s@, p, LlmProvider::OpenAi);
    lemma_provider_name(s@, p, LlmProvider::OpenRouter);
    lemma_provider_name(s@, p, LlmProvider::Anthropic);
    lemma_provider_name(s@, p, LlmProvider::DeepSeek);
    lemma_provider_name(s@, p, LlmProvider::ElevenLabs);
    lemma_strength_name(s@, q, LlmStrength::VeryLow);
    lemma_strength_name(s@, q, LlmStrength::Low);
    lemma_strength_name(s@, q, LlmStrength::Average);
    lemma_strength_name(s@, q, LlmStrength::High);
    lemma_strength_name(s@, q, LlmStrength::VeryHigh);
}

proof fn lemma_provider_name(s: Seq<char>, r: Result<LlmProvider, ApiError>, p: LlmProvider)
    requires
        match r {
            Ok(q) => q.name() == s,
            Err(_) => forall|q: LlmProvider| #[trigger] q.name() != s,
        },
    ensures
        p.name() == s ==> r == Ok::<LlmProvider, ApiError>(p),
{
    if p.name() == s && r is Ok {
        law_provider_names_differ(p, r->Ok_0);
    }
}

proof fn lemma_strength_name(s: Seq<char>, r: Result<LlmStrength, ApiError>, p: LlmStrength)
    requires
        match r {
            Ok(q) => q.name() == s,
            Err(_) => forall|q: LlmStrength| #[trigger] q.name() != s,
        },
    ensures
        p.name() == s ==> r == Ok::<LlmStrength, ApiError>(p),
{
    if p.name() == s && r is Ok {
        law_strength_names_differ(p, r->Ok_0);
    }
}

/// What a new model is stored as: under its own name, or its id where it has
/// none; with priority 100 unless another is given.
pub proof fn law_new_models(p: ModelPayload, r: Result<LlmModelRecord, ApiError>, s: &str, strength: Result<LlmStrength, ApiError>)
    requires
        call_ensures(model_record, (p,), r),
        p.strength matches Some(t) ==> s@ == t@ && call_ensures(parse_strength, (s,), strength),
    ensures
        r is Ok <==> p.strength is None || strength is Ok,
        r matches Ok(m) ==> {
            &&& m.id == 0 && m.provider_id == p.provider_id && m.model_id@ == p.model_id@
            &&& p.name@.len() == 0 ==> m.name@ == p.model_id@
            &&& p.name@.len() > 0 ==> m.name@ == p.name@
            &&& p.strength is None ==> m.strength is None
            &&& p.strength is Some ==> m.strength == Some(strength->Ok_0)
            &&& p.scope matches Some(v) ==> texts(m.scope@) == texts(v@)
            &&& p.scope is None ==> m.scope@.len() == 0
            &&& m.is_default <==> p.is_default == Some(true)
            &&& p.priority is None ==> m.priority == 100
            &&& p.priority matches Some(n) ==> m.priority == n
            &&& m.context_length == p.context_length && m.max_output_tokens == p.max_output_tokens
        },
        r matches Err(e) ==> e.status == 400 && e.message@ == "unknown strength '"@
            + p.strength->Some_0@ + "'"@,
{
    if r is Ok && p.strength is Some && strength is Ok {
        law_strength_names_differ(r->Ok_0.strength->Some_0, strength->Ok_0);
    }
    if r is Ok {
        assert(texts(r->Ok_0.scope@).len() == r->Ok_0.scope@.len());
    }
}

/// What a new provider is stored as, where its type is known.
pub proof fn law_new_providers(p: ProviderPayload, r: Result<LlmProviderRecord, ApiError>, s: &str, kind: Result<LlmProvider, ApiError>, id: i64, a: ApiError, b: ApiError)
    requires
        call_ensures(provider_record, (p,), r),
        s@ == p.provider@,
        call_ensures(parse_provider, (s,), kind),
        call_ensures(provider_not_found, (id,), a),
        call_ensures(model_not_found, (id,), b),
    ensures
        r is Ok <==> kind is Ok,
        r matches Ok(q) ==> q.id == 0 && q.name@ == p.name@ && q.provider@ == p.provider@ && q.api_key
            == p.api_key && q.base_url == p.base_url && q.description == p.description,
        r matches Err(e) ==> e.status == 400 && e.message@ == "unknown provider type '"@ + p.provider@
            + "'"@,
        a.status == 404 && a.message@ == "provider "@ + decimal(id as int) + " not found"@,
        b.status == 404 && b.message@ == "model "@ + decimal(id as int) + " not found"@,
{
    if kind is Ok {
        assert(kind->Ok_0.name() == p.provider@);
    }
}

} // verus!
