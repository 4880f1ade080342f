//! The providers of models: what they offer, how their clients are set up, and
//! the catalog of OpenRouter.
use vstd::prelude::*;

use crate::json::{Json, JsonView};
use crate::llm::manager::{LlmModelRecord, LlmProviderRecord};
use crate::media::images::OpenRouterImageGenerator;
use crate::media::transcribe::OpenAiAudioTranscriber;
use crate::media::tts::{OpenAiTtsSynthesiser, TtsModelRecord};
use crate::sorting::{
    by_text, dedup_texts, deduped, law_stable_sorted, law_text_order, lemma_deduped, sort_texts,
    stable_sorted,
};
use crate::text::{
    contains_item, copy_opt, has_prefix, opt_text, or_text, starts_with, str_eq, text_or, texts,
};

verus! {

/// What a provider can do.
#[derive(Debug, Clone, Copy, PartialEq, Eq, Structural)]
pub enum ServiceType {
    Llm,
    Transcribe,
    ImageGenerate,
    Tts,
}

/// A setting of a provider.
#[derive(Debug)]
pub struct ProviderField {
    pub key: &'static str,
    pub label: &'static str,
    pub required: bool,
    pub secret: bool,
}

/// How a provider is displayed.
#[derive(Debug)]
pub struct ProviderUiMeta {
    pub type_id: &'static str,
    pub display_name: &'static str,
    pub color: &'static str,
    pub icon: &'static str,
    pub fields: Vec<ProviderField>,
}

/// What a chat client is set up with.
#[derive(Debug)]
pub struct LlmClientSetup {
    pub base_url: &'static str,
    pub api_key: String,
    /// Further request parameters as JSON text.
    pub extra_params: Option<String>,
    /// Whether the provider caches prompts.
    pub prompt_cache: bool,
}

/// A stored transcription model.
#[derive(Debug)]
pub struct TranscribeModelRecord {
    pub model_id: String,
    pub name: String,
    pub language: Option<String>,
}

/// A stored image model.
#[derive(Debug)]
pub struct ImageGenerateModelRecord {
    pub model_id: String,
    pub name: String,
}

/// The error of a provider without a key.
pub open spec fn key_required(provider: Seq<char>, purpose: Seq<char>) -> Seq<char> {
    "provider '"@ + provider + "': api_key required for "@ + purpose
}

fn required_key(record: &LlmProviderRecord, purpose: &str) -> (r: Result<String, String>)
    ensures
        match record.api_key {
            Some(k) => r matches Ok(t) && t@ == k@,
            None => r matches Err(e) && e@ == key_required(record.name@, purpose@),
        },
{
    match &record.api_key {
        Some(k) => Ok(k.clone()),
        None => {
            let mut t: String = "provider '".to_owned();
            t.append(record.name.as_str());
            t.append("': api_key required for ");
            t.append(purpose);
            Err(t)
        },
    }
}

/// Whether a speech client is set up for a model of a provider.
pub open spec fn is_tts_for(
    c: OpenAiTtsSynthesiser,
    record: LlmProviderRecord,
    model: TtsModelRecord,
    base_url: Seq<char>,
) -> bool {
    &&& c.id@ == model.name@
    &&& c.base_url@ == or_text(opt_text(record.base_url), base_url)
    &&& record.api_key matches Some(k) && c.api_key@ == k@
    &&& c.model@ == model.model_id@
    &&& opt_text(c.voice) == opt_text(model.voice_id)
    &&& opt_text(c.instructions) == opt_text(model.instructions)
    &&& opt_text(c.response_format) == opt_text(model.response_format)
}

fn tts_for(record: &LlmProviderRecord, model: &TtsModelRecord, base_url: &str, purpose: &str) -> (r:
    Result<OpenAiTtsSynthesiser, String>)
    ensures
        match r {
            Ok(c) => is_tts_for(c, *record, *model, base_url@),
            Err(e) => record.api_key is None && e@ == key_required(record.name@, purpose@),
        },
{
    let url: String = text_or(copy_opt(&record.base_url), base_url);
    match required_key(record, purpose) {
        Ok(key) => Ok(
            OpenAiTtsSynthesiser::new(
                model.name.as_str(),
                url,
                key,
                model.model_id.as_str(),
                copy_opt(&model.voice_id),
                copy_opt(&model.instructions),
                copy_opt(&model.response_format),
            ),
        ),
        Err(e) => Err(e),
    }
}

/// Whether a transcription client is set up for a model of a provider.
pub open spec fn is_transcriber_for(
    c: OpenAiAudioTranscriber,
    record: LlmProviderRecord,
    model: TranscribeModelRecord,
    base_url: Seq<char>,
) -> bool {
    &&& c.id@ == model.name@
    &&& c.base_url@ == or_text(opt_text(record.base_url), base_url)
    &&& record.api_key matches Some(k) && c.api_key@ == k@
    &&& c.model@ == model.model_id@
    &&& opt_text(c.language) == opt_text(model.language)
}

fn transcriber_for(
    record: &LlmProviderRecord,
    model: &TranscribeModelRecord,
    base_url: &str,
    purpose: &str,
) -> (r: Result<OpenAiAudioTranscriber, String>)
    ensures
        match r {
            Ok(c) => is_transcriber_for(c, *record, *model, base_url@),
            Err(e) => record.api_key is None && e@ == key_required(record.name@, purpose@),
        },
{
    let url: String = text_or(copy_opt(&record.base_url), base_url);
    match required_key(record, purpose) {
        Ok(key) => Ok(
            OpenAiAudioTranscriber::new(
                model.name.as_str(),
                url,
                key,
                model.model_id.as_str(),
                copy_opt(&model.language),
            ),
        ),
        Err(e) => Err(e),
    }
}

/// OpenAI.
pub struct OpenAiProvider;

impl OpenAiProvider {
    pub fn type_id(&self) -> (r: &'static str)
        ensures
            r@ == "open_ai"@,
    {
        "open_ai"
    }

    pub fn display_name(&self) -> (r: &'static str)
        ensures
            r@ == "OpenAI"@,
    {
        "OpenAI"
    }

    pub fn supported_types(&self) -> (r: Vec<ServiceType>)
        ensures
            r@ == seq![ServiceType::Llm, ServiceType::Transcribe, ServiceType::Tts],
    {
        vec![ServiceType::Llm, ServiceType::Transcribe, ServiceType::Tts]
    }

    /// The provider lists no models.
    pub fn list_llm_models(&self) -> (r: Option<Vec<RemoteLlmModelInfo>>)
        ensures
            r is None,
    {
        None
    }

    pub fn build_llm(&self, record: &LlmProviderRecord, model: &LlmModelRecord) -> (r: Result<
        LlmClientSetup,
        String,
    >)
        ensures
            match r {
                Ok(c) => {
                    &&& c.base_url@ == "https://api.openai.com/v1"@
                    &&& record.api_key matches Some(k) && c.api_key@ == k@
                    &&& opt_text(c.extra_params) == opt_text(model.extra_params)
                    &&& !c.prompt_cache
                },
                Err(e) => record.api_key is None && e@ == key_required(record.name@, "open_ai"@),
            },
    {
        match required_key(record, "open_ai") {
            Ok(api_key) => Ok(
                LlmClientSetup {
                    base_url: "https://api.openai.com/v1",
                    api_key,
                    extra_params: copy_opt(&model.extra_params),
                    prompt_cache: false,
                },
            ),
            Err(e) => Err(e),
        }
    }

    pub fn build_tts(&self, record: &LlmProviderRecord, model: &TtsModelRecord) -> (r: Result<
        OpenAiTtsSynthesiser,
        String,
    >)
        ensures
            match r {
                Ok(c) => is_tts_for(c, *record, *model, "https://api.openai.com/v1"@),
                Err(e) => record.api_key is None && e@ == key_required(record.name@, "open_ai"@),
            },
    {
        tts_for(record, model, "https://api.openai.com/v1", "open_ai")
    }

    pub fn build_transcriber(&self, record: &LlmProviderRecord, model: &TranscribeModelRecord) -> (r:
        Result<OpenAiAudioTranscriber, String>)
        ensures
            match r {
                Ok(c) => is_transcriber_for(c, *record, *model, "https://api.openai.com/v1"@),
                Err(e) => record.api_key is None && e@ == key_required(record.name@, "open_ai"@),
            },
    {
        transcriber_for(record, model, "https://api.openai.com/v1", "open_ai")
    }

    pub fn ui_meta(&self) -> (r: ProviderUiMeta)
        ensures
            r.type_id@ == "open_ai"@,
            r.display_name@ == "OpenAI"@,
            r.color@ == "#10a37f"@,
            r.icon@ == "bi-lightning-charge"@,
            r.fields@.len() == 2,
            r.fields@[0].key@ == "api_key"@ && r.fields@[0].label@ == "API Key"@,
            r.fields@[0].required && r.fields@[0].secret,
            r.fields@[1].key@ == "base_url"@ && r.fields@[1].label@ == "Base URL (optional)"@,
            !r.fields@[1].required && !r.fields@[1].secret,
    {
        ProviderUiMeta {
            type_id: "open_ai",
            display_name: "OpenAI",
            color: "#10a37f",
            icon: "bi-lightning-charge",
            fields: vec![
                ProviderField { key: "api_key", label: "API Key", required: true, secret: true },
                ProviderField {
                    key: "base_url",
                    label: "Base URL (optional)",
                    required: false,
                    secret: false,
                },
            ],
        }
    }
}

/// A model in a provider's catalog.
#[derive(Debug)]
pub struct RemoteLlmModelInfo {
    pub id: String,
    pub name: String,
    pub context_length: Option<u64>,
    pub capabilities: Vec<String>,
    pub vision: bool,
    /// The price of one token of a prompt, as the provider writes it.
    pub prompt_price: Option<String>,
    /// The price of one token of an answer, as the provider writes it.
    pub completion_price: Option<String>,
}

/// What a `RemoteLlmModelInfo` holds.
pub struct RemoteModelView {
    pub id: Seq<char>,
    pub name: Seq<char>,
    pub context_length: Option<int>,
    pub capabilities: Seq<Seq<char>>,
    pub vision: bool,
    pub prompt_price: Option<Seq<char>>,
    pub completion_price: Option<Seq<char>>,
}

impl View for RemoteLlmModelInfo {
    type V = RemoteModelView;

    open spec fn view(&self) -> RemoteModelView {
        RemoteModelView {
            id: self.id@,
            name: self.name@,
            context_length: match self.context_length {
                Some(n) => Some(n as int),
                None => None,
            },
            capabilities: texts(self.capabilities@),
            vision: self.vision,
            prompt_price: opt_text(self.prompt_price),
            completion_price: opt_text(self.completion_price),
        }
    }
}

pub open spec fn remote_views(v: Seq<RemoteLlmModelInfo>) -> Seq<RemoteModelView> {
    v.map_values(|m: RemoteLlmModelInfo| m@)
}

/// The capability that a supported parameter stands for.
pub open spec fn capability_of(parameter: JsonView) -> Option<Seq<char>> {
    match parameter.as_text() {
        Some(t) => if t == "tools"@ {
            Some("function_calling"@)
        } else if t == "vision"@ || t == "image"@ {
            Some("vision"@)
        } else if t == "stream"@ {
            Some("streaming"@)
        } else {
            None
        },
        None => None,
    }
}

/// Function calling, then the capability of each parameter that stands for
/// one.
pub open spec fn capabilities_in(parameters: Seq<JsonView>) -> Seq<Seq<char>>
    decreases parameters.len(),
{
    if parameters.len() == 0 {
        seq!["function_calling"@]
    } else {
        let before = capabilities_in(parameters.drop_last());
        match capability_of(parameters.last()) {
            Some(c) => before.push(c),
            None => before,
        }
    }
}

/// The capabilities of a model in the catalog: in order, and each once.
pub open spec fn capabilities_of(model: JsonView) -> Seq<Seq<char>> {
    let parameters = match model.field("supported_parameters"@) {
        JsonView::Array(items) => items,
        _ => Seq::empty(),
    };
    deduped(stable_sorted(capabilities_in(parameters), by_text()))
}

/// A model of the catalog; none where it has no id.
pub open spec fn remote_model(model: JsonView) -> Option<RemoteModelView> {
    match model.field("id"@).as_text() {
        Some(id) => Some(
            RemoteModelView {
                id,
                name: or_text(model.field("name"@).as_text(), id),
                context_length: model.field("context_length"@).as_u64(),
                capabilities: capabilities_of(model),
                vision: capabilities_of(model).contains("vision"@),
                prompt_price: model.field("pricing"@).field("prompt"@).as_text(),
                completion_price: model.field("pricing"@).field("completion"@).as_text(),
            },
        ),
        None => None,
    }
}

/// The models of a catalog that have an id.
pub open spec fn remote_models(items: Seq<JsonView>) -> Seq<RemoteModelView>
    decreases items.len(),
{
    if items.len() == 0 {
        Seq::empty()
    } else {
        let before = remote_models(items.drop_last());
        match remote_model(items.last()) {
            Some(m) => before.push(m),
            None => before,
        }
    }
}

fn read_capabilities(model: &Json) -> (r: Vec<String>)
    ensures
        texts(r@) == capabilities_of(model@),
{
    let mut caps: Vec<String> = Vec::new();
    caps.push("function_calling".to_owned());
    assert(texts(caps@) =~= seq!["function_calling"@]);
    match model.get("supported_parameters") {
        Some(j) => match j {
            Json::Array(items) => {
                let ghost all = j@->Array_0;
                let mut i: usize = 0;
                assert(all.take(0) =~= Seq::<JsonView>::empty());
                while i < items.len()
                    invariant
                        i <= items@.len(),
                        all.len() == items@.len(),
                        forall|k: int| 0 <= k < all.len() ==> #[trigger] all[k] == items@[k]@,
                        texts(caps@) == capabilities_in(all.take(i as int)),
                    decreases items@.len() - i,
                {
                    assert(all.take(i + 1).drop_last() =~= all.take(i as int));
                    let ghost had = texts(caps@);
                    assert(all[i as int] == items@[i as int]@);
                    match items[i].as_text() {
                        Some(t) => {
                            let s: &str = t.as_str();
                            if str_eq(s, "tools") {
                                caps.push("function_calling".to_owned());
                                assert(texts(caps@) =~= had.push("function_calling"@));
                            } else if str_eq(s, "vision") || str_eq(s, "image") {
                                caps.push("vision".to_owned());
                                assert(texts(caps@) =~= had.push("vision"@));
                            } else if str_eq(s, "stream") {
                                caps.push("streaming".to_owned());
                                assert(texts(caps@) =~= had.push("streaming"@));
                            }
                        },
                        None => {},
                    }
                    i = i + 1;
                }
                assert(all.take(all.len() as int) =~= all);
            },
            _ => {},
        },
        None => {},
    }
    dedup_texts(sort_texts(caps))
}

fn text_below(v: &Json, outer: &str, inner: &str) -> (r: Option<String>)
    ensures
        opt_text(r) == v@.field(outer@).field(inner@).as_text(),
{
    match v.get(outer) {
        Some(j) => j.text_field(inner),
        None => None,
    }
}

fn read_model(model: &Json) -> (r: Option<RemoteLlmModelInfo>)
    ensures
        match r {
            Some(m) => remote_model(model@) == Some(m@),
            None => remote_model(model@) is None,
        },
{
    let id: String = match model.text_field("id") {
        Some(t) => t,
        None => {
            return None;
        },
    };
    let name: String = text_or(model.text_field("name"), id.as_str());
    let capabilities: Vec<String> = read_capabilities(model);
    let vision: bool = contains_item(&capabilities, "vision");
    Some(
        RemoteLlmModelInfo {
            id,
            name,
            context_length: model.u64_field("context_length"),
            capabilities,
            vision,
            prompt_price: text_below(model, "pricing", "prompt"),
            completion_price: text_below(model, "pricing", "completion"),
        },
    )
}

/// OpenRouter.
pub struct OpenRouterProvider;

impl OpenRouterProvider {
    pub fn type_id(&self) -> (r: &'static str)
        ensures
            r@ == "openrouter"@,
    {
        "openrouter"
    }

    pub fn display_name(&self) -> (r: &'static str)
        ensures
            r@ == "OpenRouter"@,
    {
        "OpenRouter"
    }

    pub fn supported_types(&self) -> (r: Vec<ServiceType>)
        ensures
            r@ == seq![
                ServiceType::Llm,
                ServiceType::Transcribe,
                ServiceType::ImageGenerate,
                ServiceType::Tts,
            ],
    {
        vec![
            ServiceType::Llm,
            ServiceType::Transcribe,
            ServiceType::ImageGenerate,
            ServiceType::Tts,
        ]
    }

    /// The key with which the catalog is asked for.
    pub fn list_llm_models(&self, record: &LlmProviderRecord) -> (r: Result<String, String>)
        ensures
            match record.api_key {
                Some(k) => r matches Ok(t) && t@ == k@,
                None => r matches Err(e) && e@ == key_required(
                    record.name@,
                    "openrouter model listing"@,
                ),
            },
    {
        required_key(record, "openrouter model listing")
    }

    /// The models of the catalog, given the provider's answer.
    pub fn fetch_catalog(&self, resp: &Json) -> (r: Result<Vec<RemoteLlmModelInfo>, String>)
        ensures
            match resp@.field("data"@) {
                JsonView::Array(items) => r matches Ok(models) && remote_views(models@)
                    == remote_models(items),
                _ => r matches Err(e) && e@ == "unexpected OpenRouter response shape"@,
            },
    {
        match resp.get("data") {
            Some(j) => match j {
                Json::Array(items) => {
                    let ghost all = j@->Array_0;
                    let mut models: Vec<RemoteLlmModelInfo> = Vec::new();
                    let mut i: usize = 0;
                    assert(remote_views(models@) =~= remote_models(all.take(0)));
                    while i < items.len()
                        invariant
                            i <= items@.len(),
                            all.len() == items@.len(),
                            forall|k: int| 0 <= k < all.len() ==> #[trigger] all[k] == items@[k]@,
                            remote_views(models@) == remote_models(all.take(i as int)),
                        decreases items@.len() - i,
                    {
                        assert(all.take(i + 1).drop_last() =~= all.take(i as int));
                        assert(all[i as int] == items@[i as int]@);
                        let ghost had = remote_views(models@);
                        match read_model(&items[i]) {
                            Some(m) => {
                                models.push(m);
                                assert(remote_views(models@) =~= had.push(m@));
                            },
                            None => {},
                        }
                        i = i + 1;
                    }
                    assert(all.take(all.len() as int) =~= all);
                    Ok(models)
                },
                _ => Err("unexpected OpenRouter response shape".to_owned()),
            },
            None => Err("unexpected OpenRouter response shape".to_owned()),
        }
    }

    /// Prompts are cached for the models that Anthropic serves.
    pub fn build_llm(&self, record: &LlmProviderRecord, model: &LlmModelRecord) -> (r: Result<
        LlmClientSetup,
        String,
    >)
        ensures
            match r {
                Ok(c) => {
                    &&& c.base_url@ == "https://openrouter.ai/api/v1"@
                    &&& record.api_key matches Some(k) && c.api_key@ == k@
                    &&& opt_text(c.extra_params) == opt_text(model.extra_params)
                    &&& c.prompt_cache == has_prefix(model.model_id@, "anthropic/"@)
                },
                Err(e) => record.api_key is None && e@ == key_required(record.name@, "openrouter"@),
            },
    {
        match required_key(record, "openrouter") {
            Ok(api_key) => Ok(
                LlmClientSetup {
                    base_url: "https://openrouter.ai/api/v1",
                    api_key,
                    extra_params: copy_opt(&model.extra_params),
                    prompt_cache: starts_with(model.model_id.as_str(), "anthropic/"),
                },
            ),
            Err(e) => Err(e),
        }
    }

    pub fn build_tts(&self, record: &LlmProviderRecord, model: &TtsModelRecord) -> (r: Result<
        OpenAiTtsSynthesiser,
        String,
    >)
        ensures
            match r {
                Ok(c) => is_tts_for(c, *record, *model, "https://openrouter.ai/api/v1"@),
                Err(e) => record.api_key is None && e@ == key_required(record.name@, "openrouter"@),
            },
    {
        tts_for(record, model, "https://openrouter.ai/api/v1", "openrouter")
    }

    pub fn build_transcriber(&self, record: &LlmProviderRecord, model: &TranscribeModelRecord) -> (r:
        Result<OpenAiAudioTranscriber, String>)
        ensures
            match r {
                Ok(c) => is_transcriber_for(c, *record, *model, "https://openrouter.ai/api/v1"@),
                Err(e) => record.api_key is None && e@ == key_required(record.name@, "openrouter"@),
            },
    {
        transcriber_for(record, model, "https://openrouter.ai/api/v1", "openrouter")
    }

    pub fn build_image_generator(
        &self,
        record: &LlmProviderRecord,
        model: &ImageGenerateModelRecord,
    ) -> (r: Result<OpenRouterImageGenerator, String>)
        ensures
            match r {
                Ok(c) => {
                    &&& c.id@ == model.name@
                    &&& c.base_url@ == or_text(
                        opt_text(record.base_url),
                        "https://openrouter.ai/api/v1"@,
                    )
                    &&& record.api_key matches Some(k) && c.api_key@ == k@
                    &&& c.model@ == model.model_id@
                },
                Err(e) => record.api_key is None && e@ == key_required(record.name@, "openrouter"@),
            },
    {
        let url: String = text_or(copy_opt(&record.base_url), "https://openrouter.ai/api/v1");
        match required_key(record, "openrouter") {
            Ok(key) => Ok(
                OpenRouterImageGenerator::new(
                    model.name.as_str(),
                    url,
                    key,
                    model.model_id.as_str(),
                ),
            ),
            Err(e) => Err(e),
        }
    }

    pub fn ui_meta(&self) -> (r: ProviderUiMeta)
        ensures
            r.type_id@ == "openrouter"@,
            r.display_name@ == "OpenRouter"@,
            r.color@ == "#8b5cf6"@,
            r.icon@ == "bi-hdd-stack"@,
            r.fields@.len() == 1,
            r.fields@[0].key@ == "api_key"@ && r.fields@[0].label@ == "API Key"@,
            r.fields@[0].required && r.fields@[0].secret,
    {
        ProviderUiMeta {
            type_id: "openrouter",
            display_name: "OpenRouter",
            color: "#8b5cf6",
            icon: "bi-hdd-stack",
            fields: vec![
                ProviderField { key: "api_key", label: "API Key", required: true, secret: true },
            ],
        }
    }
}

/// What a model of a provider is reached with: the provider's address and key,
/// and what is set for the model. Without a key there is no client. Prompts are
/// cached at one provider, and there for the models of one maker.
pub proof fn law_clients_of_models(
    a: &OpenAiProvider,
    b: &OpenRouterProvider,
    record: &LlmProviderRecord,
    model: &LlmModelRecord,
    r: Result<LlmClientSetup, String>,
    s: Result<LlmClientSetup, String>,
)
    requires
        call_ensures(OpenAiProvider::build_llm, (a, record, model), r),
        call_ensures(OpenRouterProvider::build_llm, (b, record, model), s),
    ensures
        r is Ok <==> record.api_key is Some,
        s is Ok <==> record.api_key is Some,
        r matches Ok(c) ==> c.base_url@ == "https://api.openai.com/v1"@ && c.api_key@
            == record.api_key->Some_0@ && opt_text(c.extra_params) == opt_text(model.extra_params)
            && !c.prompt_cache,
        s matches Ok(c) ==> c.base_url@ == "https://openrouter.ai/api/v1"@ && c.api_key@
            == record.api_key->Some_0@ && opt_text(c.extra_params) == opt_text(model.extra_params)
            && c.prompt_cache == has_prefix(model.model_id@, "anthropic/"@),
        r matches Err(e) ==> e@ == "provider '"@ + record.name@ + "': api_key required for "@
            + "open_ai"@,
        s matches Err(e) ==> e@ == "provider '"@ + record.name@ + "': api_key required for "@
            + "openrouter"@,
{
}

/// The same of speech: the configured address, or the provider's own.
pub proof fn law_clients_of_speech(
    a: &OpenAiProvider,
    b: &OpenRouterProvider,
    record: &LlmProviderRecord,
    model: &TtsModelRecord,
    r: Result<OpenAiTtsSynthesiser, String>,
    s: Result<OpenAiTtsSynthesiser, String>,
)
    requires
        call_ensures(OpenAiProvider::build_tts, (a, record, model), r),
        call_ensures(OpenRouterProvider::build_tts, (b, record, model), s),
    ensures
        r is Ok <==> record.api_key is Some,
        s is Ok <==> record.api_key is Some,
        r matches Ok(c) ==> c.id@ == model.name@ && c.model@ == model.model_id@ && c.api_key@
            == record.api_key->Some_0@ && c.base_url@ == (match record.base_url {
            Some(u) => u@,
            None => "https://api.openai.com/v1"@,
        }) && opt_text(c.voice) == opt_text(model.voice_id) && opt_text(c.instructions) == opt_text(
            model.instructions,
        ) && opt_text(c.response_format) == opt_text(model.response_format),
        s matches Ok(c) ==> c.id@ == model.name@ && c.model@ == model.model_id@ && c.api_key@
            == record.api_key->Some_0@ && c.base_url@ == (match record.base_url {
            Some(u) => u@,
            None => "https://openrouter.ai/api/v1"@,
        }) && opt_text(c.voice) == opt_text(model.voice_id) && opt_text(c.instructions) == opt_text(
            model.instructions,
        ) && opt_text(c.response_format) == opt_text(model.response_format),
{
}

/// The same of transcription and of images.
pub proof fn law_clients_of_audio_and_images(
    a: &OpenAiProvider,
    b: &OpenRouterProvider,
    record: &LlmProviderRecord,
    model: &TranscribeModelRecord,
    image: &ImageGenerateModelRecord,
    r: Result<OpenAiAudioTranscriber, String>,
    s: Result<OpenAiAudioTranscriber, String>,
    g: Result<OpenRouterImageGenerator, String>,
)
    requires
        call_ensures(OpenAiProvider::build_transcriber, (a, record, model), r),
        call_ensures(OpenRouterProvider::build_transcriber, (b, record, model), s),
        call_ensures(OpenRouterProvider::build_image_generator, (b, record, image), g),
    ensures
        r is Ok <==> record.api_key is Some,
        s is Ok <==> record.api_key is Some,
        g is Ok <==> record.api_key is Some,
        r matches Ok(c) ==> c.id@ == model.name@ && c.model@ == model.model_id@ && c.api_key@
            == record.api_key->Some_0@ && c.base_url@ == (match record.base_url {
            Some(u) => u@,
            None => "https://api.openai.com/v1"@,
        }) && opt_text(c.language) == opt_text(model.language),
        s matches Ok(c) ==> c.id@ == model.name@ && c.model@ == model.model_id@ && c.api_key@
            == record.api_key->Some_0@ && c.base_url@ == (match record.base_url {
            Some(u) => u@,
            None => "https://openrouter.ai/api/v1"@,
        }) && opt_text(c.language) == opt_text(model.language),
        g matches Ok(c) ==> c.id@ == image.name@ && c.model@ == image.model_id@ && c.api_key@
            == record.api_key->Some_0@ && c.base_url@ == match record.base_url {
            Some(u) => u@,
            None => "https://openrouter.ai/api/v1"@,
        },
{
}

/// A catalog is read entry by entry: each with an id becomes a model, under its
/// name or else its id; one without is passed over. An answer of another shape
/// is refused.
pub proof fn law_catalogs_are_read(
    p: &OpenRouterProvider,
    a: &Json,
    b: &Json,
    items: Seq<JsonView>,
    x: JsonView,
    r: Result<Vec<RemoteLlmModelInfo>, String>,
    s: Result<Vec<RemoteLlmModelInfo>, String>,
)
    requires
        call_ensures(OpenRouterProvider::fetch_catalog, (p, a), r),
        call_ensures(OpenRouterProvider::fetch_catalog, (p, b), s),
        b@.field("data"@) == JsonView::Array(items.push(x)),
    ensures
        r is Ok <==> a@.field("data"@) is Array,
        r matches Err(e) ==> e@ == "unexpected OpenRouter response shape"@,
        a@.field("data"@) == JsonView::Array(Seq::empty()) ==> r->Ok_0@.len() == 0,
        a@.field("data"@) == JsonView::Array(items) && !(x.field("id"@) is Text) ==> remote_views(
            s->Ok_0@,
        ) == remote_views(r->Ok_0@),
        a@.field("data"@) == JsonView::Array(items) && x.field("id"@) is Text ==> {
            let m = s->Ok_0@.last();
            &&& s->Ok_0@.len() == r->Ok_0@.len() + 1
            &&& remote_views(s->Ok_0@).drop_last() == remote_views(r->Ok_0@)
            &&& JsonView::Text(m.id@) == x.field("id"@)
            &&& match x.field("name"@) {
                JsonView::Text(n) => m.name@ == n,
                _ => m.name@ == m.id@,
            }
            &&& m.vision == texts(m.capabilities@).contains("vision"@)
            &&& opt_text(m.prompt_price) == x.field("pricing"@).field("prompt"@).as_text()
            &&& opt_text(m.completion_price) == x.field("pricing"@).field("completion"@).as_text()
        },
{
    assert(items.push(x).drop_last() =~= items);
    let after = remote_views(s->Ok_0@);
    assert(after.len() == s->Ok_0@.len());
    if r is Ok {
        assert(remote_views(r->Ok_0@).len() == r->Ok_0@.len());
    }
    if a@.field("data"@) == JsonView::Array(items) && x.field("id"@) is Text {
        assert(after.drop_last() =~= remote_views(r->Ok_0@));
        assert(after.last() == s->Ok_0@.last()@);
    }
}

proof fn lemma_capabilities_in(p: Seq<JsonView>, c: Seq<char>)
    ensures
        capabilities_in(p).contains(c) <==> c == "function_calling"@ || exists|i: int|
            0 <= i < p.len() && capability_of(#[trigger] p[i]) == Some(c),
    decreases p.len(),
{
    if p.len() == 0 {
        assert(seq!["function_calling"@][0] == "function_calling"@);
        if seq!["function_calling"@].contains(c) {
            assert(seq!["function_calling"@].index_of(c) == 0);
        }
    } else {
        let rest = p.drop_last();
        lemma_capabilities_in(rest, c);
        let before = capabilities_in(rest);
        let all = capabilities_in(p);
        if before.contains(c) {
            assert(all[before.index_of(c)] == c);
            if exists|i: int| 0 <= i < rest.len() && capability_of(#[trigger] rest[i]) == Some(c) {
                let i = choose|i: int|
                    0 <= i < rest.len() && capability_of(#[trigger] rest[i]) == Some(c);
                assert(p[i] == rest[i]);
            }
        }
        if capability_of(p.last()) == Some(c) {
            assert(all[all.len() - 1] == c);
            assert(p[p.len() - 1] == p.last());
        }
        if all.contains(c) && !before.contains(c) {
            let k = all.index_of(c);
            assert(k == before.len());
            assert(capability_of(p[p.len() - 1]) == Some(c));
        }
        if exists|i: int| 0 <= i < p.len() && capability_of(#[trigger] p[i]) == Some(c) {
            let i = choose|i: int| 0 <= i < p.len() && capability_of(#[trigger] p[i]) == Some(c);
            if i < rest.len() {
                assert(rest[i] == p[i]);
            }
        }
    }
}

/// What a model can do: call functions, which all can; see, where it takes
/// images; and stream, where it says so.
pub proof fn law_capabilities_of_models(
    p: &OpenRouterProvider,
    j: &Json,
    r: Result<Vec<RemoteLlmModelInfo>, String>,
    x: JsonView,
    parameters: Seq<JsonView>,
)
    requires
        call_ensures(OpenRouterProvider::fetch_catalog, (p, j), r),
        j@.field("data"@) == JsonView::Array(seq![x]),
        x.field("id"@) is Text,
        x.field("supported_parameters"@) == JsonView::Array(parameters),
    ensures
        r is Ok && r->Ok_0@.len() == 1,
        texts(r->Ok_0@[0].capabilities@).contains("function_calling"@),
        texts(r->Ok_0@[0].capabilities@).contains("vision"@) <==> parameters.contains(
            JsonView::Text("vision"@),
        ) || parameters.contains(JsonView::Text("image"@)),
        texts(r->Ok_0@[0].capabilities@).contains("streaming"@) <==> parameters.contains(
            JsonView::Text("stream"@),
        ),
{
    let data = seq![x];
    assert(data.drop_last() =~= Seq::<JsonView>::empty());
    assert(remote_models(data.drop_last()) =~= Seq::<RemoteModelView>::empty());
    assert(remote_views(r->Ok_0@).len() == r->Ok_0@.len());
    assert(remote_views(r->Ok_0@)[0] == r->Ok_0@[0]@);
    let found = capabilities_in(parameters);
    lemma_capability_set(found, "function_calling"@);
    lemma_capability_set(found, "vision"@);
    lemma_capability_set(found, "streaming"@);
    lemma_capabilities_in(parameters, "function_calling"@);
    lemma_capabilities_in(parameters, "vision"@);
    lemma_capabilities_in(parameters, "streaming"@);
    reveal_strlit("function_calling");
    reveal_strlit("vision");
    reveal_strlit("streaming");
    reveal_strlit("tools");
    reveal_strlit("image");
    reveal_strlit("stream");
    assert("function_calling"@.len() == 16 && "vision"@.len() == 6 && "streaming"@.len() == 9
        && "tools"@.len() == 5 && "image"@.len() == 5 && "stream"@.len() == 6);
    assert("vision"@[0] == 'v' && "stream"@[0] == 's' && "tools"@[0] == 't' && "image"@[0] == 'i');
    lemma_parameter(parameters, "vision"@);
    lemma_parameter(parameters, "image"@);
    lemma_parameter(parameters, "stream"@);
    if exists|i: int|
        0 <= i < parameters.len() && capability_of(#[trigger] parameters[i]) == Some("vision"@) {
        let i = choose|i: int|
            0 <= i < parameters.len() && capability_of(#[trigger] parameters[i]) == Some(
                "vision"@,
            );
        assert(parameters[i] is Text);
        assert(parameters.contains(parameters[i]));
    }
    if exists|i: int|
        0 <= i < parameters.len() && capability_of(#[trigger] parameters[i]) == Some(
            "streaming"@,
        ) {
        let i = choose|i: int|
            0 <= i < parameters.len() && capability_of(#[trigger] parameters[i]) == Some(
                "streaming"@,
            );
        assert(parameters[i] is Text);
        assert(parameters.contains(parameters[i]));
    }
}

proof fn lemma_parameter(parameters: Seq<JsonView>, t: Seq<char>)
    ensures
        parameters.contains(JsonView::Text(t)) ==> exists|i: int|
            0 <= i < parameters.len() && capability_of(#[trigger] parameters[i]) == capability_of(
                JsonView::Text(t),
            ),
{
    if parameters.contains(JsonView::Text(t)) {
        let i = parameters.index_of(JsonView::Text(t));
        assert(capability_of(parameters[i]) == capability_of(JsonView::Text(t)));
    }
}

proof fn lemma_capability_set(found: Seq<Seq<char>>, c: Seq<char>)
    ensures
        deduped(stable_sorted(found, by_text())).contains(c) <==> found.contains(c),
{
    broadcast use vstd::seq_lib::group_to_multiset_ensures;

    law_text_order();
    law_stable_sorted(found, by_text());
    let sorted = stable_sorted(found, by_text());
    lemma_deduped(sorted);
    assert(sorted.contains(c) == found.contains(c)) by {
        assert(sorted.contains(c) == (sorted.to_multiset().count(c) > 0));
        assert(found.contains(c) == (found.to_multiset().count(c) > 0));
    }
    assert(deduped(sorted).contains(c) == sorted.contains(c));
}

/// The two providers: what they are called and what they offer.
pub proof fn law_providers(
    a: &OpenAiProvider,
    b: &OpenRouterProvider,
    ids: (&'static str, &'static str),
    names: (&'static str, &'static str),
    x: Vec<ServiceType>,
    y: Vec<ServiceType>,
    none: Option<Vec<RemoteLlmModelInfo>>,
    record: &LlmProviderRecord,
    key: Result<String, String>,
)
    requires
        call_ensures(OpenAiProvider::type_id, (a,), ids.0),
        call_ensures(OpenRouterProvider::type_id, (b,), ids.1),
        call_ensures(OpenAiProvider::display_name, (a,), names.0),
        call_ensures(OpenRouterProvider::display_name, (b,), names.1),
        call_ensures(OpenAiProvider::supported_types, (a,), x),
        call_ensures(OpenRouterProvider::supported_types, (b,), y),
        call_ensures(OpenAiProvider::list_llm_models, (a,), none),
        call_ensures(OpenRouterProvider::list_llm_models, (b, record), key),
    ensures
        ids.0@ == "open_ai"@ && ids.1@ == "openrouter"@,
        names.0@ == "OpenAI"@ && names.1@ == "OpenRouter"@,
        x@ == seq![ServiceType::Llm, ServiceType::Transcribe, ServiceType::Tts],
        y@ == seq![
            ServiceType::Llm,
            ServiceType::Transcribe,
            ServiceType::ImageGenerate,
            ServiceType::Tts,
        ],
        none is None,
        key is Ok <==> record.api_key is Some,
        key matches Ok(k) ==> k@ == record.api_key->Some_0@,
        key matches Err(e) ==> e@ == "provider '"@ + record.name@ + "': api_key required for "@
            + "openrouter model listing"@,
{
}

/// How the two are shown, and what has to be entered for them.
pub proof fn law_forms_of_providers(a: &OpenAiProvider, b: &OpenRouterProvider, x: ProviderUiMeta, y: ProviderUiMeta)
    requires
        call_ensures(OpenAiProvider::ui_meta, (a,), x),
        call_ensures(OpenRouterProvider::ui_meta, (b,), y),
    ensures
        x.type_id@ == "open_ai"@ && y.type_id@ == "openrouter"@,
        x.color@ == "#10a37f"@ && y.color@ == "#8b5cf6"@,
        x.fields@.len() == 2 && y.fields@.len() == 1,
        x.fields@[0].key@ == "api_key"@ && x.fields@[0].required && x.fields@[0].secret,
        x.fields@[1].key@ == "base_url"@ && !x.fields@[1].required && !x.fields@[1].secret,
        y.fields@[0].key@ == "api_key"@ && y.fields@[0].required && y.fields@[0].secret,
{
}

} // verus!
