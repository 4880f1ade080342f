use skald::json::{parse_json, write_json};
use skald::llm::catalog::{
    build_entry, is_fresh, list_providers_info, listed_models, provider_to_list, ProviderRegistry,
    CATALOG_TTL, MODEL_META_TTL,
};
use skald::llm::manager::{LlmManager, LlmModelRecord, LlmProviderRecord};
use skald::llm::providers::{
    ImageGenerateModelRecord, OpenAiProvider, OpenRouterProvider, ServiceType,
    TranscribeModelRecord,
};
use skald::media::images::{image_bytes, OpenRouterImageGenerator};
use skald::media::transcribe::{mime_for_format, OpenAiAudioTranscriber};
use skald::media::tts::{
    extract_error_detail, row_to_record, tts_model_not_found, tts_record, ModelPayload,
    OpenAiTtsSynthesiser, TtsModelRecord, TtsModelRow,
};

fn provider(key: Option<&str>, base_url: Option<&str>) -> LlmProviderRecord {
    LlmProviderRecord {
        id: 1,
        name: "mine".to_string(),
        provider: "open_ai".to_string(),
        api_key: key.map(str::to_string),
        base_url: base_url.map(str::to_string),
        description: None,
    }
}

fn model(id: &str) -> LlmModelRecord {
    LlmModelRecord {
        id: 2,
        provider_id: 1,
        model_id: id.to_string(),
        name: "m".to_string(),
        strength: None,
        scope: Vec::new(),
        is_default: false,
        priority: 100,
        extra_params: Some("{}".to_string()),
        context_length: None,
        max_output_tokens: None,
        knowledge_cutoff: None,
        capabilities: Vec::new(),
    }
}

fn voice() -> TtsModelRecord {
    TtsModelRecord {
        id: 3,
        provider_id: 1,
        model_id: "tts-1".to_string(),
        voice_id: None,
        name: "speaker".to_string(),
        description: None,
        instructions: Some("slowly".to_string()),
        response_format: Some("pcm".to_string()),
        priority: 1,
    }
}

#[test]
fn chat_clients_need_a_key() {
    let c = OpenAiProvider.build_llm(&provider(Some("k"), Some("http://x")), &model("gpt")).unwrap();
    assert_eq!(c.base_url, "https://api.openai.com/v1");
    assert_eq!(c.api_key, "k");
    assert!(!c.prompt_cache);
    assert_eq!(
        OpenAiProvider.build_llm(&provider(None, None), &model("gpt")).unwrap_err(),
        "provider 'mine': api_key required for open_ai"
    );
    let p = provider(Some("k"), None);
    assert!(OpenRouterProvider.build_llm(&p, &model("anthropic/x")).unwrap().prompt_cache);
    assert!(!OpenRouterProvider.build_llm(&p, &model("openai/anthropic/")).unwrap().prompt_cache);
    assert_eq!(
        OpenRouterProvider.list_llm_models(&provider(None, None)).unwrap_err(),
        "provider 'mine': api_key required for openrouter model listing"
    );
    assert!(OpenAiProvider.list_llm_models().is_none());
}

#[test]
fn speech_clients_use_the_base_url() {
    let t = OpenAiProvider.build_tts(&provider(Some("k"), Some("http://x/")), &voice()).unwrap();
    assert_eq!(t.url(), "http://x/audio/speech");
    let t = OpenRouterProvider.build_tts(&provider(Some("k"), None), &voice()).unwrap();
    assert_eq!(t.url(), "https://openrouter.ai/api/v1/audio/speech");
    assert_eq!(t.output_format(), "pcm");
    let tm = TranscribeModelRecord {
        model_id: "whisper".to_string(),
        name: "w".to_string(),
        language: Some("it".to_string()),
    };
    let t = OpenAiProvider.build_transcriber(&provider(Some("k"), None), &tm).unwrap();
    assert_eq!(t.url(), "https://api.openai.com/v1/audio/transcriptions");
    assert_eq!(t.language.as_deref(), Some("it"));
    let im = ImageGenerateModelRecord { model_id: "grok".to_string(), name: "i".to_string() };
    assert_eq!(
        OpenRouterProvider.build_image_generator(&provider(None, None), &im).unwrap_err(),
        "provider 'mine': api_key required for openrouter"
    );
    assert_eq!(OpenAiProvider.ui_meta().fields.len(), 2);
    assert_eq!(OpenRouterProvider.ui_meta().icon, "bi-hdd-stack");
    assert_eq!(
        OpenAiProvider.supported_types(),
        vec![ServiceType::Llm, ServiceType::Transcribe, ServiceType::Tts]
    );
}

#[test]
fn the_catalog_is_read() {
    let resp = parse_json(
        "{\"data\":[{\"id\":\"a\",\"name\":\"A\",\"context_length\":8,\"pricing\":{\"prompt\":\"0.1\"},\"supported_parameters\":[\"stream\",\"tools\",\"image\",3,\"vision\"]},{\"name\":\"no id\"},{\"id\":\"b\"}]}",
    )
    .unwrap();
    let models = OpenRouterProvider.fetch_catalog(&resp).unwrap();
    assert_eq!(models.len(), 2);
    assert_eq!(models[0].capabilities, vec!["function_calling", "streaming", "vision"]);
    assert!(models[0].vision);
    assert_eq!(models[0].context_length, Some(8));
    assert_eq!(models[0].prompt_price.as_deref(), Some("0.1"));
    assert_eq!(models[0].completion_price, None);
    assert_eq!(models[1].name, "b");
    assert!(!models[1].vision);
    assert_eq!(models[1].capabilities, vec!["function_calling"]);
    assert_eq!(
        OpenRouterProvider.fetch_catalog(&parse_json("{}").unwrap()).unwrap_err(),
        "unexpected OpenRouter response shape"
    );
}

#[test]
fn catalogs_hold_for_a_while() {
    assert!(is_fresh(Some(86_399_999), CATALOG_TTL));
    assert!(!is_fresh(Some(86_400_000), CATALOG_TTL));
    assert!(is_fresh(Some(3_599_999), MODEL_META_TTL));
    assert!(!is_fresh(Some(3_600_000), MODEL_META_TTL));
    assert!(!is_fresh(None, CATALOG_TTL));
}

#[test]
fn providers_are_found_by_type() {
    let mut types = ProviderRegistry::new();
    let m = LlmManager::new().reload(vec![provider(Some("k"), None)], Vec::new(), &Vec::new());
    assert_eq!(provider_to_list(&m, &types, 9).unwrap_err(), "provider 9 not found");
    assert_eq!(
        provider_to_list(&m, &types, 1).unwrap_err(),
        "unknown provider type 'open_ai' for provider 1"
    );
    assert!(list_providers_info(&m, &types)[0].supported_types.is_empty());
    let p = provider(Some("k"), None);
    assert_eq!(build_entry(&types, &p, None).unwrap_err(), "unknown provider type 'open_ai'");
    types.register_builtin("open_ai", OpenAiProvider.supported_types());
    assert_eq!(provider_to_list(&m, &types, 1).unwrap().name, "mine");
    assert_eq!(list_providers_info(&m, &types)[0].supported_types.len(), 3);
    assert_eq!(
        build_entry(&types, &p, None).unwrap_err(),
        "provider 'open_ai' does not support LLM"
    );
    let built = Some(OpenAiProvider.build_llm(&p, &model("gpt")));
    assert_eq!(build_entry(&types, &p, built).unwrap().api_key, "k");
    assert_eq!(
        listed_models(None).unwrap_err(),
        "this provider does not support model listing"
    );
}

#[test]
fn speech_requests_have_defaults() {
    let t = OpenAiTtsSynthesiser::new(
        "id",
        "http://x//".to_string(),
        "k".to_string(),
        "tts",
        None,
        Some("calm".to_string()),
        None,
    );
    assert_eq!(t.url(), "http://x/audio/speech");
    assert_eq!(
        write_json(&t.request("hi", None)),
        "{\"input\":\"hi\",\"instructions\":\"calm\",\"model\":\"tts\",\"response_format\":\"mp3\",\"voice\":\"alloy\"}"
    );
    let over = t.request("hi", Some("loud".to_string()));
    assert_eq!(over.text_field("instructions"), Some("loud".to_string()));
    assert_eq!(
        t.error("500 Internal Server Error", "{\"error\":{\"message\":\"m\"}}"),
        "openai_tts: API error 500 Internal Server Error: m"
    );
}

#[test]
fn error_details_are_never_empty() {
    assert_eq!(extract_error_detail(""), "<empty response body>");
    assert_eq!(extract_error_detail("  oops \n"), "oops");
    assert_eq!(extract_error_detail("{}"), "{}");
    assert_eq!(
        extract_error_detail("{\"error\":{\"message\":\" m \",\"metadata\":{\"raw\":\"up\"}}}"),
        "m — upstream: up"
    );
    assert_eq!(
        extract_error_detail("{\"error\":{\"metadata\":{\"provider_error\":\" p \"}}}"),
        "p"
    );
    assert_eq!(
        extract_error_detail("{\"error\":{\"message\":\"m\",\"metadata\":{\"raw\":\" \"}}}"),
        "m"
    );
}

#[test]
fn transcriptions_are_read() {
    let t = OpenAiAudioTranscriber::new("i", "http://x".to_string(), "k".to_string(), "w", None);
    assert_eq!(t.filename("webm"), "audio.webm");
    let ok = parse_json("{\"text\":\" hello \"}").unwrap();
    assert_eq!(t.transcribe(true, "200 OK", &ok), Ok("hello".to_string()));
    assert_eq!(
        t.transcribe(true, "200 OK", &parse_json("{}").unwrap()),
        Err("openai_audio: missing 'text' field in response".to_string())
    );
    assert_eq!(
        t.transcribe(false, "401 Unauthorized", &ok),
        Err("openai_audio: API error 401 Unauthorized: unknown error".to_string())
    );
    assert_eq!(mime_for_format("mpga"), "audio/mpeg");
    assert_eq!(mime_for_format("m4a"), "audio/mp4");
    assert_eq!(mime_for_format("flac"), "audio/flac");
    assert_eq!(mime_for_format("aac"), "application/octet-stream");
}

#[test]
fn images_are_decoded() {
    let g = OpenRouterImageGenerator::new("i", "http://x/".to_string(), "k".to_string(), "grok");
    assert_eq!(g.url(), "http://x/chat/completions");
    assert_eq!(
        write_json(&g.request("a cat")),
        "{\"messages\":[{\"content\":\"a cat\",\"role\":\"user\"}],\"modalities\":[\"image\",\"text\"],\"model\":\"grok\"}"
    );
    let body = |url: &str| {
        parse_json(&format!(
            "{{\"choices\":[{{\"message\":{{\"images\":[{{\"image_url\":{{\"url\":\"{url}\"}}}}]}}}}]}}"
        ))
        .unwrap()
    };
    for prefix in
        ["data:image/png;base64,", "data:image/jpeg;base64,", "data:image/webp;base64,", ""]
    {
        let b = body(&format!("{prefix}aGkh"));
        assert_eq!(g.generate(true, "200 OK", &b), Ok(b"hi!".to_vec()));
    }
    assert!(g
        .generate(true, "200 OK", &body("data:image/gif;base64,aGkh"))
        .unwrap_err()
        .starts_with("openrouter_image: base64 decode failed: Invalid"));
    assert_eq!(
        g.generate(true, "200 OK", &parse_json("{\"b\":1,\"a\":2}").unwrap()).unwrap_err(),
        "openrouter_image: no image in response — full response: {\"a\":2,\"b\":1}"
    );
    assert_eq!(
        g.generate(
            false,
            "429 Too Many Requests",
            &parse_json("{\"error\":{\"message\":\"slow\"}}").unwrap()
        )
        .unwrap_err(),
        "openrouter_image: API error 429 Too Many Requests: slow"
    );
    assert_eq!(image_bytes(Ok(vec![1])), Ok(vec![1]));
}

#[test]
fn speech_models_are_stored() {
    let p = ModelPayload {
        provider_id: 4,
        model_id: "tts-1".to_string(),
        voice_id: Some(String::new()),
        name: String::new(),
        description: None,
        instructions: None,
        response_format: Some("pcm".to_string()),
        priority: None,
    };
    let r = tts_record(p);
    assert_eq!(r.name, "tts-1");
    assert_eq!(r.voice_id, None);
    assert_eq!(r.response_format.as_deref(), Some("pcm"));
    assert_eq!(r.priority, 100);
    let row = TtsModelRow {
        id: 1,
        provider_id: 4,
        model_id: "m".to_string(),
        voice_id: None,
        name: "n".to_string(),
        description: None,
        instructions: None,
        response_format: None,
        priority: 4_294_967_297,
    };
    assert_eq!(row_to_record(row).priority, 1);
    assert_eq!(tts_model_not_found(8).message, "tts model 8 not found");
}
