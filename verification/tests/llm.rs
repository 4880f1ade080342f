use skald::config::{
    default_keep_recent, default_retention_days, default_tic_batch_size, default_tic_interval_secs,
    LlmStrength, TicConfig,
};
use skald::events::ServerEvent;
use skald::llm::manager::{
    model_tier, sort_models_for_agent, ClientStatus, LlmManager, LlmModelRecord, LlmProviderRecord,
};
use skald::session::fallback::{call_replied, fall_back};
use skald::session::turn::{Phase, Turn};

fn provider(id: i64) -> LlmProviderRecord {
    LlmProviderRecord {
        id,
        name: format!("p{id}"),
        provider: "open_ai".to_string(),
        api_key: None,
        base_url: None,
        description: None,
    }
}

fn model(name: &str, strength: Option<LlmStrength>, scope: &[&str], is_default: bool) -> LlmModelRecord {
    LlmModelRecord {
        id: name.len() as i64,
        provider_id: 1,
        model_id: name.to_string(),
        name: name.to_string(),
        strength,
        scope: scope.iter().map(|s| s.to_string()).collect(),
        is_default,
        priority: 100,
        extra_params: None,
        context_length: Some(1000),
        max_output_tokens: None,
        knowledge_cutoff: None,
        capabilities: Vec::new(),
    }
}

fn manager() -> LlmManager {
    LlmManager::new().reload(
        vec![provider(1)],
        vec![
            model("a", Some(LlmStrength::Low), &[], false),
            model("bb", Some(LlmStrength::High), &["coding"], true),
            model("ccc", None, &[], false),
            model("dddd", Some(LlmStrength::High), &[], false),
        ],
        &vec![true, true, true, false],
    )
}

#[test]
fn models_are_loaded_by_name() {
    let m = manager();
    assert_eq!(m.client_names(), vec!["auto", "a", "bb", "ccc"]);
    assert_eq!(m.default_name(), "bb");
    assert_eq!(m.position("ccc"), Some(2));
    assert!(m.get("dddd").is_none());
    assert_eq!(m.get_provider(1).unwrap().name, "p1");
    assert!(m.get_provider(2).is_none());
    assert_eq!(m.get_model(2).unwrap().name, "bb");
    assert_eq!(m.list_models_info().len(), 3);
}

#[test]
fn the_default_model_is_the_last_marked_or_the_first() {
    let load = |marks: &[bool], built: Vec<bool>| {
        let models = marks
            .iter()
            .enumerate()
            .map(|(i, d)| model(&format!("m{i}"), None, &[], *d))
            .collect();
        LlmManager::new().reload(vec![provider(1)], models, &built).default
    };
    assert_eq!(load(&[false, true, true, false], vec![true; 4]), "m2");
    assert_eq!(load(&[false, true, true, false], vec![true, true, false, true]), "m1");
    assert_eq!(load(&[false, false, false], vec![false, true, true]), "m1");
    assert_eq!(load(&[true], vec![false]), "");
}

#[test]
fn health_follows_failures() {
    let mut m = manager();
    for _ in 0..3 {
        m.mark_failure("a", "boom");
    }
    assert_eq!(m.get("a").unwrap().health.status, ClientStatus::Degraded);
    for _ in 0..2 {
        m.mark_failure("a", "bang");
    }
    assert_eq!(m.get("a").unwrap().health.status, ClientStatus::Down);
    assert_eq!(m.get("a").unwrap().health.last_error.as_deref(), Some("bang"));
    let kept = m.reload(vec![provider(1)], vec![model("a", None, &[], false)], &vec![true]);
    assert_eq!(kept.get("a").unwrap().health.status, ClientStatus::Down);
    m.mark_success("a");
    assert_eq!(m.get("a").unwrap().health.status, ClientStatus::Healthy);
    m.mark_failure("nobody", "x");
}

#[test]
fn a_failing_model_is_replaced_until_none_is_left() {
    let mut m = manager();
    let mut t = Turn::new("bb".to_string(), 5, false);
    t.begin_round(false);
    let (again, event) = fall_back(&mut t, &mut m, "500 oops\nmore", Some("coding"), None);
    assert!(again);
    assert_eq!(m.get("bb").unwrap().health.consecutive_failures, 1);
    assert_eq!(m.get("bb").unwrap().health.last_error.as_deref(), Some("500 oops\nmore"));
    assert!(matches!(
        event,
        ServerEvent::ModelFallback { from, to, reason }
            if from == "bb" && to == t.model && reason == "500 oops"
    ));
    assert_ne!(t.model, "bb");
    let (again, _) = fall_back(&mut t, &mut m, "timeout", None, None);
    assert!(again);
    let (again, event) = fall_back(&mut t, &mut m, "timeout", None, None);
    assert!(!again);
    assert_eq!(t.phase, Phase::Ended);
    assert!(matches!(
        event,
        ServerEvent::LlmFailed { tried, last_error } if tried == t.tried && tried.len() == 3 && last_error == "timeout"
    ));
    let mut t = Turn::new("bb".to_string(), 5, false);
    t.begin_round(false);
    call_replied(&mut t, &mut m);
    assert_eq!(t.phase, Phase::Saving);
    assert_eq!(m.get("bb").unwrap().health.consecutive_failures, 0);
}

#[test]
fn the_best_model_is_chosen() {
    let mut m = manager();
    let pick = |m: &LlmManager, scope: Option<&str>, strength| {
        m.slots[m.select(scope, strength).unwrap()].model.name.clone()
    };
    assert_eq!(pick(&m, Some("coding"), Some(LlmStrength::Average)), "bb");
    let other = m
        .select_excluding(&vec!["bb".to_string()], Some("coding"), Some(LlmStrength::Average))
        .unwrap();
    assert_ne!(m.slots[other].model.name, "bb");
    assert_eq!(m.resolve(Some("ccc"), None, None), Ok(2));
    assert!(m.resolve(Some("zzz"), None, None).is_err());
    assert!(m.resolve(Some("auto"), None, None).is_ok());
    m.refresh_context_length("a", Some(5));
    assert_eq!(m.slots[0].context_length, Some(5));
    m.refresh_context_length("a", None);
    assert_eq!(m.slots[0].context_length, Some(5));
    assert!(LlmManager::new().select(None, None).is_err());
    let tier = |s, sc: &[&str], rs, rst| {
        model_tier(s, &sc.iter().map(|x| x.to_string()).collect(), rs, rst)
    };
    assert!(
        tier(Some(LlmStrength::High), &["coding"], Some("coding"), Some(LlmStrength::High))
            < tier(Some(LlmStrength::Low), &[], Some("coding"), Some(LlmStrength::High))
    );
    let sorted = sort_models_for_agent(m.list_models_info(), Some("coding"), None);
    assert_eq!(sorted[0].name, "bb");
}

#[test]
fn settings_have_defaults() {
    assert_eq!(default_keep_recent(), 6);
    assert_eq!(default_retention_days(), 14);
    assert_eq!(default_tic_interval_secs(), 900);
    assert_eq!(default_tic_batch_size(), 50);
    assert_eq!(TicConfig::default().batch_size, 50);
    assert!(LlmStrength::VeryHigh.rank() > LlmStrength::High.rank());
}
