use maestro::infrastructure::llm::anthropic;
use maestro::infrastructure::bus::BusHistory;
use maestro::infrastructure::llm::reply::completion_outcome;
use maestro::infrastructure::system::gpu_report;
use maestro::domain::models::agent_id::AgentId;
use maestro::domain::models::config::{MaestroConfig, ModelConfig, ProviderConfig, SystemConfig};
use maestro::domain::models::message::{Message, MessageRole};
use maestro::domain::models::str_map::StrMap;
use maestro::domain::models::tool::{ToolError, ToolKind};
use maestro::domain::ports::llm_provider::{CompletionRequest, LlmError, ProviderStatus, TokenUsage};
use maestro::infrastructure::builtin_tools::{
    builtin_tool_definitions, check_read_size, output_cut_splits_char, required_arg, shell_output,
    tool_for, write_report,
};
use maestro::infrastructure::config::{candidate_paths, xdg_config_path};
use maestro::infrastructure::llm::gemini;
use maestro::infrastructure::llm::ollama;
use maestro::infrastructure::llm::openai;
use maestro::infrastructure::llm::registry::{provider_kind, FactoryError, ProviderKind, ProviderRegistry};

// ----- gemini -----

#[test]
fn gemini_normalizes_base_trailing_slash() {
    assert_eq!(
        gemini::normalize_base("https://generativelanguage.googleapis.com/"),
        "https://generativelanguage.googleapis.com"
    );
}

#[test]
fn builds_urls() {
    let base = gemini::base_for("https://generativelanguage.googleapis.com");
    assert_eq!(
        gemini::model_url(&base, "gemini-1.5-flash", "KEY"),
        "https://generativelanguage.googleapis.com/v1beta/models/gemini-1.5-flash?key=KEY"
    );
    assert_eq!(
        gemini::generate_url(&base, "gemini-1.5-pro", "KEY"),
        "https://generativelanguage.googleapis.com/v1beta/models/gemini-1.5-pro:generateContent?key=KEY"
    );
}

#[test]
fn gemini_maps_status_codes() {
    assert_eq!(gemini::status_from_code(200), ProviderStatus::Available);
    assert_eq!(gemini::status_from_code(400), ProviderStatus::Unauthorized);
    assert_eq!(gemini::status_from_code(401), ProviderStatus::Unauthorized);
    assert_eq!(gemini::status_from_code(403), ProviderStatus::Unauthorized);
    assert_eq!(gemini::status_from_code(404), ProviderStatus::ModelMissing);
    assert_eq!(gemini::status_from_code(503), ProviderStatus::Unreachable);
}

#[test]
fn chat_body_maps_roles_correctly() {
    let request = CompletionRequest {
        model: "gemini-1.5-flash".to_string(),
        messages: vec![
            Message::system("be brief").unwrap(),
            Message::user("hi").unwrap(),
            Message::assistant(AgentId::new("Maestro").unwrap(), "hello").unwrap(),
        ],
    };
    let parts = gemini::gemini_request(&request);
    assert_eq!(parts.system_instruction.as_deref(), Some("be brief"));
    assert_eq!(
        parts.contents,
        vec![
            ("user".to_string(), "hi".to_string()),
            ("model".to_string(), "hello".to_string())
        ]
    );
}

#[test]
fn gemini_parses_usage_when_present() {
    let meta = gemini::UsageMetadata { prompt_token_count: 50, candidates_token_count: 30 };
    let usage = gemini::parse_gemini_usage(&meta).unwrap();
    assert_eq!(usage.prompt_tokens, 50);
    assert_eq!(usage.completion_tokens, 30);
}

// ----- ollama -----

#[test]
fn normalizes_v1_and_trailing_slash() {
    assert_eq!(ollama::normalize_endpoint("http://127.0.0.1:11434/v1"), "http://127.0.0.1:11434");
    assert_eq!(ollama::normalize_endpoint("http://localhost:11434/"), "http://localhost:11434");
}

#[test]
fn builds_native_api_urls() {
    let base = ollama::normalize_endpoint("http://127.0.0.1:11434/v1");
    assert_eq!(ollama::tags_url(&base), "http://127.0.0.1:11434/api/tags");
    assert_eq!(ollama::generate_url(&base), "http://127.0.0.1:11434/api/generate");
}

#[test]
fn ollama_maps_status_codes() {
    assert_eq!(ollama::probe_status_from_code(200), ProviderStatus::Available);
    assert_eq!(ollama::probe_status_from_code(401), ProviderStatus::Unauthorized);
    assert_eq!(ollama::probe_status_from_code(404), ProviderStatus::ModelMissing);
    assert_eq!(ollama::probe_status_from_code(500), ProviderStatus::Unreachable);
}

#[test]
fn renders_prompt_in_order() {
    let msgs = vec![Message::system("be brief").unwrap(), Message::user("hi").unwrap()];
    assert_eq!(ollama::render_prompt(&msgs), "system: be brief\nuser: hi");
    assert_eq!(ollama::role_str(MessageRole::Assistant), "assistant");
}

#[test]
fn ollama_usage_needs_both_counts() {
    assert_eq!(
        ollama::usage_from_counts(Some(10), Some(20)),
        Some(TokenUsage { prompt_tokens: 10, completion_tokens: 20 })
    );
    assert_eq!(ollama::usage_from_counts(None, Some(20)), None);
    assert_eq!(ollama::usage_from_counts(None, None), None);
}

// ----- openai -----

#[test]
fn openai_normalizes_base_trailing_slash() {
    assert_eq!(openai::normalize_base("https://api.openai.com/v1/"), "https://api.openai.com/v1");
}

#[test]
fn builds_models_and_chat_urls() {
    let base = openai::normalize_base("https://api.openai.com/v1");
    assert_eq!(openai::models_url(&base), "https://api.openai.com/v1/models");
    assert_eq!(openai::chat_url(&base), "https://api.openai.com/v1/chat/completions");
}

#[test]
fn openai_maps_status_codes() {
    assert_eq!(openai::status_from_code(200), ProviderStatus::Available);
    assert_eq!(openai::status_from_code(401), ProviderStatus::Unauthorized);
    assert_eq!(openai::status_from_code(404), ProviderStatus::ModelMissing);
    assert_eq!(openai::status_from_code(503), ProviderStatus::Unreachable);
}

#[test]
fn chat_body_has_model_and_roled_messages() {
    let request = CompletionRequest {
        model: "gpt-4o-mini".to_string(),
        messages: vec![Message::system("be brief").unwrap(), Message::user("hi").unwrap()],
    };
    assert_eq!(
        openai::chat_messages(&request),
        vec![
            ("system".to_string(), "be brief".to_string()),
            ("user".to_string(), "hi".to_string())
        ]
    );
}

#[test]
fn openai_usage_needs_both_fields() {
    assert_eq!(
        openai::usage_from_fields(Some(15), Some(25)),
        Some(TokenUsage { prompt_tokens: 15, completion_tokens: 25 })
    );
    assert_eq!(openai::usage_from_fields(Some(15), None), None);
}

// ----- registry -----

fn config_with_kind(kind: &str) -> MaestroConfig {
    let mut providers = StrMap::new();
    providers.insert(
        "ollama".to_string(),
        ProviderConfig {
            kind: kind.to_string(),
            endpoint: "http://127.0.0.1:11434/v1".to_string(),
            models: vec![ModelConfig { name: "mistral".to_string() }],
        },
    );
    MaestroConfig {
        system: SystemConfig {
            default_provider: "ollama".to_string(),
            default_model: "mistral".to_string(),
            max_concurrency: 4,
        },
        providers,
        agents: StrMap::new(),
    }
}

fn build_kind(_key: &str, _c: &ProviderConfig, kind: ProviderKind) -> Result<ProviderKind, LlmError> {
    Ok(kind)
}

#[test]
fn builds_and_resolves_ollama() {
    let config = config_with_kind("ollama");
    let registry = ProviderRegistry::from_config(&config, build_kind).unwrap();
    assert_eq!(registry.len(), 1);
    assert_eq!(registry.resolve("ollama"), Some(&ProviderKind::Ollama));
    assert!(registry.default_provider(&config).is_some());
}

#[test]
fn unknown_kind_fails_fast() {
    let config = config_with_kind("mystery");
    let result = ProviderRegistry::from_config(&config, build_kind);
    assert!(matches!(result, Err(FactoryError::UnsupportedKind(k)) if k == "mystery"));
}

#[test]
fn builds_and_resolves_openai() {
    let mut providers = StrMap::new();
    providers.insert(
        "ollama".to_string(),
        ProviderConfig {
            kind: "openai".to_string(),
            endpoint: "https://api.openai.com/v1".to_string(),
            models: vec![ModelConfig { name: "mistral".to_string() }],
        },
    );
    let mut config = config_with_kind("openai");
    config.providers = providers;
    let registry = ProviderRegistry::from_config(&config, build_kind).unwrap();
    assert_eq!(registry.len(), 1);
    assert_eq!(registry.resolve("ollama"), Some(&ProviderKind::OpenAi));
}

#[test]
fn a_failed_build_names_the_provider() {
    let config = config_with_kind("ollama");
    let result = ProviderRegistry::<ProviderKind>::from_config(&config, |_k: &str, _c: &ProviderConfig, _kind: ProviderKind| {
        Err(LlmError::Unauthorized)
    });
    match result {
        Err(e) => {
            assert_eq!(
                e,
                FactoryError::Build { key: "ollama".to_string(), source: LlmError::Unauthorized }
            );
            assert!(e.message().starts_with("failed to build provider 'ollama': "));
        }
        Ok(_) => panic!("expected a build failure"),
    }
    assert_eq!(provider_kind("openai"), Ok(ProviderKind::OpenAi));
    assert_eq!(
        provider_kind("x").unwrap_err().message(),
        "unsupported provider kind 'x'"
    );
}

// ----- configuration lookup -----

#[test]
fn config_candidates_prefer_the_yml_name() {
    assert_eq!(
        candidate_paths(),
        vec![
            ("maestro/config.yml".to_string(), false),
            ("maestro/config.yaml".to_string(), true)
        ]
    );
}

#[test]
fn user_config_follows_xdg_then_home() {
    assert_eq!(
        xdg_config_path(Some("/x"), Some("/h")),
        Some(("/x".to_string(), "maestro/config.yml".to_string()))
    );
    assert_eq!(
        xdg_config_path(Some(""), Some("/h")),
        Some(("/h".to_string(), ".config/maestro/config.yml".to_string()))
    );
    assert_eq!(xdg_config_path(None, None), None);
}

// ----- built-in tools -----

#[test]
fn builtin_tools_need_approval_to_change_things() {
    let defs = builtin_tool_definitions();
    assert_eq!(defs.len(), 3);
    assert_eq!(defs[0].name, "read_file");
    assert!(!defs[0].requires_approval);
    assert!(defs[1].requires_approval && defs[2].requires_approval);
    assert_eq!(tool_for("shell_exec"), Ok(ToolKind::ShellExec));
    assert_eq!(tool_for("rm"), Err(ToolError::UnknownTool("rm".to_string())));
}

#[test]
fn tool_arguments_and_sizes_are_checked() {
    let mut args = StrMap::new();
    args.insert("path".to_string(), "src/main.rs".to_string());
    assert_eq!(required_arg(&args, "path"), Ok("src/main.rs".to_string()));
    assert_eq!(
        required_arg(&args, "content"),
        Err(ToolError::MissingArgument("content".to_string()))
    );
    assert_eq!(check_read_size(512000), Ok(()));
    assert_eq!(
        check_read_size(512001),
        Err(ToolError::ExecutionFailed("file too large (512001 bytes, max 512000)".to_string()))
    );
    assert_eq!(write_report(12, "a.txt"), "wrote 12 bytes to a.txt");
}

#[test]
fn shell_output_merges_and_truncates() {
    assert_eq!(shell_output("out", ""), "out");
    assert_eq!(shell_output("out", "err"), "out\n[stderr]\nerr");
    let long = "a".repeat(5000);
    assert!(!output_cut_splits_char(&long));
    let reported = shell_output(&long, "");
    assert_eq!(reported, format!("{}\u{2026}(truncated)", "a".repeat(4096)));
    let split = format!("{}\u{e9}", "a".repeat(4095));
    assert!(output_cut_splits_char(&format!("{}{}", split, "b".repeat(10))));
}

// ----- bus history -----


#[test]
fn history_keeps_the_most_recent_events() {
    let mut h: BusHistory<u32> = BusHistory::new(2);
    h.record(1);
    h.record(2);
    h.record(3);
    assert_eq!(h.events(), &[2, 3]);
    assert_eq!(h.len(), 2);
}

#[test]
fn a_zero_capacity_history_still_keeps_one_event() {
    let mut h: BusHistory<u32> = BusHistory::new(0);
    h.record(7);
    h.record(8);
    assert_eq!(h.events(), &[8]);
}

// ----- completion status -----


#[test]
fn completion_statuses_map_to_errors() {
    assert_eq!(completion_outcome(200, "m"), Ok(()));
    assert_eq!(completion_outcome(401, "m"), Err(LlmError::Unauthorized));
    assert_eq!(completion_outcome(403, "m"), Err(LlmError::Unauthorized));
    assert_eq!(completion_outcome(404, "mistral"), Err(LlmError::ModelMissing("mistral".to_string())));
    assert_eq!(
        completion_outcome(500, "m"),
        Err(LlmError::Unreachable("unexpected status 500".to_string()))
    );
}

// ----- system health -----


#[test]
fn gpu_is_reported_from_the_probes() {
    assert_eq!(gpu_report(Some(" RTX 4090 \n"), None), (true, Some("RTX 4090".to_string())));
    assert_eq!(gpu_report(Some("  "), Some("Apple M2 Pro")), (true, Some("Apple M2 Pro".to_string())));
    assert_eq!(gpu_report(None, Some("Intel Core i7")), (false, None));
    assert_eq!(gpu_report(None, None), (false, None));
}

// ----- usage read from provider replies -----

fn reply(json: &str) -> serde_json::Value {
    serde_json::from_str(json).unwrap()
}

#[test]
fn ollama_parses_usage_when_present() {
    let json = reply(r#"{"response": "ok", "prompt_eval_count": 10, "eval_count": 20}"#);
    let usage = ollama::usage_from_counts(
        json.get("prompt_eval_count").and_then(|v| v.as_u64()),
        json.get("eval_count").and_then(|v| v.as_u64()),
    )
    .unwrap();
    assert_eq!(usage.prompt_tokens, 10);
    assert_eq!(usage.completion_tokens, 20);
}

#[test]
fn missing_usage_returns_none() {
    let json = reply(r#"{"response": "ok"}"#);
    assert!(ollama::usage_from_counts(
        json.get("prompt_eval_count").and_then(|v| v.as_u64()),
        json.get("eval_count").and_then(|v| v.as_u64()),
    )
    .is_none());
}

#[test]
fn openai_parses_usage_when_present() {
    let json = reply(r#"{"usage": {"prompt_tokens": 15, "completion_tokens": 25}}"#);
    let usage = openai::usage_from_fields(
        json.pointer("/usage/prompt_tokens").and_then(|v| v.as_u64()),
        json.pointer("/usage/completion_tokens").and_then(|v| v.as_u64()),
    )
    .unwrap();
    assert_eq!(usage.prompt_tokens, 15);
    assert_eq!(usage.completion_tokens, 25);
}

#[test]
fn registry_builds_all_four_kinds() {
    for (kind, expected) in [
        ("ollama", ProviderKind::Ollama),
        ("openai", ProviderKind::OpenAi),
        ("anthropic", ProviderKind::Anthropic),
        ("gemini", ProviderKind::Gemini),
    ] {
        let config = config_with_kind(kind);
        let registry = ProviderRegistry::from_config(&config, build_kind).unwrap();
        assert_eq!(registry.resolve("ollama"), Some(&expected));
        assert_eq!(provider_kind(kind), Ok(expected));
    }
}

#[test]
fn anthropic_request_separates_the_system_prompt() {
    let request = CompletionRequest {
        model: "model-a".to_string(),
        messages: vec![
            Message::system("be brief").unwrap(),
            Message::system("be kind").unwrap(),
            Message::user("hi").unwrap(),
            Message::assistant(AgentId::new("Maestro").unwrap(), "hello").unwrap(),
        ],
    };
    let parts = anthropic::anthropic_request(&request);
    assert_eq!(parts.system.as_deref(), Some("be brief\nbe kind"));
    assert_eq!(
        parts.messages,
        vec![
            ("user".to_string(), "hi".to_string()),
            ("assistant".to_string(), "hello".to_string())
        ]
    );
    let base = anthropic::base_for("  ");
    assert_eq!(anthropic::messages_url(&base), "https://api.anthropic.com/v1/messages");
    assert_eq!(anthropic::models_url(&anthropic::base_for("https://x.test/")), "https://x.test/v1/models");
}
