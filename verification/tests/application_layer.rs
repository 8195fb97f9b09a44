use std::collections::hash_map::DefaultHasher;
use std::hash::{Hash, Hasher};
use std::time::Duration;

use maestro::application::agent_metrics::{AgentMetrics, AgentStats};
use maestro::application::agent_observability::{NarrationLevel, RuntimeEvent};
use maestro::application::agent_runtime::{cycle_input, failure_events, success_events};
use maestro::application::demand_fingerprint::fingerprint;
use maestro::application::error::RuntimeError;
use maestro::application::governance::{
    check_archive, check_create, check_save, default_persona_body, entry_file, list, load_personas,
    parse_custom_persona, sort_names, validate_body, validate_config_outcome, GovernanceError,
    GovernanceScan,
};
use maestro::application::model_router::{model_for, ResolutionSource};
use maestro::application::orchestrator::{orchestrate, placeholder_deliverable, Session, Signal};
use maestro::application::persistence::{
    is_release_dir, manifest_declares, parse_manifest, plan_release,
};
use maestro::application::persona_agent::{
    activate_default_agents, after_tool_content, combine_usage, is_send_block_malformed,
    parse_directed_send, PersonaAgent,
};
use maestro::application::tool_dispatch::{dispatch_outcome, format_result, split_tool_call};
use maestro::application::wizard::{persona_wizard, WizardError};
use maestro::domain::models::agent_id::AgentId;
use maestro::domain::models::config::{AgentBinding, MaestroConfig, SystemConfig};
use maestro::domain::models::fsm::FsmStage;
use maestro::domain::models::governance::{GovernanceKind, Origin};
use maestro::domain::models::message::{Message, MessageError, MessageRole};
use maestro::domain::models::persona::default_personas;
use maestro::domain::models::scratchpad::Scratchpad;
use maestro::domain::models::str_map::StrMap;
use maestro::domain::models::tool::{ToolCall, ToolError, ToolResult};
use maestro::domain::ports::llm_provider::{CompletionRequest, TokenUsage};

// ----- agent metrics -----

#[test]
fn record_cycle_increments_counts() {
    let mut metrics = AgentMetrics::new();
    let agent = AgentId::new("test").unwrap();
    metrics.record_cycle(&agent, true, None, Duration::from_millis(100).as_nanos());
    metrics.record_cycle(&agent, false, None, Duration::from_millis(50).as_nanos());

    let stats = metrics.stats(&agent).unwrap();
    assert_eq!(stats.cycles, 2);
    assert_eq!(stats.successes, 1);
    assert_eq!(stats.failures, 1);
    assert_eq!(stats.total_latency_ns, Duration::from_millis(150).as_nanos());
}

#[test]
fn session_totals_aggregate_all_agents() {
    let mut metrics = AgentMetrics::new();
    let agent1 = AgentId::new("a1").unwrap();
    let agent2 = AgentId::new("a2").unwrap();
    metrics.record_cycle(
        &agent1,
        true,
        Some(TokenUsage { prompt_tokens: 10, completion_tokens: 5 }),
        Duration::from_millis(100).as_nanos(),
    );
    metrics.record_cycle(
        &agent2,
        true,
        Some(TokenUsage { prompt_tokens: 20, completion_tokens: 10 }),
        Duration::from_millis(200).as_nanos(),
    );
    let totals = metrics.session_totals();
    assert_eq!(totals.cycles, 2);
    assert_eq!(totals.successes, 2);
    assert_eq!(totals.prompt_tokens, 30);
    assert_eq!(totals.completion_tokens, 15);
    assert_eq!(totals.total_tokens(), 45);
    assert_eq!(totals.total_latency_ns, Duration::from_millis(300).as_nanos());
}

#[test]
fn usage_accumulates_tokens() {
    let mut metrics = AgentMetrics::new();
    let agent = AgentId::new("test").unwrap();
    metrics.record_cycle(
        &agent,
        true,
        Some(TokenUsage { prompt_tokens: 5, completion_tokens: 2 }),
        0,
    );
    metrics.record_cycle(&agent, true, None, 0);
    metrics.record_cycle(
        &agent,
        true,
        Some(TokenUsage { prompt_tokens: 3, completion_tokens: 1 }),
        0,
    );
    let stats = metrics.stats(&agent).unwrap();
    assert_eq!(stats.prompt_tokens, 8);
    assert_eq!(stats.completion_tokens, 3);
    assert_eq!(stats.total_tokens(), 11);
}

#[test]
fn unknown_agent_has_no_stats_and_empty_totals_are_zero() {
    let metrics = AgentMetrics::new();
    let agent = AgentId::new("ghost").unwrap();
    assert!(metrics.stats(&agent).is_none());
    let totals = metrics.session_totals();
    assert_eq!(totals.cycles, 0);
    assert_eq!(totals.total_tokens(), 0);
    assert!(metrics.all_stats().is_empty());
}

#[test]
fn all_stats_lists_each_agent_once() {
    let mut metrics = AgentMetrics::new();
    let a = AgentId::new("a").unwrap();
    let b = AgentId::new("b").unwrap();
    metrics.record_cycle(&a, true, None, 1);
    metrics.record_cycle(&b, false, None, 2);
    metrics.record_cycle(&a, true, None, 3);
    let all = metrics.all_stats();
    assert_eq!(all.len(), 2);
    let a_stats = all.iter().find(|(id, _)| id.as_str() == "a").unwrap().1;
    assert_eq!(a_stats.cycles, 2);
    assert_eq!(a_stats.total_latency_ns, 4);
}

// ----- observability -----

#[test]
fn exposes_agent_for_every_variant() {
    let id = AgentId::new("Maestro").unwrap();
    let events = vec![
        RuntimeEvent::AgentObserving { agent: id.clone() },
        RuntimeEvent::AgentThinking { agent: id.clone() },
        RuntimeEvent::AgentActing { agent: id.clone() },
        RuntimeEvent::AgentReflected { agent: id.clone(), satisfied: true },
        RuntimeEvent::AgentActed { agent: id.clone(), produced: true },
        RuntimeEvent::AgentFailed { agent: id.clone(), error: "boom".to_string() },
        RuntimeEvent::AgentPublished { agent: id.clone() },
        RuntimeEvent::AgentDirectedSend {
            sender: id.clone(),
            recipient: AgentId::new("Peer").unwrap(),
        },
        RuntimeEvent::ScratchpadWrite { agent: id.clone(), key: "notes".to_string() },
        RuntimeEvent::AgentLifecycle { agent: id.clone(), status: "Running".to_string() },
        RuntimeEvent::AgentMetricsSnapshot {
            agent: id.clone(),
            cycles: 1,
            successes: 1,
            failures: 0,
            prompt_tokens: 10,
            completion_tokens: 20,
            latency_ms: 100,
        },
    ];
    for event in events {
        assert_eq!(event.agent(), &id);
        let n = event.narrate();
        assert_eq!(n.agent, "Maestro");
    }
}

#[test]
fn narration_of_a_failure_is_an_error_with_its_text() {
    let id = AgentId::new("Engineer").unwrap();
    let n = RuntimeEvent::AgentFailed { agent: id, error: "boom".to_string() }.narrate();
    assert_eq!(n.level, NarrationLevel::Error);
    assert_eq!(n.phase, "failed");
    assert_eq!(n.message, "agent failed");
    assert!(n.fields.iter().any(|(k, v)| k == "error" && v == "boom"));
}

// ----- runtime cycle helpers -----

#[test]
fn cycle_input_puts_context_before_new_input() {
    let id = AgentId::new("Engineer").unwrap();
    let history = vec![Message::user("earlier").unwrap()];
    let input = vec![Message::user("now").unwrap()];
    let mut pad = Scratchpad::new();
    pad.write("notes", "shared", id.clone());
    let merged = cycle_input(&history, &id, Some(&pad), &input);
    assert_eq!(merged.first().unwrap().content, "earlier");
    assert_eq!(merged.last().unwrap().content, "now");
    assert!(merged.iter().any(|m| m.content.contains("shared")));
    let plain = cycle_input(&Vec::new(), &id, None, &input);
    assert_eq!(plain.len(), 1);
    assert_eq!(plain[0].content, "now");
}

#[test]
fn failure_and_success_events_name_the_agent() {
    let id = AgentId::new("Engineer").unwrap();
    let stats = AgentStats {
        cycles: 1,
        successes: 0,
        failures: 1,
        prompt_tokens: 0,
        completion_tokens: 0,
        total_latency_ns: 7_000_000,
    };
    let failed = failure_events(&id, "boom", &stats);
    assert!(failed
        .iter()
        .any(|e| matches!(e, RuntimeEvent::AgentFailed { error, .. } if error == "boom")));
    assert!(failed.iter().all(|e| e.agent() == &id));
    let out = Some(Message::assistant(id.clone(), "done").unwrap());
    let ok = success_events(&id, &out, true, &stats);
    assert!(ok
        .iter()
        .any(|e| matches!(e, RuntimeEvent::AgentActed { produced: true, .. })));
    assert!(ok.iter().all(|e| e.agent() == &id));
}

// ----- fingerprint -----

#[test]
fn same_demand_same_fingerprint() {
    assert_eq!(fingerprint("build a cli"), fingerprint("build a cli"));
}

#[test]
fn case_insensitive() {
    assert_eq!(fingerprint("Build a CLI"), fingerprint("build a cli"));
}

#[test]
fn trims_whitespace() {
    assert_eq!(fingerprint("  build a cli  "), fingerprint("build a cli"));
}

#[test]
fn different_demands_differ() {
    assert_ne!(fingerprint("build a cli"), fingerprint("build a web app"));
}

#[test]
fn fingerprint_is_sixteen_hex_digits_of_the_std_hash() {
    let mut hasher = DefaultHasher::new();
    "build a cli".hash(&mut hasher);
    let expected = format!("{:016x}", hasher.finish());
    assert_eq!(fingerprint("  Build A CLI "), expected);
    assert_eq!(fingerprint("").len(), 16);
}

// ----- errors -----

#[test]
fn wraps_message_error() {
    let err: RuntimeError = MessageError::EmptyContent.into();
    assert!(matches!(err, RuntimeError::Message(_)));
}

#[test]
fn runtime_error_messages() {
    let err = RuntimeError::NoReadyProvider("ollama".to_string());
    assert_eq!(err.message(), "no ready provider: ollama");
}

// ----- governance service -----

#[test]
fn validate_rejects_bad_config_and_empty_body() {
    let parse_error = serde_yaml::from_str::<serde_yaml::Value>("not: [valid")
        .unwrap_err()
        .to_string();
    let (ok, issues) = validate_config_outcome(&Err(parse_error));
    assert!(!ok);
    assert!(!issues.is_empty());
    let (ok, _) = validate_body("   ");
    assert!(!ok);
    let (ok, _) = validate_body("# real");
    assert!(ok);
}

fn good_config() -> MaestroConfig {
    MaestroConfig {
        system: SystemConfig {
            default_provider: "ollama".to_string(),
            default_model: "mistral".to_string(),
            max_concurrency: 4,
        },
        providers: StrMap::new(),
        agents: StrMap::new(),
    }
}

#[test]
fn validate_reports_a_failed_cross_reference() {
    let (ok, issues) = validate_config_outcome(&Ok(good_config()));
    assert!(!ok);
    assert_eq!(issues.len(), 1);
}

#[test]
fn entry_files_resolve_by_kind() {
    assert_eq!(
        entry_file("config.yml").unwrap(),
        vec!["maestro".to_string(), "config.yml".to_string()]
    );
    assert_eq!(
        entry_file("personas/api_designer").unwrap(),
        vec!["maestro".to_string(), "personas".to_string(), "api_designer.md".to_string()]
    );
    assert!(entry_file("nonsense").is_none());
}

#[test]
fn maestro_persona_is_protected() {
    assert_eq!(
        check_save("personas/maestro").unwrap_err(),
        GovernanceError::Immutable("personas/maestro".to_string())
    );
    assert!(check_archive("personas/maestro").is_err());
    assert!(check_create("personas/maestro").is_err());
    assert_eq!(
        check_archive("skills/rust").unwrap(),
        ("skills".to_string(), "rust.md".to_string())
    );
    assert_eq!(
        GovernanceError::Immutable("x".to_string()).message(),
        "entry 'x' is immutable"
    );
}

#[test]
fn default_persona_bodies_are_synthesized() {
    let body = default_persona_body("personas/software_engineer").unwrap();
    assert!(body.starts_with("# Software Engineer"));
    assert!(default_persona_body("personas/nobody").is_none());
}

#[test]
fn sort_names_orders_ascending() {
    let names = vec!["b".to_string(), "a".to_string(), "c".to_string()];
    assert_eq!(sort_names(&names), vec!["a", "b", "c"]);
}

#[test]
fn listing_includes_defaults_customs_and_archive() {
    let scan = GovernanceScan {
        config_present: true,
        personas: vec!["zeta".to_string(), "api_designer".to_string()],
        skills: vec!["rust".to_string()],
        scopes: Vec::new(),
        archived_personas: Vec::new(),
        archived_skills: vec!["old".to_string()],
        archived_scopes: Vec::new(),
    };
    let entries = list(&scan);
    assert_eq!(entries[0].id, "config.yml");
    assert_eq!(entries[0].kind, GovernanceKind::Config);
    assert!(entries
        .iter()
        .any(|e| e.id == "personas/maestro" && e.origin == Origin::Default));
    let customs: Vec<&str> = entries
        .iter()
        .filter(|e| e.kind == GovernanceKind::Persona && e.origin == Origin::Custom)
        .map(|e| e.id.as_str())
        .collect();
    assert_eq!(customs, vec!["personas/api_designer", "personas/zeta"]);
    assert!(entries.iter().any(|e| e.id == "skills/old" && e.archived));
}

#[test]
fn custom_persona_is_parsed_from_its_body() {
    let maestro = AgentId::new("Maestro").unwrap();
    let p = parse_custom_persona("# API Designer\n\n## Responsibility\ndesign apis\n", &maestro)
        .unwrap();
    assert_eq!(p.id.as_str(), "API Designer");
    assert_eq!(p.responsibility, "design apis");
    assert!(!p.orchestrator);
    let q = parse_custom_persona("# Auditor\n", &maestro).unwrap();
    assert_eq!(q.responsibility, "Custom persona: Auditor.");
    assert!(parse_custom_persona("no heading", &maestro).is_none());
}

#[test]
fn load_personas_adds_customs_after_defaults() {
    let bodies = vec!["# API Designer\n".to_string()];
    let all = load_personas(&bodies);
    assert_eq!(all.len(), default_personas().len() + 1);
    assert_eq!(all.last().unwrap().id.as_str(), "API Designer");
}

// ----- model router -----

fn config_with(agents: StrMap<AgentBinding>) -> MaestroConfig {
    MaestroConfig {
        system: SystemConfig {
            default_provider: "ollama".to_string(),
            default_model: "mistral".to_string(),
            max_concurrency: 4,
        },
        providers: StrMap::new(),
        agents,
    }
}

#[test]
fn bound_persona_resolves_with_bound_source() {
    let mut agents = StrMap::new();
    agents.insert(
        "Software Engineer".to_string(),
        AgentBinding {
            provider: "ollama".to_string(),
            model: "codellama".to_string(),
            fallback_model: None,
        },
    );
    let config = config_with(agents);
    let res = model_for(&config, "Software Engineer");
    assert_eq!(res.model, "codellama");
    assert_eq!(res.source, ResolutionSource::Bound);
    assert_eq!(res.cascade, vec!["codellama".to_string(), "mistral".to_string()]);
}

#[test]
fn fallback_model_appears_in_cascade() {
    let mut agents = StrMap::new();
    agents.insert(
        "Software Engineer".to_string(),
        AgentBinding {
            provider: "ollama".to_string(),
            model: "codellama".to_string(),
            fallback_model: Some("gpt-4".to_string()),
        },
    );
    let config = config_with(agents);
    let res = model_for(&config, "Software Engineer");
    assert_eq!(res.model, "codellama");
    assert_eq!(
        res.cascade,
        vec!["codellama".to_string(), "gpt-4".to_string(), "mistral".to_string()]
    );
}

#[test]
fn unbound_persona_resolves_with_default_source() {
    let config = config_with(StrMap::new());
    let res = model_for(&config, "Quality Assurance");
    assert_eq!(res.model, "mistral");
    assert_eq!(res.provider, "ollama");
    assert_eq!(res.source, ResolutionSource::Default);
    assert_eq!(res.cascade, vec!["mistral".to_string()]);
}

// ----- orchestrator -----

fn stages(signals: &[Signal]) -> Vec<FsmStage> {
    signals
        .iter()
        .filter_map(|s| match s {
            Signal::Stage(stage) => Some(*stage),
            _ => None,
        })
        .collect()
}

#[test]
fn walks_the_full_fsm_in_order() {
    let signals = orchestrate("build a cli", &default_personas(), |_: &str| "mistral".to_string());
    assert_eq!(stages(&signals), FsmStage::ALL.to_vec());
}

#[test]
fn is_deterministic() {
    let a = orchestrate("design quality assurance", &default_personas(), |_: &str| "m".to_string());
    let b = orchestrate("design quality assurance", &default_personas(), |_: &str| "m".to_string());
    assert_eq!(a, b);
}

#[test]
fn execution_cascade_is_serial_per_persona() {
    let signals =
        orchestrate("improve quality assurance", &default_personas(), |_: &str| "mistral".to_string());
    let delegated: Vec<&String> = signals
        .iter()
        .filter_map(|s| match s {
            Signal::Delegation { persona, .. } => Some(persona),
            _ => None,
        })
        .collect();
    assert!(!delegated.is_empty());
    for persona in delegated {
        assert!(signals
            .iter()
            .any(|s| matches!(s, Signal::Deliverable { persona: p, .. } if p == persona)));
    }
}

#[test]
fn model_router_annotates_delegations() {
    let signals = orchestrate("build a cli", &default_personas(), |_: &str| "codellama".to_string());
    assert!(signals
        .iter()
        .any(|s| matches!(s, Signal::Delegation { task, .. } if task.contains("codellama"))));
}

#[test]
fn maestro_delivers_at_verification() {
    let signals = orchestrate("ship it", &default_personas(), |_: &str| "m".to_string());
    let last = signals.last().unwrap();
    assert!(matches!(last, Signal::Deliverable { persona, .. } if persona == "Maestro"));
}

#[test]
fn session_blocks_at_the_plan_gate() {
    let (session, signals) = Session::start("build a cli", &default_personas(), |_: &str| "m".to_string());
    assert!(session.is_pending());
    assert!(!session.is_done());
    assert!(signals.iter().any(|s| matches!(
        s,
        Signal::ApprovalRequest { id, .. } if id == Session::PLAN_APPROVAL_ID
    )));
    assert!(!signals.iter().any(|s| matches!(s, Signal::Delegation { .. })));
}

#[test]
fn session_two_gates_then_completes() {
    let (mut session, _) =
        Session::start("improve quality assurance", &default_personas(), |_: &str| "m".to_string());
    let after_plan = session.resume(true, &placeholder_deliverable);
    assert!(after_plan.iter().any(|s| matches!(
        s,
        Signal::ApprovalRequest { id, .. } if id == Session::EXEC_APPROVAL_ID
    )));
    assert!(session.is_pending() && !session.is_done());
    let after_exec = session.resume(true, &placeholder_deliverable);
    assert!(session.is_done());
    assert!(after_exec
        .iter()
        .any(|s| matches!(s, Signal::Deliverable { persona, .. } if persona == "Maestro")));
    assert!(!session.deliverables().is_empty());
}

#[test]
fn rejecting_the_plan_aborts_without_work() {
    let (mut session, _) = Session::start("x", &default_personas(), |_: &str| "m".to_string());
    let signals = session.resume(false, &placeholder_deliverable);
    assert!(!session.is_pending() && !session.is_done());
    assert!(signals
        .iter()
        .any(|s| matches!(s, Signal::Log { message, .. } if message.contains("aborting"))));
}

#[test]
fn rejecting_execution_rolls_back_in_reverse() {
    let (mut session, _) =
        Session::start("improve quality assurance", &default_personas(), |_: &str| "m".to_string());
    let _ = session.resume(true, &placeholder_deliverable);
    let signals = session.resume(false, &placeholder_deliverable);
    let rollbacks: Vec<&String> = signals
        .iter()
        .filter_map(|s| match s {
            Signal::Rollback { action } => Some(action),
            _ => None,
        })
        .collect();
    assert!(!rollbacks.is_empty());
    assert!(!session.is_done());
}

#[test]
fn injected_deliverer_output_flows_into_deliverables() {
    let (mut session, _) = Session::start("build a cli", &default_personas(), |_: &str| "m".to_string());
    let _ = session.resume(true, &placeholder_deliverable);
    let signals = session.resume(true, &|persona: &str, _model: &str, _demand: &str| {
        format!("REAL:{persona}")
    });
    assert!(signals
        .iter()
        .any(|s| matches!(s, Signal::Deliverable { summary, .. } if summary.starts_with("REAL:"))));
    assert!(session.deliverables().iter().any(|d| d.contains("REAL:")));
}

#[test]
fn placeholder_deliverable_names_the_persona() {
    assert_eq!(
        placeholder_deliverable("Software Engineer", "m", "x"),
        "Software Engineer completed its contribution"
    );
}

// ----- persistence -----

#[test]
fn plans_the_next_release() {
    let deliverables = vec!["api \"v1\"".to_string(), "docs".to_string()];
    let planned = plan_release(2, "1700000000", "build a cli", &deliverables);
    assert_eq!(planned.record.id, "r003");
    assert_eq!(planned.record.version, "0.1.3");
    assert_eq!(planned.record.changelog, "Micro-project for: build a cli");
    assert_eq!(planned.record.created_at, "1700000000");
    assert_eq!(
        planned.manifest,
        "# Release 0.1.3\n\n- id: r003\n- created: 1700000000\n- demand: build a cli\n\n## Deliverables\n- api \"v1\"\n- docs\n"
    );
    assert_eq!(
        planned.demo,
        "#!/bin/sh\necho \"Maestro release 0.1.3 \u{2014} demo for: build a cli\"\necho \"- api 'v1'\"\necho \"- docs\"\necho \"demo complete.\"\n"
    );
    assert_eq!(planned.commit_message, "release 0.1.3: build a cli");
}

#[test]
fn manifest_round_trips_through_the_parser() {
    let planned = plan_release(0, "42", "ship it", &Vec::new());
    let record = parse_manifest(&planned.manifest, "r001");
    assert_eq!(record, planned.record);
    assert!(manifest_declares(&planned.manifest, "0.1.1"));
    assert!(!manifest_declares(&planned.manifest, "0.1.2"));
}

#[test]
fn manifest_without_id_takes_the_directory_name() {
    let record = parse_manifest("# Release 0.1.9\n", "r009");
    assert_eq!(record.id, "r009");
    assert_eq!(record.version, "0.1.9");
    assert_eq!(record.changelog, "Micro-project for: ");
    assert!(is_release_dir("r001"));
    assert!(!is_release_dir("notes"));
}

// ----- persona agents -----

#[test]
fn activates_seven_operational_personas() {
    let agents = activate_default_agents("mistral");
    assert_eq!(agents.len(), 7);
}

#[test]
fn agent_system_prompt_and_competence() {
    let persona = default_personas()
        .into_iter()
        .find(|p| p.id.as_str() == "Software Engineer")
        .unwrap();
    let agent = PersonaAgent::new(persona, "mistral");
    assert_eq!(agent.id().as_str(), "Software Engineer");
    assert!(agent.last_usage().is_none());
    assert!(!agent.system_prompt().is_empty());
}

#[test]
fn directed_send_is_cut_out_of_a_reply() {
    let sender = AgentId::new("Maestro").unwrap();
    let reply = "ok [SEND_TO Software Engineer] build it [/SEND_TO]";
    assert!(!is_send_block_malformed(reply));
    let msg = parse_directed_send(reply, &sender).unwrap();
    assert_eq!(msg.content, "build it");
    assert_eq!(msg.role, MessageRole::Assistant);
    assert_eq!(msg.recipient.unwrap().as_str(), "Software Engineer");
    assert_eq!(msg.author.unwrap().as_str(), "Maestro");
    assert!(parse_directed_send("no block here", &sender).is_none());
}

#[test]
fn usages_add_up() {
    let a = Some(TokenUsage { prompt_tokens: 1, completion_tokens: 2 });
    let b = Some(TokenUsage { prompt_tokens: 3, completion_tokens: 4 });
    assert_eq!(
        combine_usage(a, b),
        Some(TokenUsage { prompt_tokens: 4, completion_tokens: 6 })
    );
    assert_eq!(combine_usage(None, b), b);
    assert_eq!(combine_usage(None, None), None);
    assert!(!after_tool_content("before", "after").is_empty());
}

// ----- tool dispatch -----

#[test]
fn formats_success_result() {
    let result = ToolResult {
        tool: "read_file".to_string(),
        success: true,
        output: "fn main() {}".to_string(),
    };
    let formatted = format_result(&result);
    assert!(formatted.contains("success=true"));
    assert!(formatted.contains("fn main() {}"));
    assert_eq!(
        formatted,
        "[TOOL_RESULT tool=\"read_file\" success=true]\nfn main() {}\n[/TOOL_RESULT]"
    );
}

#[test]
fn formats_failure_result() {
    let result = ToolResult {
        tool: "read_file".to_string(),
        success: false,
        output: "file not found".to_string(),
    };
    let formatted = format_result(&result);
    assert!(formatted.contains("success=false"));
}

#[test]
fn tool_call_block_is_split_from_its_surroundings() {
    let output = "I need to read a file.\n[TOOL_CALL]\n{\"tool\": \"read_file\"}\n[/TOOL_CALL]\nThen I'll analyze it.";
    let (json, around) = split_tool_call(output).unwrap();
    assert_eq!(json, "{\"tool\": \"read_file\"}");
    assert_eq!(around, "I need to read a file.Then I'll analyze it.");
    assert!(split_tool_call("just plain text").is_none());
    assert!(split_tool_call("[/TOOL_CALL] x [TOOL_CALL]").is_none());
}

#[test]
fn a_failed_tool_call_becomes_a_failed_result() {
    let call = ToolCall { tool: "shell_exec".to_string(), arguments: StrMap::new() };
    let r = dispatch_outcome(&call, Err(ToolError::RequiresApproval));
    assert_eq!(r.tool, "shell_exec");
    assert!(!r.success);
    assert_eq!(r.output, ToolError::RequiresApproval.message());
}

// ----- wizard -----

#[test]
fn blocks_until_required_filled() {
    let mut form = persona_wizard();
    assert!(!form.can_complete());
    assert_eq!(form.missing_required(), vec!["name", "responsibility"]);
    form.set("name", "Auditor");
    assert!(!form.can_complete());
    form.set("responsibility", "audit code");
    assert!(form.can_complete());
}

#[test]
fn complete_returns_values() {
    let mut form = persona_wizard();
    form.set("name", "Auditor");
    form.set("responsibility", "audit code");
    form.set("skills", "rust");
    let values = form.complete().unwrap();
    assert_eq!(values.get("name").unwrap(), "Auditor");
    assert_eq!(values.get("skills").unwrap(), "rust");
}

#[test]
fn blank_required_is_rejected() {
    let mut form = persona_wizard();
    form.set("name", "   ");
    form.set("responsibility", "x");
    let err = form.complete().unwrap_err();
    assert_eq!(err, WizardError::MissingRequired("name".to_string()));
}

#[test]
fn unknown_wizard_fields_are_ignored() {
    let mut form = persona_wizard();
    form.set("colour", "blue");
    form.set("name", "A");
    form.set("responsibility", "B");
    let values = form.complete().unwrap();
    assert!(values.get("colour").is_none());
    assert_eq!(values.len(), 2);
}

// ----- ports -----

#[test]
fn completion_request_holds_context() {
    let author = AgentId::new("Maestro").unwrap();
    let req = CompletionRequest {
        model: "mistral".to_string(),
        messages: vec![Message::assistant(author, "plan").unwrap()],
    };
    assert_eq!(req.messages.len(), 1);
}

#[test]
fn successive_releases_get_distinct_versions() {
    let first = plan_release(0, "1", "build a cli", &vec!["Engineer: done".to_string()]);
    let second = plan_release(1, "2", "another", &Vec::new());
    assert_eq!(first.record.id, "r001");
    assert_eq!(second.record.id, "r002");
    assert_ne!(first.record.version, second.record.version);
}

#[test]
fn a_listed_release_reads_back_its_record() {
    let planned = plan_release(9, "1700000000", "ship it", &vec!["QA: done".to_string()]);
    let listed = parse_manifest(&planned.manifest, "ignored");
    assert_eq!(listed.id, "r010");
    assert_eq!(listed.version, "0.1.10");
    assert_eq!(listed, planned.record);
    assert!(manifest_declares(&planned.manifest, &planned.record.version));
}

#[test]
fn each_recorded_cycle_grows_the_session_totals_by_itself() {
    let mut metrics = AgentMetrics::new();
    let a = AgentId::new("a").unwrap();
    let b = AgentId::new("b").unwrap();
    metrics.record_cycle(&a, true, Some(TokenUsage { prompt_tokens: 4, completion_tokens: 1 }), 10);
    let before = metrics.session_totals();
    metrics.record_cycle(&b, false, Some(TokenUsage { prompt_tokens: 2, completion_tokens: 3 }), 5);
    let after = metrics.session_totals();
    assert_eq!(after.cycles, before.cycles + 1);
    assert_eq!(after.successes, before.successes);
    assert_eq!(after.failures, before.failures + 1);
    assert_eq!(after.prompt_tokens, before.prompt_tokens + 2);
    assert_eq!(after.completion_tokens, before.completion_tokens + 3);
    assert_eq!(after.total_latency_ns, before.total_latency_ns + 5);
}

// ----- tool calls in model output -----

/// A tool call found in model output: the block located by the library, its
/// JSON body read here.
fn parse_tool_call(output: &str) -> Option<(ToolCall, String)> {
    let (json, surrounding) = split_tool_call(output)?;
    let value: serde_json::Value = serde_json::from_str(&json).ok()?;
    let tool = value.get("tool")?.as_str()?.to_string();
    let mut arguments = StrMap::new();
    if let Some(args) = value.get("arguments").and_then(|a| a.as_object()) {
        for (k, v) in args {
            arguments.insert(k.clone(), v.as_str()?.to_string());
        }
    }
    Some((ToolCall { tool, arguments }, surrounding))
}

#[test]
fn parses_valid_tool_call() {
    let output = r#"I need to read a file.
[TOOL_CALL]
{"tool": "read_file", "arguments": {"path": "src/main.rs"}}
[/TOOL_CALL]
Then I'll analyze it."#;
    let (call, surrounding) = parse_tool_call(output).unwrap();
    assert_eq!(call.tool, "read_file");
    assert_eq!(call.arguments.get("path").unwrap(), "src/main.rs");
    assert!(surrounding.contains("I need to read a file."));
    assert!(surrounding.contains("Then I'll analyze it."));
}

#[test]
fn returns_none_for_no_marker() {
    assert!(parse_tool_call("just plain text").is_none());
}

#[test]
fn returns_none_for_invalid_json() {
    let output = "[TOOL_CALL]\nnot json\n[/TOOL_CALL]";
    assert!(parse_tool_call(output).is_none());
}

#[test]
fn an_agent_acts_only_on_observed_input() {
    let persona = default_personas().into_iter().find(|p| !p.orchestrator).unwrap();
    let mut agent = PersonaAgent::new(persona, "mistral");
    assert!(agent.prepare_request().is_none());
    agent.observe(&[Message::user("go").unwrap()]);
    let request = agent.prepare_request().unwrap();
    assert_eq!(request.model, "mistral");
    assert_eq!(request.messages.first().unwrap().role, MessageRole::System);
    assert_eq!(request.messages.last().unwrap().content, "go");
    assert!(agent.prepare_request().is_none());
    let out = agent.complete_act("ok", None).unwrap();
    assert_eq!(out.content, "ok");
    assert_eq!(out.author.unwrap().as_str(), agent.id().as_str());
}

#[test]
fn all_stats_ascend_by_agent_id() {
    let mut metrics = AgentMetrics::new();
    for name in ["zeta", "alpha", "mid"] {
        metrics.record_cycle(&AgentId::new(name).unwrap(), true, None, 1);
    }
    let ids: Vec<&str> = metrics.all_stats().iter().map(|(id, _)| id.as_str()).collect();
    assert_eq!(ids, vec!["alpha", "mid", "zeta"]);
    for (id, s) in metrics.all_stats() {
        assert_eq!(metrics.stats(id), Some(s));
    }
}

struct EchoRegistry;

impl maestro::domain::ports::ToolRegistry for EchoRegistry {
    fn available_tools(&self) -> Vec<maestro::domain::models::ToolDefinition> {
        Vec::new()
    }

    fn execute(&self, call: &ToolCall) -> Result<ToolResult, ToolError> {
        if call.tool == "echo" {
            Ok(ToolResult { tool: "echo".to_string(), success: true, output: "said".to_string() })
        } else {
            Err(ToolError::UnknownTool(call.tool.clone()))
        }
    }
}

#[test]
fn dispatch_reports_what_the_registry_returned() {
    let ok = maestro::application::tool_dispatch::dispatch(
        &EchoRegistry,
        &ToolCall { tool: "echo".to_string(), arguments: StrMap::new() },
    );
    assert_eq!(ok, ToolResult { tool: "echo".to_string(), success: true, output: "said".to_string() });
    let failed = maestro::application::tool_dispatch::dispatch(
        &EchoRegistry,
        &ToolCall { tool: "nope".to_string(), arguments: StrMap::new() },
    );
    assert_eq!(failed.tool, "nope");
    assert!(!failed.success);
    assert_eq!(failed.output, ToolError::UnknownTool("nope".to_string()).message());
}

#[test]
fn latency_sums_exact_durations() {
    let mut metrics = AgentMetrics::new();
    let agent = AgentId::new("timer").unwrap();
    metrics.record_cycle(&agent, true, None, Duration::from_micros(1500).as_nanos());
    metrics.record_cycle(&agent, true, None, Duration::from_micros(1500).as_nanos());
    let stats = *metrics.stats(&agent).unwrap();
    assert_eq!(stats.total_latency_ns, Duration::from_millis(3).as_nanos());
    let events = success_events(&agent, &None, true, &stats);
    assert!(events
        .iter()
        .any(|e| matches!(e, RuntimeEvent::AgentMetricsSnapshot { latency_ms: 3, .. })));
}
