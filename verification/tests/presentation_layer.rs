use maestro::application::orchestrator::Signal;
use maestro::application::persistence::ReleaseRecord;
use maestro::domain::models::fsm::FsmStage;
use maestro::domain::models::governance::{GovernanceEntry, GovernanceKind, Origin};
use maestro::domain::models::persona::default_personas;
use maestro::domain::ports::llm_provider::ProviderStatus;
use maestro::presentation::cli::detect::{detect, marker_names};
use maestro::presentation::cli::providers::{
    chosen_preset, config_for_provider, detected_presets, probe_message, ProviderPreset,
};
use maestro::presentation::cli::templates::{find, list, templates};
use maestro::presentation::cli::{
    agent_names, is_no_answer, menu_action, pass_fail, project_type_of, scope_slug, InitPrompt,
    InitQuestion, MenuAction, CONFIG_TEMPLATE,
};
use maestro::presentation::ipc::server::{
    origin_for, release_persisted, release_summary, route_command, signal_event, startup_events,
    summarize_reply, to_node, config_save_step, CommandAction, SaveStep,
};
use maestro::presentation::ipc::{check_version, CoreEvent, Mode, ProtocolError, TuiCommand};

// ----- templates -----

#[test]
fn find_returns_known_template() {
    assert!(find("web-app").is_some());
    assert!(find("cli-tool").is_some());
    assert!(find("infra").is_some());
    assert!(find("api-service").is_some());
    assert!(find("data-pipeline").is_some());
}

#[test]
fn find_is_case_insensitive() {
    assert!(find("Web-App").is_some());
    assert!(find("CLI-TOOL").is_some());
}

#[test]
fn find_returns_none_for_unknown() {
    assert!(find("blockchain-dapp").is_none());
}

#[test]
fn list_returns_all_templates() {
    let all = list();
    assert_eq!(all.len(), templates().len());
    assert!(all.iter().any(|(k, _)| *k == "web-app"));
}

#[test]
fn template_content_is_non_empty() {
    for t in templates() {
        assert!(!t.scope_content.is_empty(), "{} scope is empty", t.key);
        assert!(!t.task_spec.is_empty(), "{} task_spec is empty", t.key);
        assert!(!t.persona_hints.is_empty(), "{} persona_hints is empty", t.key);
        assert!(!t.skill_content.is_empty(), "{} skill_content is empty", t.key);
    }
}

#[test]
fn find_returns_the_template_with_that_key() {
    let t = find("LIBRARY").unwrap();
    assert_eq!(t.key, "library");
    assert_eq!(t.description, "Reusable library or SDK");
}

// ----- detection -----

#[test]
fn cargo_marker_detects_rust() {
    let d = detect(&vec!["Cargo.toml".to_string()]).unwrap();
    assert_eq!(d.ecosystem, "Rust (Cargo)");
    assert_eq!(d.suggested_template.as_deref(), Some("library"));
    assert_eq!(d.marker, "Cargo.toml");
}

#[test]
fn package_json_detects_node() {
    let d = detect(&vec!["package.json".to_string()]).unwrap();
    assert_eq!(d.ecosystem, "Node.js (npm)");
}

#[test]
fn no_marker_detects_nothing() {
    assert!(detect(&Vec::new()).is_none());
    assert!(detect(&vec!["README.md".to_string()]).is_none());
}

#[test]
fn the_most_specific_marker_wins() {
    let d = detect(&vec![".git".to_string(), "Cargo.toml".to_string()]).unwrap();
    assert_eq!(d.marker, "Cargo.toml");
    assert_eq!(marker_names()[0], "Cargo.toml");
    assert_eq!(marker_names().len(), 7);
}

// ----- cli helpers -----

#[test]
fn agent_list_names_the_default_catalog() {
    let names = agent_names();
    assert_eq!(names.len(), default_personas().len());
    assert!(names.iter().any(|n| n == "Maestro"));
}

#[test]
fn menu_choices_map_to_actions() {
    assert_eq!(menu_action("1"), MenuAction::InitProject);
    assert_eq!(menu_action("2"), MenuAction::LaunchTui);
    assert_eq!(menu_action("6"), MenuAction::Doctor);
    assert_eq!(menu_action("q"), MenuAction::Exit);
    assert_eq!(menu_action(""), MenuAction::Exit);
    assert_eq!(menu_action("9"), MenuAction::Invalid);
    assert_eq!(pass_fail(true), "PASS");
    assert_eq!(pass_fail(false), "FAIL");
}

#[test]
fn init_answers_are_normalized() {
    assert!(is_no_answer("n"));
    assert!(!is_no_answer("yes"));
    assert_eq!(scope_slug("My Scope!"), "my_scope_");
    assert!(project_type_of("nonsense").is_none());
    assert!(CONFIG_TEMPLATE.starts_with("system:\n"));
}

#[test]
fn provider_presets_parse_loosely() {
    assert_eq!(ProviderPreset::from_str_loose("OpenAI"), Ok(ProviderPreset::OpenAi));
    assert!(ProviderPreset::from_str_loose("acme").is_err());
    assert_eq!(ProviderPreset::Gemini.default_model(), "gemini-2.0-flash");
    let yaml = config_for_provider(ProviderPreset::Ollama, None, None);
    assert!(yaml.contains("mistral"));
    assert!(yaml.contains("http://127.0.0.1:11434/v1"));
    let (ok, msg) = probe_message(ProviderStatus::Available);
    assert!(ok);
    assert_eq!(msg, "provider is reachable \u{2713}");
    assert!(!probe_message(ProviderStatus::Unreachable).0);
}

// ----- ipc -----

#[test]
fn protocol_version_is_checked() {
    assert_eq!(check_version(Some(2)), Ok(()));
    assert_eq!(check_version(Some(1)), Err(ProtocolError::UnsupportedVersion(1)));
    assert_eq!(
        check_version(None),
        Err(ProtocolError::Malformed("missing 'v' version field".to_string()))
    );
    assert_eq!(
        ProtocolError::UnsupportedVersion(1).message(),
        "unsupported protocol version 1 (expected 2)"
    );
}

#[test]
fn commands_are_routed_by_pending_state() {
    let input = TuiCommand::UserInput { text: "build a cli".to_string() };
    assert_eq!(route_command(&input, false), CommandAction::BeginRun("build a cli".to_string()));
    assert_eq!(route_command(&input, true), CommandAction::WarnAwaitingApproval);
    let approve = TuiCommand::ApprovalResponse { id: "approve-plan".to_string(), approved: true };
    assert_eq!(route_command(&approve, true), CommandAction::Resume(true));
    assert_eq!(route_command(&approve, false), CommandAction::WarnNoPending);
    let quit = TuiCommand::Command { name: "quit".to_string() };
    assert_eq!(route_command(&quit, false), CommandAction::Stop);
    let help = TuiCommand::Command { name: "help".to_string() };
    assert_eq!(route_command(&help, false), CommandAction::EchoCommand("/help".to_string()));
    let mode = TuiCommand::SwitchMode { mode: Mode::Config };
    assert_eq!(route_command(&mode, true), CommandAction::ModeChanged(Mode::Config));
    assert_eq!(route_command(&TuiCommand::StopDemo, false), CommandAction::Unhandled);
}

#[test]
fn stage_signals_become_transitions() {
    let mut prev = "idle".to_string();
    let e = signal_event(&mut prev, Signal::Stage(FsmStage::Ideation));
    assert_eq!(e, CoreEvent::FsmTransition { from: "idle".to_string(), to: "ideation".to_string() });
    assert_eq!(prev, "ideation");
    let d = signal_event(
        &mut prev,
        Signal::Delegation { persona: "QA".to_string(), task: "test".to_string() },
    );
    assert_eq!(d, CoreEvent::Delegation { persona: "QA".to_string(), task: "test".to_string() });
    assert_eq!(prev, "ideation");
}

#[test]
fn governance_entries_become_nodes() {
    let entry = GovernanceEntry {
        id: "skills/rust".to_string(),
        kind: GovernanceKind::Skill,
        origin: Origin::Custom,
        archived: false,
    };
    let node = to_node(&entry);
    assert_eq!(node.id, "skills/rust");
    assert_eq!(node.label, "skills/rust");
    assert_eq!(node.kind, "skill");
    assert_eq!(node.origin, "custom");
    assert_eq!(origin_for("config.yml"), "default");
    assert_eq!(origin_for("personas/maestro"), "default");
    assert_eq!(origin_for("skills/rust"), "custom");
}

#[test]
fn releases_are_summarized() {
    let record = ReleaseRecord {
        id: "r001".to_string(),
        version: "0.1.1".to_string(),
        changelog: "Micro-project for: x".to_string(),
        created_at: "42".to_string(),
    };
    assert_eq!(
        release_persisted(&record),
        CoreEvent::Log { level: "info".to_string(), message: "release 0.1.1 persisted (r001)".to_string() }
    );
    let s = release_summary(record);
    assert_eq!(s.version, "0.1.1");
    assert_eq!(s.created_at, "42");
}

#[test]
fn replies_are_summarized_by_their_first_line() {
    assert_eq!(summarize_reply("  first\nsecond "), Some("first".to_string()));
    assert_eq!(summarize_reply("   "), None);
    assert_eq!(summarize_reply(&"x".repeat(300)).unwrap().len(), 200);
}

#[test]
fn startup_greets_in_maestro_mode_with_idle_personas() {
    let personas = default_personas();
    let events = startup_events(&personas);
    assert_eq!(events[0], CoreEvent::ModeChanged { mode: Mode::Maestro });
    assert_eq!(
        events[1],
        CoreEvent::Log { level: "info".to_string(), message: "Maestro core online".to_string() }
    );
    assert_eq!(events.len(), 2 + personas.iter().filter(|p| !p.orchestrator).count());
    assert!(events[2..]
        .iter()
        .all(|e| matches!(e, CoreEvent::AgentState { state, .. } if state == "idle")));
}

#[test]
fn presets_are_detected_in_order() {
    assert_eq!(
        detected_presets(true, Some("sk"), Some("g")),
        vec![ProviderPreset::Ollama, ProviderPreset::OpenAi, ProviderPreset::Gemini]
    );
    assert_eq!(detected_presets(false, Some(""), Some("g")), vec![ProviderPreset::Gemini]);
    assert!(detected_presets(false, None, None).is_empty());
    assert_eq!(chosen_preset(&vec![ProviderPreset::Gemini]), ProviderPreset::Gemini);
    assert_eq!(chosen_preset(&Vec::new()), ProviderPreset::Ollama);
}

#[test]
fn init_prompt_asks_again_while_blank() {
    let mut prompt = InitPrompt::new(Some("   ".to_string()));
    assert_eq!(prompt.next, Some(InitQuestion::Name));
    assert_eq!(prompt.next.unwrap().prompt(), "Project name (required): ");
    prompt.answer("  \n");
    assert_eq!(prompt.next, Some(InitQuestion::Name));
    prompt.answer("  demo \n");
    assert_eq!(prompt.answers.name, "demo");
    assert_eq!(prompt.next, Some(InitQuestion::Scope));
    prompt.answer("\n");
    assert_eq!(prompt.next, Some(InitQuestion::Scope));
    prompt.answer("Checkout flow\n");
    assert_eq!(prompt.answers.scope, "Checkout flow");
    assert_eq!(prompt.next, Some(InitQuestion::Kind));
    prompt.answer("web\n");
    assert_eq!(prompt.answers.kind.as_deref(), Some("Web"));
    assert_eq!(prompt.next, Some(InitQuestion::LayoutRef));
    prompt.answer("mock.png\n");
    assert_eq!(prompt.next, Some(InitQuestion::LayoutRef));
    prompt.answer("No\n");
    assert_eq!(prompt.next, None);
    assert_eq!(prompt.answers.layout_refs, vec!["mock.png".to_string()]);
    prompt.answer("later.png");
    assert_eq!(prompt.answers.layout_refs, vec!["mock.png".to_string()]);
}

#[test]
fn init_prompt_skips_a_given_name() {
    let mut prompt = InitPrompt::new(Some(" shop ".to_string()));
    assert_eq!(prompt.answers.name, "shop");
    assert_eq!(prompt.next, Some(InitQuestion::Scope));
    prompt.answer("s");
    prompt.answer("unknown");
    assert_eq!(prompt.answers.kind, None);
    prompt.answer("");
    assert_eq!(prompt.next, None);
}

#[test]
fn config_save_writes_only_valid_bodies() {
    let refused = config_save_step(
        "agents/a.md".to_string(),
        " ".to_string(),
        (false, vec!["entry body is empty".to_string()]),
    );
    assert_eq!(refused, SaveStep::Report { issues: vec!["entry body is empty".to_string()] });
    let accepted = config_save_step("agents/a.md".to_string(), "body".to_string(), (true, vec![]));
    assert_eq!(accepted, SaveStep::Write { id: "agents/a.md".to_string(), body: "body".to_string() });
}

#[test]
fn found_template_carries_its_contents() {
    let t = find("WEB-APP").unwrap();
    assert!(t.scope_content.starts_with("# Scope: Web Application\n"));
    assert!(t.task_spec.starts_with("# Task 001: Web App Foundation\n"));
    assert_eq!(t.persona_hints, templates()[0].persona_hints);
    assert_eq!(t.skill_content, templates()[0].skill_content);
}
