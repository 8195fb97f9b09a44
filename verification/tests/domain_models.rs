use maestro::domain::models::agent_id::{AgentId, AgentIdError};
use maestro::domain::models::config::{
    AgentBinding, ConfigError, MaestroConfig, ModelConfig, ProviderConfig, SystemConfig,
};
use maestro::domain::models::fsm::{can_transition, FsmError, FsmStage, MicroProject};
use maestro::domain::models::governance::{
    default_persona_ids, is_immutable, kind_of, slug, validate_entries, GovernanceKind,
    MAESTRO_PERSONA_ID,
};
use maestro::domain::models::memory::ShortTermMemory;
use maestro::domain::models::message::{Message, MessageError, MessageRole};
use maestro::domain::models::persona::{default_personas, Persona, PersonaError};
use maestro::domain::models::rollback::{CascadeStep, RollbackPlan};
use maestro::domain::models::routing::{route, FALLBACK_PERSONA, WEIGHT_KEYWORDS, WEIGHT_SKILL_TAGS};
use maestro::domain::models::scratchpad::Scratchpad;
use maestro::domain::models::str_map::StrMap;
use maestro::domain::models::thinking::ThinkingOutput;
use maestro::domain::models::tool::{ToolError, ToolKind};

// ----- agent ids -----

#[test]
fn accepts_non_empty() {
    let id = AgentId::new("Maestro").expect("valid id");
    assert_eq!(id.as_str(), "Maestro");
    assert_eq!(id.to_string(), "Maestro");
}

#[test]
fn rejects_empty_and_whitespace() {
    assert_eq!(AgentId::new("").err(), Some(AgentIdError::Empty));
    assert_eq!(AgentId::new("   ").err(), Some(AgentIdError::Empty));
}

#[test]
fn equal_ids_are_equal() {
    assert!(AgentId::new("a").unwrap() == AgentId::new("a").unwrap());
    assert!(AgentId::new("a").unwrap() != AgentId::new("b").unwrap());
}

#[test]
fn agent_id_error_message() {
    assert_eq!(AgentIdError::Empty.message(), "agent id must not be empty");
}

// ----- configuration -----

fn base_config() -> MaestroConfig {
    let mut providers = StrMap::new();
    providers.insert(
        "ollama".to_string(),
        ProviderConfig {
            kind: "ollama".to_string(),
            endpoint: "http://127.0.0.1:11434/v1".to_string(),
            models: vec![ModelConfig { name: "mistral".to_string() }],
        },
    );
    MaestroConfig {
        system: SystemConfig {
            default_provider: "ollama".to_string(),
            default_model: "mistral".to_string(),
            max_concurrency: 4,
        },
        providers,
        agents: StrMap::new(),
    }
}

#[test]
fn valid_config_passes() {
    assert!(base_config().validate().is_ok());
}

#[test]
fn unknown_default_provider_fails_fast() {
    let mut cfg = base_config();
    cfg.system.default_provider = "openai".to_string();
    assert_eq!(cfg.validate(), Err(ConfigError::UnknownDefaultProvider("openai".to_string())));
}

#[test]
fn unknown_agent_model_fails_fast() {
    let mut cfg = base_config();
    cfg.agents.insert(
        "Maestro".to_string(),
        AgentBinding {
            provider: "ollama".to_string(),
            model: "gpt-4".to_string(),
            fallback_model: None,
        },
    );
    assert_eq!(
        cfg.validate(),
        Err(ConfigError::UnknownAgentModel {
            agent: "Maestro".to_string(),
            provider: "ollama".to_string(),
            model: "gpt-4".to_string(),
        })
    );
}

#[test]
fn unknown_default_model_fails_fast() {
    let mut cfg = base_config();
    cfg.system.default_model = "llama3".to_string();
    let err = cfg.validate().unwrap_err();
    assert_eq!(
        err,
        ConfigError::UnknownDefaultModel { provider: "ollama".to_string(), model: "llama3".to_string() }
    );
    assert_eq!(err.message(), "default model 'llama3' is not declared under provider 'ollama'");
}

#[test]
fn unknown_agent_provider_fails_fast() {
    let mut cfg = base_config();
    cfg.agents.insert(
        "QA".to_string(),
        AgentBinding { provider: "openai".to_string(), model: "gpt-4".to_string(), fallback_model: None },
    );
    let err = cfg.validate().unwrap_err();
    assert_eq!(
        err,
        ConfigError::UnknownAgentProvider { agent: "QA".to_string(), provider: "openai".to_string() }
    );
    assert_eq!(err.message(), "agent 'QA' references unknown provider 'openai'");
}

// ----- lifecycle FSM -----

#[test]
fn legal_transitions_follow_the_sequence() {
    for pair in FsmStage::ALL.windows(2) {
        assert!(can_transition(pair[0], pair[1]));
    }
}

#[test]
fn illegal_transitions_are_rejected() {
    assert!(!can_transition(FsmStage::Ideation, FsmStage::Approval));
    assert!(!can_transition(FsmStage::Execution, FsmStage::Planning));
    assert!(!can_transition(FsmStage::Verification, FsmStage::Ideation));
}

#[test]
fn advance_walks_the_full_lifecycle_then_errors() {
    let mut mp = MicroProject::new("mp-1", "build a cli");
    assert_eq!(mp.stage, FsmStage::Ideation);
    for expected in &FsmStage::ALL[1..] {
        assert_eq!(mp.advance().unwrap(), *expected);
    }
    assert_eq!(mp.stage, FsmStage::Verification);
    assert!(matches!(mp.advance(), Err(FsmError::Terminal(_))));
}

#[test]
fn transition_to_rejects_illegal_jump() {
    let mut mp = MicroProject::new("mp-2", "x");
    assert!(matches!(mp.transition_to(FsmStage::Execution), Err(FsmError::IllegalTransition { .. })));
    assert_eq!(mp.stage, FsmStage::Ideation);
}

#[test]
fn approval_and_execution_are_gated() {
    assert!(FsmStage::Approval.requires_approval());
    assert!(FsmStage::Execution.requires_approval());
    assert!(!FsmStage::Planning.requires_approval());
}

#[test]
fn fsm_error_messages() {
    let mut mp = MicroProject::new("mp-3", "x");
    let err = mp.transition_to(FsmStage::Execution).unwrap_err();
    assert_eq!(err.message(), "illegal FSM transition from ideation to execution");
    let mut done = MicroProject::new("mp-4", "x");
    for _ in 0..5 {
        done.advance().unwrap();
    }
    assert_eq!(done.advance().unwrap_err().message(), "cannot advance past the terminal stage verification");
}

// ----- governance -----

#[test]
fn all_present_is_valid() {
    let present = vec!["scopes".to_string(), "personas".to_string(), "skills".to_string()];
    let report = validate_entries(&present);
    assert!(report.is_valid());
    assert!(report.missing.is_empty());
}

#[test]
fn reports_missing_entries() {
    let present = vec!["personas".to_string()];
    let report = validate_entries(&present);
    assert!(!report.is_valid());
    assert_eq!(report.missing, vec!["scopes", "skills"]);
}

#[test]
fn empty_reports_all_missing() {
    let report = validate_entries(&[]);
    assert_eq!(report.missing.len(), 3);
}

#[test]
fn maestro_persona_is_immutable() {
    assert!(is_immutable(MAESTRO_PERSONA_ID));
    assert!(!is_immutable("personas/software_engineer"));
}

#[test]
fn slug_is_path_safe() {
    assert_eq!(slug("Software Engineer"), "software_engineer");
    assert_eq!(slug("  API/Designer  "), "api_designer");
}

#[test]
fn kind_is_inferred_from_id() {
    assert_eq!(kind_of("config.yml"), Some(GovernanceKind::Config));
    assert_eq!(kind_of("personas/x"), Some(GovernanceKind::Persona));
    assert_eq!(kind_of("skills/x"), Some(GovernanceKind::Skill));
    assert_eq!(kind_of("scopes/x"), Some(GovernanceKind::Scope));
    assert_eq!(kind_of("weird"), None);
}

#[test]
fn default_persona_ids_include_maestro_and_engineer() {
    let ids = default_persona_ids();
    assert!(ids.contains(&MAESTRO_PERSONA_ID.to_string()));
    assert!(ids.contains(&"personas/software_engineer".to_string()));
}

#[test]
fn governance_kind_dirs_and_labels() {
    assert_eq!(GovernanceKind::Config.dir(), None);
    assert_eq!(GovernanceKind::Persona.dir(), Some("personas"));
    assert_eq!(GovernanceKind::Scope.as_str(), "scope");
}

// ----- memory -----

fn msg(content: &str) -> Message {
    Message::new(MessageRole::User, content, None).unwrap()
}

#[test]
fn records_up_to_capacity() {
    let mut mem = ShortTermMemory::new(2);
    mem.record(msg("1"));
    mem.record(msg("2"));
    mem.record(msg("3"));
    assert_eq!(mem.len(), 2);
    assert_eq!(mem.messages()[0].content, "2");
    assert_eq!(mem.messages()[1].content, "3");
}

#[test]
fn clear_empties_all() {
    let mut mem = ShortTermMemory::new(2);
    mem.record(msg("1"));
    mem.clear();
    assert!(mem.is_empty());
}

#[test]
fn zero_capacity_keeps_one_message() {
    let mut mem = ShortTermMemory::new(0);
    mem.record(msg("a"));
    mem.record(msg("b"));
    assert_eq!(mem.len(), 1);
    assert_eq!(mem.messages()[0].content, "b");
}

#[test]
fn sliding_window_keeps_the_most_recent() {
    let mut mem = ShortTermMemory::new(3);
    for i in 0..10 {
        mem.record(msg(&format!("m{i}")));
    }
    let kept: Vec<&str> = mem.messages().iter().map(|m| m.content.as_str()).collect();
    assert_eq!(kept, vec!["m7", "m8", "m9"]);
}

// ----- messages -----

#[test]
fn builds_valid_message() {
    let msg = Message::user("hello").expect("valid");
    assert_eq!(msg.role, MessageRole::User);
    assert_eq!(msg.content, "hello");
    assert!(msg.author.is_none());
}

#[test]
fn rejects_empty_content() {
    assert_eq!(Message::system("   "), Err(MessageError::EmptyContent));
}

#[test]
fn assistant_carries_author() {
    let author = AgentId::new("Software Engineer").unwrap();
    let msg = Message::assistant(author.clone(), "done").unwrap();
    assert!(msg.author == Some(author));
    assert_eq!(msg.role, MessageRole::Assistant);
}

#[test]
fn directed_messages_are_visible_to_their_parties_only() {
    let a = AgentId::new("A").unwrap();
    let b = AgentId::new("B").unwrap();
    let c = AgentId::new("C").unwrap();
    let m = Message::directed(a.clone(), b.clone(), "psst").unwrap();
    assert!(m.is_directed());
    assert!(m.is_visible_to(&a));
    assert!(m.is_visible_to(&b));
    assert!(!m.is_visible_to(&c));
    let broadcast = Message::user("all").unwrap();
    assert!(!broadcast.is_directed());
    assert!(broadcast.is_visible_to(&c));
    assert_eq!(MessageError::EmptyContent.message(), "message content must not be empty");
}

// ----- personas -----

#[test]
fn default_catalog_has_eight_personas() {
    let catalog = default_personas();
    assert_eq!(catalog.len(), 8);
}

#[test]
fn exactly_one_orchestrator() {
    let orchestrators = default_personas().iter().filter(|p| p.orchestrator).count();
    assert_eq!(orchestrators, 1);
}

#[test]
fn maestro_can_reach_every_operational_persona() {
    let catalog = default_personas();
    let maestro = catalog.iter().find(|p| p.orchestrator).unwrap();
    assert_eq!(maestro.can_handoff_to.len(), 7);
}

#[test]
fn rejects_empty_responsibility() {
    let err = Persona::new(AgentId::new("X").unwrap(), "  ", vec![], false, "", vec![], vec![]).unwrap_err();
    assert_eq!(err, PersonaError::EmptyResponsibility("X".to_string()));
    assert_eq!(err.message(), "persona 'X' must declare a responsibility");
}

#[test]
fn all_default_personas_have_system_prompts() {
    let catalog = default_personas();
    assert!(catalog.iter().all(|p| !p.system_prompt.is_empty()));
}

#[test]
fn all_operational_personas_have_expertise_keywords() {
    let catalog = default_personas();
    assert!(catalog.iter().filter(|p| !p.orchestrator).all(|p| !p.expertise_keywords.is_empty()));
}

// ----- rollback -----

#[test]
fn inverse_order_reverses_the_cascade() {
    let mut plan = RollbackPlan::new();
    plan.record(CascadeStep::new("apply A", "revert A"));
    plan.record(CascadeStep::new("apply B", "revert B"));
    plan.record(CascadeStep::new("apply C", "revert C"));
    assert_eq!(
        plan.inverse_order(),
        vec!["revert C".to_string(), "revert B".to_string(), "revert A".to_string()]
    );
}

#[test]
fn empty_plan_has_no_inverses() {
    let plan = RollbackPlan::new();
    assert!(plan.is_empty());
    assert_eq!(plan.len(), 0);
    assert!(plan.inverse_order().is_empty());
}

// ----- routing -----

#[test]
fn ranking_is_deterministic() {
    let personas = default_personas();
    let a = route("design the user experience layout", &personas);
    let b = route("design the user experience layout", &personas);
    assert_eq!(a.ranked, b.ranked);
    assert_eq!(a.selected, b.selected);
}

#[test]
fn excludes_the_orchestrator() {
    let personas = default_personas();
    let routing = route("anything at all here", &personas);
    assert!(routing.ranked.iter().all(|m| m.persona != "Maestro"));
}

#[test]
fn matches_relevant_persona_over_others() {
    let personas = default_personas();
    let routing = route("improve quality assurance and testing", &personas);
    assert!(routing.selected.iter().any(|p| p == "Quality Assurance"));
    assert!(!routing.used_fallback);
}

#[test]
fn falls_back_when_nothing_matches() {
    let personas = default_personas();
    let routing = route("zzz qqq vvv", &personas);
    assert!(routing.used_fallback);
    assert_eq!(routing.selected, vec![FALLBACK_PERSONA.to_string()]);
}

#[test]
fn ties_break_by_id_ascending() {
    let personas = default_personas();
    let routing = route("0000", &personas);
    let ids: Vec<&str> = routing.ranked.iter().map(|m| m.persona.as_str()).collect();
    let mut sorted = ids.clone();
    sorted.sort();
    assert_eq!(ids, sorted);
}

#[test]
fn keywords_improve_routing_precision() {
    let personas = default_personas();
    let routing = route("deploy the container", &personas);
    assert!(routing.selected.iter().any(|p| p == "DevOps Engineer"));
    assert!(!routing.used_fallback);
}

#[test]
fn weighted_keywords_beat_id_match() {
    let personas = default_personas();
    let routing = route("coding", &personas);
    assert_eq!(routing.selected, vec!["Software Engineer"]);
    let score = routing.ranked.iter().find(|m| m.persona == "Software Engineer").unwrap().score;
    assert_eq!(score, WEIGHT_SKILL_TAGS);
}

#[test]
fn skill_tags_contribute_to_score() {
    let personas = default_personas();
    let routing = route("infra", &personas);
    assert!(routing.selected.iter().any(|p| p == "DevOps Engineer"));
    let score = routing.ranked.iter().find(|m| m.persona == "DevOps Engineer").unwrap().score;
    assert_eq!(score, WEIGHT_KEYWORDS + WEIGHT_SKILL_TAGS);
}

#[test]
fn reason_explains_selection() {
    let personas = default_personas();
    let routing = route("improve quality assurance and testing", &personas);
    assert!(routing.reason.contains("Selected 'Quality Assurance'"));
    assert!(routing.reason.contains("score"));
    assert!(routing.reason.contains("margin"));
}

#[test]
fn reason_explains_fallback() {
    let personas = default_personas();
    let routing = route("zzz qqq vvv", &personas);
    assert!(routing.reason.contains("No persona cleared threshold"));
    assert!(routing.reason.contains("fell back to Software Engineer"));
}

#[test]
fn ranking_is_sorted_by_score_then_id() {
    let personas = default_personas();
    let routing = route("deploy the container and write tests", &personas);
    for pair in routing.ranked.windows(2) {
        let (a, b) = (&pair[0], &pair[1]);
        assert!(a.score > b.score || (a.score == b.score && a.persona <= b.persona));
    }
    assert_eq!(routing.ranked.len(), 7);
}

// ----- scratchpad -----

#[test]
fn write_and_read() {
    let mut pad = Scratchpad::new();
    let author = AgentId::new("tester").unwrap();
    pad.write("key1", "val1", author.clone());
    assert_eq!(pad.read("key1"), Some("val1"));
}

#[test]
fn overwrite_replaces_value() {
    let mut pad = Scratchpad::new();
    let author = AgentId::new("tester").unwrap();
    pad.write("key1", "val1", author.clone());
    pad.write("key1", "val2", author.clone());
    assert_eq!(pad.read("key1"), Some("val2"));
}

#[test]
fn log_records_all_writes() {
    let mut pad = Scratchpad::new();
    let author = AgentId::new("tester").unwrap();
    pad.write("k1", "v1", author.clone());
    pad.write("k1", "v2", author.clone());
    assert_eq!(pad.log().len(), 2);
    assert_eq!(pad.log()[0].value, "v1");
    assert_eq!(pad.log()[1].value, "v2");
}

#[test]
fn as_prompt_context_is_empty_when_no_entries() {
    let pad = Scratchpad::new();
    assert_eq!(pad.as_prompt_context(), "");
}

#[test]
fn prompt_context_lists_entries_in_key_order() {
    let mut pad = Scratchpad::new();
    let author = AgentId::new("tester").unwrap();
    pad.write("zeta", "last", author.clone());
    pad.write("alpha", "first", author.clone());
    pad.write("other", "x", author);
    assert_eq!(pad.read("missing"), None);
    assert_eq!(pad.snapshot().len(), 3);
    assert_eq!(pad.as_prompt_context(), "[Shared Scratchpad]\n  alpha: first\n  other: x\n  zeta: last\n");
}

// ----- thinking -----

#[test]
fn thinking_fragment_lists_parts() {
    let t = ThinkingOutput {
        task_interpretation: "fix it".to_string(),
        approach: "carefully".to_string(),
        risks: vec!["a".to_string(), "b".to_string()],
        within_competence: false,
    };
    assert_eq!(
        t.as_prompt_fragment(),
        "**Task Interpretation:** fix it\n**Approach:** carefully\n**Risks:** a; b\n**Note:** The task may be outside my primary competence."
    );
    let plain = ThinkingOutput {
        task_interpretation: "t".to_string(),
        approach: "a".to_string(),
        risks: vec![],
        within_competence: true,
    };
    assert_eq!(plain.as_prompt_fragment(), "**Task Interpretation:** t\n**Approach:** a");
}

// ----- tools -----

#[test]
fn file_read_does_not_require_approval() {
    assert!(!ToolKind::FileRead.requires_approval());
}

#[test]
fn file_write_requires_approval() {
    assert!(ToolKind::FileWrite.requires_approval());
}

#[test]
fn shell_exec_requires_approval() {
    assert!(ToolKind::ShellExec.requires_approval());
}

#[test]
fn tool_error_messages() {
    assert_eq!(ToolError::UnknownTool("x".to_string()).message(), "unknown tool: x");
    assert_eq!(ToolError::Timeout(30).message(), "tool timed out after 30s");
    assert_eq!(ToolError::RequiresApproval.message(), "tool requires approval");
    assert_eq!(ToolKind::ShellExec.label(), "shell_exec");
}

// ----- string map -----

#[test]
fn str_map_keeps_keys_sorted_and_removes() {
    let mut m: StrMap<u32> = StrMap::new();
    assert!(m.is_empty());
    assert_eq!(m.insert("b".to_string(), 2), None);
    assert_eq!(m.insert("a".to_string(), 1), None);
    assert_eq!(m.insert("b".to_string(), 3), Some(2));
    assert_eq!(m.len(), 2);
    assert_eq!(m.key_at(0), "a");
    assert_eq!(*m.value_at(1), 3);
    assert_eq!(m.remove("a"), Some(1));
    assert_eq!(m.remove("a"), None);
    assert!(!m.contains_key("a"));
    assert_eq!(m.get("b"), Some(&3));
}

#[test]
fn slug_lowercases_ascii_names() {
    assert_eq!(slug("  Software Engineer "), "software_engineer");
}

#[test]
fn prompt_context_lists_keys_in_ascending_order() {
    let author = AgentId::new("Maestro").unwrap();
    let mut pad = Scratchpad::new();
    pad.write("zeta", "1", author.clone());
    pad.write("alpha", "2", author.clone());
    pad.write("zeta", "3", author);
    assert_eq!(pad.as_prompt_context(), "[Shared Scratchpad]\n  alpha: 2\n  zeta: 3\n");
}
