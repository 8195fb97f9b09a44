//! Persona model and the default persona catalog.
//!
//! A `Persona` is an AI profile with a single responsibility and an interaction
//! matrix (`can_handoff_to`). The default catalog is Maestro (the orchestrator)
//! plus seven operational personas.

use vstd::prelude::*;
use vstd::string::*;

use super::agent_id::AgentId;
use crate::text::{concat3, is_blank, is_blank_str, is_white_space, owned, to_strings};

verus! {

/// An AI profile participating in orchestration.
#[derive(Debug, PartialEq, Eq)]
pub struct Persona {
    /// Stable identifier (also the persona's display name).
    pub id: AgentId,
    /// One-line responsibility statement.
    pub responsibility: String,
    /// Personas this one may hand work to (the interaction matrix).
    pub can_handoff_to: Vec<AgentId>,
    /// The orchestrator persona is immutable and cannot be deleted.
    pub orchestrator: bool,
    /// Multi-line system prompt template.
    pub system_prompt: String,
    /// Expertise keywords that enrich routing.
    pub expertise_keywords: Vec<String>,
    /// Skill tags this persona is associated with.
    pub skill_tags: Vec<String>,
}

/// The abstract value of a [`Persona`].
#[verifier::ext_equal]
pub struct PersonaView {
    pub id: Seq<char>,
    pub responsibility: Seq<char>,
    pub can_handoff_to: Seq<Seq<char>>,
    pub orchestrator: bool,
    pub system_prompt: Seq<char>,
    pub expertise_keywords: Seq<Seq<char>>,
    pub skill_tags: Seq<Seq<char>>,
}

impl View for Persona {
    type V = PersonaView;

    open spec fn view(&self) -> PersonaView {
        PersonaView {
            id: self.id@,
            responsibility: self.responsibility@,
            can_handoff_to: self.can_handoff_to.deep_view(),
            orchestrator: self.orchestrator,
            system_prompt: self.system_prompt@,
            expertise_keywords: self.expertise_keywords.deep_view(),
            skill_tags: self.skill_tags.deep_view(),
        }
    }
}

impl DeepView for Persona {
    type V = PersonaView;

    open spec fn deep_view(&self) -> PersonaView {
        self@
    }
}

/// Copies of the identifiers of `v`.
pub fn clone_ids(v: &Vec<AgentId>) -> (r: Vec<AgentId>)
    ensures
        r.deep_view() =~= v.deep_view(),
{
    let mut r: Vec<AgentId> = Vec::new();
    let mut i: usize = 0;
    while i < v.len()
        invariant
            i <= v.len(),
            r.len() == i,
            forall|j: int| 0 <= j < i ==> #[trigger] r@[j].deep_view() == v@[j].deep_view(),
        decreases v.len() - i,
    {
        r.push(v[i].clone());
        i = i + 1;
    }
    assert(r.deep_view() =~= v.deep_view());
    r
}

/// Copies of the strings of `v`.
pub fn clone_strings(v: &Vec<String>) -> (r: Vec<String>)
    ensures
        r.deep_view() =~= v.deep_view(),
{
    let mut r: Vec<String> = Vec::new();
    let mut i: usize = 0;
    while i < v.len()
        invariant
            i <= v.len(),
            r.len() == i,
            forall|j: int| 0 <= j < i ==> #[trigger] r@[j].deep_view() == v@[j].deep_view(),
        decreases v.len() - i,
    {
        r.push(v[i].clone());
        i = i + 1;
    }
    assert(r.deep_view() =~= v.deep_view());
    r
}

impl Clone for Persona {
    fn clone(&self) -> (r: Self)
        ensures
            r@ == self@,
    {
        Persona {
            id: self.id.clone(),
            responsibility: self.responsibility.clone(),
            can_handoff_to: clone_ids(&self.can_handoff_to),
            orchestrator: self.orchestrator,
            system_prompt: self.system_prompt.clone(),
            expertise_keywords: clone_strings(&self.expertise_keywords),
            skill_tags: clone_strings(&self.skill_tags),
        }
    }
}

/// Errors constructing or validating a [`Persona`].
#[derive(Debug, PartialEq, Eq)]
pub enum PersonaError {
    /// The responsibility statement was blank; carries the persona id.
    EmptyResponsibility(String),
}

impl PersonaError {
    /// The human-readable message of this error.
    pub fn message(&self) -> (r: String)
        ensures
            self matches PersonaError::EmptyResponsibility(id) && r@ == "persona '"@ + id@
                + "' must declare a responsibility"@,
    {
        match self {
            PersonaError::EmptyResponsibility(id) => concat3(
                "persona '",
                id.as_str(),
                "' must declare a responsibility",
            ),
        }
    }
}

impl Persona {
    /// Construct and validate a persona: the responsibility must not be blank.
    pub fn new(
        id: AgentId,
        responsibility: &str,
        can_handoff_to: Vec<AgentId>,
        orchestrator: bool,
        system_prompt: &str,
        expertise_keywords: Vec<String>,
        skill_tags: Vec<String>,
    ) -> (r: Result<Persona, PersonaError>)
        ensures
            r is Err <==> is_blank(responsibility@),
            r matches Err(PersonaError::EmptyResponsibility(name)) ==> name@ == id@,
            r matches Ok(p) ==> p@ == (PersonaView {
                id: id@,
                responsibility: responsibility@,
                can_handoff_to: can_handoff_to.deep_view(),
                orchestrator,
                system_prompt: system_prompt@,
                expertise_keywords: expertise_keywords.deep_view(),
                skill_tags: skill_tags.deep_view(),
            }),
    {
        if is_blank_str(responsibility) {
            return Err(PersonaError::EmptyResponsibility(id.to_string()));
        }
        Ok(Persona {
            id,
            responsibility: owned(responsibility),
            can_handoff_to,
            orchestrator,
            system_prompt: owned(system_prompt),
            expertise_keywords,
            skill_tags,
        })
    }
}

/// The abstract value of a persona built from its parts.
pub open spec fn persona_view(
    id: Seq<char>,
    responsibility: Seq<char>,
    handoffs: Seq<Seq<char>>,
    orchestrator: bool,
    system_prompt: Seq<char>,
    keywords: Seq<Seq<char>>,
    tags: Seq<Seq<char>>,
) -> PersonaView {
    PersonaView {
        id,
        responsibility,
        can_handoff_to: handoffs,
        orchestrator,
        system_prompt,
        expertise_keywords: keywords,
        skill_tags: tags,
    }
}

/// The ids of the seven operational personas, in catalog order.
pub open spec fn operational_ids() -> Seq<Seq<char>> {
    seq![
        "Project Manager"@,
        "Quality Assurance"@,
        "User Experience"@,
        "Software Engineer"@,
        "DevOps Engineer"@,
        "Security Analyst"@,
        "Technical Writer"@,
    ]
}

/// The default persona catalog.
pub open spec fn default_catalog() -> Seq<PersonaView> {
    seq![
        persona_view(
            "Maestro"@,
            "Orchestrate the micro-project: plan, delegate, audit, deliver."@,
            operational_ids(),
            true,
            "You are Maestro, the master orchestrator. Your job is to plan, delegate, and audit the work of other personas."@,
            seq!["orchestrator"@, "manager"@],
            seq![],
        ),
        persona_view(
            "Project Manager"@,
            "Break the demand into a validated plan and track delivery."@,
            seq!["Maestro"@],
            false,
            "You are a Project Manager. Focus on organizing tasks, setting milestones, and ensuring the plan covers all requirements."@,
            seq!["planning"@, "management"@, "delivery"@],
            seq!["planning"@],
        ),
        persona_view(
            "Quality Assurance"@,
            "Validate contributions against acceptance criteria."@,
            seq!["Maestro"@],
            false,
            "You are a QA Engineer. Your focus is on testing, finding edge cases, and verifying that all acceptance criteria are met."@,
            seq!["testing"@, "qa"@, "validation"@],
            seq!["testing"@],
        ),
        persona_view(
            "User Experience"@,
            "Shape usable, accessible terminal-first experiences."@,
            seq!["Maestro"@],
            false,
            "You are a UX Designer. Focus on user flows, clarity, and terminal-first accessibility."@,
            seq!["design"@, "ux"@, "accessibility"@],
            seq!["design"@],
        ),
        persona_view(
            "Software Engineer"@,
            "Implement the solution with tests and safe execution."@,
            seq!["Maestro"@],
            false,
            "You are a Software Engineer. Write robust, idiomatic code, write tests, and safely execute implementation steps."@,
            seq!["code"@, "implementation"@, "engineer"@, "rust"@],
            seq!["coding"@],
        ),
        persona_view(
            "DevOps Engineer"@,
            "Automate infrastructure, CI/CD, and environment provisioning."@,
            seq!["Maestro"@],
            false,
            "You are a DevOps Engineer. Focus on infrastructure as code, CI/CD pipelines, and environment management."@,
            seq!["ci"@, "cd"@, "pipeline"@, "docker"@, "container"@, "deploy"@, "infra"@, "terraform"@, "kubernetes"@],
            seq!["infra"@, "ci-cd"@],
        ),
        persona_view(
            "Security Analyst"@,
            "Identify threats, review access controls, and enforce security policy."@,
            seq!["Maestro"@],
            false,
            "You are a Security Analyst. Review all code and infra for vulnerabilities, focusing on access controls and safe practices."@,
            seq!["security"@, "threat"@, "vulnerability"@, "auth"@, "access"@, "policy"@, "encryption"@, "audit"@],
            seq!["security"@],
        ),
        persona_view(
            "Technical Writer"@,
            "Produce clear documentation, READMEs, and user guides."@,
            seq!["Maestro"@],
            false,
            "You are a Technical Writer. Your goal is to produce clear, accurate, and helpful documentation for developers and users."@,
            seq!["documentation"@, "readme"@, "guide"@, "writing"@, "docs"@, "api-docs"@, "changelog"@],
            seq!["docs"@],
        ),
    ]
}

/// An identifier known not to be blank.
fn id(name: &str) -> (r: AgentId)
    requires
        !is_blank(name@),
    ensures
        r@ == name@,
{
    match AgentId::new(name) {
        Ok(id) => id,
        Err(_) => {
            proof {
                assert(false);
            }
            vstd::pervasive::unreached()
        },
    }
}

/// A persona whose responsibility is known not to be blank.
fn persona(
    id: AgentId,
    responsibility: &str,
    handoffs: Vec<AgentId>,
    orchestrator: bool,
    system_prompt: &str,
    expertise_keywords: Vec<String>,
    skill_tags: Vec<String>,
) -> (r: Persona)
    requires
        !is_blank(responsibility@),
    ensures
        r@ == persona_view(
            id@,
            responsibility@,
            handoffs.deep_view(),
            orchestrator,
            system_prompt@,
            expertise_keywords.deep_view(),
            skill_tags.deep_view(),
        ),
{
    match Persona::new(
        id,
        responsibility,
        handoffs,
        orchestrator,
        system_prompt,
        expertise_keywords,
        skill_tags,
    ) {
        Ok(p) => p,
        Err(_) => {
            proof {
                assert(false);
            }
            vstd::pervasive::unreached()
        },
    }
}

/// A non-blank string: its first character is not whitespace.
proof fn lemma_first_not_space(s: Seq<char>)
    requires
        s.len() > 0,
        !is_white_space(s[0]),
    ensures
        !is_blank(s),
{
}

/// The default persona catalog: `Maestro` (orchestrator) plus the seven
/// operational personas.
pub fn default_personas() -> (r: Vec<Persona>)
    ensures
        r.deep_view() == default_catalog(),
{
    proof {
        reveal_strlit("Maestro");
        reveal_strlit("Project Manager");
        reveal_strlit("Quality Assurance");
        reveal_strlit("User Experience");
        reveal_strlit("Software Engineer");
        reveal_strlit("DevOps Engineer");
        reveal_strlit("Security Analyst");
        reveal_strlit("Technical Writer");
        reveal_strlit("Orchestrate the micro-project: plan, delegate, audit, deliver.");
        reveal_strlit("Break the demand into a validated plan and track delivery.");
        reveal_strlit("Validate contributions against acceptance criteria.");
        reveal_strlit("Shape usable, accessible terminal-first experiences.");
        reveal_strlit("Implement the solution with tests and safe execution.");
        reveal_strlit("Automate infrastructure, CI/CD, and environment provisioning.");
        reveal_strlit("Identify threats, review access controls, and enforce security policy.");
        reveal_strlit("Produce clear documentation, READMEs, and user guides.");
        lemma_first_not_space("Maestro"@);
        lemma_first_not_space("Project Manager"@);
        lemma_first_not_space("Quality Assurance"@);
        lemma_first_not_space("User Experience"@);
        lemma_first_not_space("Software Engineer"@);
        lemma_first_not_space("DevOps Engineer"@);
        lemma_first_not_space("Security Analyst"@);
        lemma_first_not_space("Technical Writer"@);
        lemma_first_not_space("Orchestrate the micro-project: plan, delegate, audit, deliver."@);
        lemma_first_not_space("Break the demand into a validated plan and track delivery."@);
        lemma_first_not_space("Validate contributions against acceptance criteria."@);
        lemma_first_not_space("Shape usable, accessible terminal-first experiences."@);
        lemma_first_not_space("Implement the solution with tests and safe execution."@);
        lemma_first_not_space("Automate infrastructure, CI/CD, and environment provisioning."@);
        lemma_first_not_space("Identify threats, review access controls, and enforce security policy."@);
        lemma_first_not_space("Produce clear documentation, READMEs, and user guides."@);
    }
    let maestro = id("Maestro");
    let pm = id("Project Manager");
    let qa = id("Quality Assurance");
    let ux = id("User Experience");
    let eng = id("Software Engineer");
    let devops = id("DevOps Engineer");
    let sec = id("Security Analyst");
    let tw = id("Technical Writer");

    let all_operational = vec![
        pm.clone(),
        qa.clone(),
        ux.clone(),
        eng.clone(),
        devops.clone(),
        sec.clone(),
        tw.clone(),
    ];
    assert(all_operational.deep_view() =~= operational_ids());

    let m1 = vec![maestro.clone()];
    let m2 = vec![maestro.clone()];
    let m3 = vec![maestro.clone()];
    let m4 = vec![maestro.clone()];
    let m5 = vec![maestro.clone()];
    let m6 = vec![maestro.clone()];
    let m7 = vec![maestro.clone()];
    assert(m1.deep_view() =~= seq!["Maestro"@]);
    assert(m2.deep_view() =~= seq!["Maestro"@]);
    assert(m3.deep_view() =~= seq!["Maestro"@]);
    assert(m4.deep_view() =~= seq!["Maestro"@]);
    assert(m5.deep_view() =~= seq!["Maestro"@]);
    assert(m6.deep_view() =~= seq!["Maestro"@]);
    assert(m7.deep_view() =~= seq!["Maestro"@]);
    let no_tags: Vec<String> = Vec::new();
    assert(no_tags.deep_view() =~= Seq::<Seq<char>>::empty());

    let r = vec![
        persona(
            maestro,
            "Orchestrate the micro-project: plan, delegate, audit, deliver.",
            all_operational,
            true,
            "You are Maestro, the master orchestrator. Your job is to plan, delegate, and audit the work of other personas.",
            to_strings(vec!["orchestrator", "manager"]),
            no_tags,
        ),
        persona(
            pm,
            "Break the demand into a validated plan and track delivery.",
            m1,
            false,
            "You are a Project Manager. Focus on organizing tasks, setting milestones, and ensuring the plan covers all requirements.",
            to_strings(vec!["planning", "management", "delivery"]),
            to_strings(vec!["planning"]),
        ),
        persona(
            qa,
            "Validate contributions against acceptance criteria.",
            m2,
            false,
            "You are a QA Engineer. Your focus is on testing, finding edge cases, and verifying that all acceptance criteria are met.",
            to_strings(vec!["testing", "qa", "validation"]),
            to_strings(vec!["testing"]),
        ),
        persona(
            ux,
            "Shape usable, accessible terminal-first experiences.",
            m3,
            false,
            "You are a UX Designer. Focus on user flows, clarity, and terminal-first accessibility.",
            to_strings(vec!["design", "ux", "accessibility"]),
            to_strings(vec!["design"]),
        ),
        persona(
            eng,
            "Implement the solution with tests and safe execution.",
            m4,
            false,
            "You are a Software Engineer. Write robust, idiomatic code, write tests, and safely execute implementation steps.",
            to_strings(vec!["code", "implementation", "engineer", "rust"]),
            to_strings(vec!["coding"]),
        ),
        persona(
            devops,
            "Automate infrastructure, CI/CD, and environment provisioning.",
            m5,
            false,
            "You are a DevOps Engineer. Focus on infrastructure as code, CI/CD pipelines, and environment management.",
            to_strings(vec!["ci", "cd", "pipeline", "docker", "container", "deploy", "infra", "terraform", "kubernetes"]),
            to_strings(vec!["infra", "ci-cd"]),
        ),
        persona(
            sec,
            "Identify threats, review access controls, and enforce security policy.",
            m6,
            false,
            "You are a Security Analyst. Review all code and infra for vulnerabilities, focusing on access controls and safe practices.",
            to_strings(vec!["security", "threat", "vulnerability", "auth", "access", "policy", "encryption", "audit"]),
            to_strings(vec!["security"]),
        ),
        persona(
            tw,
            "Produce clear documentation, READMEs, and user guides.",
            m7,
            false,
            "You are a Technical Writer. Your goal is to produce clear, accurate, and helpful documentation for developers and users.",
            to_strings(vec!["documentation", "readme", "guide", "writing", "docs", "api-docs", "changelog"]),
            to_strings(vec!["docs"]),
        ),
    ];
    proof {
        let d = r.deep_view();
        let c = default_catalog();
        assert(d[0] =~~= c[0]);
        assert(d[1] =~~= c[1]);
        assert(d[2] =~~= c[2]);
        assert(d[3] =~~= c[3]);
        assert(d[4] =~~= c[4]);
        assert(d[5] =~~= c[5]);
        assert(d[6] =~~= c[6]);
        assert(d[7] =~~= c[7]);
        assert(d =~~= c);
    }
    r
}

} // verus!
