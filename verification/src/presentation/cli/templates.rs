//! Project templates for `maestro init --template <key>`.

use vstd::prelude::*;

use crate::text::{ascii_lower, eq_ignore_ascii_case, eq_ignore_case_str};

verus! {

/// A project template definition.
#[derive(Debug, Clone, Copy)]
pub struct ProjectTemplate {
    /// Template key (used with `--template <key>`).
    pub key: &'static str,
    /// Human-readable description.
    pub description: &'static str,
    /// Scope file content.
    pub scope_content: &'static str,
    /// Starter task spec content.
    pub task_spec: &'static str,
    /// Persona hints (written to `maestro/scopes/_persona_hints.md`).
    pub persona_hints: &'static str,
    /// Starter skill content (written to `maestro/skills/<key>.md`).
    pub skill_content: &'static str,
}

/// What a template holds, as text.
pub struct TemplateView {
    pub key: Seq<char>,
    pub description: Seq<char>,
    pub scope_content: Seq<char>,
    pub task_spec: Seq<char>,
    pub persona_hints: Seq<char>,
    pub skill_content: Seq<char>,
}

impl View for ProjectTemplate {
    type V = TemplateView;

    open spec fn view(&self) -> TemplateView {
        TemplateView {
            key: self.key@,
            description: self.description@,
            scope_content: self.scope_content@,
            task_spec: self.task_spec@,
            persona_hints: self.persona_hints@,
            skill_content: self.skill_content@,
        }
    }
}

/// The built-in templates, all six fields of each, in catalog order.
pub open spec fn template_catalog() -> Seq<TemplateView> {
    seq![
        TemplateView {
            key: "web-app"@,
            description: "Web application (frontend + backend)"@,
            scope_content: "\
# Scope: Web Application

## Boundary
- Frontend: HTML/CSS/JS or framework (React, Vue, Svelte, etc.)
- Backend: API server with database
- Deployment: Container or serverless

## Constraints
- Must be responsive (mobile + desktop)
- Must pass Lighthouse performance audit ≥ 90
- Must include basic authentication

## Out of Scope
- Native mobile apps
- Real-time collaboration
"@,
            task_spec: "\
# Task 001: Web App Foundation

## Acceptance Criteria
- AC1: Project structure created with frontend and backend directories.
- AC2: Development server starts and serves a health-check endpoint.
- AC3: Basic HTML landing page renders in the browser.

## Risks
- Framework choice may constrain future architecture decisions.

## Rollback
- Delete the generated project directory.
"@,
            persona_hints: "\
# Persona Hints: Web Application
- User Experience: Focus heavily on responsive design, Lighthouse metrics (LCP/CLS), and a11y.
- Software Engineer: Maintain strict separation between frontend components and backend routes.
"@,
            skill_content: "\
# Skill: Frontend Testing
Use this skill when implementing UI components. Ensure visual regression and Lighthouse checks are part of the process.
"@,
        },
        TemplateView {
            key: "cli-tool"@,
            description: "Command-line tool or utility"@,
            scope_content: "\
# Scope: CLI Tool

## Boundary
- A single binary (or script) invoked from the terminal
- Reads input from arguments, stdin, or config files
- Outputs structured text (plain, JSON, or table)

## Constraints
- Must support `--help` and `--version` flags
- Exit codes: 0 = success, 1 = user error, 2 = system error
- Must be cross-platform (Linux + macOS)

## Out of Scope
- GUI or TUI (unless explicitly requested)
- Daemon / long-running service mode
"@,
            task_spec: "\
# Task 001: CLI Foundation

## Acceptance Criteria
- AC1: Binary compiles and prints version with `--version`.
- AC2: `--help` shows usage with at least one subcommand.
- AC3: Non-zero exit code on invalid arguments.

## Risks
- Argument parser choice affects future extensibility.

## Rollback
- Delete the generated project directory.
"@,
            persona_hints: "\
# Persona Hints: CLI Tool
- Software Engineer: Prioritize robust argument parsing, explicit exit codes, and cross-platform compatibility.
- Quality Assurance: Test edge-case CLI inputs, missing files, and unreadable permissions.
"@,
            skill_content: "\
# Skill: CLI UX
Use this skill when designing terminal interfaces. Emphasize clear help text, actionable error messages, and shell completion scripts.
"@,
        },
        TemplateView {
            key: "library"@,
            description: "Reusable library or SDK"@,
            scope_content: "\
# Scope: Library

## Boundary
- Published as a package (crate, npm module, pip package, etc.)
- Public API surface must be documented
- Consumed by other projects, not end users

## Constraints
- Must have ≥ 80% test coverage on public API
- Must include API documentation with examples
- Semver versioning

## Out of Scope
- CLI wrapper (create a separate project)
- Application-specific logic
"@,
            task_spec: "\
# Task 001: Library Foundation

## Acceptance Criteria
- AC1: Package manifest exists with name, version, and license.
- AC2: At least one public type or function is exported.
- AC3: Unit test suite runs with at least one passing test.

## Risks
- API design decisions are hard to change after v1.0.

## Rollback
- Delete the generated project directory.
"@,
            persona_hints: "\
# Persona Hints: Library
- Software Engineer: Focus on a stable public API surface, SemVer semantics, and comprehensive inline documentation.
- Quality Assurance: Enforce test coverage ≥ 80% and validate usage examples.
"@,
            skill_content: "\
# Skill: API Design
Use this skill when defining public library interfaces. Prioritize backward compatibility, clear naming, and modularity.
"@,
        },
        TemplateView {
            key: "infra"@,
            description: "Infrastructure automation (scripts, IaC, deployment)"@,
            scope_content: "\
# Scope: Infrastructure Automation

## Boundary
- Scripts, configuration, or IaC modules for provisioning and deployment
- Targets: cloud providers, containers, CI/CD pipelines
- Idempotent operations preferred

## Constraints
- Must include a dry-run / plan mode before applying changes
- Must log all state-changing operations
- Secrets must never be committed to the repository

## Out of Scope
- Application code (this is infra only)
- Monitoring and alerting (separate concern)
"@,
            task_spec: "\
# Task 001: Infra Foundation

## Acceptance Criteria
- AC1: Directory structure matches target platform conventions.
- AC2: A dry-run / plan command executes without errors.
- AC3: A README documents prerequisites and usage.

## Risks
- Cloud provider API changes may break automation.

## Rollback
- Destroy provisioned resources using the inverse script.
"@,
            persona_hints: "\
# Persona Hints: Infrastructure
- Software Engineer: Ensure all operations are idempotent, support dry-runs, and handle secrets securely.
- Quality Assurance: Focus on drift detection and state integrity.
"@,
            skill_content: "\
# Skill: Infrastructure Safety
Use this skill when applying IaC changes. Always run plan-then-apply workflows, verify rollback mechanisms, and audit access.
"@,
        },
        TemplateView {
            key: "api-service"@,
            description: "Backend API Service (REST, gRPC, GraphQL)"@,
            scope_content: "\
# Scope: API Service

## Boundary
- Headless backend service exposing endpoints over network
- Integrates with data stores or downstream services
- Stateless horizontally scalable deployment

## Constraints
- Must include OpenAPI/Swagger documentation
- Must implement basic rate limiting and auth validation
- JSON payloads with consistent error formatting

## Out of Scope
- UI/Frontend rendering
- Batch processing (separate concern)
"@,
            task_spec: "\
# Task 001: API Service Foundation

## Acceptance Criteria
- AC1: Web server boots and binds to configurable port.
- AC2: A `/health` endpoint returns 200 OK.
- AC3: Route structure supports versioning (e.g. `/v1/`).

## Risks
- Incorrect data modeling may require difficult migrations later.

## Rollback
- Delete the generated project directory.
"@,
            persona_hints: "\
# Persona Hints: API Service
- Software Engineer: Structure around REST/gRPC best practices, secure auth middleware, and rate limiting.
- Quality Assurance: Implement contract testing against the OpenAPI schema.
- User Experience: Focus on Developer Experience (DX) — clear API docs and potential SDK generation.
"@,
            skill_content: "\
# Skill: API Contract Testing
Use this skill when modifying routes or schemas. Ensure the implementation strictly matches the published OpenAPI specification.
"@,
        },
        TemplateView {
            key: "data-pipeline"@,
            description: "Data processing pipeline or ETL"@,
            scope_content: "\
# Scope: Data Pipeline

## Boundary
- Batch or streaming ETL (Extract, Transform, Load) processes
- Connects to source datastores and writes to warehouses/lakes
- Transform logic separates pure computation from I/O

## Constraints
- Must handle nulls, duplicates, and malformed rows gracefully
- Must support incremental loads (not just full snapshots)
- Data quality checks at stage boundaries

## Out of Scope
- Real-time user-facing dashboards
- Transactional (OLTP) database migrations
"@,
            task_spec: "\
# Task 001: Pipeline Foundation

## Acceptance Criteria
- AC1: Scaffold extract, transform, and load modules.
- AC2: Unit test the transform logic with mock data.
- AC3: Define input/output schemas.

## Risks
- Upstream schema changes might break extraction silently.

## Rollback
- Delete the generated project directory.
"@,
            persona_hints: "\
# Persona Hints: Data Pipeline
- Software Engineer: Design explicit ETL stages, ensure idempotency for retries, and plan for schema evolution.
- Quality Assurance: Implement robust data quality checks (nulls, ranges, duplicates).
"@,
            skill_content: "\
# Skill: Data Quality
Use this skill when writing data transformations. Enforce strict schema validation, handle missing fields, and log bad records.
"@,
        },
    ]
}

/// The keys and descriptions of the built-in templates, in catalog order.
pub open spec fn template_index() -> Seq<(Seq<char>, Seq<char>)> {
    template_catalog().map_values(|t: TemplateView| (t.key, t.description))
}

/// The built-in template catalog.
pub fn templates() -> (r: Vec<ProjectTemplate>)
    ensures
        r@.map_values(|t: ProjectTemplate| t@) == template_catalog(),
        r@.map_values(|t: ProjectTemplate| (t.key@, t.description@)) == template_index(),
{
    let mut v: Vec<ProjectTemplate> = Vec::new();
    v.push(ProjectTemplate {
        key: "web-app",
        description: "Web application (frontend + backend)",
        scope_content: "\
# Scope: Web Application

## Boundary
- Frontend: HTML/CSS/JS or framework (React, Vue, Svelte, etc.)
- Backend: API server with database
- Deployment: Container or serverless

## Constraints
- Must be responsive (mobile + desktop)
- Must pass Lighthouse performance audit ≥ 90
- Must include basic authentication

## Out of Scope
- Native mobile apps
- Real-time collaboration
",
        task_spec: "\
# Task 001: Web App Foundation

## Acceptance Criteria
- AC1: Project structure created with frontend and backend directories.
- AC2: Development server starts and serves a health-check endpoint.
- AC3: Basic HTML landing page renders in the browser.

## Risks
- Framework choice may constrain future architecture decisions.

## Rollback
- Delete the generated project directory.
",
        persona_hints: "\
# Persona Hints: Web Application
- User Experience: Focus heavily on responsive design, Lighthouse metrics (LCP/CLS), and a11y.
- Software Engineer: Maintain strict separation between frontend components and backend routes.
",
        skill_content: "\
# Skill: Frontend Testing
Use this skill when implementing UI components. Ensure visual regression and Lighthouse checks are part of the process.
",
        });
    v.push(ProjectTemplate {
        key: "cli-tool",
        description: "Command-line tool or utility",
        scope_content: "\
# Scope: CLI Tool

## Boundary
- A single binary (or script) invoked from the terminal
- Reads input from arguments, stdin, or config files
- Outputs structured text (plain, JSON, or table)

## Constraints
- Must support `--help` and `--version` flags
- Exit codes: 0 = success, 1 = user error, 2 = system error
- Must be cross-platform (Linux + macOS)

## Out of Scope
- GUI or TUI (unless explicitly requested)
- Daemon / long-running service mode
",
        task_spec: "\
# Task 001: CLI Foundation

## Acceptance Criteria
- AC1: Binary compiles and prints version with `--version`.
- AC2: `--help` shows usage with at least one subcommand.
- AC3: Non-zero exit code on invalid arguments.

## Risks
- Argument parser choice affects future extensibility.

## Rollback
- Delete the generated project directory.
",
        persona_hints: "\
# Persona Hints: CLI Tool
- Software Engineer: Prioritize robust argument parsing, explicit exit codes, and cross-platform compatibility.
- Quality Assurance: Test edge-case CLI inputs, missing files, and unreadable permissions.
",
        skill_content: "\
# Skill: CLI UX
Use this skill when designing terminal interfaces. Emphasize clear help text, actionable error messages, and shell completion scripts.
",
        });
    v.push(ProjectTemplate {
        key: "library",
        description: "Reusable library or SDK",
        scope_content: "\
# Scope: Library

## Boundary
- Published as a package (crate, npm module, pip package, etc.)
- Public API surface must be documented
- Consumed by other projects, not end users

## Constraints
- Must have ≥ 80% test coverage on public API
- Must include API documentation with examples
- Semver versioning

## Out of Scope
- CLI wrapper (create a separate project)
- Application-specific logic
",
        task_spec: "\
# Task 001: Library Foundation

## Acceptance Criteria
- AC1: Package manifest exists with name, version, and license.
- AC2: At least one public type or function is exported.
- AC3: Unit test suite runs with at least one passing test.

## Risks
- API design decisions are hard to change after v1.0.

## Rollback
- Delete the generated project directory.
",
        persona_hints: "\
# Persona Hints: Library
- Software Engineer: Focus on a stable public API surface, SemVer semantics, and comprehensive inline documentation.
- Quality Assurance: Enforce test coverage ≥ 80% and validate usage examples.
",
        skill_content: "\
# Skill: API Design
Use this skill when defining public library interfaces. Prioritize backward compatibility, clear naming, and modularity.
",
        });
    v.push(ProjectTemplate {
        key: "infra",
        description: "Infrastructure automation (scripts, IaC, deployment)",
        scope_content: "\
# Scope: Infrastructure Automation

## Boundary
- Scripts, configuration, or IaC modules for provisioning and deployment
- Targets: cloud providers, containers, CI/CD pipelines
- Idempotent operations preferred

## Constraints
- Must include a dry-run / plan mode before applying changes
- Must log all state-changing operations
- Secrets must never be committed to the repository

## Out of Scope
- Application code (this is infra only)
- Monitoring and alerting (separate concern)
",
        task_spec: "\
# Task 001: Infra Foundation

## Acceptance Criteria
- AC1: Directory structure matches target platform conventions.
- AC2: A dry-run / plan command executes without errors.
- AC3: A README documents prerequisites and usage.

## Risks
- Cloud provider API changes may break automation.

## Rollback
- Destroy provisioned resources using the inverse script.
",
        persona_hints: "\
# Persona Hints: Infrastructure
- Software Engineer: Ensure all operations are idempotent, support dry-runs, and handle secrets securely.
- Quality Assurance: Focus on drift detection and state integrity.
",
        skill_content: "\
# Skill: Infrastructure Safety
Use this skill when applying IaC changes. Always run plan-then-apply workflows, verify rollback mechanisms, and audit access.
",
        });
    v.push(ProjectTemplate {
        key: "api-service",
        description: "Backend API Service (REST, gRPC, GraphQL)",
        scope_content: "\
# Scope: API Service

## Boundary
- Headless backend service exposing endpoints over network
- Integrates with data stores or downstream services
- Stateless horizontally scalable deployment

## Constraints
- Must include OpenAPI/Swagger documentation
- Must implement basic rate limiting and auth validation
- JSON payloads with consistent error formatting

## Out of Scope
- UI/Frontend rendering
- Batch processing (separate concern)
",
        task_spec: "\
# Task 001: API Service Foundation

## Acceptance Criteria
- AC1: Web server boots and binds to configurable port.
- AC2: A `/health` endpoint returns 200 OK.
- AC3: Route structure supports versioning (e.g. `/v1/`).

## Risks
- Incorrect data modeling may require difficult migrations later.

## Rollback
- Delete the generated project directory.
",
        persona_hints: "\
# Persona Hints: API Service
- Software Engineer: Structure around REST/gRPC best practices, secure auth middleware, and rate limiting.
- Quality Assurance: Implement contract testing against the OpenAPI schema.
- User Experience: Focus on Developer Experience (DX) — clear API docs and potential SDK generation.
",
        skill_content: "\
# Skill: API Contract Testing
Use this skill when modifying routes or schemas. Ensure the implementation strictly matches the published OpenAPI specification.
",
        });
    v.push(ProjectTemplate {
        key: "data-pipeline",
        description: "Data processing pipeline or ETL",
        scope_content: "\
# Scope: Data Pipeline

## Boundary
- Batch or streaming ETL (Extract, Transform, Load) processes
- Connects to source datastores and writes to warehouses/lakes
- Transform logic separates pure computation from I/O

## Constraints
- Must handle nulls, duplicates, and malformed rows gracefully
- Must support incremental loads (not just full snapshots)
- Data quality checks at stage boundaries

## Out of Scope
- Real-time user-facing dashboards
- Transactional (OLTP) database migrations
",
        task_spec: "\
# Task 001: Pipeline Foundation

## Acceptance Criteria
- AC1: Scaffold extract, transform, and load modules.
- AC2: Unit test the transform logic with mock data.
- AC3: Define input/output schemas.

## Risks
- Upstream schema changes might break extraction silently.

## Rollback
- Delete the generated project directory.
",
        persona_hints: "\
# Persona Hints: Data Pipeline
- Software Engineer: Design explicit ETL stages, ensure idempotency for retries, and plan for schema evolution.
- Quality Assurance: Implement robust data quality checks (nulls, ranges, duplicates).
",
        skill_content: "\
# Skill: Data Quality
Use this skill when writing data transformations. Enforce strict schema validation, handle missing fields, and log bad records.
",
        });
    assert(v@.map_values(|t: ProjectTemplate| t@) =~= template_catalog());
    assert(v@.map_values(|t: ProjectTemplate| (t.key@, t.description@)) =~= template_index());
    v
}

/// The first template whose key equals `key` up to ASCII case.
pub open spec fn first_match(index: Seq<(Seq<char>, Seq<char>)>, key: Seq<char>) -> Option<int>
    decreases index.len(),
{
    if index.len() == 0 {
        None
    } else {
        match first_match(index.drop_last(), key) {
            Some(i) => Some(i),
            None => if eq_ignore_ascii_case(index.last().0, key) {
                Some(index.len() - 1)
            } else {
                None
            },
        }
    }
}

/// Look up a template by key (case-insensitive).
pub fn find(key: &str) -> (r: Option<ProjectTemplate>)
    ensures
        match first_match(template_index(), key@) {
            Some(i) => r matches Some(t) && t@ == template_catalog()[i],
            None => r is None,
        },
{
    let all = templates();
    let ghost idx = template_index();
    let mut i: usize = 0;
    while i < all.len()
        invariant
            i <= all@.len(),
            all@.map_values(|t: ProjectTemplate| (t.key@, t.description@)) == idx,
            all@.map_values(|t: ProjectTemplate| t@) == template_catalog(),
            idx == template_index(),
            first_match(idx.subrange(0, i as int), key@) is None,
        decreases all.len() - i,
    {
        proof {
            assert(idx.subrange(0, i + 1).drop_last() =~= idx.subrange(0, i as int));
            assert(idx[i as int] == (all@[i as int].key@, all@[i as int].description@));
            assert(all@[i as int]@ == template_catalog()[i as int]);
        }
        if eq_ignore_case_str(all[i].key, key) {
            proof {
                lemma_first_match_prefix(idx, (i + 1) as int, key@);
            }
            return Some(all[i]);
        }
        i = i + 1;
    }
    assert(idx.subrange(0, all@.len() as int) =~= idx);
    None
}

proof fn lemma_first_match_prefix(index: Seq<(Seq<char>, Seq<char>)>, k: int, key: Seq<char>)
    requires
        0 <= k <= index.len(),
        first_match(index.subrange(0, k), key) is Some,
    ensures
        first_match(index, key) == first_match(index.subrange(0, k), key),
    decreases index.len() - k,
{
    if k < index.len() {
        assert(index.subrange(0, k + 1).drop_last() =~= index.subrange(0, k));
        lemma_first_match_prefix(index, k + 1, key);
    } else {
        assert(index.subrange(0, k) =~= index);
    }
}

/// Lookup ignores ASCII case: keys that differ only in ASCII case find the
/// same template.
pub proof fn lemma_find_ignores_case(index: Seq<(Seq<char>, Seq<char>)>, a: Seq<char>, b: Seq<char>)
    requires
        eq_ignore_ascii_case(a, b),
    ensures
        first_match(index, a) == first_match(index, b),
    decreases index.len(),
{
    if index.len() > 0 {
        lemma_find_ignores_case(index.drop_last(), a, b);
        let k = index.last().0;
        if eq_ignore_ascii_case(k, a) {
            assert forall|i: int| 0 <= i < k.len() implies ascii_lower(#[trigger] k[i]) == ascii_lower(b[i]) by {
                assert(ascii_lower(k[i]) == ascii_lower(a[i]));
                assert(ascii_lower(a[i]) == ascii_lower(b[i]));
            }
        }
        if eq_ignore_ascii_case(k, b) {
            assert forall|i: int| 0 <= i < k.len() implies ascii_lower(#[trigger] k[i]) == ascii_lower(a[i]) by {
                assert(ascii_lower(k[i]) == ascii_lower(b[i]));
                assert(ascii_lower(a[i]) == ascii_lower(b[i]));
            }
        }
    }
}

/// All available template keys with descriptions, in catalog order.
pub fn list() -> (r: Vec<(&'static str, &'static str)>)
    ensures
        r@.map_values(|p: (&'static str, &'static str)| (p.0@, p.1@)) == template_index(),
{
    let all = templates();
    let mut out: Vec<(&'static str, &'static str)> = Vec::new();
    let mut i: usize = 0;
    while i < all.len()
        invariant
            i <= all@.len(),
            all@.map_values(|t: ProjectTemplate| (t.key@, t.description@)) == template_index(),
            out@.map_values(|p: (&'static str, &'static str)| (p.0@, p.1@)) == template_index().subrange(0, i as int),
        decreases all.len() - i,
    {
        let ghost before = out@.map_values(|p: (&'static str, &'static str)| (p.0@, p.1@));
        out.push((all[i].key, all[i].description));
        assert(template_index()[i as int] == (all@[i as int].key@, all@[i as int].description@));
        assert(out@.map_values(|p: (&'static str, &'static str)| (p.0@, p.1@)) =~= before.push(
            (all@[i as int].key@, all@[i as int].description@),
        ));
        assert(out@.map_values(|p: (&'static str, &'static str)| (p.0@, p.1@)) =~= template_index().subrange(
            0,
            i + 1,
        ));
        i = i + 1;
    }
    assert(template_index().subrange(0, all@.len() as int) =~= template_index());
    out
}

} // verus!
