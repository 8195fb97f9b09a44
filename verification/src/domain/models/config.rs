//! Configuration schema: pure types and cross-reference validation.
//!
//! Loading the file from disk is the application's concern; this module only
//! models and validates.

use vstd::prelude::*;

use super::str_map::{keys_ascending, StrMap};
use crate::text::{concat3, str_eq};

verus! {

/// Top-level system defaults.
#[derive(Debug, PartialEq, Eq)]
pub struct SystemConfig {
    /// Provider used when a persona does not pin one.
    pub default_provider: String,
    /// Model used when a persona does not pin one.
    pub default_model: String,
    /// Maximum number of concurrently running agents.
    pub max_concurrency: u32,
}

/// The concurrency limit used when the configuration does not set one.
pub fn default_concurrency() -> (r: u32)
    ensures
        r == 4,
{
    4
}

/// A configured model within a provider.
#[derive(Debug, PartialEq, Eq)]
pub struct ModelConfig {
    /// Model name (e.g. `mistral`).
    pub name: String,
}

/// A configured provider and its models.
#[derive(Debug, PartialEq, Eq)]
pub struct ProviderConfig {
    /// Provider kind (e.g. `ollama`, `openai`).
    pub kind: String,
    /// Endpoint URL.
    pub endpoint: String,
    /// Declared models.
    pub models: Vec<ModelConfig>,
}

/// A per-persona provider and model pinning.
#[derive(Debug, PartialEq, Eq)]
pub struct AgentBinding {
    /// Provider key (must exist in `providers`).
    pub provider: String,
    /// Model name (must exist under that provider).
    pub model: String,
    /// An optional model to fall back to before the system default.
    pub fallback_model: Option<String>,
}

/// The full Maestro configuration.
#[derive(Debug, PartialEq, Eq)]
pub struct MaestroConfig {
    /// System defaults.
    pub system: SystemConfig,
    /// Providers by key.
    pub providers: StrMap<ProviderConfig>,
    /// Optional per-persona bindings.
    pub agents: StrMap<AgentBinding>,
}

/// Configuration validation failures (fail fast).
#[derive(Debug, PartialEq, Eq)]
pub enum ConfigError {
    /// The default provider is not declared under `providers`.
    UnknownDefaultProvider(String),
    /// The default model is not declared under the default provider.
    UnknownDefaultModel { provider: String, model: String },
    /// A persona binding references an undeclared provider.
    UnknownAgentProvider { agent: String, provider: String },
    /// A persona binding references an undeclared model.
    UnknownAgentModel { agent: String, provider: String, model: String },
}

/// The abstract value of a [`ConfigError`].
pub enum ConfigIssue {
    UnknownDefaultProvider(Seq<char>),
    UnknownDefaultModel(Seq<char>, Seq<char>),
    UnknownAgentProvider(Seq<char>, Seq<char>),
    UnknownAgentModel(Seq<char>, Seq<char>, Seq<char>),
}

/// The message of a configuration error.
pub open spec fn config_error_text(e: ConfigIssue) -> Seq<char> {
    match e {
        ConfigIssue::UnknownDefaultProvider(p) => "default provider '"@ + p
            + "' is not declared under providers"@,
        ConfigIssue::UnknownDefaultModel(p, m) => "default model '"@ + m
            + "' is not declared under provider '"@ + p + "'"@,
        ConfigIssue::UnknownAgentProvider(a, p) => "agent '"@ + a + "' references unknown provider '"@
            + p + "'"@,
        ConfigIssue::UnknownAgentModel(a, p, m) => "agent '"@ + a + "' references unknown model '"@
            + m + "' on provider '"@ + p + "'"@,
    }
}

impl ConfigError {
    /// The human-readable message of this error.
    pub fn message(&self) -> (r: String)
        ensures
            r@ == config_error_text(self@),
    {
        match self {
            ConfigError::UnknownDefaultProvider(p) => concat3(
                "default provider '",
                p.as_str(),
                "' is not declared under providers",
            ),
            ConfigError::UnknownDefaultModel { provider, model } => {
                let mut r = concat3("default model '", model.as_str(), "' is not declared under provider '");
                r.append(provider.as_str());
                r.append("'");
                r
            },
            ConfigError::UnknownAgentProvider { agent, provider } => {
                let mut r = concat3("agent '", agent.as_str(), "' references unknown provider '");
                r.append(provider.as_str());
                r.append("'");
                r
            },
            ConfigError::UnknownAgentModel { agent, provider, model } => {
                let mut r = concat3("agent '", agent.as_str(), "' references unknown model '");
                r.append(model.as_str());
                r.append("' on provider '");
                r.append(provider.as_str());
                r.append("'");
                r
            },
        }
    }
}

impl View for ConfigError {
    type V = ConfigIssue;

    open spec fn view(&self) -> ConfigIssue {
        match self {
            ConfigError::UnknownDefaultProvider(p) => ConfigIssue::UnknownDefaultProvider(p@),
            ConfigError::UnknownDefaultModel { provider, model } => ConfigIssue::UnknownDefaultModel(
                provider@,
                model@,
            ),
            ConfigError::UnknownAgentProvider { agent, provider } => ConfigIssue::UnknownAgentProvider(
                agent@,
                provider@,
            ),
            ConfigError::UnknownAgentModel { agent, provider, model } => ConfigIssue::UnknownAgentModel(
                agent@,
                provider@,
                model@,
            ),
        }
    }
}

/// The provider declares a model named `m`.
pub open spec fn declares_model(p: ProviderConfig, m: Seq<char>) -> bool {
    exists|i: int| 0 <= i < p.models@.len() && #[trigger] p.models@[i].name@ == m
}

/// The first unresolved reference of one persona binding, if any.
pub open spec fn binding_issue(
    providers: Map<Seq<char>, ProviderConfig>,
    agent: Seq<char>,
    b: AgentBinding,
) -> Option<ConfigIssue> {
    if !providers.contains_key(b.provider@) {
        Some(ConfigIssue::UnknownAgentProvider(agent, b.provider@))
    } else if !declares_model(providers[b.provider@], b.model@) {
        Some(ConfigIssue::UnknownAgentModel(agent, b.provider@, b.model@))
    } else {
        None
    }
}

/// The first unresolved binding, in the given (key) order.
pub open spec fn first_binding_issue(
    providers: Map<Seq<char>, ProviderConfig>,
    agents: Seq<(Seq<char>, AgentBinding)>,
) -> Option<ConfigIssue>
    decreases agents.len(),
{
    if agents.len() == 0 {
        None
    } else {
        match binding_issue(providers, agents[0].0, agents[0].1) {
            Some(issue) => Some(issue),
            None => first_binding_issue(providers, agents.drop_first()),
        }
    }
}

/// The first failed cross-reference of a configuration, checked in order:
/// default provider, default model, then each persona binding by key.
pub open spec fn config_issue(c: MaestroConfig) -> Option<ConfigIssue> {
    let dp = c.system.default_provider@;
    let dm = c.system.default_model@;
    if !c.providers@.contains_key(dp) {
        Some(ConfigIssue::UnknownDefaultProvider(dp))
    } else if !declares_model(c.providers@[dp], dm) {
        Some(ConfigIssue::UnknownDefaultModel(dp, dm))
    } else {
        first_binding_issue(c.providers@, c.agents.pairs())
    }
}

/// Whether `provider` declares a model named `model`.
fn model_exists(provider: &ProviderConfig, model: &str) -> (r: bool)
    ensures
        r == declares_model(*provider, model@),
{
    let mut i: usize = 0;
    while i < provider.models.len()
        invariant
            i <= provider.models@.len(),
            forall|j: int| 0 <= j < i ==> #[trigger] provider.models@[j].name@ != model@,
        decreases provider.models.len() - i,
    {
        if str_eq(provider.models[i].name.as_str(), model) {
            return true;
        }
        i = i + 1;
    }
    false
}

impl MaestroConfig {
    /// Validate cross-references: every referenced provider and model must exist.
    /// Reports the first failure, in the order `config_issue` checks them.
    pub fn validate(&self) -> (r: Result<(), ConfigError>)
        ensures
            match config_issue(*self) {
                None => r is Ok,
                Some(issue) => r matches Err(e) && e@ == issue,
            },
            keys_ascending(self.agents.pairs()),
            keys_ascending(self.providers.pairs()),
    {
        let _ = self.agents.len();
        let _ = self.providers.len();
        let default = match self.providers.get(self.system.default_provider.as_str()) {
            Some(p) => p,
            None => {
                return Err(ConfigError::UnknownDefaultProvider(self.system.default_provider.clone()));
            },
        };
        if !model_exists(default, self.system.default_model.as_str()) {
            return Err(
                ConfigError::UnknownDefaultModel {
                    provider: self.system.default_provider.clone(),
                    model: self.system.default_model.clone(),
                },
            );
        }
        let n = self.agents.len();
        let mut i: usize = 0;
        proof {
            assert(self.agents.pairs().subrange(0, n as int) =~= self.agents.pairs());
        }
        while i < n
            invariant
                n == self.agents.pairs().len(),
                i <= n,
                keys_ascending(self.agents.pairs()),
                keys_ascending(self.providers.pairs()),
                config_issue(*self) == first_binding_issue(
                    self.providers@,
                    self.agents.pairs().subrange(i as int, n as int),
                ),
            decreases n - i,
        {
            let agent = self.agents.key_at(i);
            let binding = self.agents.value_at(i);
            proof {
                let rest = self.agents.pairs().subrange(i as int, n as int);
                assert(rest[0] == self.agents.pairs()[i as int]);
                assert(rest.drop_first() =~= self.agents.pairs().subrange(i + 1, n as int));
            }
            let provider = match self.providers.get(binding.provider.as_str()) {
                Some(p) => p,
                None => {
                    return Err(
                        ConfigError::UnknownAgentProvider {
                            agent: agent.clone(),
                            provider: binding.provider.clone(),
                        },
                    );
                },
            };
            if !model_exists(provider, binding.model.as_str()) {
                return Err(
                    ConfigError::UnknownAgentModel {
                        agent: agent.clone(),
                        provider: binding.provider.clone(),
                        model: binding.model.clone(),
                    },
                );
            }
            i = i + 1;
        }
        proof {
            assert(self.agents.pairs().subrange(n as int, n as int).len() == 0);
        }
        Ok(())
    }
}

/// No binding in the sequence has an issue exactly when the first-issue scan
/// finds none.
proof fn lemma_first_binding_issue_none(
    providers: Map<Seq<char>, ProviderConfig>,
    agents: Seq<(Seq<char>, AgentBinding)>,
)
    ensures
        first_binding_issue(providers, agents) is None <==> forall|i: int|
            0 <= i < agents.len() ==> binding_issue(providers, #[trigger] agents[i].0, agents[i].1) is None,
    decreases agents.len(),
{
    if agents.len() > 0 {
        lemma_first_binding_issue_none(providers, agents.drop_first());
        if first_binding_issue(providers, agents) is None {
            assert forall|i: int| 0 <= i < agents.len() implies binding_issue(providers, #[trigger] agents[i].0, agents[i].1) is None by {
                if i > 0 {
                    assert(agents[i] == agents.drop_first()[i - 1]);
                }
            }
        }
        if forall|i: int| 0 <= i < agents.len() ==> binding_issue(providers, #[trigger] agents[i].0, agents[i].1) is None {
            assert(binding_issue(providers, agents[0].0, agents[0].1) is None);
            assert forall|i: int| 0 <= i < agents.drop_first().len() implies binding_issue(providers, #[trigger] agents.drop_first()[i].0, agents.drop_first()[i].1) is None by {
                assert(agents.drop_first()[i] == agents[i + 1]);
            }
        }
    }
}

/// A configuration validates exactly when every reference resolves: the
/// default provider exists and declares the default model, and every persona
/// binding names a declared provider that declares the bound model.
pub proof fn lemma_valid_iff_references_resolve(c: MaestroConfig)
    ensures
        config_issue(c) is None <==> {
            &&& c.providers@.contains_key(c.system.default_provider@)
            &&& declares_model(c.providers@[c.system.default_provider@], c.system.default_model@)
            &&& forall|i: int|
                0 <= i < c.agents.pairs().len() ==> {
                    let b = #[trigger] c.agents.pairs()[i].1;
                    &&& c.providers@.contains_key(b.provider@)
                    &&& declares_model(c.providers@[b.provider@], b.model@)
                }
        },
{
    lemma_first_binding_issue_none(c.providers@, c.agents.pairs());
    let ps = c.agents.pairs();
    if config_issue(c) is None {
        assert forall|i: int| 0 <= i < ps.len() implies {
            let b = #[trigger] ps[i].1;
            &&& c.providers@.contains_key(b.provider@)
            &&& declares_model(c.providers@[b.provider@], b.model@)
        } by {
            assert(binding_issue(c.providers@, ps[i].0, ps[i].1) is None);
        }
    }
}

} // verus!
