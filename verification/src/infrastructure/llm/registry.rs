//! The provider registry: every declared provider, built by kind and keyed
//! by its configuration name.

use vstd::prelude::*;

use crate::domain::models::config::{MaestroConfig, ProviderConfig};
use crate::domain::models::str_map::StrMap;
use crate::domain::ports::llm_provider::{llm_error_text, LlmError};
use crate::text::{concat3, owned, str_eq};

verus! {

/// The provider kinds that have an adapter.
#[derive(Debug, Clone, Copy, PartialEq, Eq, Structural)]
pub enum ProviderKind {
    Ollama,
    OpenAi,
    Anthropic,
    Gemini,
}

/// The adapter kind named `kind`, if there is one.
pub open spec fn kind_named(kind: Seq<char>) -> Option<ProviderKind> {
    if kind == "ollama"@ {
        Some(ProviderKind::Ollama)
    } else if kind == "openai"@ {
        Some(ProviderKind::OpenAi)
    } else if kind == "anthropic"@ {
        Some(ProviderKind::Anthropic)
    } else if kind == "gemini"@ {
        Some(ProviderKind::Gemini)
    } else {
        None
    }
}

/// Errors building the registry.
#[derive(Debug, PartialEq, Eq)]
pub enum FactoryError {
    /// The provider `kind` has no adapter.
    UnsupportedKind(String),
    /// Building the adapter failed.
    Build { key: String, source: LlmError },
}

/// The message of a factory error.
pub open spec fn factory_error_text(e: FactoryError) -> Seq<char> {
    match e {
        FactoryError::UnsupportedKind(k) => "unsupported provider kind '"@ + k@ + "'"@,
        FactoryError::Build { key, source } => "failed to build provider '"@ + key@ + "': "@
            + llm_error_text(source),
    }
}

impl FactoryError {
    /// The human-readable message of this error.
    pub fn message(&self) -> (r: String)
        ensures
            r@ == factory_error_text(*self),
    {
        match self {
            FactoryError::UnsupportedKind(k) => concat3("unsupported provider kind '", k.as_str(), "'"),
            FactoryError::Build { key, source } => {
                let mut r = concat3("failed to build provider '", key.as_str(), "': ");
                r.append(source.message().as_str());
                r
            },
        }
    }
}

/// The adapter kind for a configured `kind`.
pub fn provider_kind(kind: &str) -> (r: Result<ProviderKind, FactoryError>)
    ensures
        match kind_named(kind@) {
            Some(k) => r == Ok::<ProviderKind, FactoryError>(k),
            None => r matches Err(FactoryError::UnsupportedKind(name)) && name@ == kind@,
        },
{
    if str_eq(kind, "ollama") {
        Ok(ProviderKind::Ollama)
    } else if str_eq(kind, "openai") {
        Ok(ProviderKind::OpenAi)
    } else if str_eq(kind, "anthropic") {
        Ok(ProviderKind::Anthropic)
    } else if str_eq(kind, "gemini") {
        Ok(ProviderKind::Gemini)
    } else {
        Err(FactoryError::UnsupportedKind(owned(kind)))
    }
}

/// `build` can produce `outcome` for the provider `key` of kind `kind`.
pub open spec fn builds<P, F: Fn(&str, &ProviderConfig, ProviderKind) -> Result<P, LlmError>>(
    build: F,
    key: Seq<char>,
    config: ProviderConfig,
    kind: ProviderKind,
    outcome: Result<P, LlmError>,
) -> bool {
    exists|k: &str, c: &ProviderConfig| k@ == key && *c == config && #[trigger] build.ensures((k, c, kind), outcome)
}

/// A resolved set of providers keyed by configuration name.
#[derive(Debug)]
pub struct ProviderRegistry<P> {
    providers: StrMap<P>,
}

impl<P> ProviderRegistry<P> {
    /// The providers, by configuration key.
    pub closed spec fn providers(&self) -> Map<Seq<char>, P> {
        self.providers@
    }

    /// Build every declared provider of `config`, in key order, with `build`
    /// (which makes the adapter for a key, its configuration and its kind).
    /// Fails fast on the first provider whose kind has no adapter or whose
    /// adapter cannot be built.
    pub fn from_config<F: Fn(&str, &ProviderConfig, ProviderKind) -> Result<P, LlmError>>(
        config: &MaestroConfig,
        build: F,
    ) -> (r: Result<Self, FactoryError>)
        requires
            forall|k: &str, c: &ProviderConfig, kind: ProviderKind| #[trigger] build.requires((k, c, kind)),
        ensures
            r matches Ok(reg) ==> {
                &&& reg.providers().dom() == config.providers@.dom()
                &&& forall|key: Seq<char>|
                    #[trigger] config.providers@.contains_key(key) ==> (kind_named(config.providers@[key].kind@) matches Some(kind)
                        && builds(build, key, config.providers@[key], kind, Ok::<P, LlmError>(reg.providers()[key])))
            },
            r matches Err(FactoryError::UnsupportedKind(name)) ==> exists|key: Seq<char>|
                #[trigger] config.providers@.contains_key(key) && config.providers@[key].kind@ == name@
                    && kind_named(name@) is None,
            r matches Err(FactoryError::Build { key, source }) ==> config.providers@.contains_key(key@)
                && (kind_named(config.providers@[key@].kind@) matches Some(kind) && builds(
                build,
                key@,
                config.providers@[key@],
                kind,
                Err::<P, LlmError>(source),
            )),
            (forall|key: Seq<char>| #[trigger] config.providers@.contains_key(key) ==> kind_named(config.providers@[key].kind@) is Some)
                ==> !(r matches Err(FactoryError::UnsupportedKind(_))),
    {
        let mut providers: StrMap<P> = StrMap::new();
        let n = config.providers.len();
        let ghost pairs = config.providers.pairs();
        let mut i: usize = 0;
        while i < n
            invariant
                n == pairs.len(),
                pairs == config.providers.pairs(),
                i <= n,
                forall|k: &str, c: &ProviderConfig, kind: ProviderKind| #[trigger] build.requires((k, c, kind)),
                forall|key: Seq<char>|
                    #[trigger] providers@.contains_key(key) ==> config.providers@.contains_key(key) && (kind_named(
                        config.providers@[key].kind@,
                    ) matches Some(kind) && builds(build, key, config.providers@[key], kind, Ok::<P, LlmError>(providers@[key]))),
                forall|j: int| 0 <= j < i ==> #[trigger] providers@.contains_key(pairs[j].0),
                forall|key: Seq<char>| #[trigger] providers@.contains_key(key) ==> exists|j: int| 0 <= j < i && pairs[j].0 == key,
            decreases n - i,
        {
            let key = config.providers.key_at(i);
            let pc = config.providers.value_at(i);
            let kind = match provider_kind(pc.kind.as_str()) {
                Ok(k) => k,
                Err(e) => {
                    return Err(e);
                },
            };
            match build(key.as_str(), pc, kind) {
                Ok(p) => {
                    assert(builds(build, key@, *pc, kind, Ok::<P, LlmError>(p)));
                    providers.insert(key.clone(), p);
                },
                Err(source) => {
                    assert(builds(build, key@, *pc, kind, Err::<P, LlmError>(source)));
                    return Err(FactoryError::Build { key: key.clone(), source });
                },
            }
            i = i + 1;
        }
        proof {
            assert forall|key: Seq<char>| config.providers@.contains_key(key) implies #[trigger] providers@.contains_key(key) by {
                crate::domain::models::str_map::lemma_key_in_pairs(config.providers, key);
            }
            assert(providers@.dom() =~= config.providers@.dom());
        }
        Ok(ProviderRegistry { providers })
    }

    /// Resolve a provider by configuration key.
    pub fn resolve(&self, key: &str) -> (r: Option<&P>)
        ensures
            r is Some <==> self.providers().contains_key(key@),
            r matches Some(p) ==> *p == self.providers()[key@],
    {
        self.providers.get(key)
    }

    /// Resolve the configured default provider.
    pub fn default_provider(&self, config: &MaestroConfig) -> (r: Option<&P>)
        ensures
            r is Some <==> self.providers().contains_key(config.system.default_provider@),
            r matches Some(p) ==> *p == self.providers()[config.system.default_provider@],
    {
        self.resolve(config.system.default_provider.as_str())
    }

    /// Number of registered providers.
    pub fn len(&self) -> (r: usize)
        ensures
            r == self.providers().dom().len(),
    {
        self.providers.len()
    }

    /// Whether the registry is empty.
    pub fn is_empty(&self) -> (r: bool)
        ensures
            r == (self.providers().dom().len() == 0),
    {
        self.providers.is_empty()
    }
}

} // verus!
