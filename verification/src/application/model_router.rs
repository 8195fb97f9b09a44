//! Model routing: per-persona model resolution.
//!
//! Resolves the model a persona should run on from the config `agents`
//! bindings, falling back to the system default model. Pure over its inputs.

use vstd::prelude::*;

use crate::domain::models::config::{AgentBinding, MaestroConfig};

verus! {

/// Why a model was chosen.
#[derive(Debug, Clone, Copy, PartialEq, Eq, Structural)]
pub enum ResolutionSource {
    /// The persona had an explicit binding in config.
    Bound,
    /// The persona had a binding with a fallback, and the fallback was selected.
    Fallback,
    /// No binding; the system default was used.
    Default,
}

/// How a model was resolved for a persona.
#[derive(Debug, PartialEq, Eq)]
pub struct ModelResolution {
    /// The provider key.
    pub provider: String,
    /// The resolved model name.
    pub model: String,
    /// How it was resolved.
    pub source: ResolutionSource,
    /// The full cascade chain (primary, fallback, default), for narration.
    pub cascade: Vec<String>,
}

/// The cascade of models tried for a binding: its model, its fallback if
/// any, then the system default.
pub open spec fn bound_cascade(b: AgentBinding, default_model: Seq<char>) -> Seq<Seq<char>> {
    match b.fallback_model {
        Some(f) => seq![b.model@, f@, default_model],
        None => seq![b.model@, default_model],
    }
}

/// The model bound to `persona`, or the system default when unbound.
pub fn model_for(config: &MaestroConfig, persona: &str) -> (r: ModelResolution)
    ensures
        config.agents@.contains_key(persona@) ==> {
            let b = config.agents@[persona@];
            &&& r.provider@ == b.provider@
            &&& r.model@ == b.model@
            &&& r.source == ResolutionSource::Bound
            &&& r.cascade.deep_view() == bound_cascade(b, config.system.default_model@)
        },
        !config.agents@.contains_key(persona@) ==> {
            &&& r.provider@ == config.system.default_provider@
            &&& r.model@ == config.system.default_model@
            &&& r.source == ResolutionSource::Default
            &&& r.cascade.deep_view() == seq![config.system.default_model@]
        },
{
    match config.agents.get(persona) {
        Some(binding) => {
            let mut cascade: Vec<String> = Vec::new();
            cascade.push(binding.model.clone());
            match &binding.fallback_model {
                Some(fallback) => cascade.push(fallback.clone()),
                None => {},
            }
            cascade.push(config.system.default_model.clone());
            assert(cascade.deep_view() =~= bound_cascade(*binding, config.system.default_model@));
            ModelResolution {
                provider: binding.provider.clone(),
                model: binding.model.clone(),
                source: ResolutionSource::Bound,
                cascade,
            }
        },
        None => {
            let mut cascade: Vec<String> = Vec::new();
            cascade.push(config.system.default_model.clone());
            assert(cascade.deep_view() =~= seq![config.system.default_model@]);
            ModelResolution {
                provider: config.system.default_provider.clone(),
                model: config.system.default_model.clone(),
                source: ResolutionSource::Default,
                cascade,
            }
        },
    }
}

/// The resolved model always heads the cascade, and the cascade always ends
/// with the system default, so every persona can fall back to it.
pub proof fn lemma_cascade_ends_at_default(b: AgentBinding, default_model: Seq<char>)
    ensures
        bound_cascade(b, default_model)[0] == b.model@,
        bound_cascade(b, default_model).last() == default_model,
{
}

} // verus!
