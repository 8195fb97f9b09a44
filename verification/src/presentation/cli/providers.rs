//! Provider presets for `maestro init-config`.

use vstd::prelude::*;

use crate::domain::ports::llm_provider::ProviderStatus;
use crate::text::{concat2, concat3, lowercase, lowercase_known, owned, str_eq, to_lowercase};

verus! {

/// Result of an init-config operation.
#[derive(Debug, PartialEq, Eq)]
pub struct InitConfigResult {
    /// Path to the written config file.
    pub path: String,
    /// Whether the connection probe succeeded.
    pub probe_ok: bool,
    /// Human-readable probe message.
    pub probe_msg: String,
}

/// Known provider presets.
#[derive(Debug, Clone, Copy, PartialEq, Eq, Structural)]
pub enum ProviderPreset {
    Ollama,
    OpenAi,
    Gemini,
}

/// The preset a lowercased name denotes.
pub open spec fn preset_named(lower: Seq<char>) -> Option<ProviderPreset> {
    if lower == "ollama"@ {
        Some(ProviderPreset::Ollama)
    } else if lower == "openai"@ {
        Some(ProviderPreset::OpenAi)
    } else if lower == "gemini"@ {
        Some(ProviderPreset::Gemini)
    } else {
        None
    }
}

/// The name of a preset.
pub open spec fn preset_name(p: ProviderPreset) -> Seq<char> {
    match p {
        ProviderPreset::Ollama => "ollama"@,
        ProviderPreset::OpenAi => "openai"@,
        ProviderPreset::Gemini => "gemini"@,
    }
}

/// The default endpoint of a preset.
pub open spec fn preset_endpoint(p: ProviderPreset) -> Seq<char> {
    match p {
        ProviderPreset::Ollama => "http://127.0.0.1:11434/v1"@,
        ProviderPreset::OpenAi => "https://api.openai.com/v1"@,
        ProviderPreset::Gemini => "https://generativelanguage.googleapis.com"@,
    }
}

/// The default model of a preset.
pub open spec fn preset_model(p: ProviderPreset) -> Seq<char> {
    match p {
        ProviderPreset::Ollama => "mistral"@,
        ProviderPreset::OpenAi => "gpt-4o-mini"@,
        ProviderPreset::Gemini => "gemini-2.0-flash"@,
    }
}

impl ProviderPreset {
    /// Parse from a CLI string (case-insensitive).
    pub fn from_str_loose(s: &str) -> (r: Result<Self, String>)
        ensures
            lowercase_known(s@),
            match preset_named(lowercase(s@)) {
                Some(p) => r == Ok::<ProviderPreset, String>(p),
                None => r matches Err(m) && m@ == "unknown provider '"@ + s@
                    + "'. Supported: ollama, openai, gemini"@,
            },
    {
        let lower = to_lowercase(s);
        if str_eq(lower.as_str(), "ollama") {
            Ok(ProviderPreset::Ollama)
        } else if str_eq(lower.as_str(), "openai") {
            Ok(ProviderPreset::OpenAi)
        } else if str_eq(lower.as_str(), "gemini") {
            Ok(ProviderPreset::Gemini)
        } else {
            Err(concat3("unknown provider '", s, "'. Supported: ollama, openai, gemini"))
        }
    }

    /// The preset's provider name.
    pub fn name(&self) -> (r: &'static str)
        ensures
            r@ == preset_name(*self),
    {
        match self {
            ProviderPreset::Ollama => "ollama",
            ProviderPreset::OpenAi => "openai",
            ProviderPreset::Gemini => "gemini",
        }
    }

    /// The preset's default endpoint.
    pub fn default_endpoint(&self) -> (r: &'static str)
        ensures
            r@ == preset_endpoint(*self),
    {
        match self {
            ProviderPreset::Ollama => "http://127.0.0.1:11434/v1",
            ProviderPreset::OpenAi => "https://api.openai.com/v1",
            ProviderPreset::Gemini => "https://generativelanguage.googleapis.com",
        }
    }

    /// The preset's default model.
    pub fn default_model(&self) -> (r: &'static str)
        ensures
            r@ == preset_model(*self),
    {
        match self {
            ProviderPreset::Ollama => "mistral",
            ProviderPreset::OpenAi => "gpt-4o-mini",
            ProviderPreset::Gemini => "gemini-2.0-flash",
        }
    }
}

/// The configuration file for a preset, endpoint and model.
pub open spec fn config_text(p: ProviderPreset, endpoint: Seq<char>, model: Seq<char>) -> Seq<char> {
    let name = preset_name(p);
    "system:\n  default_provider: "@ + name + "\n  default_model: "@ + model + "\n  max_concurrency: 4\nproviders:\n  "@
        + name + ":\n    kind: "@ + name + "\n    endpoint: \""@ + endpoint + "\"\n    models:\n      - name: "@
        + model + "\n"@ + match p {
        ProviderPreset::Ollama => Seq::empty(),
        ProviderPreset::OpenAi => "  # API key is read from $OPENAI_API_KEY (never store keys in config files).\n"@,
        ProviderPreset::Gemini => "  # API key is read from $GEMINI_API_KEY (never store keys in config files).\n"@,
    }
}

/// Generate a configuration YAML for the given preset, with the endpoint and
/// model overrides when given (the preset's defaults otherwise).
pub fn config_for_provider(preset: ProviderPreset, endpoint: Option<&str>, model: Option<&str>) -> (r: String)
    ensures
        r@ == config_text(
            preset,
            match endpoint {
                Some(e) => e@,
                None => preset_endpoint(preset),
            },
            match model {
                Some(m) => m@,
                None => preset_model(preset),
            },
        ),
{
    let endpoint = match endpoint {
        Some(e) => e,
        None => preset.default_endpoint(),
    };
    let model = match model {
        Some(m) => m,
        None => preset.default_model(),
    };
    let name = preset.name();
    let mut r = concat3("system:\n  default_provider: ", name, "\n  default_model: ");
    r.append(model);
    r.append("\n  max_concurrency: 4\nproviders:\n  ");
    r.append(name);
    r.append(":\n    kind: ");
    r.append(name);
    r.append("\n    endpoint: \"");
    r.append(endpoint);
    r.append("\"\n    models:\n      - name: ");
    r.append(model);
    r.append("\n");
    match preset {
        ProviderPreset::Ollama => {
            proof {
                reveal_strlit("");
            }
        },
        ProviderPreset::OpenAi => {
            r.append("  # API key is read from $OPENAI_API_KEY (never store keys in config files).\n");
        },
        ProviderPreset::Gemini => {
            r.append("  # API key is read from $GEMINI_API_KEY (never store keys in config files).\n");
        },
    }
    r
}

/// A key variable counts when it is set and not empty.
pub open spec fn key_set(key: Option<&str>) -> bool {
    match key {
        Some(k) => k@.len() > 0,
        None => false,
    }
}

/// The presets found on this machine, in order: Ollama when its port
/// answered, then each cloud provider whose API key variable is set.
pub open spec fn detected_seq(ollama_up: bool, openai_key: Option<&str>, gemini_key: Option<&str>) -> Seq<
    ProviderPreset,
> {
    (if ollama_up {
        seq![ProviderPreset::Ollama]
    } else {
        Seq::empty()
    }) + (if key_set(openai_key) {
        seq![ProviderPreset::OpenAi]
    } else {
        Seq::empty()
    }) + (if key_set(gemini_key) {
        seq![ProviderPreset::Gemini]
    } else {
        Seq::empty()
    })
}

/// Which presets are available, given whether Ollama's port answered and the
/// values of `OPENAI_API_KEY` and `GEMINI_API_KEY`.
pub fn detected_presets(ollama_up: bool, openai_key: Option<&str>, gemini_key: Option<&str>) -> (r: Vec<
    ProviderPreset,
>)
    ensures
        r@ == detected_seq(ollama_up, openai_key, gemini_key),
{
    let mut found: Vec<ProviderPreset> = Vec::new();
    if ollama_up {
        found.push(ProviderPreset::Ollama);
    }
    let openai = match openai_key {
        Some(k) => k.unicode_len() > 0,
        None => false,
    };
    if openai {
        found.push(ProviderPreset::OpenAi);
    }
    let gemini = match gemini_key {
        Some(k) => k.unicode_len() > 0,
        None => false,
    };
    if gemini {
        found.push(ProviderPreset::Gemini);
    }
    assert(found@ =~= detected_seq(ollama_up, openai_key, gemini_key));
    found
}

/// The preset `init-config` uses when none was named: the first detected,
/// else Ollama.
pub fn chosen_preset(detected: &Vec<ProviderPreset>) -> (r: ProviderPreset)
    ensures
        r == if detected@.len() > 0 {
            detected@[0]
        } else {
            ProviderPreset::Ollama
        },
{
    if detected.len() > 0 {
        detected[0]
    } else {
        ProviderPreset::Ollama
    }
}

/// What a connection probe's status tells the user.
pub open spec fn probe_report(s: ProviderStatus) -> (bool, Seq<char>) {
    match s {
        ProviderStatus::Available => (true, "provider is reachable \u{2713}"@),
        ProviderStatus::Unreachable => (false, "provider is unreachable \u{2014} is it running?"@),
        ProviderStatus::Unauthorized => (
            false,
            "API key missing or rejected \u{2014} check your environment variable"@,
        ),
        ProviderStatus::ModelMissing => (
            false,
            "endpoint reached but model not found \u{2014} check model name"@,
        ),
    }
}

/// The outcome and message of a connection test, given the probe's status.
pub fn probe_message(status: ProviderStatus) -> (r: (bool, String))
    ensures
        (r.0, r.1@) == probe_report(status),
{
    match status {
        ProviderStatus::Available => (true, owned("provider is reachable \u{2713}")),
        ProviderStatus::Unreachable => (false, owned("provider is unreachable \u{2014} is it running?")),
        ProviderStatus::Unauthorized => (
            false,
            owned("API key missing or rejected \u{2014} check your environment variable"),
        ),
        ProviderStatus::ModelMissing => (
            false,
            owned("endpoint reached but model not found \u{2014} check model name"),
        ),
    }
}

} // verus!
