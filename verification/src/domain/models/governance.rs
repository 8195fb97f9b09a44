//! Governance structure: the mandatory markdown scaffold and the entries that
//! Config Mode manages. Pure validation; the filesystem scan lives in the
//! application layer.

use vstd::prelude::*;

use super::persona::{default_catalog, default_personas};
use crate::text::{
    concat2, is_ascii_alnum, lowercase, lowercase_known, owned, str_eq, str_starts_with, to_lowercase, trim,
    trim_str, underscore_non_alnum, underscore_non_alnum_str,
};

verus! {

/// The governance entries every project must provide.
pub const REQUIRED_GOVERNANCE_ENTRIES: [&'static str; 3] = ["scopes", "personas", "skills"];

/// The required entries, in order.
pub open spec fn required_entries() -> Seq<Seq<char>> {
    seq!["scopes"@, "personas"@, "skills"@]
}

/// The required entries that `present` lacks, in order.
pub open spec fn missing_entries(required: Seq<Seq<char>>, present: Seq<Seq<char>>) -> Seq<Seq<char>>
    decreases required.len(),
{
    if required.len() == 0 {
        Seq::empty()
    } else if present.contains(required.last()) {
        missing_entries(required.drop_last(), present)
    } else {
        missing_entries(required.drop_last(), present).push(required.last())
    }
}

/// Outcome of validating a governance folder against the required entries.
#[derive(Debug, PartialEq, Eq)]
pub struct GovernanceReport {
    /// Required entries that were not found.
    pub missing: Vec<String>,
}

impl GovernanceReport {
    /// `true` when nothing is missing.
    pub fn is_valid(&self) -> (r: bool)
        ensures
            r == (self.missing@.len() == 0),
    {
        self.missing.len() == 0
    }
}

/// Whether `present` holds `name`.
pub fn contains_name(present: &[String], name: &str) -> (r: bool)
    ensures
        r == present.deep_view().contains(name@),
{
    let mut i: usize = 0;
    while i < present.len()
        invariant
            i <= present@.len(),
            forall|j: int| 0 <= j < i ==> present.deep_view()[j] != name@,
        decreases present.len() - i,
    {
        if str_eq(present[i].as_str(), name) {
            assert(present.deep_view()[i as int] == name@);
            return true;
        }
        i = i + 1;
    }
    false
}

/// Validate a set of present entry names against the required entries.
pub fn validate_entries(present: &[String]) -> (r: GovernanceReport)
    ensures
        r.missing.deep_view() == missing_entries(required_entries(), present.deep_view()),
{
    let ghost p = present.deep_view();
    let ghost s1 = seq!["scopes"@];
    let ghost s2 = seq!["scopes"@, "personas"@];
    proof {
        assert(s1.drop_last() =~= Seq::<Seq<char>>::empty());
        assert(missing_entries(Seq::<Seq<char>>::empty(), p) =~= Seq::<Seq<char>>::empty());
        assert(s1.last() == "scopes"@);
        assert(s2.drop_last() =~= s1);
        assert(required_entries().drop_last() =~= s2);
    }
    let mut missing: Vec<String> = Vec::new();
    if !contains_name(present, "scopes") {
        missing.push(owned("scopes"));
    }
    assert(missing.deep_view() =~= missing_entries(s1, p));
    if !contains_name(present, "personas") {
        missing.push(owned("personas"));
    }
    assert(missing.deep_view() =~= missing_entries(s2, p));
    if !contains_name(present, "skills") {
        missing.push(owned("skills"));
    }
    assert(missing.deep_view() =~= missing_entries(required_entries(), p));
    GovernanceReport { missing }
}

/// A governed entry kind.
#[derive(Debug, Clone, Copy, PartialEq, Eq, Structural)]
pub enum GovernanceKind {
    /// `maestro/config.yml`.
    Config,
    /// A persona under `maestro/personas/`.
    Persona,
    /// A skill under `maestro/skills/`.
    Skill,
    /// A project scope under `maestro/scopes/`.
    Scope,
}

impl GovernanceKind {
    /// The governance sub-directory for this kind (`Config` lives at the root).
    pub fn dir(self) -> (r: Option<&'static str>)
        ensures
            match self {
                GovernanceKind::Config => r is None,
                GovernanceKind::Persona => r matches Some(d) && d@ == "personas"@,
                GovernanceKind::Skill => r matches Some(d) && d@ == "skills"@,
                GovernanceKind::Scope => r matches Some(d) && d@ == "scopes"@,
            },
    {
        match self {
            GovernanceKind::Config => None,
            GovernanceKind::Persona => Some("personas"),
            GovernanceKind::Skill => Some("skills"),
            GovernanceKind::Scope => Some("scopes"),
        }
    }

    /// The snake_case label used on the IPC boundary.
    pub fn as_str(self) -> (r: &'static str)
        ensures
            r@ == kind_label(self),
    {
        match self {
            GovernanceKind::Config => "config",
            GovernanceKind::Persona => "persona",
            GovernanceKind::Skill => "skill",
            GovernanceKind::Scope => "scope",
        }
    }
}

/// The label of a governance kind.
pub open spec fn kind_label(k: GovernanceKind) -> Seq<char> {
    match k {
        GovernanceKind::Config => "config"@,
        GovernanceKind::Persona => "persona"@,
        GovernanceKind::Skill => "skill"@,
        GovernanceKind::Scope => "scope"@,
    }
}

/// Whether an entry ships with Maestro (`Default`) or is user-authored (`Custom`).
#[derive(Debug, Clone, Copy, PartialEq, Eq, Structural)]
pub enum Origin {
    /// Part of the built-in default catalog.
    Default,
    /// Authored by the user.
    Custom,
}

impl Origin {
    /// The snake_case label used on the IPC boundary.
    pub fn as_str(self) -> (r: &'static str)
        ensures
            r@ == origin_label(self),
    {
        match self {
            Origin::Default => "default",
            Origin::Custom => "custom",
        }
    }
}

/// The label of an origin.
pub open spec fn origin_label(o: Origin) -> Seq<char> {
    match o {
        Origin::Default => "default"@,
        Origin::Custom => "custom"@,
    }
}

/// A single governed entry surfaced to Config Mode.
#[derive(Debug, PartialEq, Eq)]
pub struct GovernanceEntry {
    /// Path-like id, e.g. `personas/software_engineer` or `config.yml`.
    pub id: String,
    /// The entry kind.
    pub kind: GovernanceKind,
    /// Default vs custom origin.
    pub origin: Origin,
    /// Whether the entry has been archived (soft delete).
    pub archived: bool,
}

/// The abstract value of a [`GovernanceEntry`]: id, kind, origin, archived.
pub open spec fn entry_view(e: GovernanceEntry) -> (Seq<char>, GovernanceKind, Origin, bool) {
    (e.id@, e.kind, e.origin, e.archived)
}

/// The immutable orchestrator persona id; never editable or archivable.
pub const MAESTRO_PERSONA_ID: &'static str = "personas/maestro";

/// The slug of a display name: trimmed, lowercased, with every character that
/// is not an ASCII letter or digit replaced by `_`.
pub open spec fn slug_of(name: Seq<char>) -> Seq<char> {
    underscore_non_alnum(lowercase(trim(name)))
}

/// Turn a display name into a stable, path-safe slug.
pub fn slug(name: &str) -> (r: String)
    ensures
        r@ == slug_of(name@),
        lowercase_known(trim(name@)),
        forall|i: int| 0 <= i < r@.len() ==> #[trigger] is_ascii_alnum(r@[i]) || r@[i] == '_',
{
    let trimmed = trim_str(name);
    let lower = to_lowercase(trimmed.as_str());
    underscore_non_alnum_str(lower.as_str())
}

/// Whether an entry id may never be edited or archived (the Maestro persona).
pub fn is_immutable(id: &str) -> (r: bool)
    ensures
        r == (id@ == "personas/maestro"@),
{
    str_eq(id, MAESTRO_PERSONA_ID)
}

/// The ids of the built-in default personas, e.g. `personas/software_engineer`.
pub open spec fn default_ids() -> Seq<Seq<char>> {
    default_catalog().map_values(|p: super::persona::PersonaView| "personas/"@ + slug_of(p.id))
}

/// The ids of the built-in default personas, e.g. `personas/software_engineer`.
pub fn default_persona_ids() -> (r: Vec<String>)
    ensures
        r.deep_view() == default_ids(),
        forall|i: int| 0 <= i < default_catalog().len() ==> lowercase_known(trim(#[trigger] default_catalog()[i].id)),
{
    let personas = default_personas();
    let mut out: Vec<String> = Vec::new();
    let mut i: usize = 0;
    while i < personas.len()
        invariant
            i <= personas@.len(),
            personas.deep_view() == default_catalog(),
            default_ids().len() == personas@.len(),
            out.deep_view() =~= default_ids().subrange(0, i as int),
            forall|k: int| 0 <= k < i ==> lowercase_known(trim(#[trigger] default_catalog()[k].id)),
        decreases personas.len() - i,
    {
        let name = personas[i].id.to_string();
        let s = slug(name.as_str());
        out.push(concat2("personas/", s.as_str()));
        proof {
            assert(personas.deep_view()[i as int] == personas@[i as int]@);
            assert(default_ids()[i as int] == "personas/"@ + slug_of(default_catalog()[i as int].id));
            assert(default_ids().subrange(0, i + 1) =~= default_ids().subrange(0, i as int).push(
                default_ids()[i as int],
            ));
        }
        i = i + 1;
    }
    out
}

/// The kind implied by an entry id.
pub open spec fn kind_of_id(id: Seq<char>) -> Option<GovernanceKind> {
    if id == "config.yml"@ {
        Some(GovernanceKind::Config)
    } else if "personas/"@.is_prefix_of(id) {
        Some(GovernanceKind::Persona)
    } else if "skills/"@.is_prefix_of(id) {
        Some(GovernanceKind::Skill)
    } else if "scopes/"@.is_prefix_of(id) {
        Some(GovernanceKind::Scope)
    } else {
        None
    }
}

/// The `GovernanceKind` implied by an entry id, if recognisable.
pub fn kind_of(id: &str) -> (r: Option<GovernanceKind>)
    ensures
        r == kind_of_id(id@),
{
    if str_eq(id, "config.yml") {
        Some(GovernanceKind::Config)
    } else if str_starts_with(id, "personas/") {
        Some(GovernanceKind::Persona)
    } else if str_starts_with(id, "skills/") {
        Some(GovernanceKind::Skill)
    } else if str_starts_with(id, "scopes/") {
        Some(GovernanceKind::Scope)
    } else {
        None
    }
}

} // verus!
