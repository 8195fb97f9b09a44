//! Governance service: the decisions behind Config Mode.
//!
//! The filesystem work (reading directories and files, writing, moving) is
//! the shell's; this module decides where an entry lives, what the governance
//! tree lists, which operations are refused, what a default persona's body
//! reads, and how a custom persona is parsed from its markdown body.

use vstd::prelude::*;
use vstd::multiset::*;

use crate::domain::models::agent_id::AgentId;
use crate::domain::models::config::{config_error_text, MaestroConfig};
use crate::domain::models::governance::{
    contains_name, default_ids, default_persona_ids, entry_view, is_immutable, kind_of,
    kind_of_id, slug, slug_of, GovernanceEntry, GovernanceKind, Origin,
};
use crate::domain::models::persona::{default_catalog, default_personas, Persona, PersonaView};
use crate::domain::models::routing::lemma_insert_multiset;
use crate::text::{
    chars_of, concat2, concat3, eq_ignore_ascii_case, eq_ignore_case_str, find_text, first_occurrence, is_blank,
    is_blank_str, lemma_lex_lt_irreflexive, lemma_lex_lt_total, lemma_lex_lt_transitive, lex_lt,
    lines_of, owned, split_lines, str_eq, str_lt, str_starts_with, string_from_chars, trim,
    trim_str,
};

verus! {

/// Errors from Config Mode governance operations.
#[derive(Debug, PartialEq, Eq)]
pub enum GovernanceError {
    /// The entry may never be edited or archived (the Maestro persona).
    Immutable(String),
    /// The entry does not exist.
    NotFound(String),
    /// A create targeted an id that already exists.
    Exists(String),
    /// The filesystem failed; the text describes why.
    Io(String),
}

/// The message of a governance error.
pub open spec fn governance_error_text(e: GovernanceError) -> Seq<char> {
    match e {
        GovernanceError::Immutable(id) => "entry '"@ + id@ + "' is immutable"@,
        GovernanceError::NotFound(id) => "entry '"@ + id@ + "' not found"@,
        GovernanceError::Exists(id) => "entry '"@ + id@ + "' already exists"@,
        GovernanceError::Io(m) => m@,
    }
}

impl GovernanceError {
    /// The human-readable message of this error.
    pub fn message(&self) -> (r: String)
        ensures
            r@ == governance_error_text(*self),
    {
        match self {
            GovernanceError::Immutable(id) => concat3("entry '", id.as_str(), "' is immutable"),
            GovernanceError::NotFound(id) => concat3("entry '", id.as_str(), "' not found"),
            GovernanceError::Exists(id) => concat3("entry '", id.as_str(), "' already exists"),
            GovernanceError::Io(m) => m.clone(),
        }
    }
}

/// The directory part of an id (before its first `/`) and the name part
/// (after it), when the id has a `/`.
pub open spec fn split_id(id: Seq<char>) -> Option<(Seq<char>, Seq<char>)> {
    match first_occurrence(id, "/"@) {
        Some(k) => Some((id.subrange(0, k), id.subrange(k + 1, id.len() as int))),
        None => None,
    }
}

/// Where an entry lives, as path components under the project root.
pub open spec fn entry_components(id: Seq<char>) -> Option<Seq<Seq<char>>> {
    if id == "config.yml"@ {
        Some(seq!["maestro"@, "config.yml"@])
    } else {
        match split_id(id) {
            Some((dir, name)) => if name.len() == 0 {
                None
            } else {
                Some(seq!["maestro"@, dir, name + ".md"@])
            },
            None => None,
        }
    }
}

/// Split `id` at its first `/`.
fn split_once_slash(id: &str) -> (r: Option<(String, String)>)
    ensures
        match (r, split_id(id@)) {
            (Some((d, n)), Some((sd, sn))) => d@ == sd && n@ == sn,
            (None, None) => true,
            _ => false,
        },
{
    let cs = chars_of(id);
    let slash = chars_of("/");
    match find_text(&cs, &slash) {
        Some(k) => {
            proof {
                reveal_strlit("/");
                assert(crate::text::is_first(cs@, slash@, k as int));
                assert(slash@.len() == 1);
                assert(k + 1 <= cs@.len());
            }
            let n = cs.len();
            assert(k < n);
            Some((string_from_chars(&cs, 0, k), string_from_chars(&cs, k + 1, n)))
        },
        None => None,
    }
}

/// Resolve an entry id to its on-disk location, as path components under the
/// project root (`None` for unrecognised ids).
pub fn entry_file(id: &str) -> (r: Option<Vec<String>>)
    ensures
        match (r, entry_components(id@)) {
            (Some(v), Some(c)) => v.deep_view() == c,
            (None, None) => true,
            _ => false,
        },
{
    if str_eq(id, "config.yml") {
        let mut v: Vec<String> = Vec::new();
        v.push(owned("maestro"));
        v.push(owned("config.yml"));
        assert(v.deep_view() =~= seq!["maestro"@, "config.yml"@]);
        return Some(v);
    }
    match split_once_slash(id) {
        Some((dir, name)) => {
            if name.unicode_len() == 0 {
                return None;
            }
            let mut v: Vec<String> = Vec::new();
            v.push(owned("maestro"));
            v.push(dir);
            v.push(concat2(name.as_str(), ".md"));
            assert(v.deep_view() =~= entry_components(id@)->0);
            Some(v)
        },
        None => None,
    }
}

// ---------------------------------------------------------------------------
// Sorting names (ascending, as `[String]::sort` orders them).
// ---------------------------------------------------------------------------

/// No element is smaller than an earlier one.
pub open spec fn ascending(s: Seq<Seq<char>>) -> bool {
    forall|i: int, j: int| 0 <= i < j < s.len() ==> !lex_lt(#[trigger] s[j], #[trigger] s[i])
}

/// `s` in ascending order: its unique ascending permutation.
pub open spec fn sorted_of(s: Seq<Seq<char>>) -> Seq<Seq<char>> {
    choose|r: Seq<Seq<char>>| ascending(r) && r.to_multiset() == s.to_multiset()
}

/// Two ascending orderings of the same names are the same sequence.
pub proof fn lemma_ascending_unique(a: Seq<Seq<char>>, b: Seq<Seq<char>>)
    requires
        ascending(a),
        ascending(b),
        a.to_multiset() == b.to_multiset(),
    ensures
        a == b,
    decreases a.len(),
{
    a.to_multiset_ensures();
    b.to_multiset_ensures();
    if a.len() > 0 {
        let x = a[0];
        let y = b[0];
        assert(b.contains(y));
        assert(b.to_multiset().count(y) > 0);
        assert(a.to_multiset().count(y) > 0);
        assert(a.contains(x));
        assert(a.to_multiset().count(x) > 0);
        assert(b.to_multiset().count(x) > 0);
        let k = choose|k: int| 0 <= k < a.len() && a[k] == y;
        let l = choose|l: int| 0 <= l < b.len() && b[l] == x;
        if k > 0 {
            assert(!lex_lt(a[k], a[0]));
        }
        if l > 0 {
            assert(!lex_lt(b[l], b[0]));
        }
        if x != y {
            lemma_lex_lt_total(x, y);
        }
        let a1 = a.remove(0);
        let b1 = b.remove(0);
        assert(a1.to_multiset() =~= b1.to_multiset());
        assert forall|i: int, j: int| 0 <= i < j < a1.len() implies !lex_lt(#[trigger] a1[j], #[trigger] a1[i]) by {
            assert(a1[i] == a[i + 1] && a1[j] == a[j + 1]);
        }
        assert forall|i: int, j: int| 0 <= i < j < b1.len() implies !lex_lt(#[trigger] b1[j], #[trigger] b1[i]) by {
            assert(b1[i] == b[i + 1] && b1[j] == b[j + 1]);
        }
        lemma_ascending_unique(a1, b1);
        assert forall|i: int| 0 <= i < a.len() implies a[i] == b[i] by {
            if i > 0 {
                assert(a[i] == a1[i - 1]);
                assert(b[i] == b1[i - 1]);
            }
        }
        assert(a =~= b);
    } else {
        assert(a =~= b);
    }
}

/// An ascending permutation of `s` is `sorted_of(s)`.
pub proof fn lemma_sorted_of(s: Seq<Seq<char>>, r: Seq<Seq<char>>)
    requires
        ascending(r),
        r.to_multiset() == s.to_multiset(),
    ensures
        sorted_of(s) == r,
{
    let c = sorted_of(s);
    assert(ascending(c) && c.to_multiset() == s.to_multiset());
    lemma_ascending_unique(c, r);
}

/// The names in ascending order.
pub fn sort_names(names: &Vec<String>) -> (r: Vec<String>)
    ensures
        r.deep_view() == sorted_of(names.deep_view()),
{
    let mut out: Vec<String> = Vec::new();
    let mut i: usize = 0;
    proof {
        broadcast use vstd::seq_lib::group_to_multiset_ensures;
        assert(names.deep_view().subrange(0, 0) =~= Seq::<Seq<char>>::empty());
        assert(out.deep_view() =~= Seq::<Seq<char>>::empty());
    }
    while i < names.len()
        invariant
            i <= names.len(),
            ascending(out.deep_view()),
            out.deep_view().to_multiset() == names.deep_view().subrange(0, i as int).to_multiset(),
        decreases names.len() - i,
    {
        let x = names[i].clone();
        let ghost xv = x@;
        let mut pos: usize = 0;
        while pos < out.len() && !str_lt(x.as_str(), out[pos].as_str())
            invariant
                pos <= out.len(),
                xv == x@,
                forall|k: int| 0 <= k < pos ==> !lex_lt(xv, #[trigger] out.deep_view()[k]),
            decreases out.len() - pos,
        {
            pos = pos + 1;
        }
        let ghost before = out.deep_view();
        proof {
            broadcast use vstd::seq_lib::group_to_multiset_ensures;
            let t = before.insert(pos as int, xv);
            assert forall|a: int, b: int| 0 <= a < b < t.len() implies !lex_lt(#[trigger] t[b], #[trigger] t[a]) by {
                if b < pos {
                    assert(t[a] == before[a] && t[b] == before[b]);
                } else if a > pos {
                    assert(t[a] == before[a - 1] && t[b] == before[b - 1]);
                } else if a < pos && b == pos {
                    assert(t[a] == before[a] && t[b] == xv);
                    if lex_lt(xv, before[a]) {
                    }
                } else if a < pos && b > pos {
                    assert(t[a] == before[a] && t[b] == before[b - 1]);
                } else {
                    assert(a == pos && b > pos);
                    assert(t[a] == xv && t[b] == before[b - 1]);
                    assert(lex_lt(xv, before[pos as int]));
                    if lex_lt(before[b - 1], xv) {
                        lemma_lex_lt_transitive(before[b - 1], xv, before[pos as int]);
                        if b - 1 == pos {
                            lemma_lex_lt_irreflexive(before[pos as int]);
                        }
                    }
                }
            }
            lemma_insert_multiset(before, pos as int, xv);
            let sub = names.deep_view().subrange(0, i + 1);
            assert(sub =~= names.deep_view().subrange(0, i as int).push(xv));
        }
        out.insert(pos, x);
        assert(out.deep_view() =~= before.insert(pos as int, xv));
        i = i + 1;
    }
    proof {
        assert(names.deep_view().subrange(0, names.len() as int) =~= names.deep_view());
        lemma_sorted_of(names.deep_view(), out.deep_view());
    }
    out
}

// ---------------------------------------------------------------------------
// Listing the governance tree.
// ---------------------------------------------------------------------------

/// What the shell found on disk: whether `maestro/config.yml` exists, and the
/// stems of the `.md` files in each governed directory and in its archive.
#[derive(Debug)]
pub struct GovernanceScan {
    pub config_present: bool,
    pub personas: Vec<String>,
    pub skills: Vec<String>,
    pub scopes: Vec<String>,
    pub archived_personas: Vec<String>,
    pub archived_skills: Vec<String>,
    pub archived_scopes: Vec<String>,
}

/// The entries for the `.md` stems of one directory, in the given order:
/// live default personas are skipped (the built-in entry stands for them).
pub open spec fn dir_entries(
    names: Seq<Seq<char>>,
    dir: Seq<char>,
    kind: GovernanceKind,
    defaults: Seq<Seq<char>>,
    archived: bool,
) -> Seq<(Seq<char>, GovernanceKind, Origin, bool)>
    decreases names.len(),
{
    if names.len() == 0 {
        Seq::empty()
    } else {
        let rest = dir_entries(names.drop_last(), dir, kind, defaults, archived);
        let id = dir + "/"@ + names.last();
        let is_default = defaults.contains(id);
        if !archived && is_default {
            rest
        } else {
            rest.push((id, kind, if is_default { Origin::Default } else { Origin::Custom }, archived))
        }
    }
}

/// The built-in entries for the default personas.
pub open spec fn default_entries(ids: Seq<Seq<char>>) -> Seq<(Seq<char>, GovernanceKind, Origin, bool)> {
    ids.map_values(|id: Seq<char>| (id, GovernanceKind::Persona, Origin::Default, false))
}

/// The whole governance tree: config, the default personas, the live custom
/// entries of each directory, then the archived entries.
pub open spec fn tree_entries(
    config_present: bool,
    personas: Seq<Seq<char>>,
    skills: Seq<Seq<char>>,
    scopes: Seq<Seq<char>>,
    archived_personas: Seq<Seq<char>>,
    archived_skills: Seq<Seq<char>>,
    archived_scopes: Seq<Seq<char>>,
) -> Seq<(Seq<char>, GovernanceKind, Origin, bool)> {
    let d = default_ids();
    (if config_present {
        seq![("config.yml"@, GovernanceKind::Config, Origin::Default, false)]
    } else {
        Seq::empty()
    }) + default_entries(d) + dir_entries(sorted_of(personas), "personas"@, GovernanceKind::Persona, d, false)
        + dir_entries(sorted_of(skills), "skills"@, GovernanceKind::Skill, d, false) + dir_entries(
        sorted_of(scopes),
        "scopes"@,
        GovernanceKind::Scope,
        d,
        false,
    ) + dir_entries(sorted_of(archived_personas), "personas"@, GovernanceKind::Persona, d, true)
        + dir_entries(sorted_of(archived_skills), "skills"@, GovernanceKind::Skill, d, true)
        + dir_entries(sorted_of(archived_scopes), "scopes"@, GovernanceKind::Scope, d, true)
}

/// What a directory listing holds: one entry per `.md` stem, named
/// `dir/stem`, of the directory's kind and archive state, marked a default
/// exactly when its id is a default persona's. A live listing skips the
/// default personas (their built-in entries stand for them); an archived
/// listing keeps every stem.
pub proof fn lemma_dir_entries_props(
    names: Seq<Seq<char>>,
    dir: Seq<char>,
    kind: GovernanceKind,
    defaults: Seq<Seq<char>>,
    archived: bool,
)
    ensures
        ({
            let es = dir_entries(names, dir, kind, defaults, archived);
            &&& forall|i: int|
                #![trigger es[i]]
                0 <= i < es.len() ==> {
                    &&& es[i].1 == kind
                    &&& es[i].3 == archived
                    &&& es[i].2 == (if defaults.contains(es[i].0) { Origin::Default } else { Origin::Custom })
                    &&& !archived ==> !defaults.contains(es[i].0)
                    &&& exists|k: int| 0 <= k < names.len() && es[i].0 == dir + "/"@ + #[trigger] names[k]
                }
            &&& archived ==> es.len() == names.len()
            &&& !archived ==> forall|k: int|
                0 <= k < names.len() && !defaults.contains(dir + "/"@ + #[trigger] names[k]) ==> es.contains(
                    (dir + "/"@ + names[k], kind, Origin::Custom, false),
                )
        }),
    decreases names.len(),
{
    if names.len() > 0 {
        let prev = names.drop_last();
        lemma_dir_entries_props(prev, dir, kind, defaults, archived);
        let rest = dir_entries(prev, dir, kind, defaults, archived);
        let es = dir_entries(names, dir, kind, defaults, archived);
        assert forall|i: int|
            #![trigger es[i]]
            0 <= i < es.len() implies {
                &&& es[i].1 == kind
                &&& es[i].3 == archived
                &&& es[i].2 == (if defaults.contains(es[i].0) { Origin::Default } else { Origin::Custom })
                &&& !archived ==> !defaults.contains(es[i].0)
                &&& exists|k: int| 0 <= k < names.len() && es[i].0 == dir + "/"@ + #[trigger] names[k]
            } by {
            if i < rest.len() {
                assert(es[i] == rest[i]);
                let k = choose|k: int| 0 <= k < prev.len() && rest[i].0 == dir + "/"@ + #[trigger] prev[k];
                assert(names[k] == prev[k]);
            } else {
                assert(es[i].0 == dir + "/"@ + names[names.len() - 1]);
            }
        }
        if !archived {
            assert forall|k: int|
                0 <= k < names.len() && !defaults.contains(dir + "/"@ + #[trigger] names[k]) implies es.contains(
                    (dir + "/"@ + names[k], kind, Origin::Custom, false),
                ) by {
                if k < prev.len() {
                    assert(names[k] == prev[k]);
                    let j = choose|j: int| 0 <= j < rest.len() && rest[j] == (dir + "/"@ + prev[k], kind, Origin::Custom, false);
                    assert(es[j] == rest[j]);
                } else {
                    assert(es[es.len() - 1] == (dir + "/"@ + names[k], kind, Origin::Custom, false));
                }
            }
        }
    }
}

/// In the listed tree, the default personas appear once each, as their
/// built-in entries: every live entry after those carries an id that is not
/// a default persona's.
pub proof fn lemma_tree_lists_defaults_once(
    config_present: bool,
    personas: Seq<Seq<char>>,
    skills: Seq<Seq<char>>,
    scopes: Seq<Seq<char>>,
    archived_personas: Seq<Seq<char>>,
    archived_skills: Seq<Seq<char>>,
    archived_scopes: Seq<Seq<char>>,
)
    ensures
        ({
            let t = tree_entries(config_present, personas, skills, scopes, archived_personas, archived_skills, archived_scopes);
            let c: int = if config_present { 1 } else { 0 };
            let start = c + default_ids().len();
            &&& start <= t.len()
            &&& t.subrange(c, start) == default_entries(default_ids())
            &&& forall|j: int| start <= j < t.len() && !(#[trigger] t[j]).3 ==> !default_ids().contains(t[j].0)
        }),
{
    let d = default_ids();
    let head: Seq<(Seq<char>, GovernanceKind, Origin, bool)> = if config_present {
        seq![("config.yml"@, GovernanceKind::Config, Origin::Default, false)]
    } else {
        Seq::empty()
    };
    let de = default_entries(d);
    let a1 = dir_entries(sorted_of(personas), "personas"@, GovernanceKind::Persona, d, false);
    let a2 = dir_entries(sorted_of(skills), "skills"@, GovernanceKind::Skill, d, false);
    let a3 = dir_entries(sorted_of(scopes), "scopes"@, GovernanceKind::Scope, d, false);
    let b1 = dir_entries(sorted_of(archived_personas), "personas"@, GovernanceKind::Persona, d, true);
    let b2 = dir_entries(sorted_of(archived_skills), "skills"@, GovernanceKind::Skill, d, true);
    let b3 = dir_entries(sorted_of(archived_scopes), "scopes"@, GovernanceKind::Scope, d, true);
    lemma_dir_entries_props(sorted_of(personas), "personas"@, GovernanceKind::Persona, d, false);
    lemma_dir_entries_props(sorted_of(skills), "skills"@, GovernanceKind::Skill, d, false);
    lemma_dir_entries_props(sorted_of(scopes), "scopes"@, GovernanceKind::Scope, d, false);
    lemma_dir_entries_props(sorted_of(archived_personas), "personas"@, GovernanceKind::Persona, d, true);
    lemma_dir_entries_props(sorted_of(archived_skills), "skills"@, GovernanceKind::Skill, d, true);
    lemma_dir_entries_props(sorted_of(archived_scopes), "scopes"@, GovernanceKind::Scope, d, true);
    let live = a1 + a2 + a3;
    let gone = b1 + b2 + b3;
    let t = tree_entries(config_present, personas, skills, scopes, archived_personas, archived_skills, archived_scopes);
    assert(t =~= head + de + live + gone);
    let start = head.len() + de.len();
    assert(t.subrange(head.len() as int, start as int) =~= de);
    assert forall|j: int| start <= j < t.len() && !(#[trigger] t[j]).3 implies !d.contains(t[j].0) by {
        let i = j - start;
        if i < a1.len() {
            assert(t[j] == a1[i]);
        } else if i < a1.len() + a2.len() {
            assert(t[j] == a2[i - a1.len()]);
        } else if i < live.len() {
            assert(t[j] == a3[i - a1.len() - a2.len()]);
        } else {
            let g = i - live.len();
            if g < b1.len() {
                assert(t[j] == b1[g]);
            } else if g < b1.len() + b2.len() {
                assert(t[j] == b2[g - b1.len()]);
            } else {
                assert(t[j] == b3[g - b1.len() - b2.len()]);
            }
        }
    }
}

/// The views of a list of entries.
pub open spec fn entry_views(v: Seq<GovernanceEntry>) -> Seq<(Seq<char>, GovernanceKind, Origin, bool)> {
    v.map_values(|e: GovernanceEntry| entry_view(e))
}

fn push_entry(out: &mut Vec<GovernanceEntry>, e: GovernanceEntry)
    ensures
        entry_views(final(out)@) == entry_views(old(out)@).push(entry_view(e)),
{
    let ghost ev = entry_view(e);
    out.push(e);
    assert(entry_views(out@) =~= entry_views(old(out)@).push(ev));
}

/// Append the entries for the `.md` stems `names` of directory `dir`.
fn collect_md(
    names: &Vec<String>,
    dir: &str,
    kind: GovernanceKind,
    defaults: &Vec<String>,
    archived: bool,
    out: &mut Vec<GovernanceEntry>,
)
    ensures
        entry_views(final(out)@) == entry_views(old(out)@) + dir_entries(
            sorted_of(names.deep_view()),
            dir@,
            kind,
            defaults.deep_view(),
            archived,
        ),
{
    let sorted = sort_names(names);
    let ghost sv = sorted.deep_view();
    let mut i: usize = 0;
    while i < sorted.len()
        invariant
            i <= sorted@.len(),
            sv == sorted.deep_view(),
            entry_views(out@) == entry_views(old(out)@) + dir_entries(
                sv.subrange(0, i as int),
                dir@,
                kind,
                defaults.deep_view(),
                archived,
            ),
        decreases sorted.len() - i,
    {
        proof {
            assert(sv.subrange(0, i + 1).drop_last() =~= sv.subrange(0, i as int));
        }
        let id = concat3(dir, "/", sorted[i].as_str());
        let is_default = contains_name(defaults.as_slice(), id.as_str());
        if archived || !is_default {
            let origin = if is_default {
                Origin::Default
            } else {
                Origin::Custom
            };
            let ghost before = entry_views(out@);
            push_entry(out, GovernanceEntry { id, kind, origin, archived });
        }
        i = i + 1;
    }
    assert(sv.subrange(0, sorted@.len() as int) =~= sv);
}

/// List the governance tree: config, the built-in default personas, the
/// custom personas/skills/scopes found on disk (each directory in ascending
/// name order), and the archived entries.
pub fn list(scan: &GovernanceScan) -> (r: Vec<GovernanceEntry>)
    ensures
        entry_views(r@) == tree_entries(
            scan.config_present,
            scan.personas.deep_view(),
            scan.skills.deep_view(),
            scan.scopes.deep_view(),
            scan.archived_personas.deep_view(),
            scan.archived_skills.deep_view(),
            scan.archived_scopes.deep_view(),
        ),
{
    let mut entries: Vec<GovernanceEntry> = Vec::new();
    if scan.config_present {
        push_entry(
            &mut entries,
            GovernanceEntry {
                id: owned("config.yml"),
                kind: GovernanceKind::Config,
                origin: Origin::Default,
                archived: false,
            },
        );
    }
    let ghost head = entry_views(entries@);
    let defaults = default_persona_ids();
    let mut i: usize = 0;
    while i < defaults.len()
        invariant
            i <= defaults@.len(),
            defaults.deep_view() == default_ids(),
            entry_views(entries@) == head + default_entries(defaults.deep_view().subrange(0, i as int)),
        decreases defaults.len() - i,
    {
        push_entry(
            &mut entries,
            GovernanceEntry {
                id: defaults[i].clone(),
                kind: GovernanceKind::Persona,
                origin: Origin::Default,
                archived: false,
            },
        );
        assert(default_entries(defaults.deep_view().subrange(0, i + 1)) =~= default_entries(
            defaults.deep_view().subrange(0, i as int),
        ).push((defaults.deep_view()[i as int], GovernanceKind::Persona, Origin::Default, false)));
        i = i + 1;
    }
    assert(defaults.deep_view().subrange(0, defaults@.len() as int) =~= defaults.deep_view());
    collect_md(&scan.personas, "personas", GovernanceKind::Persona, &defaults, false, &mut entries);
    collect_md(&scan.skills, "skills", GovernanceKind::Skill, &defaults, false, &mut entries);
    collect_md(&scan.scopes, "scopes", GovernanceKind::Scope, &defaults, false, &mut entries);
    collect_md(&scan.archived_personas, "personas", GovernanceKind::Persona, &defaults, true, &mut entries);
    collect_md(&scan.archived_skills, "skills", GovernanceKind::Skill, &defaults, true, &mut entries);
    collect_md(&scan.archived_scopes, "scopes", GovernanceKind::Scope, &defaults, true, &mut entries);
    proof {
        assert(head =~= if scan.config_present {
            seq![("config.yml"@, GovernanceKind::Config, Origin::Default, false)]
        } else {
            Seq::empty()
        });
    }
    entries
}

// ---------------------------------------------------------------------------
// Reading, creating, saving and archiving: the decisions.
// ---------------------------------------------------------------------------

/// The body synthesized for a built-in persona without an override file.
pub open spec fn default_body_of(p: PersonaView) -> Seq<char> {
    "# "@ + p.id + "\n\n## Responsibility\n"@ + p.responsibility + "\n"@
}

/// The first default persona whose id is `id`, if any.
pub open spec fn default_persona_for(ps: Seq<PersonaView>, id: Seq<char>) -> Option<PersonaView>
    decreases ps.len(),
{
    if ps.len() == 0 {
        None
    } else {
        match default_persona_for(ps.drop_last(), id) {
            Some(p) => Some(p),
            None => if "personas/"@ + slug_of(ps.last().id) == id {
                Some(ps.last())
            } else {
                None
            },
        }
    }
}

/// The body of a built-in default persona, synthesized from the catalog
/// (`None` when `id` is not a default persona).
pub fn default_persona_body(id: &str) -> (r: Option<String>)
    ensures
        match default_persona_for(default_catalog(), id@) {
            Some(p) => r matches Some(b) && b@ == default_body_of(p),
            None => r is None,
        },
{
    let personas = default_personas();
    let ghost cat = personas.deep_view();
    let mut i: usize = 0;
    while i < personas.len()
        invariant
            i <= personas@.len(),
            cat == personas.deep_view(),
            cat == default_catalog(),
            default_persona_for(cat.subrange(0, i as int), id@) is None,
        decreases personas.len() - i,
    {
        proof {
            assert(cat.subrange(0, i + 1).drop_last() =~= cat.subrange(0, i as int));
            assert(personas@[i as int]@ == cat[i as int]);
        }
        let name = personas[i].id.to_string();
        let s = slug(name.as_str());
        let candidate = concat2("personas/", s.as_str());
        if str_eq(candidate.as_str(), id) {
            proof {
                lemma_default_persona_prefix(cat, (i + 1) as int, id@);
            }
            let mut body = concat3("# ", name.as_str(), "\n\n## Responsibility\n");
            body.append(personas[i].responsibility.as_str());
            body.append("\n");
            return Some(body);
        }
        i = i + 1;
    }
    assert(cat.subrange(0, personas@.len() as int) =~= cat);
    None
}

/// Once found in a prefix, the default persona for an id stays the same.
proof fn lemma_default_persona_prefix(ps: Seq<PersonaView>, k: int, id: Seq<char>)
    requires
        0 <= k <= ps.len(),
        default_persona_for(ps.subrange(0, k), id) is Some,
    ensures
        default_persona_for(ps, id) == default_persona_for(ps.subrange(0, k), id),
    decreases ps.len() - k,
{
    if k < ps.len() {
        assert(ps.subrange(0, k + 1).drop_last() =~= ps.subrange(0, k));
        lemma_default_persona_prefix(ps, k + 1, id);
    } else {
        assert(ps.subrange(0, k) =~= ps);
    }
}

/// Where a create would write: refused for the immutable persona and for
/// unrecognised ids. (Whether the entry already exists is the shell's check.)
pub fn check_create(id: &str) -> (r: Result<Vec<String>, GovernanceError>)
    ensures
        id@ == "personas/maestro"@ ==> (r matches Err(GovernanceError::Immutable(m)) && m@ == id@),
        id@ != "personas/maestro"@ ==> match entry_components(id@) {
            Some(c) => r matches Ok(v) && v.deep_view() == c,
            None => r matches Err(GovernanceError::NotFound(m)) && m@ == id@,
        },
{
    if is_immutable(id) {
        return Err(GovernanceError::Immutable(owned(id)));
    }
    match entry_file(id) {
        Some(v) => Ok(v),
        None => Err(GovernanceError::NotFound(owned(id))),
    }
}

/// Where a save would write: refused for the immutable persona, for ids of no
/// known kind, and for unrecognised ids.
pub fn check_save(id: &str) -> (r: Result<Vec<String>, GovernanceError>)
    ensures
        id@ == "personas/maestro"@ ==> (r matches Err(GovernanceError::Immutable(m)) && m@ == id@),
        id@ != "personas/maestro"@ && kind_of_id(id@) is None ==> (r matches Err(
            GovernanceError::NotFound(m),
        ) && m@ == id@),
        id@ != "personas/maestro"@ && kind_of_id(id@) is Some ==> match entry_components(id@) {
            Some(c) => r matches Ok(v) && v.deep_view() == c,
            None => r matches Err(GovernanceError::NotFound(m)) && m@ == id@,
        },
{
    if is_immutable(id) {
        return Err(GovernanceError::Immutable(owned(id)));
    }
    if kind_of(id).is_none() {
        return Err(GovernanceError::NotFound(owned(id)));
    }
    match entry_file(id) {
        Some(v) => Ok(v),
        None => Err(GovernanceError::NotFound(owned(id))),
    }
}

/// What an archive moves: the entry's directory and file name (the file
/// `maestro/<dir>/<name>.md` goes to `maestro/archive/<dir>/<name>.md`).
/// Refused for the immutable persona and for ids without a `/`.
pub fn check_archive(id: &str) -> (r: Result<(String, String), GovernanceError>)
    ensures
        id@ == "personas/maestro"@ ==> (r matches Err(GovernanceError::Immutable(m)) && m@ == id@),
        id@ != "personas/maestro"@ ==> match split_id(id@) {
            Some((dir, name)) => r matches Ok((d, f)) && d@ == dir && f@ == name + ".md"@,
            None => r matches Err(GovernanceError::Immutable(m)) && m@ == id@,
        },
{
    if is_immutable(id) {
        return Err(GovernanceError::Immutable(owned(id)));
    }
    match split_once_slash(id) {
        Some((dir, name)) => Ok((dir, concat2(name.as_str(), ".md"))),
        None => Err(GovernanceError::Immutable(owned(id))),
    }
}

/// Validate a non-config entry body: it must not be blank.
pub fn validate_body(body: &str) -> (r: (bool, Vec<String>))
    ensures
        r.0 == !is_blank(body@),
        r.1.deep_view() == if is_blank(body@) {
            seq!["entry body is empty"@]
        } else {
            Seq::<Seq<char>>::empty()
        },
{
    let mut issues: Vec<String> = Vec::new();
    if is_blank_str(body) {
        issues.push(owned("entry body is empty"));
        assert(issues.deep_view() =~= seq!["entry body is empty"@]);
        (false, issues)
    } else {
        assert(issues.deep_view() =~= Seq::<Seq<char>>::empty());
        (true, issues)
    }
}

/// Validate a parsed config (or the parser's error message): a parse error
/// or a failed cross-reference check is reported as the single issue.
pub fn validate_config_outcome(parsed: &Result<MaestroConfig, String>) -> (r: (bool, Vec<String>))
    ensures
        match parsed {
            Err(e) => !r.0 && r.1.deep_view() == seq!["YAML parse error: "@ + e@],
            Ok(c) => match crate::domain::models::config::config_issue(*c) {
                None => r.0 && r.1.deep_view() == Seq::<Seq<char>>::empty(),
                Some(issue) => !r.0 && r.1.deep_view() == seq![config_error_text(issue)],
            },
        },
{
    let mut issues: Vec<String> = Vec::new();
    match parsed {
        Err(e) => {
            issues.push(concat2("YAML parse error: ", e.as_str()));
            assert(issues.deep_view() =~= seq!["YAML parse error: "@ + e@]);
            (false, issues)
        },
        Ok(config) => match config.validate() {
            Ok(()) => {
                assert(issues.deep_view() =~= Seq::<Seq<char>>::empty());
                (true, issues)
            },
            Err(e) => {
                issues.push(e.message());
                assert(issues.deep_view() =~= seq![config_error_text(e@)]);
                (false, issues)
            },
        },
    }
}

// ---------------------------------------------------------------------------
// Custom personas.
// ---------------------------------------------------------------------------

/// The state of a scan over a persona body: name so far, responsibility so
/// far, and whether the scan is inside the `## Responsibility` section.
pub open spec fn persona_scan(lines: Seq<Seq<char>>) -> (Seq<char>, Seq<char>, bool)
    decreases lines.len(),
{
    if lines.len() == 0 {
        (Seq::empty(), Seq::empty(), false)
    } else {
        let (name, resp, inside) = persona_scan(lines.drop_last());
        let t = trim(lines.last());
        if "# "@.is_prefix_of(t) {
            (if name.len() == 0 {
                trim(t.subrange(2, t.len() as int))
            } else {
                name
            }, resp, inside)
        } else if eq_ignore_ascii_case(t, "## responsibility"@) {
            (name, resp, true)
        } else if "## "@.is_prefix_of(t) {
            (name, resp, false)
        } else if inside && resp.len() == 0 && t.len() > 0 {
            (name, t, inside)
        } else {
            (name, resp, inside)
        }
    }
}

/// The name and responsibility of the custom persona described by `body`:
/// the first `# ` heading names it, and the first non-empty line of the
/// `## Responsibility` section states its responsibility (a stock sentence
/// when there is none). `None` when there is no name.
pub open spec fn custom_persona_of(body: Seq<char>) -> Option<(Seq<char>, Seq<char>)> {
    let (name, resp, _) = persona_scan(lines_of(body));
    if name.len() == 0 || is_blank(name) {
        None
    } else {
        Some((name, if resp.len() == 0 { "Custom persona: "@ + name + "."@ } else { resp }))
    }
}

/// Parse a persona markdown body into a custom, non-orchestrator persona
/// that may hand work to Maestro.
pub fn parse_custom_persona(body: &str, maestro: &AgentId) -> (r: Option<Persona>)
    ensures
        match custom_persona_of(body@) {
            Some((name, resp)) => r matches Some(p) && p@ == (PersonaView {
                id: name,
                responsibility: resp,
                can_handoff_to: seq![maestro@],
                orchestrator: false,
                system_prompt: Seq::empty(),
                expertise_keywords: Seq::empty(),
                skill_tags: Seq::empty(),
            }),
            None => r is None,
        },
{
    let lines = split_lines(body);
    let ghost ls = lines.deep_view();
    let mut name = String::new();
    let mut responsibility = String::new();
    let mut in_responsibility = false;
    let mut i: usize = 0;
    while i < lines.len()
        invariant
            i <= lines@.len(),
            ls == lines.deep_view(),
            ls == lines_of(body@),
            persona_scan(ls.subrange(0, i as int)) == (name@, responsibility@, in_responsibility),
        decreases lines.len() - i,
    {
        proof {
            assert(ls.subrange(0, i + 1).drop_last() =~= ls.subrange(0, i as int));
            assert(ls.subrange(0, i + 1).last() == lines@[i as int]@);
            reveal_strlit("# ");
        }
        let trimmed = trim_str(lines[i].as_str());
        if str_starts_with(trimmed.as_str(), "# ") {
            if name.unicode_len() == 0 {
                let cs = chars_of(trimmed.as_str());
                let heading = string_from_chars(&cs, 2, cs.len());
                name = trim_str(heading.as_str());
            }
        } else if eq_ignore_case_str(trimmed.as_str(), "## responsibility") {
            in_responsibility = true;
        } else if str_starts_with(trimmed.as_str(), "## ") {
            in_responsibility = false;
        } else if in_responsibility && responsibility.unicode_len() == 0 && trimmed.unicode_len() > 0 {
            responsibility = trimmed;
        }
        i = i + 1;
    }
    assert(ls.subrange(0, lines@.len() as int) =~= ls);
    if name.unicode_len() == 0 {
        return None;
    }
    let resp = if responsibility.unicode_len() == 0 {
        concat3("Custom persona: ", name.as_str(), ".")
    } else {
        responsibility
    };
    let id = match AgentId::new(name.as_str()) {
        Ok(id) => id,
        Err(_) => return None,
    };
    let mut handoffs: Vec<AgentId> = Vec::new();
    handoffs.push(maestro.clone());
    proof {
        assert(!is_blank(resp@)) by {
            if responsibility@.len() == 0 {
                reveal_strlit("Custom persona: ");
                assert(resp@[0] == 'C');
            } else {
                lemma_scan_resp_not_blank(ls);
            }
        }
    }
    let empty_keywords: Vec<String> = Vec::new();
    let empty_tags: Vec<String> = Vec::new();
    assert(handoffs.deep_view() =~= seq![maestro@]);
    assert(empty_keywords.deep_view() =~= Seq::<Seq<char>>::empty());
    assert(empty_tags.deep_view() =~= Seq::<Seq<char>>::empty());
    match Persona::new(id, resp.as_str(), handoffs, false, "", empty_keywords, empty_tags) {
        Ok(p) => {
            proof {
                reveal_strlit("");
            }
            Some(p)
        },
        Err(_) => None,
    }
}

/// A persona body's name is its first `# ` heading and its responsibility
/// the first non-empty line of its `## Responsibility` section: once a scan
/// has found either, no later line changes it.
pub proof fn lemma_scan_keeps_first_finds(a: Seq<Seq<char>>, b: Seq<Seq<char>>)
    ensures
        persona_scan(a).0.len() > 0 ==> persona_scan(a + b).0 == persona_scan(a).0,
        persona_scan(a).1.len() > 0 ==> persona_scan(a + b).1 == persona_scan(a).1,
    decreases b.len(),
{
    if b.len() == 0 {
        assert(a + b =~= a);
    } else {
        lemma_scan_keeps_first_finds(a, b.drop_last());
        assert((a + b).drop_last() =~= a + b.drop_last());
    }
}

/// A line that leaves an open responsibility section waiting for its first
/// line: blank, a `# ` heading, or the section heading again.
pub open spec fn quiet_line(l: Seq<char>) -> bool {
    trim(l).len() == 0 || "# "@.is_prefix_of(trim(l)) || eq_ignore_ascii_case(trim(l), "## responsibility"@)
}

/// The responsibility a scan finds is the first line after a
/// `## Responsibility` heading that is neither blank nor a heading, trimmed:
/// every line between the two is blank, a `# ` heading or the section
/// heading again.
pub proof fn lemma_scan_resp_is_a_line(lines: Seq<Seq<char>>)
    ensures
        persona_scan(lines).1.len() > 0 ==> exists|h: int, k: int|
            0 <= h < k < lines.len() && eq_ignore_ascii_case(trim(#[trigger] lines[h]), "## responsibility"@)
                && persona_scan(lines).1 == trim(#[trigger] lines[k]) && trim(lines[k]).len() > 0
                && !"# "@.is_prefix_of(trim(lines[k])) && !"## "@.is_prefix_of(trim(lines[k]))
                && forall|m: int| h < m < k ==> quiet_line(#[trigger] lines[m]),
    decreases lines.len(),
{
    if lines.len() > 0 {
        let prev = lines.drop_last();
        lemma_scan_resp_is_a_line(prev);
        lemma_scan_waiting(prev);
        if persona_scan(prev).1.len() > 0 {
            let (h, k) = choose|h: int, k: int|
                0 <= h < k < prev.len() && eq_ignore_ascii_case(trim(#[trigger] prev[h]), "## responsibility"@)
                    && persona_scan(prev).1 == trim(#[trigger] prev[k]) && trim(prev[k]).len() > 0
                    && !"# "@.is_prefix_of(trim(prev[k])) && !"## "@.is_prefix_of(trim(prev[k]))
                    && forall|m: int| h < m < k ==> quiet_line(#[trigger] prev[m]);
            assert(lines[h] == prev[h] && lines[k] == prev[k]);
            assert forall|m: int| h < m < k implies quiet_line(#[trigger] lines[m]) by {
                assert(lines[m] == prev[m]);
            }
        } else if persona_scan(lines).1.len() > 0 {
            let h = choose|h: int|
                0 <= h < prev.len() && eq_ignore_ascii_case(trim(#[trigger] prev[h]), "## responsibility"@)
                    && forall|m: int| h < m < prev.len() ==> quiet_line(#[trigger] prev[m]);
            let k = lines.len() - 1;
            assert(lines[h] == prev[h]);
            assert forall|m: int| h < m < k implies quiet_line(#[trigger] lines[m]) by {
                assert(lines[m] == prev[m]);
            }
            assert(persona_scan(lines).1 == trim(lines[k]));
        }
    }
}

/// While a scan is inside the responsibility section with no responsibility
/// yet, it has seen the section heading and only quiet lines since.
proof fn lemma_scan_waiting(lines: Seq<Seq<char>>)
    ensures
        persona_scan(lines).2 && persona_scan(lines).1.len() == 0 ==> exists|h: int|
            0 <= h < lines.len() && eq_ignore_ascii_case(trim(#[trigger] lines[h]), "## responsibility"@)
                && forall|m: int| h < m < lines.len() ==> quiet_line(#[trigger] lines[m]),
    decreases lines.len(),
{
    if lines.len() > 0 {
        let prev = lines.drop_last();
        let k = lines.len() - 1;
        lemma_scan_waiting(prev);
        if persona_scan(lines).2 && persona_scan(lines).1.len() == 0 {
            let t = trim(lines[k]);
            if eq_ignore_ascii_case(t, "## responsibility"@) && !"# "@.is_prefix_of(t) {
                assert(eq_ignore_ascii_case(trim(lines[k]), "## responsibility"@));
            } else {
                assert(persona_scan(prev).2 && persona_scan(prev).1.len() == 0);
                let h = choose|h: int|
                    0 <= h < prev.len() && eq_ignore_ascii_case(trim(#[trigger] prev[h]), "## responsibility"@)
                        && forall|m: int| h < m < prev.len() ==> quiet_line(#[trigger] prev[m]);
                assert(lines[h] == prev[h]);
                assert(quiet_line(lines[k]));
                assert forall|m: int| h < m < lines.len() implies quiet_line(#[trigger] lines[m]) by {
                    if m < k {
                        assert(lines[m] == prev[m]);
                    }
                }
            }
        }
    }
}

/// The responsibility a scan picks up is a trimmed, non-empty line, so it
/// is not blank.
proof fn lemma_scan_resp_not_blank(lines: Seq<Seq<char>>)
    ensures
        persona_scan(lines).1.len() > 0 ==> !is_blank(persona_scan(lines).1),
    decreases lines.len(),
{
    if lines.len() > 0 {
        lemma_scan_resp_not_blank(lines.drop_last());
        crate::text::lemma_trim_not_blank(lines.last());
    }
}

/// The ids of the live custom personas among `entries`, in order.
pub open spec fn custom_persona_ids(entries: Seq<(Seq<char>, GovernanceKind, Origin, bool)>) -> Seq<Seq<char>>
    decreases entries.len(),
{
    if entries.len() == 0 {
        Seq::empty()
    } else {
        let e = entries.last();
        let rest = custom_persona_ids(entries.drop_last());
        if e.1 == GovernanceKind::Persona && e.2 == Origin::Custom && !e.3 {
            rest.push(e.0)
        } else {
            rest
        }
    }
}

/// The ids of the live (non-archived) custom personas among `entries`: the
/// ones whose bodies join the routed catalog.
pub fn custom_personas(entries: &Vec<GovernanceEntry>) -> (r: Vec<String>)
    ensures
        r.deep_view() == custom_persona_ids(entry_views(entries@)),
{
    let ghost ev = entry_views(entries@);
    let mut out: Vec<String> = Vec::new();
    let mut i: usize = 0;
    while i < entries.len()
        invariant
            i <= entries@.len(),
            ev == entry_views(entries@),
            out.deep_view() == custom_persona_ids(ev.subrange(0, i as int)),
        decreases entries.len() - i,
    {
        proof {
            assert(ev.subrange(0, i + 1).drop_last() =~= ev.subrange(0, i as int));
        }
        let e = &entries[i];
        if e.kind == GovernanceKind::Persona && e.origin == Origin::Custom && !e.archived {
            out.push(e.id.clone());
        }
        i = i + 1;
    }
    assert(ev.subrange(0, entries@.len() as int) =~= ev);
    out
}

/// Some persona of `ps` has id `id`.
pub open spec fn has_persona(ps: Seq<PersonaView>, id: Seq<char>) -> bool {
    exists|i: int| 0 <= i < ps.len() && #[trigger] ps[i].id == id
}

/// The catalog after adding the custom personas described by `bodies`, in
/// order: each parsed persona joins unless its id is already taken.
pub open spec fn merged_catalog(start: Seq<PersonaView>, bodies: Seq<Seq<char>>, maestro: Seq<char>) -> Seq<PersonaView>
    decreases bodies.len(),
{
    if bodies.len() == 0 {
        start
    } else {
        let cat = merged_catalog(start, bodies.drop_last(), maestro);
        match custom_persona_of(bodies.last()) {
            Some((name, resp)) => if has_persona(cat, name) {
                cat
            } else {
                cat.push(
                    PersonaView {
                        id: name,
                        responsibility: resp,
                        can_handoff_to: seq![maestro],
                        orchestrator: false,
                        system_prompt: Seq::empty(),
                        expertise_keywords: Seq::empty(),
                        skill_tags: Seq::empty(),
                    },
                )
            },
            None => cat,
        }
    }
}

/// Whether `ps` has a persona with `id`.
fn find_persona(ps: &Vec<Persona>, id: &AgentId) -> (r: bool)
    ensures
        r == has_persona(ps.deep_view(), id@),
{
    let mut i: usize = 0;
    while i < ps.len()
        invariant
            i <= ps@.len(),
            forall|j: int| 0 <= j < i ==> ps.deep_view()[j].id != id@,
        decreases ps.len() - i,
    {
        if str_eq(ps[i].id.as_str(), id.as_str()) {
            assert(ps.deep_view()[i as int].id == id@);
            return true;
        }
        i = i + 1;
    }
    false
}

/// The governed persona catalog: the built-in defaults plus the custom
/// personas described by `custom_bodies` (the bodies of the live custom
/// persona entries). This is what Maestro Mode routes over.
pub fn load_personas(custom_bodies: &Vec<String>) -> (r: Vec<Persona>)
    ensures
        r.deep_view() == merged_catalog(default_catalog(), custom_bodies.deep_view(), "Maestro"@),
{
    let mut personas = default_personas();
    let maestro = match AgentId::new("Maestro") {
        Ok(id) => id,
        Err(_) => {
            proof {
                reveal_strlit("Maestro");
                assert(!is_blank("Maestro"@)) by {
                    assert("Maestro"@[0] == 'M');
                }
            }
            return personas;
        },
    };
    let ghost bs = custom_bodies.deep_view();
    let mut i: usize = 0;
    proof {
        assert(bs.subrange(0, 0) =~= Seq::<Seq<char>>::empty());
    }
    while i < custom_bodies.len()
        invariant
            i <= custom_bodies@.len(),
            bs == custom_bodies.deep_view(),
            maestro@ == "Maestro"@,
            personas.deep_view() == merged_catalog(default_catalog(), bs.subrange(0, i as int), "Maestro"@),
        decreases custom_bodies.len() - i,
    {
        proof {
            assert(bs.subrange(0, i + 1).drop_last() =~= bs.subrange(0, i as int));
            assert(bs.subrange(0, i + 1).last() == custom_bodies@[i as int]@);
        }
        match parse_custom_persona(custom_bodies[i].as_str(), &maestro) {
            Some(p) => {
                if !find_persona(&personas, &p.id) {
                    let ghost before = personas.deep_view();
                    let ghost pv = p@;
                    personas.push(p);
                    assert(personas.deep_view() =~= before.push(pv));
                }
            },
            None => {},
        }
        i = i + 1;
    }
    assert(bs.subrange(0, custom_bodies@.len() as int) =~= bs);
    personas
}

} // verus!
