//! Project detection: which ecosystem a directory belongs to.

use vstd::prelude::*;

use crate::domain::models::governance::contains_name;
use crate::text::owned;

verus! {

/// A detected project ecosystem.
#[derive(Debug, PartialEq, Eq)]
pub struct DetectedProject {
    /// Human-readable ecosystem name (e.g. "Rust (Cargo)").
    pub ecosystem: String,
    /// Suggested project template key (e.g. "cli-tool", "library").
    pub suggested_template: Option<String>,
    /// The marker file that triggered detection.
    pub marker: String,
}

/// The known project markers, most specific first: marker file, ecosystem,
/// suggested template.
pub open spec fn markers() -> Seq<(Seq<char>, Seq<char>, Option<Seq<char>>)> {
    seq![
        ("Cargo.toml"@, "Rust (Cargo)"@, Some("library"@)),
        ("package.json"@, "Node.js (npm)"@, Some("web-app"@)),
        ("go.mod"@, "Go"@, Some("cli-tool"@)),
        ("pyproject.toml"@, "Python (pyproject)"@, Some("cli-tool"@)),
        ("setup.py"@, "Python (setup.py)"@, Some("cli-tool"@)),
        ("Makefile"@, "Make-based project"@, None),
        (".git"@, "Git repository"@, None),
    ]
}

/// The marker file names, in order of specificity.
pub fn marker_names() -> (r: Vec<String>)
    ensures
        r.deep_view() == markers().map_values(|m: (Seq<char>, Seq<char>, Option<Seq<char>>)| m.0),
{
    let mut v: Vec<String> = Vec::new();
    v.push(owned("Cargo.toml"));
    v.push(owned("package.json"));
    v.push(owned("go.mod"));
    v.push(owned("pyproject.toml"));
    v.push(owned("setup.py"));
    v.push(owned("Makefile"));
    v.push(owned(".git"));
    assert(v.deep_view() =~= markers().map_values(|m: (Seq<char>, Seq<char>, Option<Seq<char>>)| m.0));
    v
}

/// The first marker (in order) that is present.
pub open spec fn first_present(ms: Seq<(Seq<char>, Seq<char>, Option<Seq<char>>)>, present: Seq<Seq<char>>) -> Option<int>
    decreases ms.len(),
{
    if ms.len() == 0 {
        None
    } else {
        match first_present(ms.drop_last(), present) {
            Some(i) => Some(i),
            None => if present.contains(ms.last().0) {
                Some(ms.len() - 1)
            } else {
                None
            },
        }
    }
}

/// `first_present` picks the earliest marker in `ms` whose file is present,
/// and finds none exactly when no marker's file is present.
proof fn lemma_first_present(ms: Seq<(Seq<char>, Seq<char>, Option<Seq<char>>)>, present: Seq<Seq<char>>)
    ensures
        match first_present(ms, present) {
            Some(i) => 0 <= i < ms.len() && present.contains(ms[i].0) && forall|j: int|
                0 <= j < i ==> !present.contains(#[trigger] ms[j].0),
            None => forall|j: int| 0 <= j < ms.len() ==> !present.contains(#[trigger] ms[j].0),
        },
    decreases ms.len(),
{
    if ms.len() > 0 {
        let prev = ms.drop_last();
        lemma_first_present(prev, present);
        match first_present(prev, present) {
            Some(i) => {
                assert(ms[i] == prev[i]);
                assert forall|j: int| 0 <= j < i implies !present.contains(#[trigger] ms[j].0) by {
                    assert(ms[j] == prev[j]);
                }
            },
            None => {
                assert forall|j: int| 0 <= j < ms.len() - 1 implies !present.contains(#[trigger] ms[j].0) by {
                    assert(ms[j] == prev[j]);
                }
            },
        }
    }
}

/// The marker files that name an ecosystem (and so a template), most
/// specific first.
pub open spec fn ecosystem_marker_files() -> Seq<Seq<char>> {
    seq!["Cargo.toml"@, "package.json"@, "go.mod"@, "pyproject.toml"@, "setup.py"@]
}

/// Detection's precedence. The marker table is, most specific first,
/// Cargo.toml (Rust, `library`), package.json (Node.js, `web-app`), go.mod
/// (Go, `cli-tool`), pyproject.toml and setup.py (Python, `cli-tool`), then
/// the generic Makefile and .git with no template. The earliest marker whose
/// file is present wins, nothing is detected only when no marker file is
/// present, and whenever an ecosystem marker is present it beats Makefile and
/// .git, so a template is suggested.
pub proof fn lemma_detect_precedence(present: Seq<Seq<char>>)
    ensures
        markers() == seq![
            ("Cargo.toml"@, "Rust (Cargo)"@, Some("library"@)),
            ("package.json"@, "Node.js (npm)"@, Some("web-app"@)),
            ("go.mod"@, "Go"@, Some("cli-tool"@)),
            ("pyproject.toml"@, "Python (pyproject)"@, Some("cli-tool"@)),
            ("setup.py"@, "Python (setup.py)"@, Some("cli-tool"@)),
            ("Makefile"@, "Make-based project"@, None::<Seq<char>>),
            (".git"@, "Git repository"@, None::<Seq<char>>),
        ],
        match first_present(markers(), present) {
            Some(i) => present.contains(markers()[i].0) && forall|j: int|
                0 <= j < i ==> !present.contains(#[trigger] markers()[j].0),
            None => forall|j: int| 0 <= j < markers().len() ==> !present.contains(#[trigger] markers()[j].0),
        },
        (exists|k: int| 0 <= k < ecosystem_marker_files().len() && present.contains(
            #[trigger] ecosystem_marker_files()[k],
        )) ==> (first_present(markers(), present) matches Some(i) && ecosystem_marker_files().contains(markers()[i].0)
            && markers()[i].2 is Some && markers()[i].0 != "Makefile"@ && markers()[i].0 != ".git"@),
{
    let ms = markers();
    lemma_first_present(ms, present);
    if exists|k: int| 0 <= k < ecosystem_marker_files().len() && present.contains(
        #[trigger] ecosystem_marker_files()[k],
    ) {
        let k = choose|k: int| 0 <= k < ecosystem_marker_files().len() && present.contains(
            #[trigger] ecosystem_marker_files()[k],
        );
        assert(ms[k].0 == ecosystem_marker_files()[k]);
        let i = first_present(ms, present)->0;
        assert(i <= k);
        assert(ecosystem_marker_files()[i] == ms[i].0);
        reveal_strlit("Makefile");
        reveal_strlit(".git");
        reveal_strlit("Cargo.toml");
        reveal_strlit("package.json");
        reveal_strlit("go.mod");
        reveal_strlit("pyproject.toml");
        reveal_strlit("setup.py");
        assert(ms[i].0.len() != 8 || ms[i].0[0] != 'M');
        assert(ms[i].0.len() != 4 || ms[i].0[0] != '.');
    }
}

fn project(marker: &str, ecosystem: &str, template: Option<&str>) -> (r: DetectedProject)
    ensures
        r.marker@ == marker@,
        r.ecosystem@ == ecosystem@,
        match template {
            Some(t) => r.suggested_template matches Some(s) && s@ == t@,
            None => r.suggested_template is None,
        },
{
    DetectedProject {
        ecosystem: owned(ecosystem),
        suggested_template: match template {
            Some(t) => Some(owned(t)),
            None => None,
        },
        marker: owned(marker),
    }
}

/// The project a directory holds, given the marker files present in it: the
/// first (most specific) known marker wins.
pub fn detect(present: &Vec<String>) -> (r: Option<DetectedProject>)
    ensures
        match first_present(markers(), present.deep_view()) {
            Some(i) => r matches Some(d) && d.marker@ == markers()[i].0 && d.ecosystem@ == markers()[i].1
                && match markers()[i].2 {
                Some(t) => d.suggested_template matches Some(s) && s@ == t,
                None => d.suggested_template is None,
            },
            None => r is None,
        },
{
    proof {
        reveal_with_fuel(first_present, 8);
    }
    let p = present.as_slice();
    if contains_name(p, "Cargo.toml") {
        return Some(project("Cargo.toml", "Rust (Cargo)", Some("library")));
    }
    if contains_name(p, "package.json") {
        return Some(project("package.json", "Node.js (npm)", Some("web-app")));
    }
    if contains_name(p, "go.mod") {
        return Some(project("go.mod", "Go", Some("cli-tool")));
    }
    if contains_name(p, "pyproject.toml") {
        return Some(project("pyproject.toml", "Python (pyproject)", Some("cli-tool")));
    }
    if contains_name(p, "setup.py") {
        return Some(project("setup.py", "Python (setup.py)", Some("cli-tool")));
    }
    if contains_name(p, "Makefile") {
        return Some(project("Makefile", "Make-based project", None));
    }
    if contains_name(p, ".git") {
        return Some(project(".git", "Git repository", None));
    }
    None
}

} // verus!
