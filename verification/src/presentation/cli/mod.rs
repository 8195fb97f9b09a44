//! The command-line surface: commands, the interactive menu's choices, the
//! bootstrap answers and what the commands print or write.

use vstd::prelude::*;

use crate::domain::models::persona::{default_catalog, default_personas, PersonaView};
use crate::text::{
    concat2, concat3, eq_ignore_ascii_case, eq_ignore_case_str, lowercase, lowercase_known, owned, str_eq,
    to_lowercase, trim, trim_str, underscore_non_alnum, underscore_non_alnum_str,
};

pub mod detect;
pub mod providers;
pub mod templates;

verus! {

/// Maestro's command line: whether to run headless, and the command.
#[derive(Debug, PartialEq, Eq)]
pub struct Cli {
    /// Run headless, without launching the TUI.
    pub no_tui: bool,
    /// The command, if one was given.
    pub command: Option<Command>,
}

/// Top-level commands.
#[derive(Debug, PartialEq, Eq)]
pub enum Command {
    /// Print version information.
    Version,
    /// Validate `maestro/config.yml` and its cross-references.
    ValidateConfig,
    /// List the registered personas.
    ListAgents,
    /// Create the mandatory governance markdown scaffold.
    ScaffoldMarkdown,
    /// Generate `maestro/config.yml` from a template.
    InitConfig,
    /// Run readiness checks (config, governance).
    Doctor,
    /// Run the headless duplex IPC core.
    Run,
    /// Launch the Workspace TUI.
    Tui,
    /// Bootstrap a new project, scaffold defaults, then open the Workspace.
    Init { name: Option<String> },
}

/// The persona names of the default catalog, in order.
pub fn agent_names() -> (r: Vec<String>)
    ensures
        r.deep_view() == default_catalog().map_values(|p: PersonaView| p.id),
{
    let personas = default_personas();
    let mut out: Vec<String> = Vec::new();
    let mut i: usize = 0;
    while i < personas.len()
        invariant
            i <= personas@.len(),
            personas.deep_view() == default_catalog(),
            out.deep_view() == default_catalog().map_values(|p: PersonaView| p.id).subrange(0, i as int),
        decreases personas.len() - i,
    {
        let ghost before = out.deep_view();
        out.push(personas[i].id.to_string());
        assert(personas.deep_view()[i as int] == personas@[i as int]@);
        assert(out.deep_view() =~= before.push(personas@[i as int]@.id));
        assert(out.deep_view() =~= default_catalog().map_values(|p: PersonaView| p.id).subrange(0, i + 1));
        i = i + 1;
    }
    assert(default_catalog().map_values(|p: PersonaView| p.id).subrange(0, personas@.len() as int)
        =~= default_catalog().map_values(|p: PersonaView| p.id));
    out
}

/// `PASS` or `FAIL`.
pub fn pass_fail(ok: bool) -> (r: &'static str)
    ensures
        r@ == if ok {
            "PASS"@
        } else {
            "FAIL"@
        },
{
    if ok {
        "PASS"
    } else {
        "FAIL"
    }
}

/// The starter configuration written by `maestro init-config`.
pub const CONFIG_TEMPLATE: &'static str = "system:\n  default_provider: ollama\n  default_model: mistral\n  max_concurrency: 4\nproviders:\n  ollama:\n    kind: ollama\n    endpoint: \"http://127.0.0.1:11434/v1\"\n    models:\n      - name: mistral\n  # Optional cloud provider (set OPENAI_API_KEY in the environment, never here):\n  # openai:\n  #   kind: openai\n  #   endpoint: \"https://api.openai.com/v1\"\n  #   models:\n  #     - name: gpt-4o-mini\n";

/// What the interactive main menu does for a choice.
#[derive(Debug, Clone, Copy, PartialEq, Eq, Structural)]
pub enum MenuAction {
    InitProject,
    LaunchTui,
    ValidateConfig,
    ListAgents,
    ScaffoldGovernance,
    Doctor,
    Exit,
    Invalid,
}

/// The action of a (trimmed) menu choice.
pub open spec fn menu_action_of(choice: Seq<char>) -> MenuAction {
    if choice == "1"@ {
        MenuAction::InitProject
    } else if choice == "2"@ {
        MenuAction::LaunchTui
    } else if choice == "3"@ {
        MenuAction::ValidateConfig
    } else if choice == "4"@ {
        MenuAction::ListAgents
    } else if choice == "5"@ {
        MenuAction::ScaffoldGovernance
    } else if choice == "6"@ {
        MenuAction::Doctor
    } else if choice == "7"@ || choice == "q"@ || choice == "exit"@ || choice.len() == 0 {
        MenuAction::Exit
    } else {
        MenuAction::Invalid
    }
}

/// Decide what the main menu does for a trimmed choice; every action but
/// `Invalid` ends the menu.
pub fn menu_action(choice: &str) -> (r: MenuAction)
    ensures
        r == menu_action_of(choice@),
{
    if str_eq(choice, "1") {
        MenuAction::InitProject
    } else if str_eq(choice, "2") {
        MenuAction::LaunchTui
    } else if str_eq(choice, "3") {
        MenuAction::ValidateConfig
    } else if str_eq(choice, "4") {
        MenuAction::ListAgents
    } else if str_eq(choice, "5") {
        MenuAction::ScaffoldGovernance
    } else if str_eq(choice, "6") {
        MenuAction::Doctor
    } else if str_eq(choice, "7") || str_eq(choice, "q") || str_eq(choice, "exit") || choice.unicode_len() == 0 {
        MenuAction::Exit
    } else {
        MenuAction::Invalid
    }
}

/// The answers collected by `maestro init`.
#[derive(Debug, PartialEq, Eq)]
pub struct InitAnswers {
    /// Project name (required).
    pub name: String,
    /// Primary scope (required).
    pub scope: String,
    /// Optional project type (one of [`PROJECT_TYPES`]).
    pub kind: Option<String>,
    /// Optional layout-reference image paths.
    pub layout_refs: Vec<String>,
}

/// The project types `maestro init` offers.
pub const PROJECT_TYPES: [&'static str; 4] = ["library", "Web", "Desktop", "Mobile"];

/// The project types, in order.
pub open spec fn project_types() -> Seq<Seq<char>> {
    seq!["library"@, "Web"@, "Desktop"@, "Mobile"@]
}

/// The first project type equal to `raw` up to ASCII case.
pub open spec fn project_type_match(raw: Seq<char>) -> Option<Seq<char>> {
    if eq_ignore_ascii_case(project_types()[0], raw) {
        Some(project_types()[0])
    } else if eq_ignore_ascii_case(project_types()[1], raw) {
        Some(project_types()[1])
    } else if eq_ignore_ascii_case(project_types()[2], raw) {
        Some(project_types()[2])
    } else if eq_ignore_ascii_case(project_types()[3], raw) {
        Some(project_types()[3])
    } else {
        None
    }
}

/// The project type an answer names, in its canonical spelling.
pub fn project_type_of(raw: &str) -> (r: Option<String>)
    ensures
        match project_type_match(raw@) {
            Some(t) => r matches Some(s) && s@ == t,
            None => r is None,
        },
{
    if eq_ignore_case_str("library", raw) {
        Some(owned("library"))
    } else if eq_ignore_case_str("Web", raw) {
        Some(owned("Web"))
    } else if eq_ignore_case_str("Desktop", raw) {
        Some(owned("Desktop"))
    } else if eq_ignore_case_str("Mobile", raw) {
        Some(owned("Mobile"))
    } else {
        None
    }
}

/// Whether a (trimmed) answer to "add a layout reference?" declines.
pub fn is_no_answer(ans: &str) -> (r: bool)
    ensures
        r == (ans@.len() == 0 || eq_ignore_ascii_case(ans@, "no"@) || eq_ignore_ascii_case(ans@, "n"@)),
{
    ans.unicode_len() == 0 || eq_ignore_case_str(ans, "no") || eq_ignore_case_str(ans, "n")
}

/// Whether a trimmed answer declines: empty, "no" or "n" in any ASCII case.
pub open spec fn declines(ans: Seq<char>) -> bool {
    ans.len() == 0 || eq_ignore_ascii_case(ans, "no"@) || eq_ignore_ascii_case(ans, "n"@)
}

/// A question `maestro init` asks.
#[derive(Debug, Clone, Copy, PartialEq, Eq, Structural)]
pub enum InitQuestion {
    /// The project name; asked again while the answer is blank.
    Name,
    /// The primary scope; asked again while the answer is blank.
    Scope,
    /// The optional project type.
    Kind,
    /// One more layout-reference path, until the answer declines.
    LayoutRef,
}

/// The prompt written before a question's answer is read.
pub open spec fn init_prompt_text(q: InitQuestion) -> Seq<char> {
    match q {
        InitQuestion::Name => "Project name (required): "@,
        InitQuestion::Scope => "Primary scope (required): "@,
        InitQuestion::Kind => "Project type [library/Web/Desktop/Mobile] (optional): "@,
        InitQuestion::LayoutRef => "Add a layout reference image path? (path or 'No'): "@,
    }
}

impl InitQuestion {
    /// The prompt for this question.
    pub fn prompt(&self) -> (r: &'static str)
        ensures
            r@ == init_prompt_text(*self),
    {
        match self {
            InitQuestion::Name => "Project name (required): ",
            InitQuestion::Scope => "Primary scope (required): ",
            InitQuestion::Kind => "Project type [library/Web/Desktop/Mobile] (optional): ",
            InitQuestion::LayoutRef => "Add a layout reference image path? (path or 'No'): ",
        }
    }
}

/// The name given on the command line, trimmed; empty when none was given.
pub open spec fn name_arg_text(name_arg: Option<String>) -> Seq<char> {
    match name_arg {
        Some(n) => trim(n@),
        None => Seq::empty(),
    }
}

/// The bootstrap answers gathered so far and the question to ask next.
#[derive(Debug, PartialEq, Eq)]
pub struct InitPrompt {
    /// What has been answered.
    pub answers: InitAnswers,
    /// The next question; `None` once the answers are complete.
    pub next: Option<InitQuestion>,
}

impl InitPrompt {
    /// Start the questions. A name given on the command line is kept
    /// (trimmed) and not asked for unless it is blank.
    pub fn new(name_arg: Option<String>) -> (r: Self)
        ensures
            r.answers.name@ == name_arg_text(name_arg),
            r.answers.scope@.len() == 0,
            r.answers.kind is None,
            r.answers.layout_refs@.len() == 0,
            r.next == Some(
                if name_arg_text(name_arg).len() == 0 {
                    InitQuestion::Name
                } else {
                    InitQuestion::Scope
                },
            ),
    {
        let name = match name_arg {
            Some(n) => trim_str(n.as_str()),
            None => String::new(),
        };
        let next = if name.as_str().unicode_len() == 0 {
            InitQuestion::Name
        } else {
            InitQuestion::Scope
        };
        InitPrompt {
            answers: InitAnswers { name, scope: String::new(), kind: None, layout_refs: Vec::new() },
            next: Some(next),
        }
    }

    /// Take the answer line to the pending question (it is trimmed first)
    /// and move to the next question. With no question pending nothing
    /// changes.
    pub fn answer(&mut self, line: &str)
        ensures
            ({
                let t = trim(line@);
                let a = old(self).answers;
                let b = final(self).answers;
                match old(self).next {
                    None => *final(self) == *old(self),
                    Some(InitQuestion::Name) => {
                        &&& b.name@ == t
                        &&& b.scope@ == a.scope@ && b.kind == a.kind && b.layout_refs.deep_view() == a.layout_refs.deep_view()
                        &&& final(self).next == Some(if t.len() == 0 { InitQuestion::Name } else { InitQuestion::Scope })
                    },
                    Some(InitQuestion::Scope) => {
                        &&& b.scope@ == t
                        &&& b.name@ == a.name@ && b.kind == a.kind && b.layout_refs.deep_view() == a.layout_refs.deep_view()
                        &&& final(self).next == Some(if t.len() == 0 { InitQuestion::Scope } else { InitQuestion::Kind })
                    },
                    Some(InitQuestion::Kind) => {
                        &&& match project_type_match(t) {
                            Some(k) => b.kind matches Some(s) && s@ == k,
                            None => b.kind is None,
                        }
                        &&& b.name@ == a.name@ && b.scope@ == a.scope@ && b.layout_refs.deep_view() == a.layout_refs.deep_view()
                        &&& final(self).next == Some(InitQuestion::LayoutRef)
                    },
                    Some(InitQuestion::LayoutRef) => {
                        &&& b.name@ == a.name@ && b.scope@ == a.scope@ && b.kind == a.kind
                        &&& if declines(t) {
                            &&& b.layout_refs.deep_view() == a.layout_refs.deep_view()
                            &&& final(self).next is None
                        } else {
                            &&& b.layout_refs.deep_view() == a.layout_refs.deep_view().push(t)
                            &&& final(self).next == Some(InitQuestion::LayoutRef)
                        }
                    },
                }
            }),
    {
        let t = trim_str(line);
        match self.next {
            None => {},
            Some(InitQuestion::Name) => {
                let blank = t.as_str().unicode_len() == 0;
                self.answers.name = t;
                self.next = Some(if blank { InitQuestion::Name } else { InitQuestion::Scope });
            },
            Some(InitQuestion::Scope) => {
                let blank = t.as_str().unicode_len() == 0;
                self.answers.scope = t;
                self.next = Some(if blank { InitQuestion::Scope } else { InitQuestion::Kind });
            },
            Some(InitQuestion::Kind) => {
                self.answers.kind = project_type_of(t.as_str());
                self.next = Some(InitQuestion::LayoutRef);
            },
            Some(InitQuestion::LayoutRef) => {
                if is_no_answer(t.as_str()) {
                    self.next = None;
                } else {
                    self.answers.layout_refs.push(t);
                }
            },
        }
    }
}

/// The file-name slug of a scope: lowercased, with every character that is
/// not an ASCII letter or digit replaced by `_`.
pub fn scope_slug(scope: &str) -> (r: String)
    ensures
        r@ == underscore_non_alnum(lowercase(scope@)),
        lowercase_known(scope@),
{
    let lower = to_lowercase(scope);
    underscore_non_alnum_str(lower.as_str())
}

/// The layout-reference lines of a scope file.
pub open spec fn reference_lines(refs: Seq<Seq<char>>) -> Seq<char>
    decreases refs.len(),
{
    if refs.len() == 0 {
        Seq::empty()
    } else {
        reference_lines(refs.drop_last()) + "  - "@ + refs.last() + "\n"@
    }
}

/// The scope file written for a new project.
pub open spec fn scope_text(a: InitAnswers) -> Seq<char> {
    "# Scope: "@ + a.scope@ + "\n\n- Project: "@ + a.name@ + "\n"@ + match a.kind {
        Some(k) => "- Type: "@ + k@ + "\n"@,
        None => Seq::empty(),
    } + if a.layout_refs@.len() > 0 {
        "- Layout references:\n"@ + reference_lines(a.layout_refs.deep_view())
    } else {
        Seq::empty()
    }
}

/// The body of the primary scope file of a new project.
pub fn scope_body(answers: &InitAnswers) -> (r: String)
    ensures
        r@ == scope_text(*answers),
{
    let mut body = concat3("# Scope: ", answers.scope.as_str(), "\n\n- Project: ");
    body.append(answers.name.as_str());
    body.append("\n");
    match &answers.kind {
        Some(k) => {
            body.append("- Type: ");
            body.append(k.as_str());
            body.append("\n");
        },
        None => {
            proof {
                reveal_strlit("");
            }
        },
    }
    let ghost head = body@;
    if answers.layout_refs.len() > 0 {
        body.append("- Layout references:\n");
        let ghost with_title = body@;
        let mut i: usize = 0;
        while i < answers.layout_refs.len()
            invariant
                i <= answers.layout_refs@.len(),
                body@ == with_title + reference_lines(answers.layout_refs.deep_view().subrange(0, i as int)),
            decreases answers.layout_refs.len() - i,
        {
            proof {
                let d = answers.layout_refs.deep_view();
                assert(d.subrange(0, i + 1).drop_last() =~= d.subrange(0, i as int));
            }
            body.append("  - ");
            body.append(answers.layout_refs[i].as_str());
            body.append("\n");
            i = i + 1;
        }
        assert(answers.layout_refs.deep_view().subrange(0, answers.layout_refs@.len() as int)
            =~= answers.layout_refs.deep_view());
    }
    body
}

} // verus!
