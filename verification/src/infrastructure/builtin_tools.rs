//! The built-in tools' rules: which tools exist, how a call names its tool
//! and arguments, the read-size limit, and how shell output is reported.
//! Reading, writing and running commands is the shell's work.

use vstd::prelude::*;

use crate::domain::models::str_map::StrMap;
use crate::domain::models::tool::{tool_label, ToolDefinition, ToolError, ToolKind};
use crate::text::{
    byte_len, char_code, chars_of, concat2, concat3, decimal, fmt_u64, owned, str_eq,
    string_from_chars, utf8_len, utf8_width,
};

verus! {

/// Files larger than this many bytes are not read.
pub const MAX_READ_SIZE: u64 = 512000;

/// Shell output longer than this many bytes is truncated.
pub const MAX_SHELL_OUTPUT: usize = 4096;

/// The abstract value of a tool definition: name, description, kind,
/// approval.
pub open spec fn definition_view(t: ToolDefinition) -> (Seq<char>, Seq<char>, ToolKind, bool) {
    (t.name@, t.description@, t.kind, t.requires_approval)
}

/// The built-in tools.
pub open spec fn builtin_views() -> Seq<(Seq<char>, Seq<char>, ToolKind, bool)> {
    seq![
        ("read_file"@, "Read the contents of a file"@, ToolKind::FileRead, false),
        ("write_file"@, "Write content to a file (creates parent dirs)"@, ToolKind::FileWrite, true),
        ("shell_exec"@, "Execute a shell command in the project root"@, ToolKind::ShellExec, true),
    ]
}

/// The built-in tools offered to agents.
pub fn builtin_tool_definitions() -> (r: Vec<ToolDefinition>)
    ensures
        r@.map_values(|t: ToolDefinition| definition_view(t)) == builtin_views(),
{
    let mut v: Vec<ToolDefinition> = Vec::new();
    v.push(
        ToolDefinition {
            name: owned("read_file"),
            description: owned("Read the contents of a file"),
            kind: ToolKind::FileRead,
            requires_approval: false,
        },
    );
    v.push(
        ToolDefinition {
            name: owned("write_file"),
            description: owned("Write content to a file (creates parent dirs)"),
            kind: ToolKind::FileWrite,
            requires_approval: true,
        },
    );
    v.push(
        ToolDefinition {
            name: owned("shell_exec"),
            description: owned("Execute a shell command in the project root"),
            kind: ToolKind::ShellExec,
            requires_approval: true,
        },
    );
    assert(v@.map_values(|t: ToolDefinition| definition_view(t)) =~= builtin_views());
    v
}

/// The tool a call names: the kind whose label it is.
pub fn tool_for(name: &str) -> (r: Result<ToolKind, ToolError>)
    ensures
        name@ == tool_label(ToolKind::FileRead) ==> r == Ok::<ToolKind, ToolError>(ToolKind::FileRead),
        name@ == tool_label(ToolKind::FileWrite) ==> r == Ok::<ToolKind, ToolError>(ToolKind::FileWrite),
        name@ == tool_label(ToolKind::ShellExec) ==> r == Ok::<ToolKind, ToolError>(ToolKind::ShellExec),
        name@ != tool_label(ToolKind::FileRead) && name@ != tool_label(ToolKind::FileWrite) && name@
            != tool_label(ToolKind::ShellExec) ==> (r matches Err(ToolError::UnknownTool(t)) && t@ == name@),
{
    proof {
        reveal_strlit("read_file");
        reveal_strlit("write_file");
        reveal_strlit("shell_exec");
        assert("read_file"@[0] != "write_file"@[0]);
        assert("read_file"@[0] != "shell_exec"@[0]);
        assert("write_file"@[0] != "shell_exec"@[0]);
    }
    if str_eq(name, "read_file") {
        Ok(ToolKind::FileRead)
    } else if str_eq(name, "write_file") {
        Ok(ToolKind::FileWrite)
    } else if str_eq(name, "shell_exec") {
        Ok(ToolKind::ShellExec)
    } else {
        Err(ToolError::UnknownTool(owned(name)))
    }
}

/// The argument `name` of a call, or the error naming it as missing.
pub fn required_arg(args: &StrMap<String>, name: &str) -> (r: Result<String, ToolError>)
    ensures
        args@.contains_key(name@) ==> (r matches Ok(v) && v@ == args@[name@]@),
        !args@.contains_key(name@) ==> (r matches Err(ToolError::MissingArgument(a)) && a@ == name@),
{
    match args.get(name) {
        Some(v) => Ok(v.clone()),
        None => Err(ToolError::MissingArgument(owned(name))),
    }
}

/// Refuse to read a file of `len` bytes when it exceeds [`MAX_READ_SIZE`].
pub fn check_read_size(len: u64) -> (r: Result<(), ToolError>)
    ensures
        len <= MAX_READ_SIZE ==> r is Ok,
        len > MAX_READ_SIZE ==> (r matches Err(ToolError::ExecutionFailed(m)) && m@ == "file too large ("@
            + decimal(len as nat) + " bytes, max 512000)"@),
{
    if len > MAX_READ_SIZE {
        let mut m = concat2("file too large (", fmt_u64(len).as_str());
        m.append(" bytes, max 512000)");
        Err(ToolError::ExecutionFailed(m))
    } else {
        Ok(())
    }
}

/// The report of a write of `bytes` bytes to `path`.
pub fn write_report(bytes: u64, path: &str) -> (r: String)
    ensures
        r@ == "wrote "@ + decimal(bytes as nat) + " bytes to "@ + path@,
{
    let mut r = concat3("wrote ", fmt_u64(bytes).as_str(), " bytes to ");
    r.append(path);
    r
}

/// A command's output: stdout, then stderr under a marker when there is any.
pub open spec fn combined_text(stdout: Seq<char>, stderr: Seq<char>) -> Seq<char> {
    if stderr.len() == 0 {
        stdout
    } else {
        stdout + "\n[stderr]\n"@ + stderr
    }
}

/// The longest prefix of `s` whose UTF-8 encoding fits in `n` bytes.
pub open spec fn prefix_within(s: Seq<char>, n: nat) -> Seq<char>
    decreases s.len(),
{
    if s.len() == 0 || utf8_width(s[0]) > n {
        Seq::empty()
    } else {
        seq![s[0]] + prefix_within(s.drop_first(), (n - utf8_width(s[0])) as nat)
    }
}

/// Cutting `s` after [`MAX_SHELL_OUTPUT`] bytes would split a character.
pub open spec fn cut_splits_char(s: Seq<char>) -> bool {
    utf8_len(s) > MAX_SHELL_OUTPUT && utf8_len(prefix_within(s, MAX_SHELL_OUTPUT as nat)) != MAX_SHELL_OUTPUT
}

/// The reported output: the text, or its first [`MAX_SHELL_OUTPUT`] bytes
/// and a truncation mark when it is longer.
pub open spec fn reported_output(s: Seq<char>) -> Seq<char> {
    if utf8_len(s) > MAX_SHELL_OUTPUT {
        prefix_within(s, MAX_SHELL_OUTPUT as nat) + "\u{2026}(truncated)"@
    } else {
        s
    }
}

/// The number of bytes `c` takes in UTF-8.
fn char_width(c: char) -> (r: usize)
    ensures
        r == utf8_width(c),
{
    let u = char_code(c);
    if u < 0x80 {
        1
    } else if u < 0x800 {
        2
    } else if u < 0x10000 {
        3
    } else {
        4
    }
}

proof fn lemma_prefix_within_split(s: Seq<char>, i: int, n: nat)
    requires
        0 <= i < s.len(),
        utf8_width(s[i]) <= n,
    ensures
        prefix_within(s.subrange(i, s.len() as int), n) == seq![s[i]] + prefix_within(
            s.subrange(i + 1, s.len() as int),
            (n - utf8_width(s[i])) as nat,
        ),
{
    let t = s.subrange(i, s.len() as int);
    assert(t[0] == s[i]);
    assert(t.drop_first() =~= s.subrange(i + 1, s.len() as int));
}

proof fn lemma_utf8_len_append(a: Seq<char>, b: Seq<char>)
    ensures
        utf8_len(a + b) == utf8_len(a) + utf8_len(b),
    decreases b.len(),
{
    if b.len() == 0 {
        assert(a + b =~= a);
    } else {
        lemma_utf8_len_append(a, b.drop_last());
        assert((a + b).drop_last() =~= a + b.drop_last());
    }
}

/// The characters of `s` that fit in `n` bytes, and how many bytes they take.
fn prefix_chars(cs: &Vec<char>, n: usize) -> (r: (usize, usize))
    ensures
        r.0 <= cs@.len(),
        cs@.subrange(0, r.0 as int) == prefix_within(cs@, n as nat),
        r.1 == utf8_len(prefix_within(cs@, n as nat)),
{
    let mut i: usize = 0;
    let mut used: usize = 0;
    proof {
        assert(cs@.subrange(0, 0) =~= Seq::<char>::empty());
        assert(cs@.subrange(0, cs@.len() as int) =~= cs@);
    }
    while i < cs.len() && char_width(cs[i]) <= n - used
        invariant
            i <= cs@.len(),
            used <= n,
            used == utf8_len(cs@.subrange(0, i as int)),
            prefix_within(cs@, n as nat) == cs@.subrange(0, i as int) + prefix_within(
                cs@.subrange(i as int, cs@.len() as int),
                (n - used) as nat,
            ),
        decreases cs.len() - i,
    {
        let w = char_width(cs[i]);
        proof {
            lemma_prefix_within_split(cs@, i as int, (n - used) as nat);
            assert(cs@.subrange(0, i + 1) =~= cs@.subrange(0, i as int) + seq![cs@[i as int]]);
            assert(cs@.subrange(0, i + 1).drop_last() =~= cs@.subrange(0, i as int));
        }
        used = used + w;
        i = i + 1;
    }
    proof {
        let rest = cs@.subrange(i as int, cs@.len() as int);
        if i < cs@.len() {
            assert(rest[0] == cs@[i as int]);
        }
        assert(prefix_within(rest, (n - used) as nat) =~= Seq::<char>::empty());
        assert(cs@.subrange(0, i as int) + Seq::<char>::empty() =~= cs@.subrange(0, i as int));
    }
    (i, used)
}

/// Whether truncating this output would split a character.
pub fn output_cut_splits_char(output: &str) -> (r: bool)
    ensures
        r == cut_splits_char(output@),
{
    if byte_len(output) <= MAX_SHELL_OUTPUT {
        return false;
    }
    let cs = chars_of(output);
    let (_, used) = prefix_chars(&cs, MAX_SHELL_OUTPUT);
    used != MAX_SHELL_OUTPUT
}

/// Report a command's output: combined stdout and stderr, cut after
/// [`MAX_SHELL_OUTPUT`] bytes with a truncation mark.
pub fn shell_output(stdout: &str, stderr: &str) -> (r: String)
    requires
        !cut_splits_char(combined_text(stdout@, stderr@)),
    ensures
        r@ == reported_output(combined_text(stdout@, stderr@)),
{
    let combined = if stderr.unicode_len() == 0 {
        owned(stdout)
    } else {
        concat3(stdout, "\n[stderr]\n", stderr)
    };
    if byte_len(combined.as_str()) > MAX_SHELL_OUTPUT {
        let cs = chars_of(combined.as_str());
        let (k, _) = prefix_chars(&cs, MAX_SHELL_OUTPUT);
        let head = string_from_chars(&cs, 0, k);
        concat2(head.as_str(), "\u{2026}(truncated)")
    } else {
        combined
    }
}

} // verus!
