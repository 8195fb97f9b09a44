//! Release persistence: the content of a release.
//!
//! Each approved run becomes a numbered release with a markdown manifest and
//! a runnable demo script. The shell writes the files and commits them; this
//! module decides the release's id and version and the text of each file,
//! and reads manifests back.

use vstd::prelude::*;

use crate::text::{
    chars_of, concat2, concat3, decimal, fmt_u64, joined_lines, lemma_joined_lines_append,
    lemma_decimal_digits, lemma_decimal_injective, lemma_lines_of_joined, lemma_trim_fixed, lemma_trimmed_ends, lines_of,
    no_newline, owned, push_char, split_lines, str_starts_with, strip_cr, strip_prefix_str, trim,
    trim_str,
};

verus! {

/// A persisted release of a micro-project.
#[derive(Debug, PartialEq, Eq)]
pub struct ReleaseRecord {
    /// Release id, e.g. `r001`.
    pub id: String,
    /// Semantic version, e.g. `0.1.1`.
    pub version: String,
    /// One-line changelog.
    pub changelog: String,
    /// Creation time, seconds since the Unix epoch.
    pub created_at: String,
}

/// `d` left-padded with zeros to at least `w` characters.
pub open spec fn zero_pad(d: Seq<char>, w: nat) -> Seq<char>
    decreases w,
{
    if d.len() >= w {
        d
    } else {
        seq!['0'] + zero_pad(d, (w - 1) as nat)
    }
}

fn pad_zeros(d: String, w: usize) -> (r: String)
    ensures
        r@ == zero_pad(d@, w as nat),
    decreases w,
{
    if d.unicode_len() >= w {
        d
    } else {
        let rest = pad_zeros(d, w - 1);
        let r = concat2("0", rest.as_str());
        proof {
            reveal_strlit("0");
        }
        r
    }
}

/// The id of the `n`-th release: `r` and `n` with at least three digits.
pub open spec fn release_id_of(n: nat) -> Seq<char> {
    "r"@ + zero_pad(decimal(n), 3)
}

/// The version of the `n`-th release.
pub open spec fn release_version_of(n: nat) -> Seq<char> {
    "0.1."@ + decimal(n)
}

/// The changelog of a release for `demand`.
pub open spec fn changelog_of(demand: Seq<char>) -> Seq<char> {
    "Micro-project for: "@ + demand
}

/// The deliverable bullet lines of a manifest.
pub open spec fn bullet_lines(items: Seq<Seq<char>>) -> Seq<char>
    decreases items.len(),
{
    if items.len() == 0 {
        Seq::empty()
    } else {
        bullet_lines(items.drop_last()) + "- "@ + items.last() + "\n"@
    }
}

/// The manifest of a release.
pub open spec fn manifest_of(
    version: Seq<char>,
    id: Seq<char>,
    created_at: Seq<char>,
    demand: Seq<char>,
    items: Seq<Seq<char>>,
) -> Seq<char> {
    "# Release "@ + version + "\n\n- id: "@ + id + "\n- created: "@ + created_at + "\n- demand: "@
        + demand + "\n\n## Deliverables\n"@ + bullet_lines(items)
}

/// `s` with every `"` replaced by `'`.
pub open spec fn single_quoted(s: Seq<char>) -> Seq<char> {
    s.map_values(|c: char| if c == '"' { '\'' } else { c })
}

/// The echo lines of the demo script, one per deliverable.
pub open spec fn echo_lines(items: Seq<Seq<char>>) -> Seq<char>
    decreases items.len(),
{
    if items.len() == 0 {
        Seq::empty()
    } else {
        echo_lines(items.drop_last()) + "echo \"- "@ + single_quoted(items.last()) + "\"\n"@
    }
}

/// The demo script of a release.
pub open spec fn demo_of(version: Seq<char>, demand: Seq<char>, items: Seq<Seq<char>>) -> Seq<char> {
    "#!/bin/sh\n"@ + "echo \"Maestro release "@ + version + " \u{2014} demo for: "@ + demand + "\"\n"@
        + echo_lines(items) + "echo \"demo complete.\"\n"@
}

/// Everything the shell writes for a new release.
#[derive(Debug)]
pub struct PlannedRelease {
    /// The record returned to the caller.
    pub record: ReleaseRecord,
    /// The body of `manifest.md`.
    pub manifest: String,
    /// The body of `demo.sh`.
    pub demo: String,
    /// The message of the release's commit.
    pub commit_message: String,
}

/// The next release after `count` existing ones, created at `created_at`
/// for `demand` with the given deliverables.
pub fn plan_release(count: u64, created_at: &str, demand: &str, deliverables: &Vec<String>) -> (r: PlannedRelease)
    requires
        count < u64::MAX,
    ensures
        r.record.id@ == release_id_of((count + 1) as nat),
        r.record.version@ == release_version_of((count + 1) as nat),
        r.record.changelog@ == changelog_of(demand@),
        r.record.created_at@ == created_at@,
        r.manifest@ == manifest_of(
            release_version_of((count + 1) as nat),
            release_id_of((count + 1) as nat),
            created_at@,
            demand@,
            deliverables.deep_view(),
        ),
        r.demo@ == demo_of(release_version_of((count + 1) as nat), demand@, deliverables.deep_view()),
        r.commit_message@ == "release "@ + release_version_of((count + 1) as nat) + ": "@ + demand@,
{
    let next = count + 1;
    let digits = fmt_u64(next);
    let padded = pad_zeros(digits, 3);
    let id = concat2("r", padded.as_str());
    let version = concat2("0.1.", fmt_u64(next).as_str());
    let mut manifest = concat3("# Release ", version.as_str(), "\n\n- id: ");
    manifest.append(id.as_str());
    manifest.append("\n- created: ");
    manifest.append(created_at);
    manifest.append("\n- demand: ");
    manifest.append(demand);
    manifest.append("\n\n## Deliverables\n");
    let ghost manifest_head = manifest@;
    let mut i: usize = 0;
    while i < deliverables.len()
        invariant
            i <= deliverables@.len(),
            manifest@ == manifest_head + bullet_lines(deliverables.deep_view().subrange(0, i as int)),
        decreases deliverables.len() - i,
    {
        proof {
            let d = deliverables.deep_view();
            assert(d.subrange(0, i + 1).drop_last() =~= d.subrange(0, i as int));
        }
        manifest.append("- ");
        manifest.append(deliverables[i].as_str());
        manifest.append("\n");
        i = i + 1;
    }
    assert(deliverables.deep_view().subrange(0, deliverables@.len() as int) =~= deliverables.deep_view());
    let mut demo = owned("#!/bin/sh\n");
    demo.append("echo \"Maestro release ");
    demo.append(version.as_str());
    demo.append(" \u{2014} demo for: ");
    demo.append(demand);
    demo.append("\"\n");
    let ghost demo_head = demo@;
    let mut j: usize = 0;
    while j < deliverables.len()
        invariant
            j <= deliverables@.len(),
            demo@ == demo_head + echo_lines(deliverables.deep_view().subrange(0, j as int)),
        decreases deliverables.len() - j,
    {
        proof {
            let d = deliverables.deep_view();
            assert(d.subrange(0, j + 1).drop_last() =~= d.subrange(0, j as int));
        }
        let safe = quote_safe(deliverables[j].as_str());
        demo.append("echo \"- ");
        demo.append(safe.as_str());
        demo.append("\"\n");
        j = j + 1;
    }
    assert(deliverables.deep_view().subrange(0, deliverables@.len() as int) =~= deliverables.deep_view());
    demo.append("echo \"demo complete.\"\n");
    let mut commit_message = concat3("release ", version.as_str(), ": ");
    commit_message.append(demand);
    let record = ReleaseRecord {
        id,
        version,
        changelog: concat2("Micro-project for: ", demand),
        created_at: owned(created_at),
    };
    PlannedRelease { record, manifest, demo, commit_message }
}

/// `s` with every `"` replaced by `'`, so it can sit inside a double-quoted
/// shell string.
fn quote_safe(s: &str) -> (r: String)
    ensures
        r@ == single_quoted(s@),
{
    let cs = chars_of(s);
    let mut out = String::new();
    let mut i: usize = 0;
    while i < cs.len()
        invariant
            cs@ == s@,
            i <= cs@.len(),
            out@ == single_quoted(s@.subrange(0, i as int)),
        decreases cs.len() - i,
    {
        let c = cs[i];
        push_char(&mut out, if c == '"' { '\'' } else { c });
        assert(single_quoted(s@.subrange(0, i + 1)) =~= single_quoted(s@.subrange(0, i as int)).push(
            if c == '"' { '\'' } else { c },
        ));
        i = i + 1;
    }
    assert(s@.subrange(0, cs@.len() as int) =~= s@);
    out
}

/// Whether a directory name under `maestro/releases/` counts as a release.
pub fn is_release_dir(name: &str) -> (r: bool)
    ensures
        r == (name@.len() > 0 && name@[0] == 'r'),
{
    let r = str_starts_with(name, "r");
    proof {
        reveal_strlit("r");
        if name@.len() > 0 {
            assert(name@.subrange(0, 1)[0] == name@[0]);
            if name@[0] == 'r' {
                assert(name@.subrange(0, 1) =~= "r"@);
            }
        }
    }
    r
}

/// The fields a manifest scan has found: version, id, created, demand.
pub open spec fn manifest_scan(lines: Seq<Seq<char>>) -> (Seq<char>, Seq<char>, Seq<char>, Seq<char>)
    decreases lines.len(),
{
    if lines.len() == 0 {
        (Seq::empty(), Seq::empty(), Seq::empty(), Seq::empty())
    } else {
        let (v, id, c, d) = manifest_scan(lines.drop_last());
        let l = lines.last();
        if "# Release "@.is_prefix_of(l) {
            (trim(l.subrange(10, l.len() as int)), id, c, d)
        } else if "- id: "@.is_prefix_of(l) {
            (v, trim(l.subrange(6, l.len() as int)), c, d)
        } else if "- created: "@.is_prefix_of(l) {
            (v, id, trim(l.subrange(11, l.len() as int)), d)
        } else if "- demand: "@.is_prefix_of(l) {
            (v, id, c, trim(l.subrange(10, l.len() as int)))
        } else {
            (v, id, c, d)
        }
    }
}

/// Read a release back from its manifest; the directory name stands in for
/// a missing id.
pub fn parse_manifest(body: &str, dir_name: &str) -> (r: ReleaseRecord)
    ensures
        ({
            let (v, id, c, d) = manifest_scan(lines_of(body@));
            &&& r.version@ == v
            &&& r.id@ == if id.len() == 0 {
                dir_name@
            } else {
                id
            }
            &&& r.created_at@ == c
            &&& r.changelog@ == changelog_of(d)
        }),
{
    let lines = split_lines(body);
    let ghost ls = lines.deep_view();
    let mut version = String::new();
    let mut id = String::new();
    let mut created_at = String::new();
    let mut demand = String::new();
    let mut i: usize = 0;
    while i < lines.len()
        invariant
            i <= lines@.len(),
            ls == lines.deep_view(),
            manifest_scan(ls.subrange(0, i as int)) == (version@, id@, created_at@, demand@),
        decreases lines.len() - i,
    {
        proof {
            assert(ls.subrange(0, i + 1).drop_last() =~= ls.subrange(0, i as int));
            assert(ls.subrange(0, i + 1).last() == lines@[i as int]@);
            reveal_strlit("# Release ");
            reveal_strlit("- id: ");
            reveal_strlit("- created: ");
            reveal_strlit("- demand: ");
        }
        let line = lines[i].as_str();
        match strip_prefix_str(line, "# Release ") {
            Some(v) => {
                version = trim_str(v.as_str());
            },
            None => match strip_prefix_str(line, "- id: ") {
                Some(v) => {
                    id = trim_str(v.as_str());
                },
                None => match strip_prefix_str(line, "- created: ") {
                    Some(v) => {
                        created_at = trim_str(v.as_str());
                    },
                    None => match strip_prefix_str(line, "- demand: ") {
                        Some(v) => {
                            demand = trim_str(v.as_str());
                        },
                        None => {},
                    },
                },
            },
        }
        i = i + 1;
    }
    assert(ls.subrange(0, lines@.len() as int) =~= ls);
    if id.unicode_len() == 0 {
        id = owned(dir_name);
    }
    ReleaseRecord { id, version, changelog: concat2("Micro-project for: ", demand.as_str()), created_at }
}

/// Some line of the manifest declares release `version`.
pub open spec fn declares_version(lines: Seq<Seq<char>>, version: Seq<char>) -> bool {
    exists|i: int|
        0 <= i < lines.len() && "# Release "@.is_prefix_of(#[trigger] lines[i]) && trim(
            lines[i].subrange(10, lines[i].len() as int),
        ) == version
}

/// Whether a manifest declares release `version`.
pub fn manifest_declares(body: &str, version: &str) -> (r: bool)
    ensures
        r == declares_version(lines_of(body@), version@),
{
    let lines = split_lines(body);
    let ghost ls = lines.deep_view();
    proof {
        reveal_strlit("# Release ");
    }
    let mut i: usize = 0;
    while i < lines.len()
        invariant
            i <= lines@.len(),
            ls == lines.deep_view(),
            ls == lines_of(body@),
            forall|j: int|
                0 <= j < i ==> !("# Release "@.is_prefix_of(#[trigger] ls[j]) && trim(
                    ls[j].subrange(10, ls[j].len() as int),
                ) == version@),
        decreases lines.len() - i,
    {
        assert(ls[i as int] == lines@[i as int]@);
        proof {
            reveal_strlit("# Release ");
        }
        match strip_prefix_str(lines[i].as_str(), "# Release ") {
            Some(v) => {
                let t = trim_str(v.as_str());
                if crate::text::str_eq(t.as_str(), version) {
                    return true;
                }
            },
            None => {},
        }
        i = i + 1;
    }
    false
}


// ---------------------------------------------------------------------------
// Reading a release back.
// ---------------------------------------------------------------------------

/// The header lines of a manifest (each written with a line break after it).
pub open spec fn manifest_header(
    version: Seq<char>,
    id: Seq<char>,
    created_at: Seq<char>,
    demand: Seq<char>,
) -> Seq<Seq<char>> {
    seq![
        "# Release "@ + version,
        Seq::<char>::empty(),
        "- id: "@ + id,
        "- created: "@ + created_at,
        "- demand: "@ + demand,
        Seq::<char>::empty(),
        "## Deliverables"@,
    ]
}

/// The bullet line of one deliverable.
pub open spec fn bullet(item: Seq<char>) -> Seq<char> {
    "- "@ + item
}

proof fn lemma_bullets_joined(items: Seq<Seq<char>>)
    ensures
        bullet_lines(items) == joined_lines(items.map_values(|x: Seq<char>| bullet(x))),
    decreases items.len(),
{
    reveal_strlit("\n");
    if items.len() > 0 {
        lemma_bullets_joined(items.drop_last());
        let m = items.map_values(|x: Seq<char>| bullet(x));
        assert(m.drop_last() =~= items.drop_last().map_values(|x: Seq<char>| bullet(x)));
        assert(m.last() == bullet(items.last()));
        assert("\n"@ =~= seq!['\n']);
        assert(bullet_lines(items) =~= joined_lines(m));
    } else {
        assert(items.map_values(|x: Seq<char>| bullet(x)) =~= Seq::<Seq<char>>::empty());
    }
}

/// A manifest is its header lines and its bullet lines, each ended by a
/// line break.
#[verifier::rlimit(40)]
proof fn lemma_manifest_joined(
    version: Seq<char>,
    id: Seq<char>,
    created_at: Seq<char>,
    demand: Seq<char>,
    items: Seq<Seq<char>>,
)
    ensures
        manifest_of(version, id, created_at, demand, items) == joined_lines(
            manifest_header(version, id, created_at, demand) + items.map_values(|x: Seq<char>| bullet(x)),
        ),
{
    let h = manifest_header(version, id, created_at, demand);
    let m = items.map_values(|x: Seq<char>| bullet(x));
    lemma_joined_lines_append(h, m);
    lemma_bullets_joined(items);
    reveal_with_fuel(joined_lines, 8);
    reveal_strlit("# Release ");
    reveal_strlit("\n\n- id: ");
    reveal_strlit("\n- created: ");
    reveal_strlit("\n- demand: ");
    reveal_strlit("\n\n## Deliverables\n");
    reveal_strlit("- id: ");
    reveal_strlit("- created: ");
    reveal_strlit("- demand: ");
    reveal_strlit("## Deliverables");
    assert(h.drop_last().drop_last().drop_last().drop_last().drop_last().drop_last().drop_last()
        =~= Seq::<Seq<char>>::empty());
    assert(joined_lines(h) =~= "# Release "@ + version + "\n\n- id: "@ + id + "\n- created: "@
        + created_at + "\n- demand: "@ + demand + "\n\n## Deliverables\n"@);
}

/// A line that sets none of the manifest's fields.
pub open spec fn plain_line(l: Seq<char>) -> bool {
    &&& !"# Release "@.is_prefix_of(l)
    &&& !"- id: "@.is_prefix_of(l)
    &&& !"- created: "@.is_prefix_of(l)
    &&& !"- demand: "@.is_prefix_of(l)
}

/// A deliverable whose bullet line cannot be taken for a field.
pub open spec fn plain_item(x: Seq<char>) -> bool {
    &&& !"id: "@.is_prefix_of(x)
    &&& !"created: "@.is_prefix_of(x)
    &&& !"demand: "@.is_prefix_of(x)
}

/// A field value a manifest line carries unchanged: one line, already
/// trimmed.
pub open spec fn one_line_value(x: Seq<char>) -> bool {
    no_newline(x) && trim(x) == x
}

proof fn lemma_not_prefix_at(p: Seq<char>, l: Seq<char>, k: int)
    requires
        0 <= k < p.len(),
        k < l.len(),
        p[k] != l[k],
    ensures
        !p.is_prefix_of(l),
{
    if p.is_prefix_of(l) {
        assert(p[k] == l.subrange(0, p.len() as int)[k]);
    }
}

proof fn lemma_scan_skips_plain(a: Seq<Seq<char>>, b: Seq<Seq<char>>)
    requires
        forall|i: int| 0 <= i < b.len() ==> plain_line(#[trigger] b[i]),
    ensures
        manifest_scan(a + b) == manifest_scan(a),
    decreases b.len(),
{
    if b.len() == 0 {
        assert(a + b =~= a);
    } else {
        let b0 = b.drop_last();
        assert forall|i: int| 0 <= i < b0.len() implies plain_line(#[trigger] b0[i]) by {
            assert(b0[i] == b[i]);
        }
        lemma_scan_skips_plain(a, b0);
        assert((a + b).drop_last() =~= a + b0);
        assert((a + b).last() == b[b.len() - 1]);
    }
}

/// The bullet line of a plain deliverable sets no field.
proof fn lemma_bullet_plain(x: Seq<char>)
    requires
        plain_item(x),
    ensures
        plain_line(strip_cr(bullet(x))),
{
    reveal_strlit("- ");
    reveal_strlit("# Release ");
    reveal_strlit("- id: ");
    reveal_strlit("- created: ");
    reveal_strlit("- demand: ");
    reveal_strlit("id: ");
    reveal_strlit("created: ");
    reveal_strlit("demand: ");
    let full = bullet(x);
    let l = strip_cr(full);
    assert(full[0] == '-');
    assert(full[1] == ' ');
    assert(l.len() >= 2 && l[0] == '-') by {
        if x.len() == 0 {
            assert(full.len() == 2);
        }
    }
    assert(l =~= full.subrange(0, l.len() as int));
    lemma_not_prefix_at("# Release "@, l, 0);
    if "- id: "@.is_prefix_of(l) {
        assert("- id: "@.is_prefix_of(full));
        assert("id: "@ =~= x.subrange(0, 4)) by {
            assert forall|k: int| 0 <= k < 4 implies x.subrange(0, 4)[k] == "id: "@[k] by {
                assert(full[k + 2] == x[k]);
                assert(full.subrange(0, 6)[k + 2] == "- id: "@[k + 2]);
            }
        }
    }
    if "- created: "@.is_prefix_of(l) {
        assert("- created: "@.is_prefix_of(full));
        assert("created: "@ =~= x.subrange(0, 9)) by {
            assert forall|k: int| 0 <= k < 9 implies x.subrange(0, 9)[k] == "created: "@[k] by {
                assert(full[k + 2] == x[k]);
                assert(full.subrange(0, 11)[k + 2] == "- created: "@[k + 2]);
            }
        }
    }
    if "- demand: "@.is_prefix_of(l) {
        assert("- demand: "@.is_prefix_of(full));
        assert("demand: "@ =~= x.subrange(0, 8)) by {
            assert forall|k: int| 0 <= k < 8 implies x.subrange(0, 8)[k] == "demand: "@[k] by {
                assert(full[k + 2] == x[k]);
                assert(full.subrange(0, 10)[k + 2] == "- demand: "@[k + 2]);
            }
        }
    }
}

/// Zero padding keeps a run of digits a run of digits.
proof fn lemma_zero_pad_digits(d: Seq<char>, w: nat)
    requires
        d.len() >= 1,
        forall|i: int| 0 <= i < d.len() ==> 48 <= (#[trigger] d[i]) as u32 <= 57,
    ensures
        zero_pad(d, w).len() >= 1,
        forall|i: int| 0 <= i < zero_pad(d, w).len() ==> 48 <= (#[trigger] zero_pad(d, w)[i]) as u32 <= 57,
    decreases w,
{
    if d.len() < w {
        lemma_zero_pad_digits(d, (w - 1) as nat);
        let r = zero_pad(d, (w - 1) as nat);
        assert forall|i: int| 0 <= i < zero_pad(d, w).len() implies 48 <= (#[trigger] zero_pad(d, w)[i]) as u32 <= 57 by {
            if i > 0 {
                assert(zero_pad(d, w)[i] == r[i - 1]);
            }
        }
    }
}

/// A release's version and id are single trimmed lines.
proof fn lemma_version_and_id(n: nat)
    ensures
        one_line_value(release_version_of(n)),
        one_line_value(release_id_of(n)),
        release_version_of(n).len() > 0,
{
    reveal_strlit("0.1.");
    reveal_strlit("r");
    lemma_decimal_digits(n);
    lemma_zero_pad_digits(decimal(n), 3);
    let v = release_version_of(n);
    let dn = decimal(n);
    assert forall|i: int| 0 <= i < v.len() implies v[i] != '\n' by {
        if i >= 4 {
            assert(v[i] == dn[i - 4]);
        }
    }
    assert(v.last() == dn[dn.len() - 1]);
    lemma_trim_fixed(v);
    let z = zero_pad(dn, 3);
    let id = release_id_of(n);
    assert forall|i: int| 0 <= i < id.len() implies id[i] != '\n' by {
        if i >= 1 {
            assert(id[i] == z[i - 1]);
        }
    }
    assert(id.last() == z[z.len() - 1]);
    lemma_trim_fixed(id);
}

/// A field line keeps its last character when that is not a carriage
/// return.
proof fn lemma_field_line_kept(p: Seq<char>, x: Seq<char>)
    requires
        p.len() > 0,
        p.last() != '\r',
        trim(x) == x,
    ensures
        strip_cr(p + x) == p + x,
{
    lemma_trimmed_ends(x);
    if x.len() > 0 {
        assert((p + x).last() == x.last());
    } else {
        assert(p + x =~= p);
    }
}

/// Scanning the header lines of a manifest finds its fields.
proof fn lemma_header_scan(v: Seq<char>, id: Seq<char>, c: Seq<char>, d: Seq<char>)
    requires
        trim(v) == v,
        trim(id) == id,
        trim(c) == c,
        trim(d) == d,
    ensures
        manifest_scan(manifest_header(v, id, c, d).map_values(|l: Seq<char>| strip_cr(l))) == (v, id, c, d),
{
    reveal_strlit("# Release ");
    reveal_strlit("- id: ");
    reveal_strlit("- created: ");
    reveal_strlit("- demand: ");
    reveal_strlit("## Deliverables");
    let e = Seq::<char>::empty();
    let h = manifest_header(v, id, c, d);
    lemma_field_line_kept("# Release "@, v);
    lemma_field_line_kept("- id: "@, id);
    lemma_field_line_kept("- created: "@, c);
    lemma_field_line_kept("- demand: "@, d);
    assert(strip_cr("## Deliverables"@) == "## Deliverables"@);
    assert(strip_cr(e) == e);
    let m = h.map_values(|l: Seq<char>| strip_cr(l));
    assert(m =~= h);
    // Line 1 sets the version.
    assert(h.subrange(0, 1).drop_last() =~= h.subrange(0, 0));
    assert(manifest_scan(h.subrange(0, 0)) == (e, e, e, e));
    assert(h.subrange(0, 1).last() == h[0]);
    assert(h[0].subrange(0, 10) =~= "# Release "@);
    assert(h[0].subrange(10, h[0].len() as int) =~= v);
    assert(manifest_scan(h.subrange(0, 1)) == (v, e, e, e));
    // Line 2 is empty.
    assert(h.subrange(0, 2).drop_last() =~= h.subrange(0, 1));
    assert(h.subrange(0, 2).last() == h[1]);
    assert(manifest_scan(h.subrange(0, 2)) == (v, e, e, e));
    // Line 3 sets the id.
    assert(h.subrange(0, 3).drop_last() =~= h.subrange(0, 2));
    assert(h.subrange(0, 3).last() == h[2]);
    lemma_not_prefix_at("# Release "@, h[2], 0);
    assert(h[2].subrange(0, 6) =~= "- id: "@);
    assert(h[2].subrange(6, h[2].len() as int) =~= id);
    assert(manifest_scan(h.subrange(0, 3)) == (v, id, e, e));
    // Line 4 sets the creation time.
    assert(h.subrange(0, 4).drop_last() =~= h.subrange(0, 3));
    assert(h.subrange(0, 4).last() == h[3]);
    lemma_not_prefix_at("# Release "@, h[3], 0);
    lemma_not_prefix_at("- id: "@, h[3], 2);
    assert(h[3].subrange(0, 11) =~= "- created: "@);
    assert(h[3].subrange(11, h[3].len() as int) =~= c);
    assert(manifest_scan(h.subrange(0, 4)) == (v, id, c, e));
    // Line 5 sets the demand.
    assert(h.subrange(0, 5).drop_last() =~= h.subrange(0, 4));
    assert(h.subrange(0, 5).last() == h[4]);
    lemma_not_prefix_at("# Release "@, h[4], 0);
    lemma_not_prefix_at("- id: "@, h[4], 2);
    lemma_not_prefix_at("- created: "@, h[4], 2);
    assert(h[4].subrange(0, 10) =~= "- demand: "@);
    assert(h[4].subrange(10, h[4].len() as int) =~= d);
    assert(manifest_scan(h.subrange(0, 5)) == (v, id, c, d));
    // Lines 6 and 7 set nothing.
    assert(h.subrange(0, 6).drop_last() =~= h.subrange(0, 5));
    assert(h.subrange(0, 6).last() == h[5]);
    assert(manifest_scan(h.subrange(0, 6)) == (v, id, c, d));
    assert(h.subrange(0, 7).drop_last() =~= h.subrange(0, 6));
    assert(h.subrange(0, 7).last() == h[6]);
    lemma_not_prefix_at("# Release "@, h[6], 1);
    lemma_not_prefix_at("- id: "@, h[6], 0);
    lemma_not_prefix_at("- created: "@, h[6], 0);
    lemma_not_prefix_at("- demand: "@, h[6], 0);
    assert(manifest_scan(h.subrange(0, 7)) == (v, id, c, d));
    assert(h.subrange(0, 7) =~= h);
}

/// Listing a release reads back what persisting it recorded: the manifest
/// written for release `n` yields its version, id, creation time and demand
/// when read, and declares its version. This holds when the creation time and
/// the demand are single lines without surrounding whitespace and no
/// deliverable spans lines or begins like a field (`id: `, `created: `,
/// `demand: `).
pub proof fn lemma_manifest_reads_back(
    n: nat,
    created_at: Seq<char>,
    demand: Seq<char>,
    items: Seq<Seq<char>>,
)
    requires
        one_line_value(created_at),
        one_line_value(demand),
        forall|i: int| 0 <= i < items.len() ==> no_newline(#[trigger] items[i]) && plain_item(items[i]),
    ensures
        ({
            let body = manifest_of(release_version_of(n), release_id_of(n), created_at, demand, items);
            &&& manifest_scan(lines_of(body)) == (
                release_version_of(n),
                release_id_of(n),
                created_at,
                demand,
            )
            &&& declares_version(lines_of(body), release_version_of(n))
        }),
{
    reveal_strlit("# Release ");
    reveal_strlit("- id: ");
    reveal_strlit("- created: ");
    reveal_strlit("- demand: ");
    reveal_strlit("## Deliverables");
    reveal_strlit("- ");
    let v = release_version_of(n);
    let id = release_id_of(n);
    lemma_version_and_id(n);
    let h = manifest_header(v, id, created_at, demand);
    let b = items.map_values(|x: Seq<char>| bullet(x));
    lemma_manifest_joined(v, id, created_at, demand, items);
    let all = h + b;
    assert forall|i: int| 0 <= i < all.len() implies no_newline(#[trigger] all[i]) by {
        if i >= 7 {
            let x = items[i - 7];
            assert(all[i] == bullet(x));
            assert forall|k: int| 0 <= k < all[i].len() implies all[i][k] != '\n' by {
                if k >= 2 {
                    assert(all[i][k] == x[k - 2]);
                }
            }
        } else if i == 0 {
            assert forall|k: int| 0 <= k < all[i].len() implies all[i][k] != '\n' by {
                if k >= 10 {
                    assert(all[i][k] == v[k - 10]);
                }
            }
        } else if i == 2 {
            assert forall|k: int| 0 <= k < all[i].len() implies all[i][k] != '\n' by {
                if k >= 6 {
                    assert(all[i][k] == id[k - 6]);
                }
            }
        } else if i == 3 {
            assert forall|k: int| 0 <= k < all[i].len() implies all[i][k] != '\n' by {
                if k >= 11 {
                    assert(all[i][k] == created_at[k - 11]);
                }
            }
        } else if i == 4 {
            assert forall|k: int| 0 <= k < all[i].len() implies all[i][k] != '\n' by {
                if k >= 10 {
                    assert(all[i][k] == demand[k - 10]);
                }
            }
        }
    }
    lemma_lines_of_joined(all);
    let hm = h.map_values(|l: Seq<char>| strip_cr(l));
    let bm = b.map_values(|l: Seq<char>| strip_cr(l));
    assert(all.map_values(|l: Seq<char>| strip_cr(l)) =~= hm + bm);
    assert forall|i: int| 0 <= i < bm.len() implies plain_line(#[trigger] bm[i]) by {
        lemma_bullet_plain(items[i]);
    }
    lemma_scan_skips_plain(hm, bm);
    lemma_header_scan(v, id, created_at, demand);
    let ls = lines_of(manifest_of(v, id, created_at, demand, items));
    lemma_field_line_kept("# Release "@, v);
    assert(ls[0] == "# Release "@ + v);
    assert(ls[0].subrange(0, 10) =~= "# Release "@);
    assert(ls[0].subrange(10, ls[0].len() as int) =~= v);
    assert("# Release "@.is_prefix_of(ls[0]));
}

/// Each release gets a version of its own: releases with different numbers
/// have different versions.
pub proof fn lemma_versions_distinct(n: nat, m: nat)
    requires
        n != m,
    ensures
        release_version_of(n) != release_version_of(m),
{
    reveal_strlit("0.1.");
    if release_version_of(n) == release_version_of(m) {
        assert(release_version_of(n).subrange(4, release_version_of(n).len() as int) =~= decimal(n));
        assert(release_version_of(m).subrange(4, release_version_of(m).len() as int) =~= decimal(m));
        lemma_decimal_injective(n, m);
    }
}

} // verus!
