//! Two-Towers persona-to-task routing.
//!
//! A deterministic matcher: a lexical scorer stands in for the persona/skill
//! embedding towers. Every candidate persona is scored against the demand,
//! ranked (score descending, then id ascending), and a documented fallback
//! applies when nothing clears the threshold.

use vstd::prelude::*;
use vstd::multiset::*;

use super::persona::{Persona, PersonaView};
use crate::text::{
    chars_of, decimal, fmt_u64, is_ascii_alnum, is_ascii_alnum_char, lemma_lex_lt_irreflexive, lemma_lex_lt_total,
    lemma_lex_lt_transitive, lex_lt, lowercase, lowercase_known, owned, str_eq, str_lt, string_from_chars,
    to_lowercase,
};

verus! {

/// Minimum lexical overlap for a confident match.
pub const MIN_SCORE: u32 = 1;

/// Weight of a hit on the persona id.
pub const WEIGHT_ID: u32 = 1;

/// Weight of a hit on the responsibility statement.
pub const WEIGHT_RESPONSIBILITY: u32 = 1;

/// Weight of a hit on an expertise keyword.
pub const WEIGHT_KEYWORDS: u32 = 2;

/// Weight of a hit on a skill tag.
pub const WEIGHT_SKILL_TAGS: u32 = 2;

/// The persona selected when nothing clears [`MIN_SCORE`].
pub const FALLBACK_PERSONA: &'static str = "Software Engineer";

/// The id of the fallback persona.
pub open spec fn fallback_id() -> Seq<char> {
    "Software Engineer"@
}

/// A scored persona candidate.
#[derive(Debug, PartialEq, Eq)]
pub struct PersonaMatch {
    /// The persona id.
    pub persona: String,
    /// The lexical overlap score.
    pub score: u32,
}

impl DeepView for PersonaMatch {
    type V = (Seq<char>, u32);

    open spec fn deep_view(&self) -> (Seq<char>, u32) {
        (self.persona@, self.score)
    }
}

impl Clone for PersonaMatch {
    fn clone(&self) -> (r: Self)
        ensures
            r.deep_view() == self.deep_view(),
    {
        PersonaMatch { persona: self.persona.clone(), score: self.score }
    }
}

/// A routing decision: the full ranking plus the selected personas.
#[derive(Debug, PartialEq, Eq)]
pub struct Routing {
    /// All candidates, ranked (score descending, id ascending).
    pub ranked: Vec<PersonaMatch>,
    /// The personas chosen to act (threshold winners, or the fallback).
    pub selected: Vec<String>,
    /// Whether the fallback was applied because nothing cleared the threshold.
    pub used_fallback: bool,
    /// Human-readable routing explanation.
    pub reason: String,
}

/// The pieces of `s` between separators, as `str::split` yields them, where
/// every character that is not an ASCII letter or digit separates.
pub open spec fn split_pieces(s: Seq<char>) -> Seq<Seq<char>>
    decreases s.len(),
{
    if s.len() == 0 {
        seq![Seq::empty()]
    } else {
        let p = split_pieces(s.drop_last());
        if !is_ascii_alnum(s.last()) {
            p.push(Seq::empty())
        } else {
            p.update(p.len() - 1, p.last().push(s.last()))
        }
    }
}

/// The words of `ws` longer than two characters, in order.
pub open spec fn long_words(ws: Seq<Seq<char>>) -> Seq<Seq<char>>
    decreases ws.len(),
{
    if ws.len() == 0 {
        Seq::empty()
    } else if ws.last().len() > 2 {
        long_words(ws.drop_last()).push(ws.last())
    } else {
        long_words(ws.drop_last())
    }
}

/// Lowercased alphanumeric tokens of length greater than two. A piece holds
/// only ASCII characters, so its length in characters is its length in bytes.
pub open spec fn tokens_of(text: Seq<char>) -> Seq<Seq<char>> {
    long_words(split_pieces(lowercase(text)))
}

/// The tokens of every item, concatenated in order.
pub open spec fn flat_tokens(items: Seq<Seq<char>>) -> Seq<Seq<char>>
    decreases items.len(),
{
    if items.len() == 0 {
        Seq::empty()
    } else {
        flat_tokens(items.drop_last()) + tokens_of(items.last())
    }
}

/// How many demand tokens (with repetition) appear in the haystack.
pub open spec fn hits(demand: Seq<Seq<char>>, haystack: Seq<Seq<char>>) -> nat
    decreases demand.len(),
{
    if demand.len() == 0 {
        0
    } else {
        hits(demand.drop_last(), haystack) + if haystack.contains(demand.last()) {
            1nat
        } else {
            0nat
        }
    }
}

/// `long_words` keeps exactly the words longer than two characters.
proof fn lemma_long_words_filter(ws: Seq<Seq<char>>)
    ensures
        long_words(ws) == ws.filter(|w: Seq<char>| w.len() > 2),
    decreases ws.len(),
{
    reveal(Seq::filter);
    if ws.len() > 0 {
        lemma_long_words_filter(ws.drop_last());
    }
}

/// Every piece of `s` consists of ASCII letters and digits only.
proof fn lemma_pieces_alnum(s: Seq<char>)
    ensures
        forall|i: int, j: int|
            0 <= i < split_pieces(s).len() && 0 <= j < split_pieces(s)[i].len() ==> is_ascii_alnum(
                #[trigger] split_pieces(s)[i][j],
            ),
    decreases s.len(),
{
    if s.len() > 0 {
        lemma_pieces_alnum(s.drop_last());
        lemma_split_pieces_nonempty(s.drop_last());
        let p = split_pieces(s.drop_last());
        if is_ascii_alnum(s.last()) {
            assert forall|i: int, j: int|
                0 <= i < split_pieces(s).len() && 0 <= j < split_pieces(s)[i].len() implies is_ascii_alnum(
                    #[trigger] split_pieces(s)[i][j],
                ) by {
                if i == p.len() - 1 {
                    if j < p.last().len() {
                        assert(split_pieces(s)[i][j] == p[i][j]);
                    }
                } else {
                    assert(split_pieces(s)[i] == p[i]);
                }
            }
        } else {
            assert forall|i: int, j: int|
                0 <= i < split_pieces(s).len() && 0 <= j < split_pieces(s)[i].len() implies is_ascii_alnum(
                    #[trigger] split_pieces(s)[i][j],
                ) by {
                if i < p.len() {
                    assert(split_pieces(s)[i] == p[i]);
                }
            }
        }
    }
}

/// The pieces `ps` put back together with the separators `seps` between
/// them.
pub open spec fn interleave(ps: Seq<Seq<char>>, seps: Seq<char>) -> Seq<char>
    decreases ps.len(),
{
    if ps.len() <= 1 {
        if ps.len() == 0 { Seq::empty() } else { ps[0] }
    } else {
        interleave(ps.drop_last(), seps.drop_last()) + seq![seps.last()] + ps.last()
    }
}

/// Splitting cuts at exactly the characters that are not ASCII letters or
/// digits: the pieces hold only letters and digits, there is one more piece
/// than separators, and putting the pieces back together with the
/// separators between them gives the text back.
pub proof fn lemma_split_pieces_rejoin(s: Seq<char>)
    ensures
        split_pieces(s).len() == s.filter(|c: char| !is_ascii_alnum(c)).len() + 1,
        interleave(split_pieces(s), s.filter(|c: char| !is_ascii_alnum(c))) == s,
        forall|i: int, j: int|
            0 <= i < split_pieces(s).len() && 0 <= j < split_pieces(s)[i].len() ==> is_ascii_alnum(
                #[trigger] split_pieces(s)[i][j],
            ),
    decreases s.len(),
{
    reveal(Seq::filter);
    lemma_pieces_alnum(s);
    let sep = |c: char| !is_ascii_alnum(c);
    if s.len() == 0 {
        assert(split_pieces(s)[0] =~= s);
    } else {
        let prev = s.drop_last();
        let c = s.last();
        lemma_split_pieces_rejoin(prev);
        let p = split_pieces(prev);
        let seps = prev.filter(sep);
        assert(s.filter(sep) == if sep(c) { seps.push(c) } else { seps });
        if sep(c) {
            let q = p.push(Seq::<char>::empty());
            assert(q.drop_last() =~= p);
            assert(seps.push(c).drop_last() =~= seps);
            assert(interleave(q, seps.push(c)) =~= prev + seq![c] + Seq::<char>::empty());
            assert(prev + seq![c] + Seq::<char>::empty() =~= s);
        } else {
            let q = p.update(p.len() - 1, p.last().push(c));
            if p.len() == 1 {
                assert(interleave(q, seps) == q[0]);
                assert(q[0] =~= s);
            } else {
                assert(q.drop_last() =~= p.drop_last());
                assert(interleave(q, seps) == interleave(p.drop_last(), seps.drop_last()) + seq![seps.last()] + p.last().push(c));
                assert(interleave(p, seps) == interleave(p.drop_last(), seps.drop_last()) + seq![seps.last()] + p.last());
                assert(interleave(q, seps) =~= interleave(p, seps).push(c));
                assert(prev.push(c) =~= s);
            }
        }
    }
}

/// The routing tokens of a text are exactly the pieces of its lowercased form
/// (split at every character that is not an ASCII letter or digit) that are
/// longer than two characters, in order: every such piece is a token, every
/// token is such a piece, and a token holds only ASCII letters and digits.
pub proof fn lemma_tokens_are_long_pieces(text: Seq<char>)
    ensures
        tokens_of(text) == split_pieces(lowercase(text)).filter(|w: Seq<char>| w.len() > 2),
        forall|w: Seq<char>|
            #![trigger tokens_of(text).contains(w)]
            tokens_of(text).contains(w) <==> (split_pieces(lowercase(text)).contains(w) && w.len() > 2),
        forall|i: int, j: int|
            0 <= i < tokens_of(text).len() && 0 <= j < tokens_of(text)[i].len() ==> is_ascii_alnum(
                #[trigger] tokens_of(text)[i][j],
            ),
{
    let ps = split_pieces(lowercase(text));
    let pred = |w: Seq<char>| w.len() > 2;
    lemma_long_words_filter(ps);
    assert forall|w: Seq<char>|
        #![trigger tokens_of(text).contains(w)]
        tokens_of(text).contains(w) <==> (ps.contains(w) && w.len() > 2) by {
        if tokens_of(text).contains(w) {
            let k = choose|k: int| 0 <= k < tokens_of(text).len() && tokens_of(text)[k] == w;
            ps.lemma_filter_contains_rev(pred, w);
            ps.lemma_filter_pred(pred, k);
        }
        if ps.contains(w) && w.len() > 2 {
            let k = choose|k: int| 0 <= k < ps.len() && ps[k] == w;
            ps.lemma_filter_contains(pred, k);
        }
    }
    lemma_pieces_alnum(lowercase(text));
    assert forall|i: int, j: int|
        0 <= i < tokens_of(text).len() && 0 <= j < tokens_of(text)[i].len() implies is_ascii_alnum(
            #[trigger] tokens_of(text)[i][j],
        ) by {
        let w = tokens_of(text)[i];
        assert(tokens_of(text).contains(w));
        ps.lemma_filter_contains_rev(pred, w);
        let k = choose|k: int| 0 <= k < ps.len() && ps[k] == w;
        assert(ps[k][j] == w[j]);
    }
}

/// Lowercasing is known for every text of `p` that routing tokenizes.
pub open spec fn persona_lowercase_known(p: PersonaView) -> bool {
    &&& lowercase_known(p.id)
    &&& lowercase_known(p.responsibility)
    &&& forall|k: int| 0 <= k < p.expertise_keywords.len() ==> lowercase_known(#[trigger] p.expertise_keywords[k])
    &&& forall|k: int| 0 <= k < p.skill_tags.len() ==> lowercase_known(#[trigger] p.skill_tags[k])
}

/// The weighted lexical overlap between the demand tokens and a persona.
pub open spec fn raw_score(demand: Seq<Seq<char>>, p: PersonaView) -> nat {
    hits(demand, tokens_of(p.id)) * 1 + hits(demand, tokens_of(p.responsibility)) * 1 + hits(
        demand,
        flat_tokens(p.expertise_keywords),
    ) * 2 + hits(demand, flat_tokens(p.skill_tags)) * 2
}

/// `n`, saturated at `u32::MAX`.
pub open spec fn capped(n: nat) -> u32 {
    if n > u32::MAX {
        u32::MAX
    } else {
        n as u32
    }
}

/// The scored candidates: every non-orchestrator persona, in input order.
pub open spec fn candidates(ps: Seq<PersonaView>, demand: Seq<Seq<char>>) -> Seq<(Seq<char>, u32)>
    decreases ps.len(),
{
    if ps.len() == 0 {
        Seq::empty()
    } else if ps.last().orchestrator {
        candidates(ps.drop_last(), demand)
    } else {
        candidates(ps.drop_last(), demand).push(
            (ps.last().id, capped(raw_score(demand, ps.last()))),
        )
    }
}

/// `a` ranks strictly before `b`: higher score, or equal score and smaller id.
pub open spec fn ranks_before(a: (Seq<char>, u32), b: (Seq<char>, u32)) -> bool {
    a.1 > b.1 || (a.1 == b.1 && lex_lt(a.0, b.0))
}

/// No element ranks strictly before an earlier one.
pub open spec fn is_ranked(s: Seq<(Seq<char>, u32)>) -> bool {
    forall|i: int, j: int| 0 <= i < j < s.len() ==> !ranks_before(#[trigger] s[j], #[trigger] s[i])
}

/// The ids of the ranked candidates that clear [`MIN_SCORE`], in rank order.
pub open spec fn winners(r: Seq<(Seq<char>, u32)>) -> Seq<Seq<char>>
    decreases r.len(),
{
    if r.len() == 0 {
        Seq::empty()
    } else if r.last().1 >= MIN_SCORE {
        winners(r.drop_last()).push(r.last().0)
    } else {
        winners(r.drop_last())
    }
}

/// Some ranked candidate has the fallback id.
pub open spec fn has_fallback(r: Seq<(Seq<char>, u32)>) -> bool {
    exists|i: int| 0 <= i < r.len() && #[trigger] r[i].0 == fallback_id()
}

/// The fallback selection: the fallback persona when ranked, else the top
/// candidate, else nothing.
pub open spec fn fallback_choice(r: Seq<(Seq<char>, u32)>) -> Seq<Seq<char>> {
    if has_fallback(r) {
        seq![fallback_id()]
    } else if r.len() > 0 {
        seq![r[0].0]
    } else {
        Seq::empty()
    }
}

/// `a - b`, or zero when `b > a`.
pub open spec fn saturating_sub(a: u32, b: u32) -> nat {
    if a >= b {
        (a - b) as nat
    } else {
        0
    }
}

/// The routing explanation.
pub open spec fn reason_text(r: Seq<(Seq<char>, u32)>, used_fallback: bool) -> Seq<char> {
    if used_fallback {
        "No persona cleared threshold ("@ + decimal(MIN_SCORE as nat) + "); fell back to "@
            + fallback_id()
    } else if r.len() >= 2 {
        "Selected '"@ + r[0].0 + "' (score "@ + decimal(r[0].1 as nat) + ") over '"@ + r[1].0
            + "' (score "@ + decimal(r[1].1 as nat) + "), margin "@ + decimal(
            saturating_sub(r[0].1, r[1].1),
        )
    } else {
        "Selected '"@ + r[0].0 + "' (score "@ + decimal(r[0].1 as nat) + ", sole candidate)"@
    }
}

proof fn lemma_split_pieces_nonempty(s: Seq<char>)
    ensures
        split_pieces(s).len() >= 1,
    decreases s.len(),
{
    if s.len() > 0 {
        lemma_split_pieces_nonempty(s.drop_last());
    }
}

/// Whether `v` holds a string equal to `t`.
fn contains_string(v: &Vec<String>, t: &String) -> (r: bool)
    ensures
        r == v.deep_view().contains(t@),
{
    let mut i: usize = 0;
    while i < v.len()
        invariant
            i <= v.len(),
            forall|j: int| 0 <= j < i ==> v.deep_view()[j] != t@,
        decreases v.len() - i,
    {
        if v[i] == *t {
            assert(v.deep_view()[i as int] == t@);
            return true;
        }
        i = i + 1;
    }
    false
}

/// The tokens of `text`.
fn tokens(text: &str) -> (r: Vec<String>)
    ensures
        r.deep_view() == tokens_of(text@),
        lowercase_known(text@),
{
    let lower = to_lowercase(text);
    let cs = chars_of(lower.as_str());
    let n = cs.len();
    let mut out: Vec<String> = Vec::new();
    let mut start: usize = 0;
    let mut i: usize = 0;
    proof {
        assert(cs@.subrange(0, 0) =~= Seq::<char>::empty());
        assert(split_pieces(Seq::<char>::empty()).last() =~= cs@.subrange(0, 0));
        assert(split_pieces(Seq::<char>::empty()).drop_last() =~= Seq::<Seq<char>>::empty());
    }
    while i < n
        invariant
            n == cs.len(),
            cs@ == lowercase(text@),
            start <= i <= n,
            split_pieces(cs@.subrange(0, i as int)).len() >= 1,
            out.deep_view() == long_words(split_pieces(cs@.subrange(0, i as int)).drop_last()),
            split_pieces(cs@.subrange(0, i as int)).last() == cs@.subrange(
                start as int,
                i as int,
            ),
        decreases n - i,
    {
        let c = cs[i];
        let ghost pre = cs@.subrange(0, i as int);
        let ghost post = cs@.subrange(0, i + 1);
        let ghost p = split_pieces(pre);
        proof {
            assert(post.drop_last() =~= pre);
            assert(post.last() == c);
            lemma_split_pieces_nonempty(pre);
        }
        if !is_ascii_alnum_char(c) {
            if i - start > 2 {
                let w = string_from_chars(&cs, start, i);
                out.push(w);
            }
            proof {
                assert(split_pieces(post) == p.push(Seq::empty()));
                assert(split_pieces(post).drop_last() =~= p);
                assert(p =~= p.drop_last().push(p.last()));
                assert(out.deep_view() =~= long_words(p));
                assert(cs@.subrange(i + 1, i + 1) =~= Seq::<char>::empty());
            }
            start = i + 1;
        } else {
            proof {
                let q = p.update(p.len() - 1, p.last().push(c));
                assert(split_pieces(post) == q);
                assert(q.drop_last() =~= p.drop_last());
                assert(q.last() =~= cs@.subrange(start as int, i + 1));
            }
        }
        i = i + 1;
    }
    proof {
        assert(cs@.subrange(0, n as int) =~= cs@);
        let p = split_pieces(cs@);
        assert(p =~= p.drop_last().push(p.last()));
    }
    if n - start > 2 {
        let w = string_from_chars(&cs, start, n);
        out.push(w);
    }
    proof {
        let p = split_pieces(cs@);
        assert(out.deep_view() =~= long_words(p));
    }
    out
}

/// How many of the demand tokens appear in `haystack`, saturated at `u32::MAX`.
fn count_hits(demand: &Vec<String>, haystack: &Vec<String>) -> (r: u64)
    ensures
        r == capped(hits(demand.deep_view(), haystack.deep_view())),
{
    let mut count: u64 = 0;
    let mut i: usize = 0;
    while i < demand.len()
        invariant
            i <= demand.len(),
            count == capped(hits(demand.deep_view().subrange(0, i as int), haystack.deep_view())),
        decreases demand.len() - i,
    {
        proof {
            let d = demand.deep_view().subrange(0, i + 1);
            assert(d.drop_last() =~= demand.deep_view().subrange(0, i as int));
            assert(d.last() == demand[i as int]@);
        }
        if contains_string(haystack, &demand[i]) && count < 0xFFFF_FFFF {
            count = count + 1;
        }
        i = i + 1;
    }
    proof {
        assert(demand.deep_view().subrange(0, demand.len() as int) =~= demand.deep_view());
    }
    count
}

/// The tokens of every string of `items`, concatenated.
fn all_tokens(items: &Vec<String>) -> (r: Vec<String>)
    ensures
        r.deep_view() == flat_tokens(items.deep_view()),
        forall|k: int| 0 <= k < items@.len() ==> lowercase_known(#[trigger] items@[k]@),
{
    let mut out: Vec<String> = Vec::new();
    let mut i: usize = 0;
    while i < items.len()
        invariant
            i <= items.len(),
            out.deep_view() == flat_tokens(items.deep_view().subrange(0, i as int)),
            forall|k: int| 0 <= k < i ==> lowercase_known(#[trigger] items@[k]@),
        decreases items.len() - i,
    {
        let mut t = tokens(items[i].as_str());
        let ghost before = out.deep_view();
        let ghost tv = t.deep_view();
        out.append(&mut t);
        proof {
            let d = items.deep_view().subrange(0, i + 1);
            assert(d.drop_last() =~= items.deep_view().subrange(0, i as int));
            assert(d.last() == items[i as int]@);
            assert(out.deep_view() =~= before + tv);
        }
        i = i + 1;
    }
    proof {
        assert(items.deep_view().subrange(0, items.len() as int) =~= items.deep_view());
    }
    out
}

/// The weighted score of a persona against the demand tokens.
fn score(demand_tokens: &Vec<String>, persona: &Persona) -> (r: u32)
    ensures
        r == capped(raw_score(demand_tokens.deep_view(), persona@)),
        persona_lowercase_known(persona@),
{
    let id_text = persona.id.to_string();
    let id_tokens = tokens(id_text.as_str());
    let resp_tokens = tokens(persona.responsibility.as_str());
    let kw_tokens = all_tokens(&persona.expertise_keywords);
    let tag_tokens = all_tokens(&persona.skill_tags);
    let id_hits = count_hits(demand_tokens, &id_tokens);
    let resp_hits = count_hits(demand_tokens, &resp_tokens);
    let kw_hits = count_hits(demand_tokens, &kw_tokens);
    let tag_hits = count_hits(demand_tokens, &tag_tokens);
    proof {
        let d = demand_tokens.deep_view();
        let a = hits(d, tokens_of(persona@.id));
        let b = hits(d, tokens_of(persona@.responsibility));
        let c = hits(d, flat_tokens(persona@.expertise_keywords));
        let e = hits(d, flat_tokens(persona@.skill_tags));
        assert(id_hits == capped(a) && resp_hits == capped(b));
        assert(kw_hits == capped(c) && tag_hits == capped(e));
        assert(raw_score(d, persona@) == a + b + c * 2 + e * 2);
    }
    let total: u64 = id_hits + resp_hits + kw_hits * 2 + tag_hits * 2;
    if total > 0xFFFF_FFFF {
        0xFFFF_FFFF
    } else {
        total as u32
    }
}

/// `a` ranks strictly before `b`.
fn before(a: &PersonaMatch, b: &PersonaMatch) -> (r: bool)
    ensures
        r == ranks_before(a.deep_view(), b.deep_view()),
{
    a.score > b.score || (a.score == b.score && str_lt(a.persona.as_str(), b.persona.as_str()))
}

proof fn lemma_ranks_before_irreflexive(a: (Seq<char>, u32))
    ensures
        !ranks_before(a, a),
{
    lemma_lex_lt_irreflexive(a.0);
}

proof fn lemma_ranks_before_transitive(a: (Seq<char>, u32), b: (Seq<char>, u32), c: (Seq<char>, u32))
    requires
        ranks_before(a, b),
        ranks_before(b, c),
    ensures
        ranks_before(a, c),
{
    if a.1 == b.1 && b.1 == c.1 {
        lemma_lex_lt_transitive(a.0, b.0, c.0);
    }
}

/// Inserting at the first position whose element `x` ranks before keeps a
/// ranked sequence ranked.
proof fn lemma_insert_keeps_ranked(r: Seq<(Seq<char>, u32)>, p: int, x: (Seq<char>, u32))
    requires
        is_ranked(r),
        0 <= p <= r.len(),
        forall|k: int| 0 <= k < p ==> !ranks_before(x, #[trigger] r[k]),
        p < r.len() ==> ranks_before(x, r[p]),
    ensures
        is_ranked(r.insert(p, x)),
{
    let t = r.insert(p, x);
    assert forall|i: int, j: int| 0 <= i < j < t.len() implies !ranks_before(
        #[trigger] t[j],
        #[trigger] t[i],
    ) by {
        if j < p {
            assert(t[i] == r[i] && t[j] == r[j]);
        } else if i > p {
            assert(t[i] == r[i - 1] && t[j] == r[j - 1]);
        } else if i < p && j == p {
            assert(t[i] == r[i] && t[j] == x);
        } else if i < p && j > p {
            assert(t[i] == r[i] && t[j] == r[j - 1]);
        } else {
            assert(i == p && j > p);
            assert(t[i] == x && t[j] == r[j - 1]);
            if ranks_before(r[j - 1], x) {
                lemma_ranks_before_transitive(r[j - 1], x, r[p]);
                if j - 1 == p {
                    lemma_ranks_before_irreflexive(r[p]);
                }
            }
        }
    }
}

/// The multiset of a sequence after an insertion gains exactly the inserted value.
pub proof fn lemma_insert_multiset<A>(r: Seq<A>, p: int, x: A)
    requires
        0 <= p <= r.len(),
    ensures
        r.insert(p, x).to_multiset() =~= r.to_multiset().insert(x),
{
    broadcast use vstd::seq_lib::group_to_multiset_ensures;
    broadcast use vstd::multiset::group_multiset_axioms;
    let t = r.insert(p, x);
    assert(t.remove(p) =~= r);
    assert(t[p] == x);
    assert(t.contains(x));
    assert(t.to_multiset().count(x) > 0);
    assert(r.to_multiset() =~= t.to_multiset().remove(x));
}

/// The scored, ranked candidates.
fn rank(demand_tokens: &Vec<String>, personas: &[Persona]) -> (r: Vec<PersonaMatch>)
    ensures
        forall|k: int| 0 <= k < personas@.len() && !personas@[k].orchestrator ==> persona_lowercase_known(
            #[trigger] personas@[k]@,
        ),
        is_ranked(r.deep_view()),
        r.deep_view().to_multiset() == candidates(personas.deep_view(), demand_tokens.deep_view()).to_multiset(),
{
    let mut ranked: Vec<PersonaMatch> = Vec::new();
    let mut i: usize = 0;
    proof {
        broadcast use vstd::seq_lib::group_to_multiset_ensures;
        assert(personas.deep_view().subrange(0, 0) =~= Seq::<PersonaView>::empty());
        assert(ranked.deep_view() =~= Seq::<(Seq<char>, u32)>::empty());
    }
    while i < personas.len()
        invariant
            i <= personas.len(),
            forall|k: int| 0 <= k < i && !personas@[k].orchestrator ==> persona_lowercase_known(
                #[trigger] personas@[k]@,
            ),
            is_ranked(ranked.deep_view()),
            ranked.deep_view().to_multiset() == candidates(
                personas.deep_view().subrange(0, i as int),
                demand_tokens.deep_view(),
            ).to_multiset(),
        decreases personas.len() - i,
    {
        let ghost ps = personas.deep_view().subrange(0, i + 1);
        proof {
            assert(ps.drop_last() =~= personas.deep_view().subrange(0, i as int));
            assert(ps.last() == personas[i as int]@);
        }
        let p = &personas[i];
        proof {
            broadcast use vstd::seq_lib::group_to_multiset_ensures;
        }
        if !p.orchestrator {
            let m = PersonaMatch { persona: p.id.to_string(), score: score(demand_tokens, p) };
            let mut pos: usize = 0;
            while pos < ranked.len() && !before(&m, &ranked[pos])
                invariant
                    pos <= ranked.len(),
                    forall|k: int| 0 <= k < pos ==> !ranks_before(m.deep_view(), #[trigger] ranked.deep_view()[k]),
                decreases ranked.len() - pos,
            {
                pos = pos + 1;
            }
            let ghost old_view = ranked.deep_view();
            proof {
                lemma_insert_keeps_ranked(old_view, pos as int, m.deep_view());
                lemma_insert_multiset(old_view, pos as int, m.deep_view());
            }
            ranked.insert(pos, m);
            proof {
                broadcast use vstd::seq_lib::group_to_multiset_ensures;
                assert(ranked.deep_view() =~= old_view.insert(pos as int, m.deep_view()));
                let c0 = candidates(personas.deep_view().subrange(0, i as int), demand_tokens.deep_view());
                assert(candidates(ps, demand_tokens.deep_view()) == c0.push(m.deep_view()));
            }
        }
        i = i + 1;
    }
    proof {
        assert(personas.deep_view().subrange(0, personas.len() as int) =~= personas.deep_view());
    }
    ranked
}

/// Whether some ranked candidate is the fallback persona.
fn find_fallback(ranked: &Vec<PersonaMatch>) -> (r: bool)
    ensures
        r == has_fallback(ranked.deep_view()),
{
    let mut j: usize = 0;
    while j < ranked.len()
        invariant
            j <= ranked.len(),
            forall|k: int| 0 <= k < j ==> #[trigger] ranked.deep_view()[k].0 != fallback_id(),
        decreases ranked.len() - j,
    {
        if str_eq(ranked[j].persona.as_str(), FALLBACK_PERSONA) {
            assert(ranked.deep_view()[j as int].0 == fallback_id());
            return true;
        }
        j = j + 1;
    }
    false
}

/// Route a demand to personas. Excludes the orchestrator; deterministic ranking.
pub fn route(demand: &str, personas: &[Persona]) -> (r: Routing)
    ensures
        lowercase_known(demand@),
        forall|k: int| 0 <= k < personas@.len() && !personas@[k].orchestrator ==> persona_lowercase_known(
            #[trigger] personas@[k]@,
        ),
        ({
            let ranked = r.ranked.deep_view();
            &&& is_ranked(ranked)
            &&& ranked.to_multiset() == candidates(personas.deep_view(), tokens_of(demand@)).to_multiset()
            &&& r.used_fallback == (winners(ranked).len() == 0)
            &&& r.selected.deep_view() == if r.used_fallback {
                fallback_choice(ranked)
            } else {
                winners(ranked)
            }
            &&& r.reason@ == reason_text(ranked, r.used_fallback)
        }),
{
    let demand_tokens = tokens(demand);
    let ranked = rank(&demand_tokens, personas);

    let mut winners_v: Vec<String> = Vec::new();
    let mut i: usize = 0;
    while i < ranked.len()
        invariant
            i <= ranked.len(),
            winners_v.deep_view() == winners(ranked.deep_view().subrange(0, i as int)),
        decreases ranked.len() - i,
    {
        proof {
            let d = ranked.deep_view().subrange(0, i + 1);
            assert(d.drop_last() =~= ranked.deep_view().subrange(0, i as int));
            assert(d.last() == ranked[i as int].deep_view());
        }
        if ranked[i].score >= MIN_SCORE {
            winners_v.push(ranked[i].persona.clone());
        }
        i = i + 1;
    }
    proof {
        assert(ranked.deep_view().subrange(0, ranked.len() as int) =~= ranked.deep_view());
    }

    let used_fallback = winners_v.len() == 0;
    let selected = if used_fallback {
        let found = find_fallback(&ranked);
        let mut sel: Vec<String> = Vec::new();
        if found {
            sel.push(owned(FALLBACK_PERSONA));
            assert(sel.deep_view() =~= fallback_choice(ranked.deep_view()));
        } else {
            if ranked.len() > 0 {
                sel.push(ranked[0].persona.clone());
            }
            assert(sel.deep_view() =~= fallback_choice(ranked.deep_view()));
        }
        sel
    } else {
        winners_v
    };

    let reason = if used_fallback {
        let mut s = owned("No persona cleared threshold (");
        s.append(fmt_u64(MIN_SCORE as u64).as_str());
        s.append("); fell back to ");
        s.append(FALLBACK_PERSONA);
        s
    } else {
        proof {
            if ranked.len() == 0 {
                assert(winners(ranked.deep_view()) =~= Seq::<Seq<char>>::empty());
            }
        }
        let top = &ranked[0];
        if ranked.len() >= 2 {
            let ru = &ranked[1];
            let margin: u32 = if top.score >= ru.score {
                top.score - ru.score
            } else {
                0
            };
            let mut s = owned("Selected '");
            s.append(top.persona.as_str());
            s.append("' (score ");
            s.append(fmt_u64(top.score as u64).as_str());
            s.append(") over '");
            s.append(ru.persona.as_str());
            s.append("' (score ");
            s.append(fmt_u64(ru.score as u64).as_str());
            s.append("), margin ");
            s.append(fmt_u64(margin as u64).as_str());
            s
        } else {
            let mut s = owned("Selected '");
            s.append(top.persona.as_str());
            s.append("' (score ");
            s.append(fmt_u64(top.score as u64).as_str());
            s.append(", sole candidate)");
            s
        }
    };

    Routing { ranked, selected, used_fallback, reason }
}

/// Ranking is unique: two ranked orderings of the same candidates are the
/// same sequence, so routing a demand always yields the same ranking.
pub proof fn lemma_ranked_unique(a: Seq<(Seq<char>, u32)>, b: Seq<(Seq<char>, u32)>)
    requires
        is_ranked(a),
        is_ranked(b),
        a.to_multiset() == b.to_multiset(),
    ensures
        a == b,
    decreases a.len(),
{
    a.to_multiset_ensures();
    b.to_multiset_ensures();
    if a.len() > 0 {
        let x = a[0];
        let y = b[0];
        assert(b.contains(y));
        assert(b.to_multiset().count(y) > 0);
        assert(a.to_multiset().count(y) > 0);
        assert(a.contains(y));
        assert(a.contains(x));
        assert(a.to_multiset().count(x) > 0);
        assert(b.to_multiset().count(x) > 0);
        assert(b.contains(x));
        let k = choose|k: int| 0 <= k < a.len() && a[k] == y;
        let l = choose|l: int| 0 <= l < b.len() && b[l] == x;
        if k > 0 {
            assert(!ranks_before(a[k], a[0]));
        }
        if l > 0 {
            assert(!ranks_before(b[l], b[0]));
        }
        if x != y {
            if x.1 == y.1 {
                lemma_lex_lt_total(x.0, y.0);
                assert(x.0 != y.0);
            }
        }
        assert(x == y);
        let a1 = a.remove(0);
        let b1 = b.remove(0);
        assert(a1.to_multiset() =~= b1.to_multiset());
        assert forall|i: int, j: int| 0 <= i < j < a1.len() implies !ranks_before(#[trigger] a1[j], #[trigger] a1[i]) by {
            assert(a1[i] == a[i + 1] && a1[j] == a[j + 1]);
        }
        assert forall|i: int, j: int| 0 <= i < j < b1.len() implies !ranks_before(#[trigger] b1[j], #[trigger] b1[i]) by {
            assert(b1[i] == b[i + 1] && b1[j] == b[j + 1]);
        }
        lemma_ranked_unique(a1, b1);
        assert(a =~= b) by {
            assert forall|i: int| 0 <= i < a.len() implies a[i] == b[i] by {
                if i > 0 {
                    assert(a[i] == a1[i - 1]);
                    assert(b[i] == b1[i - 1]);
                }
            }
        }
    } else {
        assert(a =~= b);
    }
}

} // verus!
