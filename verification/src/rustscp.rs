//! `.rustscp` project context: the compact persisted summary of a project's
//! analysis.
//!
//! The context is persisted as a single canonical JSON document; this module
//! renders and parses that document with a proved round trip, synthesizes a
//! context from an analysis result, and renders the context as Markdown.

use vstd::prelude::*;

verus! {

use crate::jsontext::{
    enc_bool,
    enc_string,
    join_map,
    sp_bool,
    sp_expect,
    sp_int,
    sp_number,
    sp_string,
    lemma_bool_inv,
    lemma_expect_inv,
    lemma_int_inv,
    lemma_join_head,
    lemma_number_inv,
    lemma_string_inv,
    encode_string_into,
    expect_lit,
    parse_bool,
    parse_i64,
    parse_string,
    parse_u64,
};
use crate::strutil::{dec_rep, int_rep};

/// Lightweight dependency reference carried by a persisted context.
#[derive(Debug)]
pub struct DepSummary {
    pub name: String,
    pub version: String,
    pub dev: bool,
}

impl View for DepSummary {
    type V = (Seq<char>, Seq<char>, bool);

    open spec fn view(&self) -> (Seq<char>, Seq<char>, bool) {
        (self.name@, self.version@, self.dev)
    }
}

impl DeepView for DepSummary {
    type V = (Seq<char>, Seq<char>, bool);

    open spec fn deep_view(&self) -> (Seq<char>, Seq<char>, bool) {
        self.view()
    }
}

/// One entry of the extension histogram: an extension and its file count.
#[derive(Debug)]
pub struct ExtCount {
    pub extension: String,
    pub count: usize,
}

impl View for ExtCount {
    type V = (Seq<char>, int);

    open spec fn view(&self) -> (Seq<char>, int) {
        (self.extension@, self.count as int)
    }
}

impl DeepView for ExtCount {
    type V = (Seq<char>, int);

    open spec fn deep_view(&self) -> (Seq<char>, int) {
        self.view()
    }
}

/// File count statistics: a total and a histogram keyed by extension.
#[derive(Debug)]
pub struct FileStats {
    pub total_files: usize,
    /// Breakdown by extension, in first-seen order; extensions are unique.
    pub by_extension: Vec<ExtCount>,
}

/// Reference to a matched pattern (identity and score, never the code body).
#[derive(Debug)]
pub struct PatternRef {
    pub id: String,
    pub title: String,
    pub category: String,
    /// Relevance in hundredths: 0 stands for 0.00, 100 for 1.00
    pub score: u32,
}

impl View for PatternRef {
    type V = (Seq<char>, Seq<char>, Seq<char>, int);

    open spec fn view(&self) -> (Seq<char>, Seq<char>, Seq<char>, int) {
        (self.id@, self.title@, self.category@, self.score as int)
    }
}

impl DeepView for PatternRef {
    type V = (Seq<char>, Seq<char>, Seq<char>, int);

    open spec fn deep_view(&self) -> (Seq<char>, Seq<char>, Seq<char>, int) {
        self.view()
    }
}

/// Persistent project context saved to `.rustscp`.
#[derive(Debug)]
pub struct ProjectContext {
    /// Schema version for forward compatibility
    pub version: u8,
    /// Project name
    pub name: String,
    /// Detected project type (dotnet, rust, node, etc.)
    pub project_type: String,
    /// Target framework / edition / runtime version
    pub framework: Option<String>,
    /// Dependencies (production and dev, tagged)
    pub dependencies: Vec<DepSummary>,
    /// File statistics
    pub stats: FileStats,
    /// Detected patterns from the training store that match this project
    pub matched_patterns: Vec<PatternRef>,
    /// When the context was first created (Unix seconds)
    pub created_at: i64,
    /// When the context was last updated (Unix seconds)
    pub updated_at: i64,
}

/// The mathematical value of a [`ProjectContext`]: every field as a plain
/// sequence or integer.
#[verifier::ext_equal]
pub struct CtxV {
    pub version: int,
    pub name: Seq<char>,
    pub project_type: Seq<char>,
    pub framework: Option<Seq<char>>,
    pub dependencies: Seq<(Seq<char>, Seq<char>, bool)>,
    pub total_files: int,
    pub by_extension: Seq<(Seq<char>, int)>,
    pub matched_patterns: Seq<(Seq<char>, Seq<char>, Seq<char>, int)>,
    pub created_at: int,
    pub updated_at: int,
}

impl View for ProjectContext {
    type V = CtxV;

    open spec fn view(&self) -> CtxV {
        CtxV {
            version: self.version as int,
            name: self.name@,
            project_type: self.project_type@,
            framework: self.framework.deep_view(),
            dependencies: self.dependencies.deep_view(),
            total_files: self.stats.total_files as int,
            by_extension: self.stats.by_extension.deep_view(),
            matched_patterns: self.matched_patterns.deep_view(),
            created_at: self.created_at as int,
            updated_at: self.updated_at as int,
        }
    }
}

// ============================================================================
// Rendering the context document
// ============================================================================

/// The document form of one dependency.
#[verifier::opaque]
pub open spec fn enc_dep(d: (Seq<char>, Seq<char>, bool)) -> Seq<char> {
    "{\"name\":"@ + enc_string(d.0) + ",\"version\":"@ + enc_string(d.1) + ",\"dev\":"@ + enc_bool(
        d.2,
    ) + "}"@
}

/// The dependency renderer, as a value for `join_map`.
pub open spec fn dep_enc_fn() -> spec_fn((Seq<char>, Seq<char>, bool)) -> Seq<char> {
    |d: (Seq<char>, Seq<char>, bool)| enc_dep(d)
}

/// The document form of one extension histogram entry.
#[verifier::opaque]
pub open spec fn enc_ext(e: (Seq<char>, int)) -> Seq<char> {
    "{\"ext\":"@ + enc_string(e.0) + ",\"count\":"@ + dec_rep(e.1 as nat) + "}"@
}

/// The histogram entry renderer, as a value for `join_map`.
pub open spec fn ext_enc_fn() -> spec_fn((Seq<char>, int)) -> Seq<char> {
    |e: (Seq<char>, int)| enc_ext(e)
}

/// The document form of one pattern reference.
#[verifier::opaque]
pub open spec fn enc_pat(p: (Seq<char>, Seq<char>, Seq<char>, int)) -> Seq<char> {
    "{\"id\":"@ + enc_string(p.0) + ",\"title\":"@ + enc_string(p.1) + ",\"category\":"@
        + enc_string(p.2) + ",\"score\":"@ + dec_rep(p.3 as nat) + "}"@
}

/// The pattern reference renderer, as a value for `join_map`.
pub open spec fn pat_enc_fn() -> spec_fn((Seq<char>, Seq<char>, Seq<char>, int)) -> Seq<char> {
    |p: (Seq<char>, Seq<char>, Seq<char>, int)| enc_pat(p)
}

/// The document form of the optional framework label.
pub open spec fn enc_opt_string(o: Option<Seq<char>>) -> Seq<char> {
    match o {
        None => "null"@,
        Some(s) => enc_string(s),
    }
}

/// The version and name fields at the head of the document.
#[verifier::opaque]
pub open spec fn ctx_w_head(c: CtxV) -> Seq<char> {
    "{\"version\":"@ + dec_rep(c.version as nat) + ",\"name\":"@ + enc_string(c.name)
}

/// The project type and framework fields.
#[verifier::opaque]
pub open spec fn ctx_w_kind(c: CtxV) -> Seq<char> {
    ",\"project_type\":"@ + enc_string(c.project_type) + ",\"framework\":"@ + enc_opt_string(
        c.framework,
    )
}

/// The dependency list field.
#[verifier::opaque]
pub open spec fn ctx_w_deps(c: CtxV) -> Seq<char> {
    ",\"dependencies\":["@ + join_map(c.dependencies, dep_enc_fn()) + "]"@
}

/// The statistics fields, up to the bracket closing the histogram.
#[verifier::opaque]
pub open spec fn ctx_w_stats(c: CtxV) -> Seq<char> {
    ",\"stats\":{\"total_files\":"@ + dec_rep(c.total_files as nat) + ",\"by_extension\":["@
        + join_map(c.by_extension, ext_enc_fn()) + "]"@
}

/// The matched pattern list field, from the brace closing the statistics.
#[verifier::opaque]
pub open spec fn ctx_w_pats(c: CtxV) -> Seq<char> {
    "},\"matched_patterns\":["@ + join_map(c.matched_patterns, pat_enc_fn()) + "]"@
}

/// Both timestamps and the closing brace of the document.
#[verifier::opaque]
pub open spec fn ctx_w_times(c: CtxV) -> Seq<char> {
    ",\"created_at\":"@ + int_rep(c.created_at) + ",\"updated_at\":"@ + int_rep(c.updated_at)
        + "}"@
}

/// The canonical context document.
pub open spec fn enc_ctx(c: CtxV) -> Seq<char> {
    ctx_w_head(c) + ctx_w_kind(c) + ctx_w_deps(c) + ctx_w_stats(c) + ctx_w_pats(c) + ctx_w_times(c)
}

/// Appends the document form of one dependency to `out`.
fn encode_dep_into(out: &mut String, d: &DepSummary)
    ensures
        final(out)@ == old(out)@ + enc_dep(d@),
{
    out.append("{\"name\":");
    encode_string_into(out, d.name.as_str());
    out.append(",\"version\":");
    encode_string_into(out, d.version.as_str());
    out.append(",\"dev\":");
    if d.dev {
        out.append("true");
    } else {
        out.append("false");
    }
    out.append("}");
    proof {
        reveal(enc_dep);
        assert(out@ =~= old(out)@ + enc_dep(d@));
    }
}

/// Appends the document form of one histogram entry to `out`.
fn encode_ext_into(out: &mut String, e: &ExtCount)
    ensures
        final(out)@ == old(out)@ + enc_ext(e@),
{
    out.append("{\"ext\":");
    encode_string_into(out, e.extension.as_str());
    out.append(",\"count\":");
    let n = crate::strutil::usize_to_string(e.count);
    out.append(n.as_str());
    out.append("}");
    proof {
        reveal(enc_ext);
        assert(out@ =~= old(out)@ + enc_ext(e@));
    }
}

/// Appends the document form of one pattern reference to `out`.
fn encode_pat_into(out: &mut String, p: &PatternRef)
    ensures
        final(out)@ == old(out)@ + enc_pat(p@),
{
    out.append("{\"id\":");
    encode_string_into(out, p.id.as_str());
    out.append(",\"title\":");
    encode_string_into(out, p.title.as_str());
    out.append(",\"category\":");
    encode_string_into(out, p.category.as_str());
    out.append(",\"score\":");
    let n = crate::strutil::u64_to_string(p.score as u64);
    out.append(n.as_str());
    out.append("}");
    proof {
        reveal(enc_pat);
        assert(out@ =~= old(out)@ + enc_pat(p@));
    }
}

/// Appends a comma-joined list of dependencies.
fn encode_deps_into(out: &mut String, items: &Vec<DepSummary>)
    ensures
        final(out)@ == old(out)@ + join_map(items.deep_view(), dep_enc_fn()),
{
    let ghost s = items.deep_view();
    let mut i: usize = 0;
    while i < items.len()
        invariant
            i <= items.len(),
            s == items.deep_view(),
            s.len() == items.len(),
            out@ =~= old(out)@ + join_map(s.take(i as int), dep_enc_fn()),
        decreases items.len() - i,
    {
        if i > 0 {
            out.append(",");
        }
        encode_dep_into(out, &items[i]);
        proof {
            reveal_strlit(",");
            assert(","@ =~= seq![',']);
            let f = dep_enc_fn();
            assert(f(s[i as int]) == enc_dep(items[i as int]@));
            assert(s.take(i as int + 1).drop_last() =~= s.take(i as int));
            assert(s.take(i as int + 1).last() == s[i as int]);
            if i == 0 {
                assert(join_map(s.take(1int), f) == f(s[0]));
            }
            assert(out@ =~= old(out)@ + join_map(s.take(i as int + 1), f));
        }
        i = i + 1;
    }
    proof {
        assert(s.take(items.len() as int) =~= s);
    }
}

/// Appends a comma-joined list of histogram entries.
fn encode_exts_into(out: &mut String, items: &Vec<ExtCount>)
    ensures
        final(out)@ == old(out)@ + join_map(items.deep_view(), ext_enc_fn()),
{
    let ghost s = items.deep_view();
    let mut i: usize = 0;
    while i < items.len()
        invariant
            i <= items.len(),
            s == items.deep_view(),
            s.len() == items.len(),
            out@ =~= old(out)@ + join_map(s.take(i as int), ext_enc_fn()),
        decreases items.len() - i,
    {
        if i > 0 {
            out.append(",");
        }
        encode_ext_into(out, &items[i]);
        proof {
            reveal_strlit(",");
            assert(","@ =~= seq![',']);
            let f = ext_enc_fn();
            assert(f(s[i as int]) == enc_ext(items[i as int]@));
            assert(s.take(i as int + 1).drop_last() =~= s.take(i as int));
            assert(s.take(i as int + 1).last() == s[i as int]);
            if i == 0 {
                assert(join_map(s.take(1int), f) == f(s[0]));
            }
            assert(out@ =~= old(out)@ + join_map(s.take(i as int + 1), f));
        }
        i = i + 1;
    }
    proof {
        assert(s.take(items.len() as int) =~= s);
    }
}

/// Appends a comma-joined list of pattern references.
fn encode_pats_into(out: &mut String, items: &Vec<PatternRef>)
    ensures
        final(out)@ == old(out)@ + join_map(items.deep_view(), pat_enc_fn()),
{
    let ghost s = items.deep_view();
    let mut i: usize = 0;
    while i < items.len()
        invariant
            i <= items.len(),
            s == items.deep_view(),
            s.len() == items.len(),
            out@ =~= old(out)@ + join_map(s.take(i as int), pat_enc_fn()),
        decreases items.len() - i,
    {
        if i > 0 {
            out.append(",");
        }
        encode_pat_into(out, &items[i]);
        proof {
            reveal_strlit(",");
            assert(","@ =~= seq![',']);
            let f = pat_enc_fn();
            assert(f(s[i as int]) == enc_pat(items[i as int]@));
            assert(s.take(i as int + 1).drop_last() =~= s.take(i as int));
            assert(s.take(i as int + 1).last() == s[i as int]);
            if i == 0 {
                assert(join_map(s.take(1int), f) == f(s[0]));
            }
            assert(out@ =~= old(out)@ + join_map(s.take(i as int + 1), f));
        }
        i = i + 1;
    }
    proof {
        assert(s.take(items.len() as int) =~= s);
    }
}

impl ProjectContext {
    /// Renders the context as its canonical JSON document.
    #[verifier::spinoff_prover]
    #[verifier::rlimit(100)]
    pub fn to_json(&self) -> (r: String)
        ensures
            r@ == enc_ctx(self@),
    {
        let mut out = String::new();
        out.append("{\"version\":");
        let v = crate::strutil::u64_to_string(self.version as u64);
        out.append(v.as_str());
        out.append(",\"name\":");
        encode_string_into(&mut out, self.name.as_str());
        out.append(",\"project_type\":");
        encode_string_into(&mut out, self.project_type.as_str());
        out.append(",\"framework\":");
        match &self.framework {
            None => out.append("null"),
            Some(fw) => encode_string_into(&mut out, fw.as_str()),
        }
        out.append(",\"dependencies\":[");
        encode_deps_into(&mut out, &self.dependencies);
        out.append("]");
        out.append(",\"stats\":{\"total_files\":");
        let tf = crate::strutil::usize_to_string(self.stats.total_files);
        out.append(tf.as_str());
        out.append(",\"by_extension\":[");
        encode_exts_into(&mut out, &self.stats.by_extension);
        out.append("]");
        out.append("},\"matched_patterns\":[");
        encode_pats_into(&mut out, &self.matched_patterns);
        out.append("]");
        out.append(",\"created_at\":");
        let ca = crate::strutil::i64_to_string(self.created_at);
        out.append(ca.as_str());
        out.append(",\"updated_at\":");
        let ua = crate::strutil::i64_to_string(self.updated_at);
        out.append(ua.as_str());
        out.append("}");
        proof {
            reveal(ctx_w_head);
            reveal(ctx_w_kind);
            reveal(ctx_w_deps);
            reveal(ctx_w_stats);
            reveal(ctx_w_pats);
            reveal(ctx_w_times);
            assert(out@ =~= enc_ctx(self@));
        }
        out
    }
}

// ============================================================================
// Parsing the context document
// ============================================================================

/// Parses the optional framework label: `null` or a string literal.
pub open spec fn sp_opt_string(t: Seq<char>, i: int) -> Option<(Option<Seq<char>>, int)> {
    match sp_expect(t, i, "null"@) {
        Some(j) => Some((None, j)),
        None => match sp_string(t, i) {
            Some((s, j)) => Some((Some(s), j)),
            None => None,
        },
    }
}

/// Reading back an optional framework label.
pub proof fn lemma_opt_string_inv(pre: Seq<char>, o: Option<Seq<char>>, rest: Seq<char>)
    ensures
        sp_opt_string(pre + enc_opt_string(o) + rest, pre.len() as int) == Some(
            (o, pre.len() + enc_opt_string(o).len() as int),
        ),
{
    reveal_strlit("null");
    let t = pre + enc_opt_string(o) + rest;
    let i = pre.len() as int;
    match o {
        None => {
            lemma_expect_inv(pre, "null"@, rest);
        },
        Some(s) => {
            assert(t[i] == '"');
            if sp_expect(t, i, "null"@) is Some {
                assert(t.subrange(i, i + 4)[0] == 'n');
                assert(false);
            }
            lemma_string_inv(pre, s, rest);
        },
    }
}

/// Parses the dev flag and closing brace of a dependency.
pub open spec fn sp_dep_dev(t: Seq<char>, i: int) -> Option<(bool, int)> {
    match sp_expect(t, i, ",\"dev\":"@) {
        Some(j1) => match sp_bool(t, j1) {
            Some((b, j2)) => match sp_expect(t, j2, "}"@) {
                Some(j3) => Some((b, j3)),
                None => None,
            },
            None => None,
        },
        None => None,
    }
}

/// Reading back the dev flag and closing brace.
pub proof fn lemma_dep_dev_inv(pre: Seq<char>, b: bool, rest: Seq<char>)
    ensures
        sp_dep_dev(pre + ",\"dev\":"@ + enc_bool(b) + "}"@ + rest, pre.len() as int) == Some(
            (b, pre.len() + ",\"dev\":"@.len() + enc_bool(b).len() + "}"@.len() as int),
        ),
{
    let t = pre + ",\"dev\":"@ + enc_bool(b) + "}"@ + rest;
    let r1 = enc_bool(b) + ("}"@ + rest);
    assert(t =~= pre + ",\"dev\":"@ + r1);
    lemma_expect_inv(pre, ",\"dev\":"@, r1);
    let p1 = pre + ",\"dev\":"@;
    let r2 = "}"@ + rest;
    assert(t =~= p1 + enc_bool(b) + r2);
    lemma_bool_inv(p1, b, r2);
    let p2 = p1 + enc_bool(b);
    assert(t =~= p2 + "}"@ + rest);
    lemma_expect_inv(p2, "}"@, rest);
}

/// Parses the version field onward of a dependency.
pub open spec fn sp_dep_rest(t: Seq<char>, i: int) -> Option<((Seq<char>, bool), int)> {
    match sp_expect(t, i, ",\"version\":"@) {
        Some(j1) => match sp_string(t, j1) {
            Some((v, j2)) => match sp_dep_dev(t, j2) {
                Some((b, j3)) => Some(((v, b), j3)),
                None => None,
            },
            None => None,
        },
        None => None,
    }
}

/// Reading back the version field onward.
pub proof fn lemma_dep_rest_inv(pre: Seq<char>, v: Seq<char>, b: bool, rest: Seq<char>)
    ensures
        sp_dep_rest(
            pre + ",\"version\":"@ + enc_string(v) + ",\"dev\":"@ + enc_bool(b) + "}"@ + rest,
            pre.len() as int,
        ) == Some(
            (
                (v, b),
                pre.len() + ",\"version\":"@.len() + enc_string(v).len() + ",\"dev\":"@.len()
                    + enc_bool(b).len() + "}"@.len() as int,
            ),
        ),
{
    let t = pre + ",\"version\":"@ + enc_string(v) + ",\"dev\":"@ + enc_bool(b) + "}"@ + rest;
    let r1 = enc_string(v) + (",\"dev\":"@ + enc_bool(b) + "}"@ + rest);
    assert(t =~= pre + ",\"version\":"@ + r1);
    lemma_expect_inv(pre, ",\"version\":"@, r1);
    let p1 = pre + ",\"version\":"@;
    let r2 = ",\"dev\":"@ + enc_bool(b) + "}"@ + rest;
    assert(t =~= p1 + enc_string(v) + r2);
    lemma_string_inv(p1, v, r2);
    let p2 = p1 + enc_string(v);
    assert(t =~= p2 + ",\"dev\":"@ + enc_bool(b) + "}"@ + rest);
    lemma_dep_dev_inv(p2, b, rest);
}

/// Parses one dependency object.
pub open spec fn sp_dep(t: Seq<char>, i: int) -> Option<((Seq<char>, Seq<char>, bool), int)> {
    match sp_expect(t, i, "{\"name\":"@) {
        Some(j1) => match sp_string(t, j1) {
            Some((n, j2)) => match sp_dep_rest(t, j2) {
                Some(((v, b), j3)) => Some(((n, v, b), j3)),
                None => None,
            },
            None => None,
        },
        None => None,
    }
}

/// Reading back one dependency object.
#[verifier::spinoff_prover]
#[verifier::rlimit(100)]
pub proof fn lemma_dep_inv(pre: Seq<char>, d: (Seq<char>, Seq<char>, bool), rest: Seq<char>)
    ensures
        sp_dep(pre + enc_dep(d) + rest, pre.len() as int) == Some(
            (d, pre.len() + enc_dep(d).len() as int),
        ),
        enc_dep(d).len() >= 1,
{
    reveal(enc_dep);
    reveal_strlit("{\"name\":");
    let t = pre + enc_dep(d) + rest;
    let r1 = enc_string(d.0) + (",\"version\":"@ + enc_string(d.1) + ",\"dev\":"@ + enc_bool(d.2)
        + "}"@ + rest);
    assert(t =~= pre + "{\"name\":"@ + r1);
    lemma_expect_inv(pre, "{\"name\":"@, r1);
    let p1 = pre + "{\"name\":"@;
    let r2 = ",\"version\":"@ + enc_string(d.1) + ",\"dev\":"@ + enc_bool(d.2) + "}"@ + rest;
    assert(t =~= p1 + enc_string(d.0) + r2);
    lemma_string_inv(p1, d.0, r2);
    let p2 = p1 + enc_string(d.0);
    assert(t =~= p2 + ",\"version\":"@ + enc_string(d.1) + ",\"dev\":"@ + enc_bool(d.2) + "}"@
        + rest);
    lemma_dep_rest_inv(p2, d.1, d.2, rest);
    assert(pre.len() + enc_dep(d).len() == p2.len() + ",\"version\":"@.len() + enc_string(
        d.1,
    ).len() + ",\"dev\":"@.len() + enc_bool(d.2).len() + "}"@.len());
}

/// Parses one extension histogram entry.
pub open spec fn sp_ext(t: Seq<char>, i: int) -> Option<((Seq<char>, int), int)> {
    match sp_expect(t, i, "{\"ext\":"@) {
        Some(j1) => match sp_string(t, j1) {
            Some((e, j2)) => match sp_expect(t, j2, ",\"count\":"@) {
                Some(j3) => match sp_number(t, j3) {
                    Some((n, j4)) => if n <= usize::MAX as nat {
                        match sp_expect(t, j4, "}"@) {
                            Some(j5) => Some(((e, n as int), j5)),
                            None => None,
                        }
                    } else {
                        None
                    },
                    None => None,
                },
                None => None,
            },
            None => None,
        },
        None => None,
    }
}

/// Reading back one extension histogram entry.
#[verifier::spinoff_prover]
#[verifier::rlimit(100)]
pub proof fn lemma_ext_inv(pre: Seq<char>, e: (Seq<char>, int), rest: Seq<char>)
    requires
        0 <= e.1 <= usize::MAX,
    ensures
        sp_ext(pre + enc_ext(e) + rest, pre.len() as int) == Some(
            (e, pre.len() + enc_ext(e).len() as int),
        ),
        enc_ext(e).len() >= 1,
{
    reveal(enc_ext);
    reveal_strlit("{\"ext\":");
    reveal_strlit(",\"count\":");
    reveal_strlit("}");
    let t = pre + enc_ext(e) + rest;
    let p1 = pre + "{\"ext\":"@;
    let r1 = ",\"count\":"@ + dec_rep(e.1 as nat) + "}"@ + rest;
    assert(t =~= pre + "{\"ext\":"@ + (enc_string(e.0) + r1));
    lemma_expect_inv(pre, "{\"ext\":"@, enc_string(e.0) + r1);
    assert(t =~= p1 + enc_string(e.0) + r1);
    lemma_string_inv(p1, e.0, r1);
    let p2 = p1 + enc_string(e.0);
    let r2 = dec_rep(e.1 as nat) + ("}"@ + rest);
    assert(t =~= p2 + ",\"count\":"@ + r2);
    lemma_expect_inv(p2, ",\"count\":"@, r2);
    let p3 = p2 + ",\"count\":"@;
    let r3 = "}"@ + rest;
    assert(t =~= p3 + dec_rep(e.1 as nat) + r3);
    assert(r3[0] == '}');
    assert(!crate::jsontext::is_digit('}'));
    lemma_number_inv(p3, e.1 as nat, r3);
    let p4 = p3 + dec_rep(e.1 as nat);
    assert(t =~= p4 + "}"@ + rest);
    lemma_expect_inv(p4, "}"@, rest);
    assert(pre.len() + enc_ext(e).len() == p4.len() + "}"@.len());
}

/// Parses the title and category fields of a pattern reference.
pub open spec fn sp_pat_mid(t: Seq<char>, i: int) -> Option<((Seq<char>, Seq<char>), int)> {
    match sp_expect(t, i, ",\"title\":"@) {
        Some(j1) => match sp_string(t, j1) {
            Some((ti, j2)) => match sp_expect(t, j2, ",\"category\":"@) {
                Some(j3) => match sp_string(t, j3) {
                    Some((ca, j4)) => Some(((ti, ca), j4)),
                    None => None,
                },
                None => None,
            },
            None => None,
        },
        None => None,
    }
}

/// Reading back the title and category fields.
pub proof fn lemma_pat_mid_inv(pre: Seq<char>, ti: Seq<char>, ca: Seq<char>, rest: Seq<char>)
    ensures
        sp_pat_mid(
            pre + ",\"title\":"@ + enc_string(ti) + ",\"category\":"@ + enc_string(ca) + rest,
            pre.len() as int,
        ) == Some(
            (
                (ti, ca),
                pre.len() + ",\"title\":"@.len() + enc_string(ti).len() + ",\"category\":"@.len()
                    + enc_string(ca).len() as int,
            ),
        ),
{
    let t = pre + ",\"title\":"@ + enc_string(ti) + ",\"category\":"@ + enc_string(ca) + rest;
    let r1 = enc_string(ti) + (",\"category\":"@ + enc_string(ca) + rest);
    assert(t =~= pre + ",\"title\":"@ + r1);
    lemma_expect_inv(pre, ",\"title\":"@, r1);
    let p1 = pre + ",\"title\":"@;
    let r2 = ",\"category\":"@ + enc_string(ca) + rest;
    assert(t =~= p1 + enc_string(ti) + r2);
    lemma_string_inv(p1, ti, r2);
    let p2 = p1 + enc_string(ti);
    let r3 = enc_string(ca) + rest;
    assert(t =~= p2 + ",\"category\":"@ + r3);
    lemma_expect_inv(p2, ",\"category\":"@, r3);
    let p3 = p2 + ",\"category\":"@;
    assert(t =~= p3 + enc_string(ca) + rest);
    lemma_string_inv(p3, ca, rest);
}

/// Parses the score field and closing brace of a pattern reference.
pub open spec fn sp_pat_score(t: Seq<char>, i: int) -> Option<(int, int)> {
    match sp_expect(t, i, ",\"score\":"@) {
        Some(j1) => match sp_number(t, j1) {
            Some((n, j2)) => if n <= u32::MAX as nat {
                match sp_expect(t, j2, "}"@) {
                    Some(j3) => Some((n as int, j3)),
                    None => None,
                }
            } else {
                None
            },
            None => None,
        },
        None => None,
    }
}

/// Reading back the score field and closing brace.
pub proof fn lemma_pat_score_inv(pre: Seq<char>, n: int, rest: Seq<char>)
    requires
        0 <= n <= u32::MAX,
    ensures
        sp_pat_score(pre + ",\"score\":"@ + dec_rep(n as nat) + "}"@ + rest, pre.len() as int)
            == Some(
            (n, pre.len() + ",\"score\":"@.len() + dec_rep(n as nat).len() + "}"@.len() as int),
        ),
{
    reveal_strlit("}");
    let t = pre + ",\"score\":"@ + dec_rep(n as nat) + "}"@ + rest;
    let r1 = dec_rep(n as nat) + ("}"@ + rest);
    assert(t =~= pre + ",\"score\":"@ + r1);
    lemma_expect_inv(pre, ",\"score\":"@, r1);
    let p1 = pre + ",\"score\":"@;
    let r2 = "}"@ + rest;
    assert(t =~= p1 + dec_rep(n as nat) + r2);
    assert(r2[0] == '}');
    assert(!crate::jsontext::is_digit('}'));
    lemma_number_inv(p1, n as nat, r2);
    let p2 = p1 + dec_rep(n as nat);
    assert(t =~= p2 + "}"@ + rest);
    lemma_expect_inv(p2, "}"@, rest);
}

/// Parses one pattern reference object.
pub open spec fn sp_pat(t: Seq<char>, i: int) -> Option<(
    (Seq<char>, Seq<char>, Seq<char>, int),
    int,
)> {
    match sp_expect(t, i, "{\"id\":"@) {
        Some(j1) => match sp_string(t, j1) {
            Some((id, j2)) => match sp_pat_mid(t, j2) {
                Some(((ti, ca), j3)) => match sp_pat_score(t, j3) {
                    Some((n, j4)) => Some(((id, ti, ca, n), j4)),
                    None => None,
                },
                None => None,
            },
            None => None,
        },
        None => None,
    }
}

/// Reading back one pattern reference object.
#[verifier::spinoff_prover]
#[verifier::rlimit(100)]
pub proof fn lemma_pat_inv(
    pre: Seq<char>,
    pa: (Seq<char>, Seq<char>, Seq<char>, int),
    rest: Seq<char>,
)
    requires
        0 <= pa.3 <= u32::MAX,
    ensures
        sp_pat(pre + enc_pat(pa) + rest, pre.len() as int) == Some(
            (pa, pre.len() + enc_pat(pa).len() as int),
        ),
        enc_pat(pa).len() >= 1,
{
    reveal(enc_pat);
    reveal_strlit("{\"id\":");
    let t = pre + enc_pat(pa) + rest;
    let r1 = enc_string(pa.0) + (",\"title\":"@ + enc_string(pa.1) + ",\"category\":"@
        + enc_string(pa.2) + ",\"score\":"@ + dec_rep(pa.3 as nat) + "}"@ + rest);
    assert(t =~= pre + "{\"id\":"@ + r1);
    lemma_expect_inv(pre, "{\"id\":"@, r1);
    let p1 = pre + "{\"id\":"@;
    let r2 = ",\"title\":"@ + enc_string(pa.1) + ",\"category\":"@ + enc_string(pa.2)
        + ",\"score\":"@ + dec_rep(pa.3 as nat) + "}"@ + rest;
    assert(t =~= p1 + enc_string(pa.0) + r2);
    lemma_string_inv(p1, pa.0, r2);
    let p2 = p1 + enc_string(pa.0);
    let r3 = ",\"score\":"@ + dec_rep(pa.3 as nat) + "}"@ + rest;
    assert(t =~= p2 + ",\"title\":"@ + enc_string(pa.1) + ",\"category\":"@ + enc_string(pa.2)
        + r3);
    lemma_pat_mid_inv(p2, pa.1, pa.2, r3);
    let p3 = p2 + ",\"title\":"@ + enc_string(pa.1) + ",\"category\":"@ + enc_string(pa.2);
    assert(t =~= p3 + ",\"score\":"@ + dec_rep(pa.3 as nat) + "}"@ + rest);
    lemma_pat_score_inv(p3, pa.3, rest);
    assert(pre.len() + enc_pat(pa).len() == p3.len() + ",\"score\":"@.len() + dec_rep(
        pa.3 as nat,
    ).len() + "}"@.len());
}

// ============================================================================
// Parsing lists
// ============================================================================

/// Parses one or more dependencies, comma-separated, through the closing
/// bracket.
pub open spec fn sp_dep_items(t: Seq<char>, i: int) -> Option<(
    Seq<(Seq<char>, Seq<char>, bool)>,
    int,
)>
    decreases t.len() - i,
{
    match sp_dep(t, i) {
        Some((d, j)) => if i < j && j < t.len() {
            if t[j] == ',' {
                match sp_dep_items(t, j + 1) {
                    Some((ds, k)) => Some((seq![d] + ds, k)),
                    None => None,
                }
            } else if t[j] == ']' {
                Some((seq![d], j + 1))
            } else {
                None
            }
        } else {
            None
        },
        None => None,
    }
}

/// Parses a dependency list after its opening bracket: empty, or items.
pub open spec fn sp_dep_tail(t: Seq<char>, i: int) -> Option<(
    Seq<(Seq<char>, Seq<char>, bool)>,
    int,
)> {
    match sp_expect(t, i, "]"@) {
        Some(j) => Some((Seq::empty(), j)),
        None => sp_dep_items(t, i),
    }
}

/// Reading back one or more rendered dependencies.
#[verifier::spinoff_prover]
#[verifier::rlimit(100)]
pub proof fn lemma_dep_items_inv(
    pre: Seq<char>,
    items: Seq<(Seq<char>, Seq<char>, bool)>,
    rest: Seq<char>,
)
    requires
        items.len() >= 1,
    ensures
        sp_dep_items(pre + join_map(items, dep_enc_fn()) + seq![']'] + rest, pre.len() as int)
            == Some((items, pre.len() + join_map(items, dep_enc_fn()).len() + 1 as int)),
    decreases items.len(),
{
    let f = dep_enc_fn();
    let jm = join_map(items, f);
    let d0 = items[0];
    let t = pre + jm + seq![']'] + rest;
    lemma_join_head(items, f);
    assert(f(d0) == enc_dep(d0));
    if items.len() == 1 {
        assert(jm == enc_dep(d0));
        let r1 = seq![']'] + rest;
        assert(t =~= pre + enc_dep(d0) + r1);
        lemma_dep_inv(pre, d0, r1);
        let j = pre.len() + enc_dep(d0).len() as int;
        assert(t[j] == ']');
        assert(seq![d0] =~= items);
    } else {
        let tail = items.skip(1);
        let jm2 = join_map(tail, f);
        assert(jm == enc_dep(d0) + seq![','] + jm2);
        let r1 = seq![','] + jm2 + seq![']'] + rest;
        assert(t =~= pre + enc_dep(d0) + r1);
        lemma_dep_inv(pre, d0, r1);
        let j = pre.len() + enc_dep(d0).len() as int;
        assert(t[j] == ',');
        let pre2 = pre + enc_dep(d0) + seq![','];
        assert(t =~= pre2 + jm2 + seq![']'] + rest);
        lemma_dep_items_inv(pre2, tail, rest);
        assert(seq![d0] + tail =~= items);
    }
}

/// Reading back a rendered dependency list.
#[verifier::spinoff_prover]
#[verifier::rlimit(100)]
pub proof fn lemma_dep_tail_inv(
    pre: Seq<char>,
    items: Seq<(Seq<char>, Seq<char>, bool)>,
    rest: Seq<char>,
)
    ensures
        sp_dep_tail(pre + join_map(items, dep_enc_fn()) + seq![']'] + rest, pre.len() as int)
            == Some((items, pre.len() + join_map(items, dep_enc_fn()).len() + 1 as int)),
{
    reveal_strlit("]");
    reveal_strlit("{\"name\":");
    let f = dep_enc_fn();
    let jm = join_map(items, f);
    let t = pre + jm + seq![']'] + rest;
    let i = pre.len() as int;
    if items.len() == 0 {
        assert(jm.len() == 0);
        assert(t =~= pre + "]"@ + rest);
        lemma_expect_inv(pre, "]"@, rest);
    } else {
        lemma_join_head(items, f);
        assert(f(items[0]) == enc_dep(items[0]));
        assert(enc_dep(items[0])[0] == '{' && enc_dep(items[0]).len() >= 1) by {
            reveal(enc_dep);
            reveal_strlit("{\"name\":");
        }
        assert(jm[0] == enc_dep(items[0])[0]);
        assert(t[i] == '{');
        if sp_expect(t, i, "]"@) is Some {
            assert(t.subrange(i, i + 1)[0] == ']');
            assert(false);
        }
        lemma_dep_items_inv(pre, items, rest);
    }
}

/// Parses one or more histogram entries, comma-separated, through the
/// closing bracket.
pub open spec fn sp_ext_items(t: Seq<char>, i: int) -> Option<(Seq<(Seq<char>, int)>, int)>
    decreases t.len() - i,
{
    match sp_ext(t, i) {
        Some((e, j)) => if i < j && j < t.len() {
            if t[j] == ',' {
                match sp_ext_items(t, j + 1) {
                    Some((es, k)) => Some((seq![e] + es, k)),
                    None => None,
                }
            } else if t[j] == ']' {
                Some((seq![e], j + 1))
            } else {
                None
            }
        } else {
            None
        },
        None => None,
    }
}

/// Parses a histogram list after its opening bracket: empty, or items.
pub open spec fn sp_ext_tail(t: Seq<char>, i: int) -> Option<(Seq<(Seq<char>, int)>, int)> {
    match sp_expect(t, i, "]"@) {
        Some(j) => Some((Seq::empty(), j)),
        None => sp_ext_items(t, i),
    }
}

/// Reading back one or more rendered histogram entries.
#[verifier::spinoff_prover]
#[verifier::rlimit(100)]
pub proof fn lemma_ext_items_inv(pre: Seq<char>, items: Seq<(Seq<char>, int)>, rest: Seq<char>)
    requires
        items.len() >= 1,
        forall|k: int| 0 <= k < items.len() ==> 0 <= (#[trigger] items[k]).1 <= usize::MAX,
    ensures
        sp_ext_items(pre + join_map(items, ext_enc_fn()) + seq![']'] + rest, pre.len() as int)
            == Some((items, pre.len() + join_map(items, ext_enc_fn()).len() + 1 as int)),
    decreases items.len(),
{
    let f = ext_enc_fn();
    let jm = join_map(items, f);
    let e0 = items[0];
    let t = pre + jm + seq![']'] + rest;
    lemma_join_head(items, f);
    assert(f(e0) == enc_ext(e0));
    if items.len() == 1 {
        assert(jm == enc_ext(e0));
        let r1 = seq![']'] + rest;
        assert(t =~= pre + enc_ext(e0) + r1);
        lemma_ext_inv(pre, e0, r1);
        let j = pre.len() + enc_ext(e0).len() as int;
        assert(t[j] == ']');
        assert(seq![e0] =~= items);
    } else {
        let tail = items.skip(1);
        let jm2 = join_map(tail, f);
        assert(jm == enc_ext(e0) + seq![','] + jm2);
        let r1 = seq![','] + jm2 + seq![']'] + rest;
        assert(t =~= pre + enc_ext(e0) + r1);
        lemma_ext_inv(pre, e0, r1);
        let j = pre.len() + enc_ext(e0).len() as int;
        assert(t[j] == ',');
        let pre2 = pre + enc_ext(e0) + seq![','];
        assert(t =~= pre2 + jm2 + seq![']'] + rest);
        lemma_ext_items_inv(pre2, tail, rest);
        assert(seq![e0] + tail =~= items);
    }
}

/// Reading back a rendered histogram list.
#[verifier::spinoff_prover]
#[verifier::rlimit(100)]
pub proof fn lemma_ext_tail_inv(pre: Seq<char>, items: Seq<(Seq<char>, int)>, rest: Seq<char>)
    requires
        forall|k: int| 0 <= k < items.len() ==> 0 <= (#[trigger] items[k]).1 <= usize::MAX,
    ensures
        sp_ext_tail(pre + join_map(items, ext_enc_fn()) + seq![']'] + rest, pre.len() as int)
            == Some((items, pre.len() + join_map(items, ext_enc_fn()).len() + 1 as int)),
{
    reveal_strlit("]");
    reveal_strlit("{\"ext\":");
    let f = ext_enc_fn();
    let jm = join_map(items, f);
    let t = pre + jm + seq![']'] + rest;
    let i = pre.len() as int;
    if items.len() == 0 {
        assert(jm.len() == 0);
        assert(t =~= pre + "]"@ + rest);
        lemma_expect_inv(pre, "]"@, rest);
    } else {
        lemma_join_head(items, f);
        assert(f(items[0]) == enc_ext(items[0]));
        assert(enc_ext(items[0])[0] == '{' && enc_ext(items[0]).len() >= 1) by {
            reveal(enc_ext);
            reveal_strlit("{\"ext\":");
        }
        assert(jm[0] == enc_ext(items[0])[0]);
        assert(t[i] == '{');
        if sp_expect(t, i, "]"@) is Some {
            assert(t.subrange(i, i + 1)[0] == ']');
            assert(false);
        }
        lemma_ext_items_inv(pre, items, rest);
    }
}

/// Parses one or more pattern references, comma-separated, through the
/// closing bracket.
pub open spec fn sp_pat_items(t: Seq<char>, i: int) -> Option<(
    Seq<(Seq<char>, Seq<char>, Seq<char>, int)>,
    int,
)>
    decreases t.len() - i,
{
    match sp_pat(t, i) {
        Some((pa, j)) => if i < j && j < t.len() {
            if t[j] == ',' {
                match sp_pat_items(t, j + 1) {
                    Some((ps, k)) => Some((seq![pa] + ps, k)),
                    None => None,
                }
            } else if t[j] == ']' {
                Some((seq![pa], j + 1))
            } else {
                None
            }
        } else {
            None
        },
        None => None,
    }
}

/// Parses a pattern list after its opening bracket: empty, or items.
pub open spec fn sp_pat_tail(t: Seq<char>, i: int) -> Option<(
    Seq<(Seq<char>, Seq<char>, Seq<char>, int)>,
    int,
)> {
    match sp_expect(t, i, "]"@) {
        Some(j) => Some((Seq::empty(), j)),
        None => sp_pat_items(t, i),
    }
}

/// Reading back one or more rendered pattern references.
#[verifier::spinoff_prover]
#[verifier::rlimit(100)]
pub proof fn lemma_pat_items_inv(
    pre: Seq<char>,
    items: Seq<(Seq<char>, Seq<char>, Seq<char>, int)>,
    rest: Seq<char>,
)
    requires
        items.len() >= 1,
        forall|k: int| 0 <= k < items.len() ==> 0 <= (#[trigger] items[k]).3 <= u32::MAX,
    ensures
        sp_pat_items(pre + join_map(items, pat_enc_fn()) + seq![']'] + rest, pre.len() as int)
            == Some((items, pre.len() + join_map(items, pat_enc_fn()).len() + 1 as int)),
    decreases items.len(),
{
    let f = pat_enc_fn();
    let jm = join_map(items, f);
    let p0 = items[0];
    let t = pre + jm + seq![']'] + rest;
    lemma_join_head(items, f);
    assert(f(p0) == enc_pat(p0));
    if items.len() == 1 {
        assert(jm == enc_pat(p0));
        let r1 = seq![']'] + rest;
        assert(t =~= pre + enc_pat(p0) + r1);
        lemma_pat_inv(pre, p0, r1);
        let j = pre.len() + enc_pat(p0).len() as int;
        assert(t[j] == ']');
        assert(seq![p0] =~= items);
    } else {
        let tail = items.skip(1);
        let jm2 = join_map(tail, f);
        assert(jm == enc_pat(p0) + seq![','] + jm2);
        let r1 = seq![','] + jm2 + seq![']'] + rest;
        assert(t =~= pre + enc_pat(p0) + r1);
        lemma_pat_inv(pre, p0, r1);
        let j = pre.len() + enc_pat(p0).len() as int;
        assert(t[j] == ',');
        let pre2 = pre + enc_pat(p0) + seq![','];
        assert(t =~= pre2 + jm2 + seq![']'] + rest);
        lemma_pat_items_inv(pre2, tail, rest);
        assert(seq![p0] + tail =~= items);
    }
}

/// Reading back a rendered pattern list.
#[verifier::spinoff_prover]
#[verifier::rlimit(100)]
pub proof fn lemma_pat_tail_inv(
    pre: Seq<char>,
    items: Seq<(Seq<char>, Seq<char>, Seq<char>, int)>,
    rest: Seq<char>,
)
    requires
        forall|k: int| 0 <= k < items.len() ==> 0 <= (#[trigger] items[k]).3 <= u32::MAX,
    ensures
        sp_pat_tail(pre + join_map(items, pat_enc_fn()) + seq![']'] + rest, pre.len() as int)
            == Some((items, pre.len() + join_map(items, pat_enc_fn()).len() + 1 as int)),
{
    reveal_strlit("]");
    reveal_strlit("{\"id\":");
    let f = pat_enc_fn();
    let jm = join_map(items, f);
    let t = pre + jm + seq![']'] + rest;
    let i = pre.len() as int;
    if items.len() == 0 {
        assert(jm.len() == 0);
        assert(t =~= pre + "]"@ + rest);
        lemma_expect_inv(pre, "]"@, rest);
    } else {
        lemma_join_head(items, f);
        assert(f(items[0]) == enc_pat(items[0]));
        assert(enc_pat(items[0])[0] == '{' && enc_pat(items[0]).len() >= 1) by {
            reveal(enc_pat);
            reveal_strlit("{\"id\":");
        }
        assert(jm[0] == enc_pat(items[0])[0]);
        assert(t[i] == '{');
        if sp_expect(t, i, "]"@) is Some {
            assert(t.subrange(i, i + 1)[0] == ']');
            assert(false);
        }
        lemma_pat_items_inv(pre, items, rest);
    }
}

// ============================================================================
// Parsing the whole document
// ============================================================================

/// Parses the version and name fields at the head of the document.
pub open spec fn sp_ctx_head(t: Seq<char>, i: int) -> Option<((int, Seq<char>), int)> {
    match sp_expect(t, i, "{\"version\":"@) {
        Some(j1) => match sp_number(t, j1) {
            Some((n, j2)) => if n <= u8::MAX as nat {
                match sp_expect(t, j2, ",\"name\":"@) {
                    Some(j3) => match sp_string(t, j3) {
                        Some((name, j4)) => Some(((n as int, name), j4)),
                        None => None,
                    },
                    None => None,
                }
            } else {
                None
            },
            None => None,
        },
        None => None,
    }
}

/// Reading back the document head.
#[verifier::spinoff_prover]
pub proof fn lemma_ctx_head_inv(pre: Seq<char>, v: int, name: Seq<char>, rest: Seq<char>)
    requires
        0 <= v <= u8::MAX,
    ensures
        sp_ctx_head(
            pre + "{\"version\":"@ + dec_rep(v as nat) + ",\"name\":"@ + enc_string(name) + rest,
            pre.len() as int,
        ) == Some(
            (
                (v, name),
                pre.len() + "{\"version\":"@.len() + dec_rep(v as nat).len() + ",\"name\":"@.len()
                    + enc_string(name).len() as int,
            ),
        ),
{
    let t = pre + "{\"version\":"@ + dec_rep(v as nat) + ",\"name\":"@ + enc_string(name) + rest;
    let r1 = dec_rep(v as nat) + (",\"name\":"@ + enc_string(name) + rest);
    assert(t =~= pre + "{\"version\":"@ + r1);
    lemma_expect_inv(pre, "{\"version\":"@, r1);
    let p1 = pre + "{\"version\":"@;
    let r2 = ",\"name\":"@ + enc_string(name) + rest;
    assert(t =~= p1 + dec_rep(v as nat) + r2);
    assert(r2[0] == ',') by {
        reveal_strlit(",\"name\":");
    }
    assert(!crate::jsontext::is_digit(','));
    lemma_number_inv(p1, v as nat, r2);
    let p2 = p1 + dec_rep(v as nat);
    let r3 = enc_string(name) + rest;
    assert(t =~= p2 + ",\"name\":"@ + r3);
    lemma_expect_inv(p2, ",\"name\":"@, r3);
    let p3 = p2 + ",\"name\":"@;
    assert(t =~= p3 + enc_string(name) + rest);
    lemma_string_inv(p3, name, rest);
}

/// Parses the project type and framework fields.
pub open spec fn sp_ctx_kind(t: Seq<char>, i: int) -> Option<(
    (Seq<char>, Option<Seq<char>>),
    int,
)> {
    match sp_expect(t, i, ",\"project_type\":"@) {
        Some(j1) => match sp_string(t, j1) {
            Some((pt, j2)) => match sp_expect(t, j2, ",\"framework\":"@) {
                Some(j3) => match sp_opt_string(t, j3) {
                    Some((fw, j4)) => Some(((pt, fw), j4)),
                    None => None,
                },
                None => None,
            },
            None => None,
        },
        None => None,
    }
}

/// Reading back the project type and framework fields.
#[verifier::spinoff_prover]
pub proof fn lemma_ctx_kind_inv(
    pre: Seq<char>,
    pt: Seq<char>,
    fw: Option<Seq<char>>,
    rest: Seq<char>,
)
    ensures
        sp_ctx_kind(
            pre + ",\"project_type\":"@ + enc_string(pt) + ",\"framework\":"@ + enc_opt_string(fw)
                + rest,
            pre.len() as int,
        ) == Some(
            (
                (pt, fw),
                pre.len() + ",\"project_type\":"@.len() + enc_string(pt).len()
                    + ",\"framework\":"@.len() + enc_opt_string(fw).len() as int,
            ),
        ),
{
    let t = pre + ",\"project_type\":"@ + enc_string(pt) + ",\"framework\":"@ + enc_opt_string(fw)
        + rest;
    let r1 = enc_string(pt) + (",\"framework\":"@ + enc_opt_string(fw) + rest);
    assert(t =~= pre + ",\"project_type\":"@ + r1);
    lemma_expect_inv(pre, ",\"project_type\":"@, r1);
    let p1 = pre + ",\"project_type\":"@;
    let r2 = ",\"framework\":"@ + enc_opt_string(fw) + rest;
    assert(t =~= p1 + enc_string(pt) + r2);
    lemma_string_inv(p1, pt, r2);
    let p2 = p1 + enc_string(pt);
    let r3 = enc_opt_string(fw) + rest;
    assert(t =~= p2 + ",\"framework\":"@ + r3);
    lemma_expect_inv(p2, ",\"framework\":"@, r3);
    let p3 = p2 + ",\"framework\":"@;
    assert(t =~= p3 + enc_opt_string(fw) + rest);
    lemma_opt_string_inv(p3, fw, rest);
}

/// Parses the dependency list field.
pub open spec fn sp_ctx_deps(t: Seq<char>, i: int) -> Option<(
    Seq<(Seq<char>, Seq<char>, bool)>,
    int,
)> {
    match sp_expect(t, i, ",\"dependencies\":["@) {
        Some(j1) => sp_dep_tail(t, j1),
        None => None,
    }
}

/// Reading back the dependency list field.
#[verifier::spinoff_prover]
pub proof fn lemma_ctx_deps_inv(
    pre: Seq<char>,
    items: Seq<(Seq<char>, Seq<char>, bool)>,
    rest: Seq<char>,
)
    ensures
        sp_ctx_deps(
            pre + ",\"dependencies\":["@ + join_map(items, dep_enc_fn()) + "]"@ + rest,
            pre.len() as int,
        ) == Some(
            (
                items,
                pre.len() + ",\"dependencies\":["@.len() + join_map(items, dep_enc_fn()).len()
                    + "]"@.len() as int,
            ),
        ),
{
    reveal_strlit("]");
    let jm = join_map(items, dep_enc_fn());
    let t = pre + ",\"dependencies\":["@ + jm + "]"@ + rest;
    let r1 = jm + ("]"@ + rest);
    assert(t =~= pre + ",\"dependencies\":["@ + r1);
    lemma_expect_inv(pre, ",\"dependencies\":["@, r1);
    let p1 = pre + ",\"dependencies\":["@;
    assert("]"@ =~= seq![']']);
    assert(t =~= p1 + jm + seq![']'] + rest);
    lemma_dep_tail_inv(p1, items, rest);
}

/// Parses the statistics fields: total file count and extension histogram.
pub open spec fn sp_ctx_stats(t: Seq<char>, i: int) -> Option<((int, Seq<(Seq<char>, int)>), int)> {
    match sp_expect(t, i, ",\"stats\":{\"total_files\":"@) {
        Some(j1) => match sp_number(t, j1) {
            Some((n, j2)) => if n <= usize::MAX as nat {
                match sp_expect(t, j2, ",\"by_extension\":["@) {
                    Some(j3) => match sp_ext_tail(t, j3) {
                        Some((es, j4)) => Some(((n as int, es), j4)),
                        None => None,
                    },
                    None => None,
                }
            } else {
                None
            },
            None => None,
        },
        None => None,
    }
}

/// Reading back the statistics fields.
#[verifier::spinoff_prover]
#[verifier::rlimit(100)]
pub proof fn lemma_ctx_stats_inv(
    pre: Seq<char>,
    total: int,
    items: Seq<(Seq<char>, int)>,
    rest: Seq<char>,
)
    requires
        0 <= total <= usize::MAX,
        forall|k: int| 0 <= k < items.len() ==> 0 <= (#[trigger] items[k]).1 <= usize::MAX,
    ensures
        sp_ctx_stats(
            pre + ",\"stats\":{\"total_files\":"@ + dec_rep(total as nat) + ",\"by_extension\":["@
                + join_map(items, ext_enc_fn()) + "]"@ + rest,
            pre.len() as int,
        ) == Some(
            (
                (total, items),
                pre.len() + ",\"stats\":{\"total_files\":"@.len() + dec_rep(total as nat).len()
                    + ",\"by_extension\":["@.len() + join_map(items, ext_enc_fn()).len()
                    + "]"@.len() as int,
            ),
        ),
{
    reveal_strlit("]");
    let jm = join_map(items, ext_enc_fn());
    let t = pre + ",\"stats\":{\"total_files\":"@ + dec_rep(total as nat) + ",\"by_extension\":["@
        + jm + "]"@ + rest;
    let r1 = dec_rep(total as nat) + (",\"by_extension\":["@ + jm + "]"@ + rest);
    assert(t =~= pre + ",\"stats\":{\"total_files\":"@ + r1);
    lemma_expect_inv(pre, ",\"stats\":{\"total_files\":"@, r1);
    let p1 = pre + ",\"stats\":{\"total_files\":"@;
    let r2 = ",\"by_extension\":["@ + jm + "]"@ + rest;
    assert(t =~= p1 + dec_rep(total as nat) + r2);
    assert(r2[0] == ',') by {
        reveal_strlit(",\"by_extension\":[");
    }
    assert(!crate::jsontext::is_digit(','));
    lemma_number_inv(p1, total as nat, r2);
    let p2 = p1 + dec_rep(total as nat);
    let r3 = jm + ("]"@ + rest);
    assert(t =~= p2 + ",\"by_extension\":["@ + r3);
    lemma_expect_inv(p2, ",\"by_extension\":["@, r3);
    let p3 = p2 + ",\"by_extension\":["@;
    assert("]"@ =~= seq![']']);
    assert(t =~= p3 + jm + seq![']'] + rest);
    lemma_ext_tail_inv(p3, items, rest);
}

/// Parses the matched pattern list field, starting at the brace that closes
/// the statistics object.
pub open spec fn sp_ctx_pats(t: Seq<char>, i: int) -> Option<(
    Seq<(Seq<char>, Seq<char>, Seq<char>, int)>,
    int,
)> {
    match sp_expect(t, i, "},\"matched_patterns\":["@) {
        Some(j1) => sp_pat_tail(t, j1),
        None => None,
    }
}

/// Reading back the matched pattern list field.
#[verifier::spinoff_prover]
#[verifier::rlimit(100)]
pub proof fn lemma_ctx_pats_inv(
    pre: Seq<char>,
    items: Seq<(Seq<char>, Seq<char>, Seq<char>, int)>,
    rest: Seq<char>,
)
    requires
        forall|k: int| 0 <= k < items.len() ==> 0 <= (#[trigger] items[k]).3 <= u32::MAX,
    ensures
        sp_ctx_pats(
            pre + "},\"matched_patterns\":["@ + join_map(items, pat_enc_fn()) + "]"@ + rest,
            pre.len() as int,
        ) == Some(
            (
                items,
                pre.len() + "},\"matched_patterns\":["@.len() + join_map(items, pat_enc_fn()).len()
                    + "]"@.len() as int,
            ),
        ),
{
    reveal_strlit("]");
    let jm = join_map(items, pat_enc_fn());
    let t = pre + "},\"matched_patterns\":["@ + jm + "]"@ + rest;
    let r1 = jm + ("]"@ + rest);
    assert(t =~= pre + "},\"matched_patterns\":["@ + r1);
    lemma_expect_inv(pre, "},\"matched_patterns\":["@, r1);
    let p1 = pre + "},\"matched_patterns\":["@;
    assert("]"@ =~= seq![']']);
    assert(t =~= p1 + jm + seq![']'] + rest);
    lemma_pat_tail_inv(p1, items, rest);
}

/// Parses the update timestamp and the closing brace of the document.
pub open spec fn sp_ctx_upd(t: Seq<char>, i: int) -> Option<(int, int)> {
    match sp_expect(t, i, ",\"updated_at\":"@) {
        Some(j1) => match sp_int(t, j1) {
            Some((n, j2)) => if i64::MIN <= n <= i64::MAX {
                match sp_expect(t, j2, "}"@) {
                    Some(j3) => Some((n, j3)),
                    None => None,
                }
            } else {
                None
            },
            None => None,
        },
        None => None,
    }
}

/// Reading back the update timestamp and closing brace.
#[verifier::spinoff_prover]
pub proof fn lemma_ctx_upd_inv(pre: Seq<char>, n: int, rest: Seq<char>)
    requires
        i64::MIN <= n <= i64::MAX,
    ensures
        sp_ctx_upd(pre + ",\"updated_at\":"@ + int_rep(n) + "}"@ + rest, pre.len() as int)
            == Some(
            (n, pre.len() + ",\"updated_at\":"@.len() + int_rep(n).len() + "}"@.len() as int),
        ),
{
    reveal_strlit("}");
    let t = pre + ",\"updated_at\":"@ + int_rep(n) + "}"@ + rest;
    let r1 = int_rep(n) + ("}"@ + rest);
    assert(t =~= pre + ",\"updated_at\":"@ + r1);
    lemma_expect_inv(pre, ",\"updated_at\":"@, r1);
    let p1 = pre + ",\"updated_at\":"@;
    let r2 = "}"@ + rest;
    assert(t =~= p1 + int_rep(n) + r2);
    assert(r2[0] == '}');
    assert(!crate::jsontext::is_digit('}'));
    lemma_int_inv(p1, n, r2);
    let p2 = p1 + int_rep(n);
    assert(t =~= p2 + "}"@ + rest);
    lemma_expect_inv(p2, "}"@, rest);
}

/// Parses both timestamps and the closing brace of the document.
pub open spec fn sp_ctx_times(t: Seq<char>, i: int) -> Option<((int, int), int)> {
    match sp_expect(t, i, ",\"created_at\":"@) {
        Some(j1) => match sp_int(t, j1) {
            Some((ca, j2)) => if i64::MIN <= ca <= i64::MAX {
                match sp_ctx_upd(t, j2) {
                    Some((ua, j3)) => Some(((ca, ua), j3)),
                    None => None,
                }
            } else {
                None
            },
            None => None,
        },
        None => None,
    }
}

/// Reading back both timestamps and the closing brace.
#[verifier::spinoff_prover]
pub proof fn lemma_ctx_times_inv(pre: Seq<char>, ca: int, ua: int, rest: Seq<char>)
    requires
        i64::MIN <= ca <= i64::MAX,
        i64::MIN <= ua <= i64::MAX,
    ensures
        sp_ctx_times(
            pre + ",\"created_at\":"@ + int_rep(ca) + ",\"updated_at\":"@ + int_rep(ua) + "}"@
                + rest,
            pre.len() as int,
        ) == Some(
            (
                (ca, ua),
                pre.len() + ",\"created_at\":"@.len() + int_rep(ca).len()
                    + ",\"updated_at\":"@.len() + int_rep(ua).len() + "}"@.len() as int,
            ),
        ),
{
    let t = pre + ",\"created_at\":"@ + int_rep(ca) + ",\"updated_at\":"@ + int_rep(ua) + "}"@
        + rest;
    let r1 = int_rep(ca) + (",\"updated_at\":"@ + int_rep(ua) + "}"@ + rest);
    assert(t =~= pre + ",\"created_at\":"@ + r1);
    lemma_expect_inv(pre, ",\"created_at\":"@, r1);
    let p1 = pre + ",\"created_at\":"@;
    let r2 = ",\"updated_at\":"@ + int_rep(ua) + "}"@ + rest;
    assert(t =~= p1 + int_rep(ca) + r2);
    assert(r2[0] == ',') by {
        reveal_strlit(",\"updated_at\":");
    }
    assert(!crate::jsontext::is_digit(','));
    lemma_int_inv(p1, ca, r2);
    let p2 = p1 + int_rep(ca);
    assert(t =~= p2 + ",\"updated_at\":"@ + int_rep(ua) + "}"@ + rest);
    lemma_ctx_upd_inv(p2, ua, rest);
}

/// Parses a whole context value starting at position `i`.
pub open spec fn sp_ctx(t: Seq<char>, i: int) -> Option<(CtxV, int)> {
    match sp_ctx_head(t, i) {
        Some(((v, name), j1)) => match sp_ctx_kind(t, j1) {
            Some(((pt, fw), j2)) => match sp_ctx_deps(t, j2) {
                Some((deps, j3)) => match sp_ctx_stats(t, j3) {
                    Some(((total, exts), j4)) => match sp_ctx_pats(t, j4) {
                        Some((pats, j5)) => match sp_ctx_times(t, j5) {
                            Some(((ca, ua), j6)) => Some(
                                (
                                    CtxV {
                                        version: v,
                                        name: name,
                                        project_type: pt,
                                        framework: fw,
                                        dependencies: deps,
                                        total_files: total,
                                        by_extension: exts,
                                        matched_patterns: pats,
                                        created_at: ca,
                                        updated_at: ua,
                                    },
                                    j6,
                                ),
                            ),
                            None => None,
                        },
                        None => None,
                    },
                    None => None,
                },
                None => None,
            },
            None => None,
        },
        None => None,
    }
}

/// The whole document parse: the text must hold exactly one context value.
pub open spec fn sp_ctx_doc(t: Seq<char>) -> Option<CtxV> {
    match sp_ctx(t, 0) {
        Some((c, j)) => if j == t.len() {
            Some(c)
        } else {
            None
        },
        None => None,
    }
}

/// Whether every numeric field of the value fits its machine type.
pub open spec fn ctx_fits(c: CtxV) -> bool {
    &&& 0 <= c.version <= u8::MAX
    &&& 0 <= c.total_files <= usize::MAX
    &&& forall|k: int| 0 <= k < c.by_extension.len() ==> 0 <= (#[trigger] c.by_extension[k]).1
        <= usize::MAX
    &&& forall|k: int| 0 <= k < c.matched_patterns.len() ==> 0 <= (
    #[trigger] c.matched_patterns[k]).3 <= u32::MAX
    &&& i64::MIN <= c.created_at <= i64::MAX
    &&& i64::MIN <= c.updated_at <= i64::MAX
}

/// The length of the document prefix up to and including window `k`.
pub open spec fn ctx_pos(c: CtxV, k: int) -> int {
    if k <= 0 {
        ctx_w_head(c).len() as int
    } else if k == 1 {
        (ctx_w_head(c).len() + ctx_w_kind(c).len()) as int
    } else if k == 2 {
        (ctx_w_head(c).len() + ctx_w_kind(c).len() + ctx_w_deps(c).len()) as int
    } else if k == 3 {
        (ctx_w_head(c).len() + ctx_w_kind(c).len() + ctx_w_deps(c).len()
            + ctx_w_stats(c).len()) as int
    } else if k == 4 {
        (ctx_w_head(c).len() + ctx_w_kind(c).len() + ctx_w_deps(c).len() + ctx_w_stats(c).len()
            + ctx_w_pats(c).len()) as int
    } else {
        (ctx_w_head(c).len() + ctx_w_kind(c).len() + ctx_w_deps(c).len() + ctx_w_stats(c).len()
            + ctx_w_pats(c).len() + ctx_w_times(c).len()) as int
    }
}

/// Reading back the head window of a rendered document.
#[verifier::spinoff_prover]
#[verifier::rlimit(100)]
proof fn lemma_ctx_stage_head(c: CtxV)
    requires
        ctx_fits(c),
    ensures
        sp_ctx_head(enc_ctx(c), 0) == Some(((c.version, c.name), ctx_pos(c, 0))),
{
    let t = enc_ctx(c);
    let e = Seq::<char>::empty();
    let rest = ctx_w_kind(c) + ctx_w_deps(c) + ctx_w_stats(c) + ctx_w_pats(c) + ctx_w_times(c);
    assert(t =~= e + "{\"version\":"@ + dec_rep(c.version as nat) + ",\"name\":"@ + enc_string(
        c.name,
    ) + rest) by {
        reveal(ctx_w_head);
    }
    lemma_ctx_head_inv(e, c.version, c.name, rest);
    assert(ctx_w_head(c).len() == "{\"version\":"@.len() + dec_rep(c.version as nat).len()
        + ",\"name\":"@.len() + enc_string(c.name).len()) by {
        reveal(ctx_w_head);
    }
}

/// Reading back the kind window of a rendered document.
#[verifier::spinoff_prover]
#[verifier::rlimit(100)]
proof fn lemma_ctx_stage_kind(c: CtxV)
    requires
        ctx_fits(c),
    ensures
        sp_ctx_kind(enc_ctx(c), ctx_pos(c, 0)) == Some(
            ((c.project_type, c.framework), ctx_pos(c, 1)),
        ),
{
    let t = enc_ctx(c);
    let p = ctx_w_head(c);
    let rest = ctx_w_deps(c) + ctx_w_stats(c) + ctx_w_pats(c) + ctx_w_times(c);
    assert(t =~= p + ",\"project_type\":"@ + enc_string(c.project_type) + ",\"framework\":"@
        + enc_opt_string(c.framework) + rest) by {
        reveal(ctx_w_kind);
    }
    lemma_ctx_kind_inv(p, c.project_type, c.framework, rest);
    assert(ctx_w_kind(c).len() == ",\"project_type\":"@.len() + enc_string(c.project_type).len()
        + ",\"framework\":"@.len() + enc_opt_string(c.framework).len()) by {
        reveal(ctx_w_kind);
    }
}

/// Reading back the dependency window of a rendered document.
#[verifier::spinoff_prover]
#[verifier::rlimit(100)]
proof fn lemma_ctx_stage_deps(c: CtxV)
    requires
        ctx_fits(c),
    ensures
        sp_ctx_deps(enc_ctx(c), ctx_pos(c, 1)) == Some((c.dependencies, ctx_pos(c, 2))),
{
    let t = enc_ctx(c);
    let p = ctx_w_head(c) + ctx_w_kind(c);
    let jd = join_map(c.dependencies, dep_enc_fn());
    let rest = ctx_w_stats(c) + ctx_w_pats(c) + ctx_w_times(c);
    assert(t =~= p + ",\"dependencies\":["@ + jd + "]"@ + rest) by {
        reveal(ctx_w_deps);
    }
    lemma_ctx_deps_inv(p, c.dependencies, rest);
    assert(ctx_w_deps(c).len() == ",\"dependencies\":["@.len() + jd.len() + "]"@.len()) by {
        reveal(ctx_w_deps);
    }
}

/// Reading back the statistics window of a rendered document.
#[verifier::spinoff_prover]
#[verifier::rlimit(100)]
proof fn lemma_ctx_stage_stats(c: CtxV)
    requires
        ctx_fits(c),
    ensures
        sp_ctx_stats(enc_ctx(c), ctx_pos(c, 2)) == Some(
            ((c.total_files, c.by_extension), ctx_pos(c, 3)),
        ),
{
    let t = enc_ctx(c);
    let p = ctx_w_head(c) + ctx_w_kind(c) + ctx_w_deps(c);
    let je = join_map(c.by_extension, ext_enc_fn());
    let rest = ctx_w_pats(c) + ctx_w_times(c);
    assert(t =~= p + ",\"stats\":{\"total_files\":"@ + dec_rep(c.total_files as nat)
        + ",\"by_extension\":["@ + je + "]"@ + rest) by {
        reveal(ctx_w_stats);
    }
    lemma_ctx_stats_inv(p, c.total_files, c.by_extension, rest);
    assert(ctx_w_stats(c).len() == ",\"stats\":{\"total_files\":"@.len() + dec_rep(
        c.total_files as nat,
    ).len() + ",\"by_extension\":["@.len() + je.len() + "]"@.len()) by {
        reveal(ctx_w_stats);
    }
}

/// Reading back the pattern window of a rendered document.
#[verifier::spinoff_prover]
#[verifier::rlimit(100)]
proof fn lemma_ctx_stage_pats(c: CtxV)
    requires
        ctx_fits(c),
    ensures
        sp_ctx_pats(enc_ctx(c), ctx_pos(c, 3)) == Some((c.matched_patterns, ctx_pos(c, 4))),
{
    let t = enc_ctx(c);
    let p = ctx_w_head(c) + ctx_w_kind(c) + ctx_w_deps(c) + ctx_w_stats(c);
    let jp = join_map(c.matched_patterns, pat_enc_fn());
    let rest = ctx_w_times(c);
    assert(t =~= p + "},\"matched_patterns\":["@ + jp + "]"@ + rest) by {
        reveal(ctx_w_pats);
    }
    lemma_ctx_pats_inv(p, c.matched_patterns, rest);
    assert(ctx_w_pats(c).len() == "},\"matched_patterns\":["@.len() + jp.len() + "]"@.len()) by {
        reveal(ctx_w_pats);
    }
}

/// Reading back the timestamp window of a rendered document.
#[verifier::spinoff_prover]
#[verifier::rlimit(100)]
proof fn lemma_ctx_stage_times(c: CtxV)
    requires
        ctx_fits(c),
    ensures
        sp_ctx_times(enc_ctx(c), ctx_pos(c, 4)) == Some(
            ((c.created_at, c.updated_at), ctx_pos(c, 5)),
        ),
{
    let t = enc_ctx(c);
    let p = ctx_w_head(c) + ctx_w_kind(c) + ctx_w_deps(c) + ctx_w_stats(c) + ctx_w_pats(c);
    let e = Seq::<char>::empty();
    assert(t =~= p + ",\"created_at\":"@ + int_rep(c.created_at) + ",\"updated_at\":"@ + int_rep(
        c.updated_at,
    ) + "}"@ + e) by {
        reveal(ctx_w_times);
    }
    lemma_ctx_times_inv(p, c.created_at, c.updated_at, e);
    assert(ctx_w_times(c).len() == ",\"created_at\":"@.len() + int_rep(c.created_at).len()
        + ",\"updated_at\":"@.len() + int_rep(c.updated_at).len() + "}"@.len()) by {
        reveal(ctx_w_times);
    }
}

/// The round trip: parsing a rendered context document yields exactly the
/// value that was rendered.
#[verifier::spinoff_prover]
#[verifier::rlimit(100)]
pub proof fn lemma_ctx_round_trip(c: CtxV)
    requires
        ctx_fits(c),
    ensures
        sp_ctx_doc(enc_ctx(c)) == Some(c),
{
    let t = enc_ctx(c);
    lemma_ctx_stage_head(c);
    lemma_ctx_stage_kind(c);
    lemma_ctx_stage_deps(c);
    lemma_ctx_stage_stats(c);
    lemma_ctx_stage_pats(c);
    lemma_ctx_stage_times(c);
    assert(t.len() == ctx_pos(c, 5));
    assert(sp_ctx(t, 0) == Some((c, t.len() as int))) by {
        let got = sp_ctx(t, 0)->Some_0.0;
        assert(got =~= c);
    }
}

// ============================================================================
// Executable parsing
// ============================================================================

/// Parses the optional framework label at position `i` of `t`.
fn parse_opt_string(t: &Vec<char>, i: usize) -> (r: Option<(Option<String>, usize)>)
    ensures
        match r {
            Some((o, j)) => sp_opt_string(t@, i as int) == Some((o.deep_view(), j as int)),
            None => sp_opt_string(t@, i as int) is None,
        },
{
    match expect_lit(t, i, "null") {
        Some(j) => Some((None, j)),
        None => match parse_string(t, i) {
            Some((v, j)) => Some((Some(v), j)),
            None => None,
        },
    }
}

/// Parses one dependency object at position `i` of `t`.
fn parse_dep(t: &Vec<char>, i: usize) -> (r: Option<(DepSummary, usize)>)
    ensures
        match r {
            Some((d, j)) => sp_dep(t@, i as int) == Some((d@, j as int)),
            None => sp_dep(t@, i as int) is None,
        },
{
    let j1 = match expect_lit(t, i, "{\"name\":") {
        Some(j) => j,
        None => {
            return None;
        },
    };
    let (name, j2) = match parse_string(t, j1) {
        Some(r) => r,
        None => {
            return None;
        },
    };
    let j3 = match expect_lit(t, j2, ",\"version\":") {
        Some(j) => j,
        None => {
            return None;
        },
    };
    let (version, j4) = match parse_string(t, j3) {
        Some(r) => r,
        None => {
            return None;
        },
    };
    let j5 = match expect_lit(t, j4, ",\"dev\":") {
        Some(j) => j,
        None => {
            return None;
        },
    };
    let (dev, j6) = match parse_bool(t, j5) {
        Some(r) => r,
        None => {
            return None;
        },
    };
    let j7 = match expect_lit(t, j6, "}") {
        Some(j) => j,
        None => {
            return None;
        },
    };
    Some((DepSummary { name, version, dev }, j7))
}

/// Parses one extension histogram entry at position `i` of `t`.
fn parse_ext(t: &Vec<char>, i: usize) -> (r: Option<(ExtCount, usize)>)
    ensures
        match r {
            Some((e, j)) => sp_ext(t@, i as int) == Some((e@, j as int)),
            None => sp_ext(t@, i as int) is None,
        },
{
    let j1 = match expect_lit(t, i, "{\"ext\":") {
        Some(j) => j,
        None => {
            return None;
        },
    };
    let (extension, j2) = match parse_string(t, j1) {
        Some(r) => r,
        None => {
            return None;
        },
    };
    let j3 = match expect_lit(t, j2, ",\"count\":") {
        Some(j) => j,
        None => {
            return None;
        },
    };
    let (n, j4) = match parse_u64(t, j3) {
        Some(r) => r,
        None => {
            return None;
        },
    };
    if n > usize::MAX as u64 {
        return None;
    }
    let j5 = match expect_lit(t, j4, "}") {
        Some(j) => j,
        None => {
            return None;
        },
    };
    Some((ExtCount { extension, count: n as usize }, j5))
}

/// Parses one pattern reference object at position `i` of `t`.
fn parse_pat(t: &Vec<char>, i: usize) -> (r: Option<(PatternRef, usize)>)
    ensures
        match r {
            Some((pa, j)) => sp_pat(t@, i as int) == Some((pa@, j as int)),
            None => sp_pat(t@, i as int) is None,
        },
{
    let j1 = match expect_lit(t, i, "{\"id\":") {
        Some(j) => j,
        None => {
            return None;
        },
    };
    let (id, j2) = match parse_string(t, j1) {
        Some(r) => r,
        None => {
            return None;
        },
    };
    let j3 = match expect_lit(t, j2, ",\"title\":") {
        Some(j) => j,
        None => {
            return None;
        },
    };
    let (title, j4) = match parse_string(t, j3) {
        Some(r) => r,
        None => {
            return None;
        },
    };
    let j5 = match expect_lit(t, j4, ",\"category\":") {
        Some(j) => j,
        None => {
            return None;
        },
    };
    let (category, j6) = match parse_string(t, j5) {
        Some(r) => r,
        None => {
            return None;
        },
    };
    let j7 = match expect_lit(t, j6, ",\"score\":") {
        Some(j) => j,
        None => {
            return None;
        },
    };
    let (n, j8) = match parse_u64(t, j7) {
        Some(r) => r,
        None => {
            return None;
        },
    };
    if n > u32::MAX as u64 {
        return None;
    }
    let j9 = match expect_lit(t, j8, "}") {
        Some(j) => j,
        None => {
            return None;
        },
    };
    Some((PatternRef { id, title, category, score: n as u32 }, j9))
}

/// Parses a dependency list after its opening bracket.
fn parse_dep_list(t: &Vec<char>, i: usize) -> (r: Option<(Vec<DepSummary>, usize)>)
    ensures
        match r {
            Some((items, j)) => sp_dep_tail(t@, i as int) == Some((items.deep_view(), j as int)),
            None => sp_dep_tail(t@, i as int) is None,
        },
{
    match expect_lit(t, i, "]") {
        Some(j) => {
            let items: Vec<DepSummary> = Vec::new();
            proof {
                assert(items.deep_view() =~= Seq::<(Seq<char>, Seq<char>, bool)>::empty());
            }
            return Some((items, j));
        },
        None => {},
    }
    let mut acc: Vec<DepSummary> = Vec::new();
    let mut cur: usize = i;
    loop
        invariant
            sp_expect(t@, i as int, "]"@) is None,
            sp_dep_items(t@, i as int) == (match sp_dep_items(t@, cur as int) {
                Some((ds, k)) => Some((acc.deep_view() + ds, k)),
                None => None::<(Seq<(Seq<char>, Seq<char>, bool)>, int)>,
            }),
            cur >= i,
        decreases t@.len() + 1 - cur,
    {
        if cur > t.len() {
            return None;
        }
        let (d, j) = match parse_dep(t, cur) {
            Some(r) => r,
            None => {
                return None;
            },
        };
        if !(cur < j && j < t.len()) {
            return None;
        }
        let ghost old_acc = acc.deep_view();
        if t[j] == ',' {
            acc.push(d);
            proof {
                assert(acc.deep_view() =~= old_acc + seq![d@]);
                if sp_dep_items(t@, j + 1 as int) is Some {
                    let ds2 = sp_dep_items(t@, j + 1 as int)->Some_0.0;
                    assert(old_acc + (seq![d@] + ds2) =~= (old_acc + seq![d@]) + ds2);
                }
            }
            cur = j + 1;
        } else if t[j] == ']' {
            acc.push(d);
            proof {
                assert(acc.deep_view() =~= old_acc + seq![d@]);
            }
            return Some((acc, j + 1));
        } else {
            return None;
        }
    }
}

/// Parses a histogram list after its opening bracket.
fn parse_ext_list(t: &Vec<char>, i: usize) -> (r: Option<(Vec<ExtCount>, usize)>)
    ensures
        match r {
            Some((items, j)) => sp_ext_tail(t@, i as int) == Some((items.deep_view(), j as int)),
            None => sp_ext_tail(t@, i as int) is None,
        },
{
    match expect_lit(t, i, "]") {
        Some(j) => {
            let items: Vec<ExtCount> = Vec::new();
            proof {
                assert(items.deep_view() =~= Seq::<(Seq<char>, int)>::empty());
            }
            return Some((items, j));
        },
        None => {},
    }
    let mut acc: Vec<ExtCount> = Vec::new();
    let mut cur: usize = i;
    loop
        invariant
            sp_expect(t@, i as int, "]"@) is None,
            sp_ext_items(t@, i as int) == (match sp_ext_items(t@, cur as int) {
                Some((es, k)) => Some((acc.deep_view() + es, k)),
                None => None::<(Seq<(Seq<char>, int)>, int)>,
            }),
            cur >= i,
        decreases t@.len() + 1 - cur,
    {
        if cur > t.len() {
            return None;
        }
        let (e, j) = match parse_ext(t, cur) {
            Some(r) => r,
            None => {
                return None;
            },
        };
        if !(cur < j && j < t.len()) {
            return None;
        }
        let ghost old_acc = acc.deep_view();
        if t[j] == ',' {
            acc.push(e);
            proof {
                assert(acc.deep_view() =~= old_acc + seq![e@]);
                if sp_ext_items(t@, j + 1 as int) is Some {
                    let es2 = sp_ext_items(t@, j + 1 as int)->Some_0.0;
                    assert(old_acc + (seq![e@] + es2) =~= (old_acc + seq![e@]) + es2);
                }
            }
            cur = j + 1;
        } else if t[j] == ']' {
            acc.push(e);
            proof {
                assert(acc.deep_view() =~= old_acc + seq![e@]);
            }
            return Some((acc, j + 1));
        } else {
            return None;
        }
    }
}

/// Parses a pattern list after its opening bracket.
fn parse_pat_list(t: &Vec<char>, i: usize) -> (r: Option<(Vec<PatternRef>, usize)>)
    ensures
        match r {
            Some((items, j)) => sp_pat_tail(t@, i as int) == Some((items.deep_view(), j as int)),
            None => sp_pat_tail(t@, i as int) is None,
        },
{
    match expect_lit(t, i, "]") {
        Some(j) => {
            let items: Vec<PatternRef> = Vec::new();
            proof {
                assert(items.deep_view() =~= Seq::<
                    (Seq<char>, Seq<char>, Seq<char>, int),
                >::empty());
            }
            return Some((items, j));
        },
        None => {},
    }
    let mut acc: Vec<PatternRef> = Vec::new();
    let mut cur: usize = i;
    loop
        invariant
            sp_expect(t@, i as int, "]"@) is None,
            sp_pat_items(t@, i as int) == (match sp_pat_items(t@, cur as int) {
                Some((ps, k)) => Some((acc.deep_view() + ps, k)),
                None => None::<(Seq<(Seq<char>, Seq<char>, Seq<char>, int)>, int)>,
            }),
            cur >= i,
        decreases t@.len() + 1 - cur,
    {
        if cur > t.len() {
            return None;
        }
        let (pa, j) = match parse_pat(t, cur) {
            Some(r) => r,
            None => {
                return None;
            },
        };
        if !(cur < j && j < t.len()) {
            return None;
        }
        let ghost old_acc = acc.deep_view();
        if t[j] == ',' {
            acc.push(pa);
            proof {
                assert(acc.deep_view() =~= old_acc + seq![pa@]);
                if sp_pat_items(t@, j + 1 as int) is Some {
                    let ps2 = sp_pat_items(t@, j + 1 as int)->Some_0.0;
                    assert(old_acc + (seq![pa@] + ps2) =~= (old_acc + seq![pa@]) + ps2);
                }
            }
            cur = j + 1;
        } else if t[j] == ']' {
            acc.push(pa);
            proof {
                assert(acc.deep_view() =~= old_acc + seq![pa@]);
            }
            return Some((acc, j + 1));
        } else {
            return None;
        }
    }
}

/// Parses a whole context document held in `t`.
#[verifier::spinoff_prover]
#[verifier::rlimit(100)]
pub fn parse_context(t: &Vec<char>) -> (r: Option<ProjectContext>)
    ensures
        match r {
            Some(c) => sp_ctx_doc(t@) == Some(c@),
            None => sp_ctx_doc(t@) is None,
        },
{
    let j1 = match expect_lit(t, 0, "{\"version\":") {
        Some(j) => j,
        None => {
            return None;
        },
    };
    let (vu, j2) = match parse_u64(t, j1) {
        Some(r) => r,
        None => {
            return None;
        },
    };
    if vu > 255 {
        return None;
    }
    let j3 = match expect_lit(t, j2, ",\"name\":") {
        Some(j) => j,
        None => {
            return None;
        },
    };
    let (name, j4) = match parse_string(t, j3) {
        Some(r) => r,
        None => {
            return None;
        },
    };
    proof {
        assert(sp_ctx_head(t@, 0) == Some(((vu as int, name@), j4 as int)));
    }
    let j5 = match expect_lit(t, j4, ",\"project_type\":") {
        Some(j) => j,
        None => {
            return None;
        },
    };
    let (project_type, j6) = match parse_string(t, j5) {
        Some(r) => r,
        None => {
            return None;
        },
    };
    let j7 = match expect_lit(t, j6, ",\"framework\":") {
        Some(j) => j,
        None => {
            return None;
        },
    };
    let (framework, j8) = match parse_opt_string(t, j7) {
        Some(r) => r,
        None => {
            return None;
        },
    };
    proof {
        assert(sp_ctx_kind(t@, j4 as int) == Some(
            ((project_type@, framework.deep_view()), j8 as int),
        ));
    }
    let j9 = match expect_lit(t, j8, ",\"dependencies\":[") {
        Some(j) => j,
        None => {
            return None;
        },
    };
    let (dependencies, j10) = match parse_dep_list(t, j9) {
        Some(r) => r,
        None => {
            return None;
        },
    };
    proof {
        assert(sp_ctx_deps(t@, j8 as int) == Some((dependencies.deep_view(), j10 as int)));
    }
    let j11 = match expect_lit(t, j10, ",\"stats\":{\"total_files\":") {
        Some(j) => j,
        None => {
            return None;
        },
    };
    let (tf, j12) = match parse_u64(t, j11) {
        Some(r) => r,
        None => {
            return None;
        },
    };
    if tf > usize::MAX as u64 {
        return None;
    }
    let j13 = match expect_lit(t, j12, ",\"by_extension\":[") {
        Some(j) => j,
        None => {
            return None;
        },
    };
    let (by_extension, j14) = match parse_ext_list(t, j13) {
        Some(r) => r,
        None => {
            return None;
        },
    };
    proof {
        assert(sp_ctx_stats(t@, j10 as int) == Some(
            ((tf as int, by_extension.deep_view()), j14 as int),
        ));
    }
    let j15 = match expect_lit(t, j14, "},\"matched_patterns\":[") {
        Some(j) => j,
        None => {
            return None;
        },
    };
    let (matched_patterns, j16) = match parse_pat_list(t, j15) {
        Some(r) => r,
        None => {
            return None;
        },
    };
    proof {
        assert(sp_ctx_pats(t@, j14 as int) == Some((matched_patterns.deep_view(), j16 as int)));
    }
    let j17 = match expect_lit(t, j16, ",\"created_at\":") {
        Some(j) => j,
        None => {
            return None;
        },
    };
    let (created_at, j18) = match parse_i64(t, j17) {
        Some(r) => r,
        None => {
            return None;
        },
    };
    let j19 = match expect_lit(t, j18, ",\"updated_at\":") {
        Some(j) => j,
        None => {
            return None;
        },
    };
    let (updated_at, j20) = match parse_i64(t, j19) {
        Some(r) => r,
        None => {
            return None;
        },
    };
    let j21 = match expect_lit(t, j20, "}") {
        Some(j) => j,
        None => {
            return None;
        },
    };
    proof {
        assert(sp_ctx_times(t@, j16 as int) == Some(
            ((created_at as int, updated_at as int), j21 as int),
        ));
    }
    if j21 != t.len() {
        return None;
    }
    let ctx = ProjectContext {
        version: vu as u8,
        name,
        project_type,
        framework,
        dependencies,
        stats: FileStats { total_files: tf as usize, by_extension },
        matched_patterns,
        created_at,
        updated_at,
    };
    proof {
        assert(sp_ctx(t@, 0) == Some((ctx@, j21 as int))) by {
            let got = sp_ctx(t@, 0)->Some_0.0;
            assert(got =~= ctx@);
        }
    }
    Some(ctx)
}

// ============================================================================
// Synthesis, persistence, and rendering
// ============================================================================

impl Clone for DepSummary {
    /// A clone carries the value of every field over unchanged.
    fn clone(&self) -> (r: Self)
        ensures
            r@ == self@,
    {
        DepSummary { name: self.name.clone(), version: self.version.clone(), dev: self.dev }
    }
}

impl Clone for ExtCount {
    /// A clone carries the value of every field over unchanged.
    fn clone(&self) -> (r: Self)
        ensures
            r@ == self@,
    {
        ExtCount { extension: self.extension.clone(), count: self.count }
    }
}

/// The dependency summaries of a project's dependency list, in order.
pub open spec fn dep_summaries(deps: Seq<crate::types::Dependency>) -> Seq<
    (Seq<char>, Seq<char>, bool),
> {
    deps.map(|k: int, d: crate::types::Dependency| (d.name@, d.version@, d.dev_only))
}

/// One extension added to a histogram: the first entry with that key is
/// incremented, or a fresh entry with count one is appended.
pub open spec fn hist_add(h: Seq<(Seq<char>, int)>, ext: Seq<char>) -> Seq<(Seq<char>, int)>
    decreases h.len(),
{
    if h.len() == 0 {
        seq![(ext, 1int)]
    } else if h[0].0 == ext {
        seq![(h[0].0, h[0].1 + 1)] + h.skip(1)
    } else {
        seq![h[0]] + hist_add(h.skip(1), ext)
    }
}

/// The extension histogram of a list of file languages, in first-seen order.
pub open spec fn spec_histogram(langs: Seq<Seq<char>>) -> Seq<(Seq<char>, int)>
    decreases langs.len(),
{
    if langs.len() == 0 {
        Seq::empty()
    } else {
        hist_add(spec_histogram(langs.drop_last()), langs.last())
    }
}

/// Adding to a histogram whose first matching key stands at `j` increments
/// that entry.
proof fn lemma_hist_add_found(h: Seq<(Seq<char>, int)>, ext: Seq<char>, j: int)
    requires
        0 <= j < h.len(),
        h[j].0 == ext,
        forall|k: int| 0 <= k < j ==> (#[trigger] h[k]).0 != ext,
    ensures
        hist_add(h, ext) == h.update(j, (h[j].0, h[j].1 + 1)),
    decreases j,
{
    if j == 0 {
        assert(hist_add(h, ext) =~= h.update(0, (h[0].0, h[0].1 + 1)));
    } else {
        lemma_hist_add_found(h.skip(1), ext, j - 1);
        assert(hist_add(h, ext) == seq![h[0]] + hist_add(h.skip(1), ext));
        assert(h.skip(1).update(j - 1, (h.skip(1)[j - 1].0, h.skip(1)[j - 1].1 + 1)) =~= h.update(
            j,
            (h[j].0, h[j].1 + 1),
        ).skip(1));
        assert(hist_add(h, ext) =~= h.update(j, (h[j].0, h[j].1 + 1)));
    }
}

/// Adding to a histogram with no matching key appends a fresh entry.
proof fn lemma_hist_add_fresh(h: Seq<(Seq<char>, int)>, ext: Seq<char>)
    requires
        forall|k: int| 0 <= k < h.len() ==> (#[trigger] h[k]).0 != ext,
    ensures
        hist_add(h, ext) == h + seq![(ext, 1int)],
    decreases h.len(),
{
    if h.len() == 0 {
        assert(hist_add(h, ext) =~= h + seq![(ext, 1int)]);
    } else {
        lemma_hist_add_fresh(h.skip(1), ext);
        assert(hist_add(h, ext) =~= h + seq![(ext, 1int)]);
    }
}

/// The index of the first histogram entry with the given key, if any.
fn find_ext(r: &Vec<ExtCount>, lang: &str) -> (pos: Option<usize>)
    ensures
        match pos {
            Some(j) => j < r@.len() && r.deep_view()[j as int].0 == lang@ && forall|k: int|
                0 <= k < j ==> (#[trigger] r.deep_view()[k]).0 != lang@,
            None => forall|k: int| 0 <= k < r@.len() ==> (#[trigger] r.deep_view()[k]).0 != lang@,
        },
{
    let mut j: usize = 0;
    while j < r.len()
        invariant
            j <= r@.len(),
            forall|k: int| 0 <= k < j ==> (#[trigger] r.deep_view()[k]).0 != lang@,
        decreases r@.len() - j,
    {
        if crate::strutil::str_eq(r[j].extension.as_str(), lang) {
            proof {
                assert(r.deep_view()[j as int] == r@[j as int].deep_view());
            }
            return Some(j);
        }
        proof {
            assert(r.deep_view()[j as int] == r@[j as int].deep_view());
        }
        j = j + 1;
    }
    None
}

/// Builds the extension histogram of the given languages, in first-seen
/// order.
fn build_histogram(langs: &Vec<String>) -> (r: Vec<ExtCount>)
    ensures
        r.deep_view() == spec_histogram(langs.deep_view()),
        forall|k: int| 0 <= k < r.deep_view().len() ==> 0 <= (#[trigger] r.deep_view()[k]).1
            <= langs.len(),
{
    let ghost ls = langs.deep_view();
    let mut r: Vec<ExtCount> = Vec::new();
    let mut i: usize = 0;
    while i < langs.len()
        invariant
            i <= langs.len(),
            ls == langs.deep_view(),
            ls.len() == langs.len(),
            r.deep_view() == spec_histogram(ls.take(i as int)),
            forall|k: int| 0 <= k < r.deep_view().len() ==> 0 <= (#[trigger] r.deep_view()[k]).1
                <= i,
        decreases langs.len() - i,
    {
        let ghost prev = r.deep_view();
        let lang = &langs[i];
        proof {
            assert(ls[i as int] == lang@);
        }
        match find_ext(&r, lang.as_str()) {
            Some(j) => {
                let c = r[j].count;
                let ghost prev_vec = r@;
                proof {
                    assert(prev[j as int] == r@[j as int].deep_view());
                    assert(prev[j as int].1 == c as int);
                    assert(0 <= c as int <= i);
                }
                let bumped = ExtCount { extension: r[j].extension.clone(), count: c + 1 };
                r.set(j, bumped);
                proof {
                    lemma_hist_add_found(prev, lang@, j as int);
                    assert forall|k: int| 0 <= k < prev.len() implies r.deep_view()[k]
                        == prev.update(j as int, (prev[j as int].0, prev[j as int].1 + 1))[k] by {
                        assert(r.deep_view()[k] == r@[k].deep_view());
                        if k != j {
                            assert(r@[k] == prev_vec[k]);
                            assert(prev[k] == prev_vec[k].deep_view());
                        }
                    }
                    assert(r.deep_view() =~= hist_add(prev, lang@));
                }
            },
            None => {
                let ghost prev_vec = r@;
                r.push(ExtCount { extension: lang.clone(), count: 1 });
                proof {
                    lemma_hist_add_fresh(prev, lang@);
                    assert forall|k: int| 0 <= k < prev.len() + 1 implies r.deep_view()[k] == (
                    prev + seq![(lang@, 1int)])[k] by {
                        assert(r.deep_view()[k] == r@[k].deep_view());
                        if k < prev.len() {
                            assert(r@[k] == prev_vec[k]);
                            assert(prev[k] == prev_vec[k].deep_view());
                        }
                    }
                    assert(r.deep_view() =~= hist_add(prev, lang@));
                }
            },
        }
        proof {
            assert(ls.take(i as int + 1).drop_last() =~= ls.take(i as int));
            assert(ls.take(i as int + 1).last() == ls[i as int]);
        }
        i = i + 1;
    }
    proof {
        assert(ls.take(langs.len() as int) =~= ls);
    }
    r
}

/// The resolved framework label of project metadata: the first present field
/// in the fixed priority order target framework, Rust edition, Node version,
/// Python version.
pub open spec fn spec_framework(m: crate::types::ProjectMetadata) -> Option<Seq<char>> {
    if m.target_framework is Some {
        Some(m.target_framework->0@)
    } else if m.rust_edition is Some {
        Some(m.rust_edition->0@)
    } else if m.node_version is Some {
        Some(m.node_version->0@)
    } else if m.python_version is Some {
        Some(m.python_version->0@)
    } else {
        None
    }
}

/// Resolves the framework label by the fixed priority order.
fn resolve_framework(m: &crate::types::ProjectMetadata) -> (r: Option<String>)
    ensures
        r.deep_view() == spec_framework(*m),
{
    if let Some(v) = &m.target_framework {
        Some(v.clone())
    } else if let Some(v) = &m.rust_edition {
        Some(v.clone())
    } else if let Some(v) = &m.node_version {
        Some(v.clone())
    } else if let Some(v) = &m.python_version {
        Some(v.clone())
    } else {
        None
    }
}

/// The pattern references of a ranked pattern list: identity and score only.
pub open spec fn pattern_refs(ps: Seq<crate::types::PatternV>) -> Seq<
    (Seq<char>, Seq<char>, Seq<char>, int),
> {
    ps.map(|k: int, p: crate::types::PatternV| (p.id, p.title, p.category, p.relevance_score))
}

impl ProjectContext {
    /// Builds a context from an analysis result: dependency summaries in
    /// discovery order, the extension histogram, minimal pattern references
    /// (never the code body), and the framework label resolved by priority.
    /// Both timestamps are set to the same current time.
    pub fn from_analysis(analysis: &crate::types::AnalysisResult) -> (r: Self)
        ensures
            r@.version == 1,
            r@.name == analysis.project.name@,
            r@.project_type == crate::types::project_type_label(analysis.project.project_type),
            r@.framework == spec_framework(analysis.project.metadata),
            r@.dependencies == dep_summaries(analysis.project.dependencies@),
            r@.total_files == analysis.project.files@.len(),
            r@.by_extension == spec_histogram(
                analysis.project.files@.map(|k: int, f: crate::types::SourceFile| f.language@),
            ),
            r@.matched_patterns == pattern_refs(analysis.patterns.deep_view()),
            r@.created_at == r@.updated_at,
    {
        let project = &analysis.project;
        let nd = project.dependencies.len();
        let mut dependencies: Vec<DepSummary> = Vec::new();
        let mut i: usize = 0;
        while i < nd
            invariant
                i <= nd,
                nd == project.dependencies@.len(),
                dependencies@.len() == i,
                forall|k: int| 0 <= k < i ==> #[trigger] dependencies@[k].deep_view() == (
                    project.dependencies@[k].name@,
                    project.dependencies@[k].version@,
                    project.dependencies@[k].dev_only,
                ),
            decreases nd - i,
        {
            let d = &project.dependencies[i];
            dependencies.push(
                DepSummary {
                    name: d.name.clone(),
                    version: d.version.clone(),
                    dev: d.dev_only,
                },
            );
            i = i + 1;
        }
        proof {
            assert(dependencies.deep_view() =~= dep_summaries(project.dependencies@)) by {
                assert forall|k: int| 0 <= k < nd implies dependencies.deep_view()[k]
                    == dep_summaries(project.dependencies@)[k] by {
                    assert(dependencies.deep_view()[k] == dependencies@[k].deep_view());
                }
            }
        }
        let nf = project.files.len();
        let mut langs: Vec<String> = Vec::new();
        let mut i: usize = 0;
        while i < nf
            invariant
                i <= nf,
                nf == project.files@.len(),
                langs@.len() == i,
                forall|k: int| 0 <= k < i ==> #[trigger] langs@[k]@ == project.files@[k].language@,
            decreases nf - i,
        {
            langs.push(project.files[i].language.clone());
            i = i + 1;
        }
        proof {
            let target = project.files@.map(|k: int, f: crate::types::SourceFile| f.language@);
            assert(langs.deep_view() =~= target) by {
                assert forall|k: int| 0 <= k < nf implies langs.deep_view()[k] == target[k] by {
                    assert(langs.deep_view()[k] == langs@[k]@);
                }
            }
        }
        let by_extension = build_histogram(&langs);
        let np = analysis.patterns.len();
        let mut matched_patterns: Vec<PatternRef> = Vec::new();
        let mut i: usize = 0;
        while i < np
            invariant
                i <= np,
                np == analysis.patterns@.len(),
                matched_patterns@.len() == i,
                forall|k: int| 0 <= k < i ==> #[trigger] matched_patterns@[k].deep_view() == (
                    analysis.patterns@[k].id@,
                    analysis.patterns@[k].title@,
                    analysis.patterns@[k].category@,
                    analysis.patterns@[k].relevance_score as int,
                ),
            decreases np - i,
        {
            let pa = &analysis.patterns[i];
            matched_patterns.push(
                PatternRef {
                    id: pa.id.clone(),
                    title: pa.title.clone(),
                    category: pa.category.clone(),
                    score: pa.relevance_score,
                },
            );
            i = i + 1;
        }
        proof {
            let target = pattern_refs(analysis.patterns.deep_view());
            assert(matched_patterns.deep_view() =~= target) by {
                assert forall|k: int| 0 <= k < np implies matched_patterns.deep_view()[k]
                    == target[k] by {
                    assert(matched_patterns.deep_view()[k] == matched_patterns@[k].deep_view());
                    assert(analysis.patterns.deep_view()[k] == analysis.patterns@[k].deep_view());
                }
            }
        }
        let framework = resolve_framework(&project.metadata);
        let now = crate::timeutil::now_unix();
        ProjectContext {
            version: 1,
            name: project.name.clone(),
            project_type: project.project_type.as_str().to_owned(),
            framework,
            dependencies,
            stats: FileStats { total_files: project.files.len(), by_extension },
            matched_patterns,
            created_at: now,
            updated_at: now,
        }
    }

    /// Renders the context file content for a save: the first-seen creation
    /// timestamp of an existing readable context is preserved, the update
    /// timestamp is set to the caller's clock reading, and the result is the
    /// canonical document of the updated value. An existing context file
    /// whose content does not parse fails the save and leaves the value
    /// unchanged.
    pub fn save(&mut self, existing: Option<&String>, now: i64) -> (r: Result<
        String,
        crate::error::McpError,
    >)
        ensures
            match r {
                Ok(doc) => {
                    &&& final(self)@ == (CtxV {
                        created_at: final(self)@.created_at,
                        updated_at: now as int,
                        ..old(self)@
                    })
                    &&& (match existing {
                        None => final(self)@.created_at == old(self)@.created_at,
                        Some(s) => sp_ctx_doc(s@) matches Some(cv) && final(self)@.created_at
                            == cv.created_at,
                    })
                    &&& doc@ == enc_ctx(final(self)@)
                },
                Err(_) => {
                    &&& existing matches Some(s) && sp_ctx_doc(s@) is None
                    &&& *final(self) == *old(self)
                },
            },
    {
        match Self::load(existing) {
            Ok(Some(prev)) => {
                self.created_at = prev.created_at;
            },
            Ok(None) => {},
            Err(e) => {
                return Err(e);
            },
        }
        self.updated_at = now;
        Ok(self.to_json())
    }

    /// Loads a context from the content of its file. Absence of the file is
    /// meaningful, never an error: no content yields an empty result.
    /// Content that does not parse as a context document yields an error,
    /// never a default value.
    pub fn load(content: Option<&String>) -> (r: Result<
        Option<ProjectContext>,
        crate::error::McpError,
    >)
        ensures
            match content {
                None => r matches Ok(None),
                Some(s) => match sp_ctx_doc(s@) {
                    Some(cv) => r matches Ok(Some(c)) && c@ == cv,
                    None => r is Err,
                },
            },
    {
        match content {
            None => Ok(None),
            Some(s) => {
                let chars = crate::strutil::chars_of(s.as_str());
                match parse_context(&chars) {
                    Some(c) => Ok(Some(c)),
                    None => Err(
                        crate::error::McpError::Json(
                            String::from_str("the content is not a context document"),
                        ),
                    ),
                }
            },
        }
    }
}

/// Every numeric field of a context's value fits its machine type, so a
/// rendered context always reads back (see `lemma_ctx_round_trip`).
pub proof fn lemma_ctx_view_fits(c: &ProjectContext)
    ensures
        ctx_fits(c@),
{
    assert forall|k: int| 0 <= k < c@.by_extension.len() implies 0 <= (
    #[trigger] c@.by_extension[k]).1 <= usize::MAX by {
        assert(c@.by_extension[k] == c.stats.by_extension[k]@);
    }
    assert forall|k: int| 0 <= k < c@.matched_patterns.len() implies 0 <= (
    #[trigger] c@.matched_patterns[k]).3 <= u32::MAX by {
        assert(c@.matched_patterns[k] == c.matched_patterns[k]@);
    }
}

// ============================================================================
// Markdown rendering
// ============================================================================

/// The breakdown order: higher counts first, ties by extension name
/// ascending.
pub open spec fn ext_before(a: (Seq<char>, int), b: (Seq<char>, int)) -> bool {
    a.1 > b.1 || (a.1 == b.1 && crate::strutil::lex_lt(a.0, b.0))
}

/// One entry inserted into a breakdown: before the first entry it precedes.
pub open spec fn insert_ext(x: (Seq<char>, int), s: Seq<(Seq<char>, int)>) -> Seq<
    (Seq<char>, int),
>
    decreases s.len(),
{
    if s.len() == 0 {
        seq![x]
    } else if ext_before(x, s[0]) {
        seq![x] + s
    } else {
        seq![s[0]] + insert_ext(x, s.skip(1))
    }
}

/// The histogram ordered for display, by insertion.
pub open spec fn sort_exts(s: Seq<(Seq<char>, int)>) -> Seq<(Seq<char>, int)>
    decreases s.len(),
{
    if s.len() == 0 {
        Seq::empty()
    } else {
        insert_ext(s.last(), sort_exts(s.drop_last()))
    }
}

/// Inserting at the first position whose entry the new one precedes.
proof fn lemma_insert_ext_at(x: (Seq<char>, int), s: Seq<(Seq<char>, int)>, j: int)
    requires
        0 <= j <= s.len(),
        forall|k: int| 0 <= k < j ==> !ext_before(x, #[trigger] s[k]),
        j < s.len() ==> ext_before(x, s[j]),
    ensures
        insert_ext(x, s) == s.take(j) + seq![x] + s.skip(j),
    decreases j,
{
    if s.len() == 0 {
        assert(insert_ext(x, s) =~= s.take(j) + seq![x] + s.skip(j));
    } else if j == 0 {
        if ext_before(x, s[0]) {
            assert(insert_ext(x, s) =~= s.take(0) + seq![x] + s.skip(0));
        } else {
            assert(insert_ext(x, s) =~= s.take(j) + seq![x] + s.skip(j));
        }
    } else {
        assert(!ext_before(x, s[0]));
        lemma_insert_ext_at(x, s.skip(1), j - 1);
        assert(insert_ext(x, s) == seq![s[0]] + insert_ext(x, s.skip(1)));
        assert(s.skip(1).take(j - 1) =~= s.take(j).skip(1));
        assert(s.skip(1).skip(j - 1) =~= s.skip(j));
        assert(insert_ext(x, s) =~= s.take(j) + seq![x] + s.skip(j));
    }
}

/// Whether one entry sorts before another, as executable code.
fn ext_before_exec(a: &ExtCount, b: &ExtCount) -> (r: bool)
    ensures
        r == ext_before(a@, b@),
{
    if a.count > b.count {
        true
    } else if a.count == b.count {
        crate::strutil::str_lex_lt(a.extension.as_str(), b.extension.as_str())
    } else {
        false
    }
}

/// Orders a histogram for display: count descending, extension ascending.
fn sort_exts_exec(s: &Vec<ExtCount>) -> (r: Vec<ExtCount>)
    ensures
        r.deep_view() == sort_exts(s.deep_view()),
{
    let ghost sv = s.deep_view();
    let mut r: Vec<ExtCount> = Vec::new();
    let mut i: usize = 0;
    while i < s.len()
        invariant
            i <= s.len(),
            sv == s.deep_view(),
            sv.len() == s.len(),
            r.deep_view() == sort_exts(sv.take(i as int)),
        decreases s.len() - i,
    {
        let x = s[i].clone();
        proof {
            assert(x@ == sv[i as int]);
        }
        let ghost prev = r.deep_view();
        let ghost prev_vec = r@;
        let mut j: usize = 0;
        let mut found = r.len();
        let mut searching = true;
        while j < r.len() && searching
            invariant
                j <= r@.len(),
                prev == r.deep_view(),
                prev_vec == r@,
                searching ==> found == r@.len() && forall|k: int| 0 <= k < j ==> !ext_before(
                    x@,
                    #[trigger] prev[k],
                ),
                !searching ==> found < r@.len() && ext_before(x@, prev[found as int]) && forall|
                    k: int,
                |
                    0 <= k < found ==> !ext_before(x@, #[trigger] prev[k]),
            decreases r@.len() - j + (if searching { 1int } else { 0int }),
        {
            proof {
                assert(prev[j as int] == r@[j as int].deep_view());
            }
            if ext_before_exec(&x, &r[j]) {
                found = j;
                searching = false;
            } else {
                j = j + 1;
            }
        }
        proof {
            lemma_insert_ext_at(x@, prev, found as int);
        }
        r.insert(found, x);
        proof {
            assert forall|k: int| 0 <= k < prev.len() + 1 implies r.deep_view()[k] == (prev.take(
                found as int,
            ) + seq![x@] + prev.skip(found as int))[k] by {
                assert(r.deep_view()[k] == r@[k].deep_view());
                if k < found {
                    assert(r@[k] == prev_vec[k]);
                    assert(prev[k] == prev_vec[k].deep_view());
                } else if k > found {
                    assert(r@[k] == prev_vec[k - 1]);
                    assert(prev[k - 1] == prev_vec[k - 1].deep_view());
                }
            }
            assert(r.deep_view() =~= insert_ext(x@, prev));
            assert(sv.take(i as int + 1).drop_last() =~= sv.take(i as int));
            assert(sv.take(i as int + 1).last() == sv[i as int]);
        }
        i = i + 1;
    }
    proof {
        assert(sv.take(s.len() as int) =~= sv);
    }
    r
}

/// One breakdown entry, as in `.rs: 3`.
pub open spec fn breakdown_item(e: (Seq<char>, int)) -> Seq<char> {
    "."@ + e.0 + ": "@ + dec_rep(e.1 as nat)
}

/// The breakdown entries joined by commas.
pub open spec fn breakdown_text(s: Seq<(Seq<char>, int)>) -> Seq<char>
    decreases s.len(),
{
    if s.len() == 0 {
        Seq::empty()
    } else if s.len() == 1 {
        breakdown_item(s[0])
    } else {
        breakdown_text(s.drop_last()) + ", "@ + breakdown_item(s.last())
    }
}

/// Renders the breakdown entries joined by commas.
fn render_breakdown(s: &Vec<ExtCount>) -> (r: String)
    requires
        forall|k: int| 0 <= k < s.deep_view().len() ==> (#[trigger] s.deep_view()[k]).1 >= 0,
    ensures
        r@ == breakdown_text(s.deep_view()),
{
    let ghost sv = s.deep_view();
    let mut r = String::new();
    let mut i: usize = 0;
    while i < s.len()
        invariant
            i <= s.len(),
            sv == s.deep_view(),
            sv.len() == s.len(),
            forall|k: int| 0 <= k < sv.len() ==> (#[trigger] sv[k]).1 >= 0,
            r@ =~= breakdown_text(sv.take(i as int)),
        decreases s.len() - i,
    {
        if i > 0 {
            r.append(", ");
        }
        r.append(".");
        r.append(s[i].extension.as_str());
        r.append(": ");
        let n = crate::strutil::usize_to_string(s[i].count);
        r.append(n.as_str());
        proof {
            assert(s@[i as int].deep_view() == sv[i as int]);
            assert(sv.take(i as int + 1).drop_last() =~= sv.take(i as int));
            assert(sv.take(i as int + 1).last() == sv[i as int]);
            assert(r@ =~= breakdown_text(sv.take(i as int + 1)));
        }
        i = i + 1;
    }
    proof {
        assert(sv.take(s.len() as int) =~= sv);
    }
    r
}

/// The production dependencies, in discovery order.
pub open spec fn prod_deps(s: Seq<(Seq<char>, Seq<char>, bool)>) -> Seq<
    (Seq<char>, Seq<char>, bool),
>
    decreases s.len(),
{
    if s.len() == 0 {
        Seq::empty()
    } else if s.last().2 {
        prod_deps(s.drop_last())
    } else {
        prod_deps(s.drop_last()) + seq![s.last()]
    }
}

/// Keeps the production dependencies, in discovery order.
fn production_deps(deps: &Vec<DepSummary>) -> (r: Vec<DepSummary>)
    ensures
        r.deep_view() == prod_deps(deps.deep_view()),
{
    let ghost dv = deps.deep_view();
    let mut r: Vec<DepSummary> = Vec::new();
    let mut i: usize = 0;
    while i < deps.len()
        invariant
            i <= deps.len(),
            dv == deps.deep_view(),
            dv.len() == deps.len(),
            r.deep_view() == prod_deps(dv.take(i as int)),
        decreases deps.len() - i,
    {
        let ghost prev = r.deep_view();
        let ghost prev_vec = r@;
        if !deps[i].dev {
            r.push(deps[i].clone());
            proof {
                assert forall|k: int| 0 <= k < prev.len() + 1 implies r.deep_view()[k] == (prev
                    + seq![dv[i as int]])[k] by {
                    assert(r.deep_view()[k] == r@[k].deep_view());
                    if k < prev.len() {
                        assert(r@[k] == prev_vec[k]);
                        assert(prev[k] == prev_vec[k].deep_view());
                    } else {
                        assert(deps@[i as int].deep_view() == dv[i as int]);
                    }
                }
                assert(r.deep_view() =~= prev + seq![dv[i as int]]);
            }
        }
        proof {
            assert(deps@[i as int].deep_view() == dv[i as int]);
            assert(dv.take(i as int + 1).drop_last() =~= dv.take(i as int));
            assert(dv.take(i as int + 1).last() == dv[i as int]);
        }
        i = i + 1;
    }
    proof {
        assert(dv.take(deps.len() as int) =~= dv);
    }
    r
}

/// One dependency line of the rendering.
pub open spec fn dep_line(d: (Seq<char>, Seq<char>, bool)) -> Seq<char> {
    "- "@ + d.0 + " ("@ + d.1 + ")\n"@
}

/// The dependency lines, in order.
pub open spec fn dep_lines(s: Seq<(Seq<char>, Seq<char>, bool)>) -> Seq<char>
    decreases s.len(),
{
    if s.len() == 0 {
        Seq::empty()
    } else {
        dep_lines(s.drop_last()) + dep_line(s.last())
    }
}

/// Renders the dependency lines.
fn render_dep_lines(s: &Vec<DepSummary>) -> (r: String)
    ensures
        r@ == dep_lines(s.deep_view()),
{
    let ghost sv = s.deep_view();
    let mut r = String::new();
    let mut i: usize = 0;
    while i < s.len()
        invariant
            i <= s.len(),
            sv == s.deep_view(),
            sv.len() == s.len(),
            r@ =~= dep_lines(sv.take(i as int)),
        decreases s.len() - i,
    {
        r.append("- ");
        r.append(s[i].name.as_str());
        r.append(" (");
        r.append(s[i].version.as_str());
        r.append(")\n");
        proof {
            assert(s@[i as int].deep_view() == sv[i as int]);
            assert(sv.take(i as int + 1).drop_last() =~= sv.take(i as int));
            assert(sv.take(i as int + 1).last() == sv[i as int]);
            assert(r@ =~= dep_lines(sv.take(i as int + 1)));
        }
        i = i + 1;
    }
    proof {
        assert(sv.take(s.len() as int) =~= sv);
    }
    r
}

/// One matched pattern line of the rendering.
pub open spec fn pat_line(p: (Seq<char>, Seq<char>, Seq<char>, int)) -> Seq<char> {
    "- **"@ + p.1 + "** ["@ + p.2 + "] (score: "@ + crate::strutil::score_rep(p.3) + ")\n"@
}

/// The matched pattern lines, in order.
pub open spec fn pat_lines(s: Seq<(Seq<char>, Seq<char>, Seq<char>, int)>) -> Seq<char>
    decreases s.len(),
{
    if s.len() == 0 {
        Seq::empty()
    } else {
        pat_lines(s.drop_last()) + pat_line(s.last())
    }
}

/// Renders the matched pattern lines.
fn render_pat_lines(s: &Vec<PatternRef>) -> (r: String)
    ensures
        r@ == pat_lines(s.deep_view()),
{
    let ghost sv = s.deep_view();
    let mut r = String::new();
    let mut i: usize = 0;
    while i < s.len()
        invariant
            i <= s.len(),
            sv == s.deep_view(),
            sv.len() == s.len(),
            r@ =~= pat_lines(sv.take(i as int)),
        decreases s.len() - i,
    {
        r.append("- **");
        r.append(s[i].title.as_str());
        r.append("** [");
        r.append(s[i].category.as_str());
        r.append("] (score: ");
        let sc = crate::strutil::render_score(s[i].score);
        r.append(sc.as_str());
        r.append(")\n");
        proof {
            assert(s@[i as int].deep_view() == sv[i as int]);
            assert(sv.take(i as int + 1).drop_last() =~= sv.take(i as int));
            assert(sv.take(i as int + 1).last() == sv[i as int]);
            assert(r@ =~= pat_lines(sv.take(i as int + 1)));
        }
        i = i + 1;
    }
    proof {
        assert(sv.take(s.len() as int) =~= sv);
    }
    r
}

/// The deterministic Markdown rendering of a context: a title line; one line
/// with type and resolved framework (a fixed placeholder when absent); the
/// file count with a breakdown sorted by count descending, ties by extension
/// ascending; the production dependencies in discovery order; the matched
/// patterns in ranked order with two-decimal scores; and the update
/// timestamp.
pub open spec fn render_ctx(c: CtxV) -> Seq<char> {
    "# Project: "@ + c.name + "\n\n**Type:** "@ + c.project_type + " | **Framework:** "@ + (
    match c.framework {
        Some(f) => f,
        None => "n/a"@,
    }) + "\n**Files:** "@ + dec_rep(c.total_files as nat) + " total"@ + (
    if c.by_extension.len() == 0 {
        "\n"@
    } else {
        " ("@ + breakdown_text(sort_exts(c.by_extension)) + ")\n"@
    }) + (if prod_deps(c.dependencies).len() == 0 {
        Seq::<char>::empty()
    } else {
        "\n## Dependencies ("@ + dec_rep(prod_deps(c.dependencies).len()) + ")\n\n"@ + dep_lines(
            prod_deps(c.dependencies),
        )
    }) + (if c.matched_patterns.len() == 0 {
        Seq::<char>::empty()
    } else {
        "\n## Matched Patterns ("@ + dec_rep(c.matched_patterns.len()) + ")\n\n"@ + pat_lines(
            c.matched_patterns,
        )
    }) + "\n---\n_Last updated: "@ + crate::timeutil::timestamp_text_of(c.updated_at) + "_\n"@
}

impl ProjectContext {
    /// Renders the context as deterministic Markdown for injection into an
    /// assistant's working memory; see [`render_ctx`] for the exact shape.
    #[verifier::spinoff_prover]
    #[verifier::rlimit(100)]
    pub fn format_for_claude(&self) -> (r: String)
        ensures
            r@ == render_ctx(self@),
    {
        let mut out = String::new();
        out.append("# Project: ");
        out.append(self.name.as_str());
        out.append("\n\n**Type:** ");
        out.append(self.project_type.as_str());
        out.append(" | **Framework:** ");
        match &self.framework {
            Some(f) => out.append(f.as_str()),
            None => out.append("n/a"),
        }
        out.append("\n**Files:** ");
        let tf = crate::strutil::usize_to_string(self.stats.total_files);
        out.append(tf.as_str());
        out.append(" total");
        if self.stats.by_extension.len() == 0 {
            out.append("\n");
        } else {
            out.append(" (");
            let sorted = sort_exts_exec(&self.stats.by_extension);
            proof {
                lemma_sort_exts_nonneg(self.stats.by_extension.deep_view());
            }
            let breakdown = render_breakdown(&sorted);
            out.append(breakdown.as_str());
            out.append(")\n");
        }
        let pd = production_deps(&self.dependencies);
        if pd.len() > 0 {
            out.append("\n## Dependencies (");
            let n = crate::strutil::usize_to_string(pd.len());
            proof {
                assert(pd.deep_view().len() == pd@.len());
            }
            out.append(n.as_str());
            out.append(")\n\n");
            let lines = render_dep_lines(&pd);
            out.append(lines.as_str());
        }
        if self.matched_patterns.len() > 0 {
            out.append("\n## Matched Patterns (");
            let n = crate::strutil::usize_to_string(self.matched_patterns.len());
            out.append(n.as_str());
            out.append(")\n\n");
            let lines = render_pat_lines(&self.matched_patterns);
            out.append(lines.as_str());
        }
        out.append("\n---\n_Last updated: ");
        let ts = crate::timeutil::render_timestamp(self.updated_at);
        out.append(ts.as_str());
        out.append("_\n");
        proof {
            assert(out@ =~= render_ctx(self@));
        }
        out
    }
}

/// Every entry of an insertion-ordered histogram keeps its count, so
/// nonnegative counts stay nonnegative.
proof fn lemma_insert_ext_nonneg(x: (Seq<char>, int), s: Seq<(Seq<char>, int)>)
    requires
        x.1 >= 0,
        forall|k: int| 0 <= k < s.len() ==> (#[trigger] s[k]).1 >= 0,
    ensures
        forall|k: int| 0 <= k < insert_ext(x, s).len() ==> (#[trigger] insert_ext(x, s)[k]).1
            >= 0,
    decreases s.len(),
{
    if s.len() == 0 {
    } else if ext_before(x, s[0]) {
        assert forall|k: int| 0 <= k < insert_ext(x, s).len() implies (#[trigger] insert_ext(
            x,
            s,
        )[k]).1 >= 0 by {
            if k > 0 {
                assert(insert_ext(x, s)[k] == s[k - 1]);
            }
        }
    } else {
        assert forall|k: int| 0 <= k < s.skip(1).len() implies (#[trigger] s.skip(1)[k]).1
            >= 0 by {
            assert(s.skip(1)[k] == s[k + 1]);
        }
        lemma_insert_ext_nonneg(x, s.skip(1));
        assert forall|k: int| 0 <= k < insert_ext(x, s).len() implies (#[trigger] insert_ext(
            x,
            s,
        )[k]).1 >= 0 by {
            if k > 0 {
                assert(insert_ext(x, s)[k] == insert_ext(x, s.skip(1))[k - 1]);
            }
        }
    }
}

/// Sorting a histogram with nonnegative counts keeps every count
/// nonnegative.
proof fn lemma_sort_exts_nonneg(s: Seq<(Seq<char>, int)>)
    requires
        forall|k: int| 0 <= k < s.len() ==> (#[trigger] s[k]).1 >= 0,
    ensures
        forall|k: int| 0 <= k < sort_exts(s).len() ==> (#[trigger] sort_exts(s)[k]).1 >= 0,
    decreases s.len(),
{
    if s.len() > 0 {
        assert forall|k: int| 0 <= k < s.drop_last().len() implies (
        #[trigger] s.drop_last()[k]).1 >= 0 by {
            assert(s.drop_last()[k] == s[k]);
        }
        lemma_sort_exts_nonneg(s.drop_last());
        lemma_insert_ext_nonneg(s.last(), sort_exts(s.drop_last()));
    }
}

} // verus!
