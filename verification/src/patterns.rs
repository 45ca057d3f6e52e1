//! Pattern store and matcher: the catalog of reusable code patterns, with
//! validated identifiers and a deterministic relevance ranking.

use vstd::prelude::*;

verus! {

use crate::error::TrainingError;
use crate::strutil::{has_dotdot, lex_lt, str_eq};
use crate::types::{CodePattern, PatternV};

/// Whether an identity-bearing input is safe to derive file or cache names
/// from: no path separators and no `..` segment.
pub open spec fn valid_ident(s: Seq<char>) -> bool {
    !s.contains('/') && !s.contains('\\') && !has_dotdot(s)
}

/// Whether some pattern in the sequence bears the given id.
pub open spec fn has_id(s: Seq<PatternV>, id: Seq<char>) -> bool {
    exists|k: int| 0 <= k < s.len() && (#[trigger] s[k]).id == id
}

/// Whether the pattern ids are pairwise distinct.
pub open spec fn ids_unique(s: Seq<PatternV>) -> bool {
    forall|i: int, j: int| 0 <= i < j < s.len() ==> (#[trigger] s[i]).id != (#[trigger] s[j]).id
}

/// Whether the input holds a path separator (but no `..` segment, which is
/// reported as a traversal attempt instead).
pub open spec fn has_separator(s: Seq<char>) -> bool {
    s.contains('/') || s.contains('\\')
}

/// Checks one identity-bearing input for path safety: a `..` segment means
/// a traversal attempt, a separator means an unusable name; either way the
/// input is rejected, never silently sanitized.
fn ident_flaw(s: &str) -> (r: (bool, bool))
    ensures
        r.0 == has_dotdot(s@),
        r.1 == has_separator(s@),
        valid_ident(s@) <==> (!r.0 && !r.1),
{
    let dots = crate::strutil::contains_dotdot(s);
    let seps = crate::strutil::contains_char(s, '/') || crate::strutil::contains_char(s, '\\');
    (dots, seps)
}

/// Validates a framework name against the path-safety policy.
fn check_framework(s: &str) -> (r: Option<TrainingError>)
    ensures
        match r {
            None => valid_ident(s@),
            Some(e) => {
                &&& !valid_ident(s@)
                &&& (has_dotdot(s@) ==> (e matches TrainingError::PathTraversal(v) && v@ == s@))
                &&& (!has_dotdot(s@) ==> (e matches TrainingError::InvalidFrameworkName {
                    name,
                    reason,
                } && name@ == s@))
            },
        },
{
    let (dots, seps) = ident_flaw(s);
    if dots {
        Some(TrainingError::PathTraversal(s.to_owned()))
    } else if seps {
        Some(
            TrainingError::InvalidFrameworkName {
                name: s.to_owned(),
                reason: String::from_str("contains a path separator"),
            },
        )
    } else {
        None
    }
}

/// Validates a pattern id against the path-safety policy.
fn check_pattern_id(s: &str) -> (r: Option<TrainingError>)
    ensures
        match r {
            None => valid_ident(s@),
            Some(e) => {
                &&& !valid_ident(s@)
                &&& (has_dotdot(s@) ==> (e matches TrainingError::PathTraversal(v) && v@ == s@))
                &&& (!has_dotdot(s@) ==> (e matches TrainingError::InvalidPatternId { id, reason }
                    && id@ == s@))
            },
        },
{
    let (dots, seps) = ident_flaw(s);
    if dots {
        Some(TrainingError::PathTraversal(s.to_owned()))
    } else if seps {
        Some(
            TrainingError::InvalidPatternId {
                id: s.to_owned(),
                reason: String::from_str("contains a path separator"),
            },
        )
    } else {
        None
    }
}

/// Validates a category name against the path-safety policy.
fn check_category(s: &str) -> (r: Option<TrainingError>)
    ensures
        match r {
            None => valid_ident(s@),
            Some(e) => {
                &&& !valid_ident(s@)
                &&& (has_dotdot(s@) ==> (e matches TrainingError::PathTraversal(v) && v@ == s@))
                &&& (!has_dotdot(s@) ==> (e matches TrainingError::InvalidCategory { name, reason }
                    && name@ == s@))
            },
        },
{
    let (dots, seps) = ident_flaw(s);
    if dots {
        Some(TrainingError::PathTraversal(s.to_owned()))
    } else if seps {
        Some(
            TrainingError::InvalidCategory {
                name: s.to_owned(),
                reason: String::from_str("contains a path separator"),
            },
        )
    } else {
        None
    }
}

// ============================================================================
// Relevance scoring and ranking
// ============================================================================

/// How many of the pattern's tags occur in the query's tag set.
pub open spec fn tag_intersection(pt: Seq<Seq<char>>, qt: Seq<Seq<char>>) -> int
    decreases pt.len(),
{
    if pt.len() == 0 {
        0
    } else {
        tag_intersection(pt.drop_last(), qt) + if qt.contains(pt.last()) {
            1int
        } else {
            0int
        }
    }
}

/// The additive relevance score: an exact framework match weighs most, then
/// a category found among the query tags, then the tag-set intersection.
pub open spec fn spec_score(p: PatternV, fw: Seq<char>, tags: Seq<Seq<char>>) -> int {
    (if p.framework == fw {
        100int
    } else {
        0int
    }) + (if tags.contains(p.category) {
        10int
    } else {
        0int
    }) + tag_intersection(p.tags, tags)
}

/// The ranking order: score descending, ties by usage count descending,
/// then update time descending, then id ascending — a total order, so the
/// ranking is reproducible.
pub open spec fn rank_before(a: PatternV, b: PatternV, fw: Seq<char>, tags: Seq<Seq<char>>) -> bool {
    let sa = spec_score(a, fw, tags);
    let sb = spec_score(b, fw, tags);
    sa > sb || (sa == sb && (a.usage_count > b.usage_count || (a.usage_count == b.usage_count && (
    a.updated_at > b.updated_at || (a.updated_at == b.updated_at && lex_lt(a.id, b.id))))))
}

/// One pattern inserted into a ranking: before the first entry it precedes.
pub open spec fn insert_ranked(
    x: PatternV,
    s: Seq<PatternV>,
    fw: Seq<char>,
    tags: Seq<Seq<char>>,
) -> Seq<PatternV>
    decreases s.len(),
{
    if s.len() == 0 {
        seq![x]
    } else if rank_before(x, s[0], fw, tags) {
        seq![x] + s
    } else {
        seq![s[0]] + insert_ranked(x, s.skip(1), fw, tags)
    }
}

/// The catalog ordered for a query, by insertion.
pub open spec fn rank_sort(s: Seq<PatternV>, fw: Seq<char>, tags: Seq<Seq<char>>) -> Seq<PatternV>
    decreases s.len(),
{
    if s.len() == 0 {
        Seq::empty()
    } else {
        insert_ranked(s.last(), rank_sort(s.drop_last(), fw, tags), fw, tags)
    }
}

/// The search result: the whole catalog ranked for the query, bounded to the
/// ten most relevant patterns.
pub open spec fn spec_search(s: Seq<PatternV>, fw: Seq<char>, tags: Seq<Seq<char>>) -> Seq<
    PatternV,
> {
    let ranked = rank_sort(s, fw, tags);
    if ranked.len() <= 10 {
        ranked
    } else {
        ranked.take(10)
    }
}

/// Inserting at the first position whose entry the new one precedes.
proof fn lemma_insert_ranked_at(
    x: PatternV,
    s: Seq<PatternV>,
    fw: Seq<char>,
    tags: Seq<Seq<char>>,
    j: int,
)
    requires
        0 <= j <= s.len(),
        forall|k: int| 0 <= k < j ==> !rank_before(x, #[trigger] s[k], fw, tags),
        j < s.len() ==> rank_before(x, s[j], fw, tags),
    ensures
        insert_ranked(x, s, fw, tags) == s.take(j) + seq![x] + s.skip(j),
    decreases j,
{
    if s.len() == 0 {
        assert(insert_ranked(x, s, fw, tags) =~= s.take(j) + seq![x] + s.skip(j));
    } else if j == 0 {
        if rank_before(x, s[0], fw, tags) {
            assert(insert_ranked(x, s, fw, tags) =~= s.take(0) + seq![x] + s.skip(0));
        } else {
            assert(insert_ranked(x, s, fw, tags) =~= s.take(j) + seq![x] + s.skip(j));
        }
    } else {
        assert(!rank_before(x, s[0], fw, tags));
        lemma_insert_ranked_at(x, s.skip(1), fw, tags, j - 1);
        assert(insert_ranked(x, s, fw, tags) == seq![s[0]] + insert_ranked(
            x,
            s.skip(1),
            fw,
            tags,
        ));
        assert(s.skip(1).take(j - 1) =~= s.take(j).skip(1));
        assert(s.skip(1).skip(j - 1) =~= s.skip(j));
        assert(insert_ranked(x, s, fw, tags) =~= s.take(j) + seq![x] + s.skip(j));
    }
}

/// Whether a sequence is ranked: no later element strictly precedes an
/// earlier one.
pub open spec fn ranked_sorted(s: Seq<PatternV>, fw: Seq<char>, tags: Seq<Seq<char>>) -> bool {
    forall|i: int, j: int| 0 <= i < j < s.len() ==> !rank_before(#[trigger] s[j], #[trigger] s[i], fw, tags)
}

/// The ranking order is asymmetric.
proof fn lemma_rank_before_asymmetric(a: PatternV, b: PatternV, fw: Seq<char>, tags: Seq<Seq<char>>)
    requires
        rank_before(a, b, fw, tags),
    ensures
        !rank_before(b, a, fw, tags),
{
    if lex_lt(a.id, b.id) {
        crate::strutil::lemma_lex_lt_asymmetric(a.id, b.id);
    }
}

/// The ranking order is transitive.
proof fn lemma_rank_before_transitive(
    a: PatternV,
    b: PatternV,
    c: PatternV,
    fw: Seq<char>,
    tags: Seq<Seq<char>>,
)
    requires
        rank_before(a, b, fw, tags),
        rank_before(b, c, fw, tags),
    ensures
        rank_before(a, c, fw, tags),
{
    if lex_lt(a.id, b.id) && lex_lt(b.id, c.id) {
        crate::strutil::lemma_lex_lt_transitive(a.id, b.id, c.id);
    }
}

/// Whether the query tag set holds the given tag.
fn tags_contain(tags: &Vec<String>, s: &str) -> (r: bool)
    ensures
        r == tags.deep_view().contains(s@),
{
    let mut i: usize = 0;
    while i < tags.len()
        invariant
            i <= tags.len(),
            forall|k: int| 0 <= k < i ==> tags.deep_view()[k] != s@,
        decreases tags.len() - i,
    {
        if str_eq(tags[i].as_str(), s) {
            proof {
                assert(tags.deep_view()[i as int] == tags@[i as int]@);
            }
            return true;
        }
        proof {
            assert(tags.deep_view()[i as int] == tags@[i as int]@);
        }
        i = i + 1;
    }
    proof {
        if tags.deep_view().contains(s@) {
            let k = choose|k: int| 0 <= k < tags.deep_view().len() && tags.deep_view()[k] == s@;
            assert(tags.deep_view()[k] != s@);
        }
    }
    false
}

/// Computes the relevance score of a pattern for a query.
fn score_exec(p: &CodePattern, fw: &str, tags: &Vec<String>) -> (r: u128)
    ensures
        r as int == spec_score(p@, fw@, tags.deep_view()),
{
    let base: u128 = if str_eq(p.framework.as_str(), fw) {
        100
    } else {
        0
    };
    let cat: u128 = if tags_contain(tags, p.category.as_str()) {
        10
    } else {
        0
    };
    let ghost pt = p.tags.deep_view();
    let mut inter: usize = 0;
    let mut i: usize = 0;
    while i < p.tags.len()
        invariant
            i <= p.tags.len(),
            pt == p.tags.deep_view(),
            pt.len() == p.tags.len(),
            inter <= i,
            inter as int == tag_intersection(pt.take(i as int), tags.deep_view()),
        decreases p.tags.len() - i,
    {
        if tags_contain(tags, p.tags[i].as_str()) {
            inter = inter + 1;
        }
        proof {
            assert(pt.take(i as int + 1).drop_last() =~= pt.take(i as int));
            assert(pt.take(i as int + 1).last() == pt[i as int]);
            assert(pt[i as int] == p.tags@[i as int]@);
        }
        i = i + 1;
    }
    proof {
        assert(pt.take(p.tags.len() as int) =~= pt);
    }
    base + cat + (inter as u128)
}

/// Whether one pattern ranks before another for a query.
fn rank_before_exec(a: &CodePattern, b: &CodePattern, fw: &str, tags: &Vec<String>) -> (r: bool)
    ensures
        r == rank_before(a@, b@, fw@, tags.deep_view()),
{
    let sa = score_exec(a, fw, tags);
    let sb = score_exec(b, fw, tags);
    if sa > sb {
        true
    } else if sa < sb {
        false
    } else if a.usage_count > b.usage_count {
        true
    } else if a.usage_count < b.usage_count {
        false
    } else if a.updated_at > b.updated_at {
        true
    } else if a.updated_at < b.updated_at {
        false
    } else {
        crate::strutil::str_lex_lt(a.id.as_str(), b.id.as_str())
    }
}

// ============================================================================
// The store
// ============================================================================

/// The catalog of code patterns. Identity is the pattern id, unique within
/// the store; every mutation goes through the store's own operations.
pub struct PatternStore {
    /// The held patterns, in insertion order.
    pub patterns: Vec<CodePattern>,
}

impl PatternStore {
    /// Whether the store is well formed: pattern ids are pairwise distinct.
    pub open spec fn wf(&self) -> bool {
        ids_unique(self.patterns.deep_view())
    }

    /// An empty store.
    pub fn new() -> (r: Self)
        ensures
            r.patterns.deep_view() == Seq::<PatternV>::empty(),
            r.wf(),
    {
        let r = PatternStore { patterns: Vec::new() };
        proof {
            assert(r.patterns.deep_view() =~= Seq::<PatternV>::empty());
        }
        r
    }

    /// The index of the pattern bearing the given id, if any.
    fn index_of(&self, id: &str) -> (r: Option<usize>)
        ensures
            match r {
                Some(k) => k < self.patterns.deep_view().len()
                    && self.patterns.deep_view()[k as int].id == id@,
                None => !has_id(self.patterns.deep_view(), id@),
            },
    {
        let ghost pv = self.patterns.deep_view();
        let mut i: usize = 0;
        while i < self.patterns.len()
            invariant
                i <= self.patterns.len(),
                pv == self.patterns.deep_view(),
                pv.len() == self.patterns.len(),
                forall|k: int| 0 <= k < i ==> (#[trigger] pv[k]).id != id@,
            decreases self.patterns.len() - i,
        {
            proof {
                assert(pv[i as int] == self.patterns@[i as int]@);
            }
            if str_eq(self.patterns[i].id.as_str(), id) {
                return Some(i);
            }
            i = i + 1;
        }
        proof {
            if has_id(pv, id@) {
                let k = choose|k: int| 0 <= k < pv.len() && pv[k].id == id@;
                assert(pv[k].id != id@);
            }
        }
        None
    }

    /// Adds a pattern. The framework name, pattern id, and category are
    /// validated against the path-safety policy before anything else, a
    /// duplicate id is rejected, and on success the pattern is appended.
    pub fn add(&mut self, p: CodePattern) -> (r: Result<(), TrainingError>)
        requires
            old(self).wf(),
        ensures
            final(self).wf(),
            match r {
                Ok(()) => {
                    &&& valid_ident(p@.framework) && valid_ident(p@.id) && valid_ident(p@.category)
                    &&& !has_id(old(self).patterns.deep_view(), p@.id)
                    &&& final(self).patterns.deep_view() == old(self).patterns.deep_view()
                        + seq![p@]
                },
                Err(e) => {
                    &&& *final(self) == *old(self)
                    &&& !(valid_ident(p@.framework) && valid_ident(p@.id) && valid_ident(
                        p@.category,
                    )) || has_id(old(self).patterns.deep_view(), p@.id)
                    &&& (valid_ident(p@.framework) && valid_ident(p@.id) && valid_ident(
                        p@.category,
                    ) ==> (e matches TrainingError::DuplicatePattern(v) && v@ == p@.id))
                },
            },
    {
        if let Some(e) = check_framework(p.framework.as_str()) {
            return Err(e);
        }
        if let Some(e) = check_pattern_id(p.id.as_str()) {
            return Err(e);
        }
        if let Some(e) = check_category(p.category.as_str()) {
            return Err(e);
        }
        if let Some(_k) = self.index_of(p.id.as_str()) {
            return Err(TrainingError::DuplicatePattern(p.id.clone()));
        }
        let ghost prev = self.patterns.deep_view();
        let ghost prev_vec = self.patterns@;
        let ghost pv = p@;
        self.patterns.push(p);
        proof {
            assert forall|k: int| 0 <= k < prev.len() + 1 implies self.patterns.deep_view()[k] == (
            prev + seq![pv])[k] by {
                assert(self.patterns.deep_view()[k] == self.patterns@[k]@);
                if k < prev.len() {
                    assert(self.patterns@[k] == prev_vec[k]);
                    assert(prev[k] == prev_vec[k]@);
                }
            }
            assert(self.patterns.deep_view() =~= prev + seq![pv]);
        }
        Ok(())
    }

    /// Finds the pattern bearing the given id, failing when it is absent.
    pub fn find(&self, id: &str) -> (r: Result<CodePattern, TrainingError>)
        ensures
            match r {
                Ok(c) => exists|k: int|
                    0 <= k < self.patterns.deep_view().len() && c@
                        == #[trigger] self.patterns.deep_view()[k] && c@.id == id@,
                Err(e) => !has_id(self.patterns.deep_view(), id@) && (e
                    matches TrainingError::PatternNotFound(v) && v@ == id@),
            },
    {
        match self.index_of(id) {
            Some(k) => {
                let c = self.patterns[k].clone();
                proof {
                    assert(self.patterns.deep_view()[k as int] == self.patterns@[k as int]@);
                }
                Ok(c)
            },
            None => Err(TrainingError::PatternNotFound(id.to_owned())),
        }
    }

    /// Removes the pattern bearing the given id, failing when it is absent.
    pub fn remove(&mut self, id: &str) -> (r: Result<(), TrainingError>)
        requires
            old(self).wf(),
        ensures
            final(self).wf(),
            match r {
                Ok(()) => exists|k: int|
                    {
                        &&& 0 <= k < old(self).patterns.deep_view().len()
                        &&& (#[trigger] old(self).patterns.deep_view()[k]).id == id@
                        &&& final(self).patterns.deep_view() == old(
                            self,
                        ).patterns.deep_view().remove(k)
                    },
                Err(e) => {
                    &&& *final(self) == *old(self)
                    &&& !has_id(old(self).patterns.deep_view(), id@)
                    &&& e matches TrainingError::PatternNotFound(v) && v@ == id@
                },
            },
    {
        match self.index_of(id) {
            Some(k) => {
                let ghost prev = self.patterns.deep_view();
                let ghost prev_vec = self.patterns@;
                self.patterns.remove(k);
                proof {
                    assert forall|q: int| 0 <= q < prev.len() - 1 implies self.patterns.deep_view()[q]
                        == prev.remove(k as int)[q] by {
                        assert(self.patterns.deep_view()[q] == self.patterns@[q]@);
                        if q < k {
                            assert(self.patterns@[q] == prev_vec[q]);
                            assert(prev[q] == prev_vec[q]@);
                        } else {
                            assert(self.patterns@[q] == prev_vec[q + 1]);
                            assert(prev[q + 1] == prev_vec[q + 1]@);
                        }
                    }
                    assert(self.patterns.deep_view() =~= prev.remove(k as int));
                }
                Ok(())
            },
            None => Err(TrainingError::PatternNotFound(id.to_owned())),
        }
    }

    /// Replaces the pattern bearing the same id as `p`, failing when it is
    /// absent; this is the only mutation path for an existing pattern.
    pub fn update(&mut self, p: CodePattern) -> (r: Result<(), TrainingError>)
        requires
            old(self).wf(),
        ensures
            final(self).wf(),
            match r {
                Ok(()) => exists|k: int|
                    {
                        &&& 0 <= k < old(self).patterns.deep_view().len()
                        &&& (#[trigger] old(self).patterns.deep_view()[k]).id == p@.id
                        &&& final(self).patterns.deep_view() == old(
                            self,
                        ).patterns.deep_view().update(k, p@)
                    },
                Err(e) => {
                    &&& *final(self) == *old(self)
                    &&& !has_id(old(self).patterns.deep_view(), p@.id)
                    &&& (e matches TrainingError::PatternNotFound(v) && v@ == p@.id)
                },
            },
    {
        match self.index_of(p.id.as_str()) {
            Some(k) => {
                let ghost prev = self.patterns.deep_view();
                let ghost prev_vec = self.patterns@;
                let ghost pv = p@;
                self.patterns.set(k, p);
                proof {
                    assert forall|q: int| 0 <= q < prev.len() implies self.patterns.deep_view()[q]
                        == prev.update(k as int, pv)[q] by {
                        assert(self.patterns.deep_view()[q] == self.patterns@[q]@);
                        if q != k {
                            assert(self.patterns@[q] == prev_vec[q]);
                            assert(prev[q] == prev_vec[q]@);
                        }
                    }
                    assert(self.patterns.deep_view() =~= prev.update(k as int, pv));
                    assert forall|i: int, j: int|
                        0 <= i < j < self.patterns.deep_view().len() implies (
                    #[trigger] self.patterns.deep_view()[i]).id != (
                    #[trigger] self.patterns.deep_view()[j]).id by {
                        assert(prev[i].id != prev[j].id);
                    }
                }
                Ok(())
            },
            None => Err(TrainingError::PatternNotFound(p.id.clone())),
        }
    }

    /// Records one successful application of a pattern: its usage count goes
    /// up by one (saturating at the maximum) and its update time is set to
    /// the caller's clock reading.
    pub fn record_usage(&mut self, id: &str, now: i64) -> (r: Result<(), TrainingError>)
        requires
            old(self).wf(),
        ensures
            final(self).wf(),
            match r {
                Ok(()) => exists|k: int|
                    {
                        &&& 0 <= k < old(self).patterns.deep_view().len()
                        &&& (#[trigger] old(self).patterns.deep_view()[k]).id == id@
                        &&& final(self).patterns.deep_view() == old(
                            self,
                        ).patterns.deep_view().update(
                            k,
                            PatternV {
                                usage_count: if old(self).patterns.deep_view()[k].usage_count
                                    < usize::MAX {
                                    old(self).patterns.deep_view()[k].usage_count + 1
                                } else {
                                    usize::MAX as int
                                },
                                updated_at: now as int,
                                ..old(self).patterns.deep_view()[k]
                            },
                        )
                    },
                Err(e) => {
                    &&& *final(self) == *old(self)
                    &&& !has_id(old(self).patterns.deep_view(), id@)
                    &&& (e matches TrainingError::PatternNotFound(v) && v@ == id@)
                },
            },
    {
        match self.index_of(id) {
            Some(k) => {
                let mut p = self.patterns[k].clone();
                if p.usage_count < usize::MAX {
                    p.usage_count = p.usage_count + 1;
                }
                p.updated_at = now;
                let ghost prev = self.patterns.deep_view();
                let ghost prev_vec = self.patterns@;
                let ghost pv = p@;
                self.patterns.set(k, p);
                proof {
                    assert forall|q: int| 0 <= q < prev.len() implies self.patterns.deep_view()[q]
                        == prev.update(k as int, pv)[q] by {
                        assert(self.patterns.deep_view()[q] == self.patterns@[q]@);
                        if q != k {
                            assert(self.patterns@[q] == prev_vec[q]);
                            assert(prev[q] == prev_vec[q]@);
                        }
                    }
                    assert(self.patterns.deep_view() =~= prev.update(k as int, pv));
                    assert(pv =~= PatternV {
                        usage_count: if prev[k as int].usage_count < usize::MAX {
                            prev[k as int].usage_count + 1
                        } else {
                            usize::MAX as int
                        },
                        updated_at: now as int,
                        ..prev[k as int]
                    });
                    assert forall|i: int, j: int|
                        0 <= i < j < self.patterns.deep_view().len() implies (
                    #[trigger] self.patterns.deep_view()[i]).id != (
                    #[trigger] self.patterns.deep_view()[j]).id by {
                        assert(prev[i].id != prev[j].id);
                    }
                }
                Ok(())
            },
            None => Err(TrainingError::PatternNotFound(id.to_owned())),
        }
    }

    /// Ranks the catalog for a query and returns the bounded result. The
    /// ranking is a function of the catalog and the query alone, so repeated
    /// calls with identical inputs return identical orderings.
    pub fn search(&self, framework: &str, tags: &Vec<String>) -> (r: Vec<CodePattern>)
        ensures
            r.deep_view() == spec_search(
                self.patterns.deep_view(),
                framework@,
                tags.deep_view(),
            ),
            ranked_sorted(r.deep_view(), framework@, tags.deep_view()),
    {
        let ghost pv = self.patterns.deep_view();
        let ghost fw = framework@;
        let ghost qt = tags.deep_view();
        let mut sorted: Vec<CodePattern> = Vec::new();
        let mut i: usize = 0;
        while i < self.patterns.len()
            invariant
                i <= self.patterns.len(),
                pv == self.patterns.deep_view(),
                fw == framework@,
                qt == tags.deep_view(),
                pv.len() == self.patterns.len(),
                sorted.deep_view() == rank_sort(pv.take(i as int), fw, qt),
                ranked_sorted(sorted.deep_view(), fw, qt),
            decreases self.patterns.len() - i,
        {
            let x = self.patterns[i].clone();
            proof {
                assert(self.patterns@[i as int]@ == pv[i as int]);
            }
            let ghost prev = sorted.deep_view();
            let ghost prev_vec = sorted@;
            let mut j: usize = 0;
            let mut found = sorted.len();
            let mut searching = true;
            while j < sorted.len() && searching
                invariant
                    j <= sorted@.len(),
                    prev == sorted.deep_view(),
                    prev_vec == sorted@,
                    x@ == pv[i as int],
                    fw == framework@,
                    qt == tags.deep_view(),
                    searching ==> found == sorted@.len() && forall|k: int|
                        0 <= k < j ==> !rank_before(x@, #[trigger] prev[k], fw, qt),
                    !searching ==> found < sorted@.len() && rank_before(
                        x@,
                        prev[found as int],
                        fw,
                        qt,
                    ) && forall|k: int| 0 <= k < found ==> !rank_before(
                        x@,
                        #[trigger] prev[k],
                        fw,
                        qt,
                    ),
                decreases sorted@.len() - j + (if searching {
                    1int
                } else {
                    0int
                }),
            {
                proof {
                    assert(prev[j as int] == sorted@[j as int]@);
                }
                if rank_before_exec(&x, &sorted[j], framework, tags) {
                    found = j;
                    searching = false;
                } else {
                    j = j + 1;
                }
            }
            proof {
                lemma_insert_ranked_at(x@, prev, fw, qt, found as int);
            }
            sorted.insert(found, x);
            proof {
                assert forall|k: int| 0 <= k < prev.len() + 1 implies sorted.deep_view()[k] == (
                prev.take(found as int) + seq![pv[i as int]] + prev.skip(found as int))[k] by {
                    assert(sorted.deep_view()[k] == sorted@[k]@);
                    if k < found {
                        assert(sorted@[k] == prev_vec[k]);
                        assert(prev[k] == prev_vec[k]@);
                    } else if k > found {
                        assert(sorted@[k] == prev_vec[k - 1]);
                        assert(prev[k - 1] == prev_vec[k - 1]@);
                    }
                }
                assert(sorted.deep_view() =~= insert_ranked(pv[i as int], prev, fw, qt));
                assert(pv.take(i as int + 1).drop_last() =~= pv.take(i as int));
                assert(pv.take(i as int + 1).last() == pv[i as int]);
                let dv = sorted.deep_view();
                assert forall|a: int, b: int| 0 <= a < b < dv.len() implies !rank_before(
                    #[trigger] dv[b],
                    #[trigger] dv[a],
                    fw,
                    qt,
                ) by {
                    let f = found as int;
                    if b < f {
                        assert(dv[a] == prev[a] && dv[b] == prev[b]);
                    } else if a > f {
                        assert(dv[a] == prev[a - 1] && dv[b] == prev[b - 1]);
                    } else if a < f && b > f {
                        assert(dv[a] == prev[a] && dv[b] == prev[b - 1]);
                    } else if a == f {
                        assert(dv[a] == x@ && dv[b] == prev[b - 1]);
                        assert(rank_before(x@, prev[f], fw, qt));
                        if rank_before(prev[b - 1], x@, fw, qt) {
                            lemma_rank_before_transitive(prev[b - 1], x@, prev[f], fw, qt);
                            if b - 1 == f {
                                lemma_rank_before_asymmetric(x@, prev[f], fw, qt);
                            }
                            assert(false);
                        }
                    } else {
                        assert(b == f);
                        assert(dv[a] == prev[a] && dv[b] == x@);
                        assert(!rank_before(x@, prev[a], fw, qt));
                    }
                }
            }
            i = i + 1;
        }
        proof {
            assert(pv.take(self.patterns.len() as int) =~= pv);
        }
        let ghost full = sorted.deep_view();
        let ghost full_vec = sorted@;
        if sorted.len() > 10 {
            sorted.truncate(10);
            proof {
                assert forall|k: int| 0 <= k < 10 implies sorted.deep_view()[k] == full.take(
                    10,
                )[k] by {
                    assert(sorted.deep_view()[k] == sorted@[k]@);
                    assert(sorted@[k] == full_vec[k]);
                    assert(full[k] == full_vec[k]@);
                }
                assert(sorted.deep_view() =~= full.take(10));
                assert forall|a: int, b: int| 0 <= a < b < sorted.deep_view().len() implies
                    !rank_before(
                    #[trigger] sorted.deep_view()[b],
                    #[trigger] sorted.deep_view()[a],
                    fw,
                    qt,
                ) by {
                    assert(sorted.deep_view()[a] == full[a]);
                    assert(sorted.deep_view()[b] == full[b]);
                }
            }
        }
        sorted
    }
}

/// The search ranking is deterministic: any two results that the search
/// contract admits for the same store and query are equal in every element.
pub proof fn lemma_search_deterministic(
    store: &PatternStore,
    framework: &str,
    tags: &Vec<String>,
)
    ensures
        forall|r1: Vec<CodePattern>, r2: Vec<CodePattern>|
            #[trigger] call_ensures(PatternStore::search, (store, framework, tags), r1)
                && #[trigger] call_ensures(PatternStore::search, (store, framework, tags), r2)
                ==> r1.deep_view() == r2.deep_view(),
{
}

} // verus!
