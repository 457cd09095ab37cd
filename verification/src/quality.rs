//! Quality scoring of KSB research content: source credibility, Bloom's
//! taxonomy coverage, practical examples, currency, and the findings that
//! decide whether content meets the publication standards.
use vstd::prelude::*;

use crate::text::{
    chars_of, contains_chars, decimal, lowercase_of, push_decimal, push_text, seq_contains,
    to_lowercase,
};

verus! {

/// Minimum character count for valid research content.
pub const MIN_CHARACTERS: usize = 15_000;

/// Recommended character count for high-quality content.
pub const RECOMMENDED_CHARACTERS: usize = 18_000;

/// Minimum citation count for valid research content.
pub const MIN_CITATIONS: usize = 40;

/// Recommended citation count for high-quality content.
pub const RECOMMENDED_CITATIONS: usize = 50;

/// The characters of each string in a sequence of string slices.
pub open spec fn slice_texts(v: Seq<&str>) -> Seq<Seq<char>> {
    v.map_values(|s: &str| s@)
}

/// Some string of `needles` occurs in `hay`.
pub open spec fn contains_any_of(hay: Seq<char>, needles: Seq<Seq<char>>) -> bool {
    exists|k: int| 0 <= k < needles.len() && seq_contains(hay, #[trigger] needles[k])
}

fn has(hay: &Vec<char>, needle: &str) -> (r: bool)
    ensures
        r == seq_contains(hay@, needle@),
{
    let n = chars_of(needle);
    contains_chars(hay, &n)
}

/// Whether any of `needles` occurs in `hay`.
fn contains_any(hay: &Vec<char>, needles: &[&str]) -> (r: bool)
    ensures
        r == contains_any_of(hay@, slice_texts(needles@)),
{
    let mut k: usize = 0;
    while k < needles.len()
        invariant
            k <= needles@.len(),
            forall|q: int| 0 <= q < k ==> !seq_contains(hay@, #[trigger] slice_texts(needles@)[q]),
        decreases needles@.len() - k,
    {
        if has(hay, needles[k]) {
            assert(seq_contains(hay@, slice_texts(needles@)[k as int]));
            return true;
        }
        k = k + 1;
    }
    false
}

// ---------------------------------------------------------------------------
// Source credibility
// ---------------------------------------------------------------------------

/// Credibility of a lower-cased source URL: the first pattern it contains
/// decides, specific domains before generic top-level domains; 50 when none
/// matches.
pub open spec fn credibility_for(url: Seq<char>) -> u8 {
    if seq_contains(url, "nih.gov"@) {
        95
    } else if seq_contains(url, "fda.gov"@) {
        95
    } else if seq_contains(url, "ncbi.nlm.nih.gov"@) {
        95
    } else if seq_contains(url, "nejm.org"@) {
        95
    } else if seq_contains(url, "pubmed"@) {
        95
    } else if seq_contains(url, "nature.com"@) {
        90
    } else if seq_contains(url, "science.org"@) {
        90
    } else if seq_contains(url, "doi.org"@) {
        90
    } else if seq_contains(url, "jama"@) {
        90
    } else if seq_contains(url, "thelancet"@) {
        90
    } else if seq_contains(url, "scholar.google"@) {
        85
    } else if seq_contains(url, "springer"@) {
        85
    } else if seq_contains(url, "wiley"@) {
        85
    } else if seq_contains(url, "elsevier"@) {
        85
    } else if seq_contains(url, "researchgate"@) {
        80
    } else if seq_contains(url, "arxiv"@) {
        80
    } else if seq_contains(url, "wikipedia"@) {
        55
    } else if seq_contains(url, "medium"@) {
        50
    } else if seq_contains(url, "blog"@) {
        40
    } else if seq_contains(url, ".gov"@) {
        95
    } else if seq_contains(url, ".edu"@) {
        90
    } else if seq_contains(url, ".org"@) {
        85
    } else if seq_contains(url, ".com"@) {
        60
    } else {
        50
    }
}

/// Score a URL source by its domain trustworthiness.
///
/// Returns a credibility score from 0–100. Higher-specificity matches
/// take priority (e.g., `nih.gov` matches before `.gov`).
pub fn source_credibility_score(url: &str) -> (r: u8)
    ensures
        r == credibility_for(lowercase_of(url@)),
        r <= 100,
{
    let lower = to_lowercase(url);
    credibility_of_lowered(lower.as_str())
}

/// Credibility of a source URL that is already lower-cased: the first
/// domain pattern it contains decides.
pub fn credibility_of_lowered(lower: &str) -> (r: u8)
    ensures
        r == credibility_for(lower@),
        r <= 100,
{
    let l = chars_of(lower);
    // Specific domains first (higher specificity wins)
    if has(&l, "nih.gov") {
        95
    } else if has(&l, "fda.gov") {
        95
    } else if has(&l, "ncbi.nlm.nih.gov") {
        95
    } else if has(&l, "nejm.org") {
        95
    } else if has(&l, "pubmed") {
        95
    } else if has(&l, "nature.com") {
        90
    } else if has(&l, "science.org") {
        90
    } else if has(&l, "doi.org") {
        90
    } else if has(&l, "jama") {
        90
    } else if has(&l, "thelancet") {
        90
    } else if has(&l, "scholar.google") {
        85
    } else if has(&l, "springer") {
        85
    } else if has(&l, "wiley") {
        85
    } else if has(&l, "elsevier") {
        85
    } else if has(&l, "researchgate") {
        80
    } else if has(&l, "arxiv") {
        80
    } else if has(&l, "wikipedia") {
        55
    } else if has(&l, "medium") {
        50
    } else if has(&l, "blog") {
        40
    } else if has(&l, ".gov") {
        // Generic top-level domain fallbacks
        95
    } else if has(&l, ".edu") {
        90
    } else if has(&l, ".org") {
        85
    } else if has(&l, ".com") {
        60
    } else {
        50
    }
}

/// The credibility table: the domain patterns in the order they are tried,
/// specific domains before the generic top-level domains, each with the
/// score it gives.
pub open spec fn credibility_table() -> Seq<(Seq<char>, u8)> {
    seq![
        ("nih.gov"@, 95u8),
        ("fda.gov"@, 95u8),
        ("ncbi.nlm.nih.gov"@, 95u8),
        ("nejm.org"@, 95u8),
        ("pubmed"@, 95u8),
        ("nature.com"@, 90u8),
        ("science.org"@, 90u8),
        ("doi.org"@, 90u8),
        ("jama"@, 90u8),
        ("thelancet"@, 90u8),
        ("scholar.google"@, 85u8),
        ("springer"@, 85u8),
        ("wiley"@, 85u8),
        ("elsevier"@, 85u8),
        ("researchgate"@, 80u8),
        ("arxiv"@, 80u8),
        ("wikipedia"@, 55u8),
        ("medium"@, 50u8),
        ("blog"@, 40u8),
        (".gov"@, 95u8),
        (".edu"@, 90u8),
        (".org"@, 85u8),
        (".com"@, 60u8),
    ]
}

/// A lower-cased URL scores what the first pattern of the table that it
/// contains gives.
pub proof fn credibility_follows_table(url: Seq<char>, k: int)
    requires
        0 <= k < credibility_table().len(),
        seq_contains(url, credibility_table()[k].0),
        forall|j: int| 0 <= j < k ==> !seq_contains(url, #[trigger] credibility_table()[j].0),
    ensures
        credibility_for(url) == credibility_table()[k].1,
{
    let t = credibility_table();
    assert(0 < k ==> !seq_contains(url, t[0].0));
    assert(1 < k ==> !seq_contains(url, t[1].0));
    assert(2 < k ==> !seq_contains(url, t[2].0));
    assert(3 < k ==> !seq_contains(url, t[3].0));
    assert(4 < k ==> !seq_contains(url, t[4].0));
    assert(5 < k ==> !seq_contains(url, t[5].0));
    assert(6 < k ==> !seq_contains(url, t[6].0));
    assert(7 < k ==> !seq_contains(url, t[7].0));
    assert(8 < k ==> !seq_contains(url, t[8].0));
    assert(9 < k ==> !seq_contains(url, t[9].0));
    assert(10 < k ==> !seq_contains(url, t[10].0));
    assert(11 < k ==> !seq_contains(url, t[11].0));
    assert(12 < k ==> !seq_contains(url, t[12].0));
    assert(13 < k ==> !seq_contains(url, t[13].0));
    assert(14 < k ==> !seq_contains(url, t[14].0));
    assert(15 < k ==> !seq_contains(url, t[15].0));
    assert(16 < k ==> !seq_contains(url, t[16].0));
    assert(17 < k ==> !seq_contains(url, t[17].0));
    assert(18 < k ==> !seq_contains(url, t[18].0));
    assert(19 < k ==> !seq_contains(url, t[19].0));
    assert(20 < k ==> !seq_contains(url, t[20].0));
    assert(21 < k ==> !seq_contains(url, t[21].0));
    assert(22 < k ==> !seq_contains(url, t[22].0));
}

/// A lower-cased URL that contains no pattern of the table scores 50.
pub proof fn credibility_default(url: Seq<char>)
    requires
        forall|j: int|
            0 <= j < credibility_table().len() ==> !seq_contains(url, #[trigger] credibility_table()[j].0),
    ensures
        credibility_for(url) == 50,
{
    let t = credibility_table();
    assert(0 < t.len() ==> !seq_contains(url, t[0].0));
    assert(1 < t.len() ==> !seq_contains(url, t[1].0));
    assert(2 < t.len() ==> !seq_contains(url, t[2].0));
    assert(3 < t.len() ==> !seq_contains(url, t[3].0));
    assert(4 < t.len() ==> !seq_contains(url, t[4].0));
    assert(5 < t.len() ==> !seq_contains(url, t[5].0));
    assert(6 < t.len() ==> !seq_contains(url, t[6].0));
    assert(7 < t.len() ==> !seq_contains(url, t[7].0));
    assert(8 < t.len() ==> !seq_contains(url, t[8].0));
    assert(9 < t.len() ==> !seq_contains(url, t[9].0));
    assert(10 < t.len() ==> !seq_contains(url, t[10].0));
    assert(11 < t.len() ==> !seq_contains(url, t[11].0));
    assert(12 < t.len() ==> !seq_contains(url, t[12].0));
    assert(13 < t.len() ==> !seq_contains(url, t[13].0));
    assert(14 < t.len() ==> !seq_contains(url, t[14].0));
    assert(15 < t.len() ==> !seq_contains(url, t[15].0));
    assert(16 < t.len() ==> !seq_contains(url, t[16].0));
    assert(17 < t.len() ==> !seq_contains(url, t[17].0));
    assert(18 < t.len() ==> !seq_contains(url, t[18].0));
    assert(19 < t.len() ==> !seq_contains(url, t[19].0));
    assert(20 < t.len() ==> !seq_contains(url, t[20].0));
    assert(21 < t.len() ==> !seq_contains(url, t[21].0));
    assert(22 < t.len() ==> !seq_contains(url, t[22].0));
}

/// Sum of the credibility scores of the first `n` sources.
pub open spec fn credibility_sum(sources: Seq<&str>, n: nat) -> nat
    decreases n,
{
    if n == 0 {
        0
    } else {
        credibility_sum(sources, (n - 1) as nat) + credibility_for(
            lowercase_of(sources[n - 1]@),
        ) as nat
    }
}

proof fn lemma_credibility_sum_bound(sources: Seq<&str>, n: nat)
    ensures
        credibility_sum(sources, n) <= 100 * n,
    decreases n,
{
    if n > 0 {
        lemma_credibility_sum_bound(sources, (n - 1) as nat);
    }
}

/// Total credibility across source URLs: the sum whose mean is the average
/// credibility of the sources.
pub fn credibility_total(sources: &[&str]) -> (r: u128)
    ensures
        r == credibility_sum(sources@, sources@.len()),
{
    let mut total: u128 = 0;
    let mut i: usize = 0;
    while i < sources.len()
        invariant
            i <= sources@.len(),
            total == credibility_sum(sources@, i as nat),
        decreases sources@.len() - i,
    {
        proof {
            lemma_credibility_sum_bound(sources@, i as nat);
        }
        let score = source_credibility_score(sources[i]);
        total = total + score as u128;
        i = i + 1;
    }
    total
}

// ---------------------------------------------------------------------------
// Bloom's taxonomy
// ---------------------------------------------------------------------------

/// The six levels of Bloom's Taxonomy (cognitive domain).
#[derive(Debug, Clone, Copy, PartialEq, Eq, Hash, Structural)]
pub enum BloomLevel {
    /// Recall facts and basic concepts.
    Remember,
    /// Explain ideas or concepts.
    Understand,
    /// Use information in new situations.
    Apply,
    /// Draw connections among ideas.
    Analyze,
    /// Justify a decision or course of action.
    Evaluate,
    /// Produce new work or ideas.
    Create,
}

impl BloomLevel {
    /// Keywords that indicate a cognitive level.
    pub open spec fn keyword_texts(self) -> Seq<Seq<char>> {
        match self {
            BloomLevel::Remember => seq![
                "define"@,
                "identify"@,
                "list"@,
                "name"@,
                "recall"@,
                "recognize"@,
            ],
            BloomLevel::Understand => seq![
                "explain"@,
                "describe"@,
                "summarize"@,
                "interpret"@,
                "clarify"@,
            ],
            BloomLevel::Apply => seq![
                "demonstrate"@,
                "implement"@,
                "use"@,
                "execute"@,
                "apply"@,
                "solve"@,
            ],
            BloomLevel::Analyze => seq![
                "compare"@,
                "contrast"@,
                "examine"@,
                "categorize"@,
                "analyze"@,
            ],
            BloomLevel::Evaluate => seq![
                "assess"@,
                "judge"@,
                "critique"@,
                "justify"@,
                "evaluate"@,
                "recommend"@,
            ],
            BloomLevel::Create => seq![
                "design"@,
                "develop"@,
                "formulate"@,
                "construct"@,
                "create"@,
                "generate"@,
            ],
        }
    }

    /// Position of the level in cognitive order, from 0 (Remember) to 5 (Create).
    pub open spec fn rank(self) -> nat {
        match self {
            BloomLevel::Remember => 0,
            BloomLevel::Understand => 1,
            BloomLevel::Apply => 2,
            BloomLevel::Analyze => 3,
            BloomLevel::Evaluate => 4,
            BloomLevel::Create => 5,
        }
    }

    /// The level at a position in cognitive order.
    pub open spec fn at_rank(k: nat) -> BloomLevel {
        if k == 0 {
            BloomLevel::Remember
        } else if k == 1 {
            BloomLevel::Understand
        } else if k == 2 {
            BloomLevel::Apply
        } else if k == 3 {
            BloomLevel::Analyze
        } else if k == 4 {
            BloomLevel::Evaluate
        } else {
            BloomLevel::Create
        }
    }

    /// Keywords that indicate this cognitive level in content.
    pub fn keywords(&self) -> (r: &'static [&'static str])
        ensures
            slice_texts(r@) == self.keyword_texts(),
    {
        match self {
            BloomLevel::Remember => &["define", "identify", "list", "name", "recall", "recognize"],
            BloomLevel::Understand => &["explain", "describe", "summarize", "interpret", "clarify"],
            BloomLevel::Apply => &["demonstrate", "implement", "use", "execute", "apply", "solve"],
            BloomLevel::Analyze => &["compare", "contrast", "examine", "categorize", "analyze"],
            BloomLevel::Evaluate => &[
                "assess",
                "judge",
                "critique",
                "justify",
                "evaluate",
                "recommend",
            ],
            BloomLevel::Create => &[
                "design",
                "develop",
                "formulate",
                "construct",
                "create",
                "generate",
            ],
        }
    }

    /// All six levels in cognitive order.
    pub const ALL: [BloomLevel; 6] = [
        BloomLevel::Remember,
        BloomLevel::Understand,
        BloomLevel::Apply,
        BloomLevel::Analyze,
        BloomLevel::Evaluate,
        BloomLevel::Create,
    ];
}

/// A non-empty run of lower-case ASCII letters.
pub open spec fn lower_ascii_word(w: Seq<char>) -> bool {
    w.len() > 0 && forall|i: int| 0 <= i < w.len() ==> 'a' <= #[trigger] w[i] <= 'z'
}

/// The level of a Bloom's keyword, told by its length, its first letter and
/// its next-to-last letter: no two keywords of different levels agree on
/// all three.
spec fn keyword_level(w: Seq<char>) -> Option<BloomLevel> {
    if (w.len() == 6 && w[0] == 'd' && w[4] == 'n')
        || (w.len() == 8 && w[0] == 'i' && w[6] == 'f')
        || (w.len() == 4 && w[0] == 'l' && w[2] == 's')
        || (w.len() == 4 && w[0] == 'n' && w[2] == 'm')
        || (w.len() == 6 && w[0] == 'r' && w[4] == 'l')
        || (w.len() == 9 && w[0] == 'r' && w[7] == 'z') {
        Some(BloomLevel::Remember)
    } else if (w.len() == 7 && w[0] == 'e' && w[5] == 'i')
        || (w.len() == 8 && w[0] == 'd' && w[6] == 'b')
        || (w.len() == 9 && w[0] == 's' && w[7] == 'z')
        || (w.len() == 9 && w[0] == 'i' && w[7] == 'e')
        || (w.len() == 7 && w[0] == 'c' && w[5] == 'f') {
        Some(BloomLevel::Understand)
    } else if (w.len() == 11 && w[0] == 'd' && w[9] == 't')
        || (w.len() == 9 && w[0] == 'i' && w[7] == 'n')
        || (w.len() == 3 && w[0] == 'u' && w[1] == 's')
        || (w.len() == 7 && w[0] == 'e' && w[5] == 't')
        || (w.len() == 5 && w[0] == 'a' && w[3] == 'l')
        || (w.len() == 5 && w[0] == 's' && w[3] == 'v') {
        Some(BloomLevel::Apply)
    } else if (w.len() == 7 && w[0] == 'c' && w[5] == 'r')
        || (w.len() == 8 && w[0] == 'c' && w[6] == 's')
        || (w.len() == 7 && w[0] == 'e' && w[5] == 'n')
        || (w.len() == 10 && w[0] == 'c' && w[8] == 'z')
        || (w.len() == 7 && w[0] == 'a' && w[5] == 'z') {
        Some(BloomLevel::Analyze)
    } else if (w.len() == 6 && w[0] == 'a' && w[4] == 's')
        || (w.len() == 5 && w[0] == 'j' && w[3] == 'g')
        || (w.len() == 8 && w[0] == 'c' && w[6] == 'u')
        || (w.len() == 7 && w[0] == 'j' && w[5] == 'f')
        || (w.len() == 8 && w[0] == 'e' && w[6] == 't')
        || (w.len() == 9 && w[0] == 'r' && w[7] == 'n') {
        Some(BloomLevel::Evaluate)
    } else if (w.len() == 6 && w[0] == 'd' && w[4] == 'g')
        || (w.len() == 7 && w[0] == 'd' && w[5] == 'o')
        || (w.len() == 9 && w[0] == 'f' && w[7] == 't')
        || (w.len() == 9 && w[0] == 'c' && w[7] == 'c')
        || (w.len() == 6 && w[0] == 'c' && w[4] == 't')
        || (w.len() == 8 && w[0] == 'g' && w[6] == 't') {
        Some(BloomLevel::Create)
    } else {
        None
    }
}

/// Bloom's keywords are lower-case words, so they can occur in lower-cased
/// content; every level has some, and no keyword belongs to two levels.
pub proof fn bloom_keywords_are_distinct_words(a: BloomLevel, b: BloomLevel)
    ensures
        a.keyword_texts().len() > 0,
        forall|k: int|
            0 <= k < a.keyword_texts().len() ==> lower_ascii_word(#[trigger] a.keyword_texts()[k]),
        a != b ==> forall|i: int, j: int|
            0 <= i < a.keyword_texts().len() && 0 <= j < b.keyword_texts().len() ==> #[trigger] a.keyword_texts()[i]
                != #[trigger] b.keyword_texts()[j],
{
    reveal_strlit("define");
    reveal_strlit("identify");
    reveal_strlit("list");
    reveal_strlit("name");
    reveal_strlit("recall");
    reveal_strlit("recognize");
    reveal_strlit("explain");
    reveal_strlit("describe");
    reveal_strlit("summarize");
    reveal_strlit("interpret");
    reveal_strlit("clarify");
    reveal_strlit("demonstrate");
    reveal_strlit("implement");
    reveal_strlit("use");
    reveal_strlit("execute");
    reveal_strlit("apply");
    reveal_strlit("solve");
    reveal_strlit("compare");
    reveal_strlit("contrast");
    reveal_strlit("examine");
    reveal_strlit("categorize");
    reveal_strlit("analyze");
    reveal_strlit("assess");
    reveal_strlit("judge");
    reveal_strlit("critique");
    reveal_strlit("justify");
    reveal_strlit("evaluate");
    reveal_strlit("recommend");
    reveal_strlit("design");
    reveal_strlit("develop");
    reveal_strlit("formulate");
    reveal_strlit("construct");
    reveal_strlit("create");
    reveal_strlit("generate");
    assert forall|k: int| 0 <= k < a.keyword_texts().len() implies keyword_level(
        #[trigger] a.keyword_texts()[k],
    ) == Some(a) by {}
    assert forall|k: int| 0 <= k < b.keyword_texts().len() implies keyword_level(
        #[trigger] b.keyword_texts()[k],
    ) == Some(b) by {}
}

/// The levels, among the first `n` in cognitive order, that lower-cased
/// content shows a keyword of.
pub open spec fn levels_covered(lower: Seq<char>, n: nat) -> Seq<BloomLevel>
    decreases n,
{
    if n == 0 {
        seq![]
    } else {
        let level = BloomLevel::at_rank((n - 1) as nat);
        levels_covered(lower, (n - 1) as nat) + if contains_any_of(lower, level.keyword_texts()) {
            seq![level]
        } else {
            seq![]
        }
    }
}

proof fn lemma_levels_ordered(lower: Seq<char>, n: nat)
    requires
        n <= 6,
    ensures
        levels_covered(lower, n).len() <= n,
        forall|i: int|
            0 <= i < levels_covered(lower, n).len() ==> (#[trigger] levels_covered(lower, n)[i]).rank()
                < n,
        forall|i: int, j: int|
            0 <= i < j < levels_covered(lower, n).len() ==> (#[trigger] levels_covered(lower, n)[i]).rank()
                < (#[trigger] levels_covered(lower, n)[j]).rank(),
    decreases n,
{
    if n > 0 {
        lemma_levels_ordered(lower, (n - 1) as nat);
        let level = BloomLevel::at_rank((n - 1) as nat);
        assert(level.rank() == n - 1);
    }
}

/// The Bloom's levels represented in content, in cognitive order.
pub fn bloom_coverage(content: &str) -> (r: Vec<BloomLevel>)
    ensures
        r@ == levels_covered(lowercase_of(content@), 6),
        r@.len() <= 6,
        forall|i: int, j: int| 0 <= i < j < r@.len() ==> (#[trigger] r@[i]).rank() < (#[trigger] r@[j]).rank(),
{
    let lower = to_lowercase(content);
    bloom_levels_of_lowered(lower.as_str())
}

/// The Bloom's levels that already lower-cased content shows a keyword of,
/// in cognitive order.
pub fn bloom_levels_of_lowered(lower: &str) -> (r: Vec<BloomLevel>)
    ensures
        r@ == levels_covered(lower@, 6),
        r@.len() <= 6,
        forall|i: int, j: int| 0 <= i < j < r@.len() ==> (#[trigger] r@[i]).rank() < (#[trigger] r@[j]).rank(),
{
    let l = chars_of(lower);
    let mut levels: Vec<BloomLevel> = Vec::new();
    let mut k: usize = 0;
    while k < 6
        invariant
            k <= 6,
            l@ == lower@,
            levels@ == levels_covered(l@, k as nat),
        decreases 6 - k,
    {
        let level = BloomLevel::ALL[k];
        assert(level == BloomLevel::at_rank(k as nat));
        if contains_any(&l, level.keywords()) {
            levels.push(level);
        }
        k = k + 1;
    }
    proof {
        lemma_levels_ordered(l@, 6);
    }
    levels
}

/// Each Bloom's level is shown by lower-cased content exactly when the
/// content contains one of its keywords: Remember by define, identify,
/// list, name, recall, recognize; Understand by explain, describe,
/// summarize, interpret, clarify; Apply by demonstrate, implement, use,
/// execute, apply, solve; Analyze by compare, contrast, examine,
/// categorize, analyze; Evaluate by assess, judge, critique, justify,
/// evaluate, recommend; Create by design, develop, formulate, construct,
/// create, generate.
pub proof fn bloom_keyword_rules(lower: Seq<char>)
    ensures
        contains_any_of(lower, BloomLevel::Remember.keyword_texts()) <==> (seq_contains(lower, "define"@) || seq_contains(lower, "identify"@) || seq_contains(lower, "list"@) || seq_contains(lower, "name"@) || seq_contains(lower, "recall"@) || seq_contains(lower, "recognize"@)),
        contains_any_of(lower, BloomLevel::Understand.keyword_texts()) <==> (seq_contains(lower, "explain"@) || seq_contains(lower, "describe"@) || seq_contains(lower, "summarize"@) || seq_contains(lower, "interpret"@) || seq_contains(lower, "clarify"@)),
        contains_any_of(lower, BloomLevel::Apply.keyword_texts()) <==> (seq_contains(lower, "demonstrate"@) || seq_contains(lower, "implement"@) || seq_contains(lower, "use"@) || seq_contains(lower, "execute"@) || seq_contains(lower, "apply"@) || seq_contains(lower, "solve"@)),
        contains_any_of(lower, BloomLevel::Analyze.keyword_texts()) <==> (seq_contains(lower, "compare"@) || seq_contains(lower, "contrast"@) || seq_contains(lower, "examine"@) || seq_contains(lower, "categorize"@) || seq_contains(lower, "analyze"@)),
        contains_any_of(lower, BloomLevel::Evaluate.keyword_texts()) <==> (seq_contains(lower, "assess"@) || seq_contains(lower, "judge"@) || seq_contains(lower, "critique"@) || seq_contains(lower, "justify"@) || seq_contains(lower, "evaluate"@) || seq_contains(lower, "recommend"@)),
        contains_any_of(lower, BloomLevel::Create.keyword_texts()) <==> (seq_contains(lower, "design"@) || seq_contains(lower, "develop"@) || seq_contains(lower, "formulate"@) || seq_contains(lower, "construct"@) || seq_contains(lower, "create"@) || seq_contains(lower, "generate"@)),
{
    if seq_contains(lower, "define"@) {
        assert(BloomLevel::Remember.keyword_texts()[0] == "define"@);
    }
    if seq_contains(lower, "identify"@) {
        assert(BloomLevel::Remember.keyword_texts()[1] == "identify"@);
    }
    if seq_contains(lower, "list"@) {
        assert(BloomLevel::Remember.keyword_texts()[2] == "list"@);
    }
    if seq_contains(lower, "name"@) {
        assert(BloomLevel::Remember.keyword_texts()[3] == "name"@);
    }
    if seq_contains(lower, "recall"@) {
        assert(BloomLevel::Remember.keyword_texts()[4] == "recall"@);
    }
    if seq_contains(lower, "recognize"@) {
        assert(BloomLevel::Remember.keyword_texts()[5] == "recognize"@);
    }
    if contains_any_of(lower, BloomLevel::Remember.keyword_texts()) {
        let k = choose|k: int| 0 <= k < BloomLevel::Remember.keyword_texts().len() && seq_contains(lower, #[trigger] BloomLevel::Remember.keyword_texts()[k]);
        if k == 0 {
            assert(BloomLevel::Remember.keyword_texts()[0] == "define"@);
        }
        if k == 1 {
            assert(BloomLevel::Remember.keyword_texts()[1] == "identify"@);
        }
        if k == 2 {
            assert(BloomLevel::Remember.keyword_texts()[2] == "list"@);
        }
        if k == 3 {
            assert(BloomLevel::Remember.keyword_texts()[3] == "name"@);
        }
        if k == 4 {
            assert(BloomLevel::Remember.keyword_texts()[4] == "recall"@);
        }
        if k == 5 {
            assert(BloomLevel::Remember.keyword_texts()[5] == "recognize"@);
        }
    }
    if seq_contains(lower, "explain"@) {
        assert(BloomLevel::Understand.keyword_texts()[0] == "explain"@);
    }
    if seq_contains(lower, "describe"@) {
        assert(BloomLevel::Understand.keyword_texts()[1] == "describe"@);
    }
    if seq_contains(lower, "summarize"@) {
        assert(BloomLevel::Understand.keyword_texts()[2] == "summarize"@);
    }
    if seq_contains(lower, "interpret"@) {
        assert(BloomLevel::Understand.keyword_texts()[3] == "interpret"@);
    }
    if seq_contains(lower, "clarify"@) {
        assert(BloomLevel::Understand.keyword_texts()[4] == "clarify"@);
    }
    if contains_any_of(lower, BloomLevel::Understand.keyword_texts()) {
        let k = choose|k: int| 0 <= k < BloomLevel::Understand.keyword_texts().len() && seq_contains(lower, #[trigger] BloomLevel::Understand.keyword_texts()[k]);
        if k == 0 {
            assert(BloomLevel::Understand.keyword_texts()[0] == "explain"@);
        }
        if k == 1 {
            assert(BloomLevel::Understand.keyword_texts()[1] == "describe"@);
        }
        if k == 2 {
            assert(BloomLevel::Understand.keyword_texts()[2] == "summarize"@);
        }
        if k == 3 {
            assert(BloomLevel::Understand.keyword_texts()[3] == "interpret"@);
        }
        if k == 4 {
            assert(BloomLevel::Understand.keyword_texts()[4] == "clarify"@);
        }
    }
    if seq_contains(lower, "demonstrate"@) {
        assert(BloomLevel::Apply.keyword_texts()[0] == "demonstrate"@);
    }
    if seq_contains(lower, "implement"@) {
        assert(BloomLevel::Apply.keyword_texts()[1] == "implement"@);
    }
    if seq_contains(lower, "use"@) {
        assert(BloomLevel::Apply.keyword_texts()[2] == "use"@);
    }
    if seq_contains(lower, "execute"@) {
        assert(BloomLevel::Apply.keyword_texts()[3] == "execute"@);
    }
    if seq_contains(lower, "apply"@) {
        assert(BloomLevel::Apply.keyword_texts()[4] == "apply"@);
    }
    if seq_contains(lower, "solve"@) {
        assert(BloomLevel::Apply.keyword_texts()[5] == "solve"@);
    }
    if contains_any_of(lower, BloomLevel::Apply.keyword_texts()) {
        let k = choose|k: int| 0 <= k < BloomLevel::Apply.keyword_texts().len() && seq_contains(lower, #[trigger] BloomLevel::Apply.keyword_texts()[k]);
        if k == 0 {
            assert(BloomLevel::Apply.keyword_texts()[0] == "demonstrate"@);
        }
        if k == 1 {
            assert(BloomLevel::Apply.keyword_texts()[1] == "implement"@);
        }
        if k == 2 {
            assert(BloomLevel::Apply.keyword_texts()[2] == "use"@);
        }
        if k == 3 {
            assert(BloomLevel::Apply.keyword_texts()[3] == "execute"@);
        }
        if k == 4 {
            assert(BloomLevel::Apply.keyword_texts()[4] == "apply"@);
        }
        if k == 5 {
            assert(BloomLevel::Apply.keyword_texts()[5] == "solve"@);
        }
    }
    if seq_contains(lower, "compare"@) {
        assert(BloomLevel::Analyze.keyword_texts()[0] == "compare"@);
    }
    if seq_contains(lower, "contrast"@) {
        assert(BloomLevel::Analyze.keyword_texts()[1] == "contrast"@);
    }
    if seq_contains(lower, "examine"@) {
        assert(BloomLevel::Analyze.keyword_texts()[2] == "examine"@);
    }
    if seq_contains(lower, "categorize"@) {
        assert(BloomLevel::Analyze.keyword_texts()[3] == "categorize"@);
    }
    if seq_contains(lower, "analyze"@) {
        assert(BloomLevel::Analyze.keyword_texts()[4] == "analyze"@);
    }
    if contains_any_of(lower, BloomLevel::Analyze.keyword_texts()) {
        let k = choose|k: int| 0 <= k < BloomLevel::Analyze.keyword_texts().len() && seq_contains(lower, #[trigger] BloomLevel::Analyze.keyword_texts()[k]);
        if k == 0 {
            assert(BloomLevel::Analyze.keyword_texts()[0] == "compare"@);
        }
        if k == 1 {
            assert(BloomLevel::Analyze.keyword_texts()[1] == "contrast"@);
        }
        if k == 2 {
            assert(BloomLevel::Analyze.keyword_texts()[2] == "examine"@);
        }
        if k == 3 {
            assert(BloomLevel::Analyze.keyword_texts()[3] == "categorize"@);
        }
        if k == 4 {
            assert(BloomLevel::Analyze.keyword_texts()[4] == "analyze"@);
        }
    }
    if seq_contains(lower, "assess"@) {
        assert(BloomLevel::Evaluate.keyword_texts()[0] == "assess"@);
    }
    if seq_contains(lower, "judge"@) {
        assert(BloomLevel::Evaluate.keyword_texts()[1] == "judge"@);
    }
    if seq_contains(lower, "critique"@) {
        assert(BloomLevel::Evaluate.keyword_texts()[2] == "critique"@);
    }
    if seq_contains(lower, "justify"@) {
        assert(BloomLevel::Evaluate.keyword_texts()[3] == "justify"@);
    }
    if seq_contains(lower, "evaluate"@) {
        assert(BloomLevel::Evaluate.keyword_texts()[4] == "evaluate"@);
    }
    if seq_contains(lower, "recommend"@) {
        assert(BloomLevel::Evaluate.keyword_texts()[5] == "recommend"@);
    }
    if contains_any_of(lower, BloomLevel::Evaluate.keyword_texts()) {
        let k = choose|k: int| 0 <= k < BloomLevel::Evaluate.keyword_texts().len() && seq_contains(lower, #[trigger] BloomLevel::Evaluate.keyword_texts()[k]);
        if k == 0 {
            assert(BloomLevel::Evaluate.keyword_texts()[0] == "assess"@);
        }
        if k == 1 {
            assert(BloomLevel::Evaluate.keyword_texts()[1] == "judge"@);
        }
        if k == 2 {
            assert(BloomLevel::Evaluate.keyword_texts()[2] == "critique"@);
        }
        if k == 3 {
            assert(BloomLevel::Evaluate.keyword_texts()[3] == "justify"@);
        }
        if k == 4 {
            assert(BloomLevel::Evaluate.keyword_texts()[4] == "evaluate"@);
        }
        if k == 5 {
            assert(BloomLevel::Evaluate.keyword_texts()[5] == "recommend"@);
        }
    }
    if seq_contains(lower, "design"@) {
        assert(BloomLevel::Create.keyword_texts()[0] == "design"@);
    }
    if seq_contains(lower, "develop"@) {
        assert(BloomLevel::Create.keyword_texts()[1] == "develop"@);
    }
    if seq_contains(lower, "formulate"@) {
        assert(BloomLevel::Create.keyword_texts()[2] == "formulate"@);
    }
    if seq_contains(lower, "construct"@) {
        assert(BloomLevel::Create.keyword_texts()[3] == "construct"@);
    }
    if seq_contains(lower, "create"@) {
        assert(BloomLevel::Create.keyword_texts()[4] == "create"@);
    }
    if seq_contains(lower, "generate"@) {
        assert(BloomLevel::Create.keyword_texts()[5] == "generate"@);
    }
    if contains_any_of(lower, BloomLevel::Create.keyword_texts()) {
        let k = choose|k: int| 0 <= k < BloomLevel::Create.keyword_texts().len() && seq_contains(lower, #[trigger] BloomLevel::Create.keyword_texts()[k]);
        if k == 0 {
            assert(BloomLevel::Create.keyword_texts()[0] == "design"@);
        }
        if k == 1 {
            assert(BloomLevel::Create.keyword_texts()[1] == "develop"@);
        }
        if k == 2 {
            assert(BloomLevel::Create.keyword_texts()[2] == "formulate"@);
        }
        if k == 3 {
            assert(BloomLevel::Create.keyword_texts()[3] == "construct"@);
        }
        if k == 4 {
            assert(BloomLevel::Create.keyword_texts()[4] == "create"@);
        }
        if k == 5 {
            assert(BloomLevel::Create.keyword_texts()[5] == "generate"@);
        }
    }
}

proof fn lemma_levels_membership(lower: Seq<char>, n: nat)
    requires
        n <= 6,
    ensures
        forall|l: BloomLevel|
            #[trigger] levels_covered(lower, n).contains(l) <==> (l.rank() < n && contains_any_of(
                lower,
                l.keyword_texts(),
            )),
    decreases n,
{
    if n > 0 {
        lemma_levels_membership(lower, (n - 1) as nat);
        let level = BloomLevel::at_rank((n - 1) as nat);
        let prev = levels_covered(lower, (n - 1) as nat);
        let tail = if contains_any_of(lower, level.keyword_texts()) {
            seq![level]
        } else {
            seq![]
        };
        assert(levels_covered(lower, n) == prev + tail);
        assert forall|l: BloomLevel| #[trigger] levels_covered(lower, n).contains(l) <==> (l.rank() < n
            && contains_any_of(lower, l.keyword_texts())) by {
            if (prev + tail).contains(l) {
                let x = choose|x: int| 0 <= x < (prev + tail).len() && (prev + tail)[x] == l;
                if x >= prev.len() {
                    assert(tail[x - prev.len()] == l);
                    assert(level.rank() == n - 1);
                } else {
                    assert(prev[x] == l);
                    assert(prev.contains(l));
                }
            }
            if l.rank() < n && contains_any_of(lower, l.keyword_texts()) {
                if l.rank() == n - 1 {
                    assert(BloomLevel::at_rank(l.rank()) == l);
                    assert(l == level);
                    assert((prev + tail)[prev.len() as int] == l);
                } else {
                    assert(prev.contains(l));
                    let x = choose|x: int| 0 <= x < prev.len() && prev[x] == l;
                    assert((prev + tail)[x] == l);
                }
            }
        }
    }
}

/// A level is among those content covers exactly when the lower-cased
/// content contains one of the level's keywords.
pub proof fn bloom_coverage_membership(lower: Seq<char>, level: BloomLevel)
    ensures
        levels_covered(lower, 6).contains(level) <==> contains_any_of(lower, level.keyword_texts()),
{
    lemma_levels_membership(lower, 6);
    assert(levels_covered(lower, 6).contains(level) <==> contains_any_of(lower, level.keyword_texts()));
}

// ---------------------------------------------------------------------------
// Practical examples and currency
// ---------------------------------------------------------------------------

/// Indicators that content contains practical examples.
pub open spec fn example_indicators() -> Seq<Seq<char>> {
    seq![
        "star method"@,
        "star format"@,
        "case study"@,
        "scenario"@,
        "for example"@,
        "example:"@,
        "real-world example"@,
        "resume bullet"@,
        "interview story"@,
    ]
}

/// Years that count as current information.
pub open spec fn current_years() -> Seq<Seq<char>> {
    seq!["2023"@, "2024"@, "2025"@, "2026"@]
}

/// Lower-cased content has practical examples exactly when it contains one
/// of the nine indicators: star method, star format, case study, scenario,
/// for example, example:, real-world example, resume bullet, interview story.
pub proof fn example_indicator_rules(lower: Seq<char>)
    ensures
        contains_any_of(lower, example_indicators()) <==> (seq_contains(lower, "star method"@) || seq_contains(lower, "star format"@) || seq_contains(lower, "case study"@) || seq_contains(lower, "scenario"@) || seq_contains(lower, "for example"@) || seq_contains(lower, "example:"@) || seq_contains(lower, "real-world example"@) || seq_contains(lower, "resume bullet"@) || seq_contains(lower, "interview story"@)),
{
    if seq_contains(lower, "star method"@) {
        assert(example_indicators()[0] == "star method"@);
    }
    if seq_contains(lower, "star format"@) {
        assert(example_indicators()[1] == "star format"@);
    }
    if seq_contains(lower, "case study"@) {
        assert(example_indicators()[2] == "case study"@);
    }
    if seq_contains(lower, "scenario"@) {
        assert(example_indicators()[3] == "scenario"@);
    }
    if seq_contains(lower, "for example"@) {
        assert(example_indicators()[4] == "for example"@);
    }
    if seq_contains(lower, "example:"@) {
        assert(example_indicators()[5] == "example:"@);
    }
    if seq_contains(lower, "real-world example"@) {
        assert(example_indicators()[6] == "real-world example"@);
    }
    if seq_contains(lower, "resume bullet"@) {
        assert(example_indicators()[7] == "resume bullet"@);
    }
    if seq_contains(lower, "interview story"@) {
        assert(example_indicators()[8] == "interview story"@);
    }
    if contains_any_of(lower, example_indicators()) {
        let k = choose|k: int| 0 <= k < example_indicators().len() && seq_contains(lower, #[trigger] example_indicators()[k]);
        if k == 0 {
            assert(example_indicators()[0] == "star method"@);
        }
        if k == 1 {
            assert(example_indicators()[1] == "star format"@);
        }
        if k == 2 {
            assert(example_indicators()[2] == "case study"@);
        }
        if k == 3 {
            assert(example_indicators()[3] == "scenario"@);
        }
        if k == 4 {
            assert(example_indicators()[4] == "for example"@);
        }
        if k == 5 {
            assert(example_indicators()[5] == "example:"@);
        }
        if k == 6 {
            assert(example_indicators()[6] == "real-world example"@);
        }
        if k == 7 {
            assert(example_indicators()[7] == "resume bullet"@);
        }
        if k == 8 {
            assert(example_indicators()[8] == "interview story"@);
        }
    }
}

/// Content is current exactly when it mentions 2023, 2024, 2025 or 2026.
pub proof fn current_year_rules(lower: Seq<char>)
    ensures
        contains_any_of(lower, current_years()) <==> (seq_contains(lower, "2023"@) || seq_contains(lower, "2024"@) || seq_contains(lower, "2025"@) || seq_contains(lower, "2026"@)),
{
    if seq_contains(lower, "2023"@) {
        assert(current_years()[0] == "2023"@);
    }
    if seq_contains(lower, "2024"@) {
        assert(current_years()[1] == "2024"@);
    }
    if seq_contains(lower, "2025"@) {
        assert(current_years()[2] == "2025"@);
    }
    if seq_contains(lower, "2026"@) {
        assert(current_years()[3] == "2026"@);
    }
    if contains_any_of(lower, current_years()) {
        let k = choose|k: int| 0 <= k < current_years().len() && seq_contains(lower, #[trigger] current_years()[k]);
        if k == 0 {
            assert(current_years()[0] == "2023"@);
        }
        if k == 1 {
            assert(current_years()[1] == "2024"@);
        }
        if k == 2 {
            assert(current_years()[2] == "2025"@);
        }
        if k == 3 {
            assert(current_years()[3] == "2026"@);
        }
    }
}

/// Check if content contains practical examples.
pub fn has_practical_examples(content: &str) -> (r: bool)
    ensures
        r == contains_any_of(lowercase_of(content@), example_indicators()),
{
    let lower = to_lowercase(content);
    examples_in_lowered(lower.as_str())
}

/// Whether already lower-cased content contains a practical-example
/// indicator.
pub fn examples_in_lowered(lower: &str) -> (r: bool)
    ensures
        r == contains_any_of(lower@, example_indicators()),
{
    let l = chars_of(lower);
    let indicators: &[&str] = &[
        "star method",
        "star format",
        "case study",
        "scenario",
        "for example",
        "example:",
        "real-world example",
        "resume bullet",
        "interview story",
    ];
    assert(slice_texts(indicators@) =~= example_indicators());
    contains_any(&l, indicators)
}

/// Check if content references current information (recent years).
pub fn has_current_info(content: &str) -> (r: bool)
    ensures
        r == contains_any_of(content@, current_years()),
{
    let l = chars_of(content);
    let years: &[&str] = &["2023", "2024", "2025", "2026"];
    assert(slice_texts(years@) =~= current_years());
    contains_any(&l, years)
}


// ---------------------------------------------------------------------------
// Quality findings
// ---------------------------------------------------------------------------

/// Severity of a quality issue.
#[derive(Debug, Clone, Copy, PartialEq, Eq, Structural)]
pub enum IssueSeverity {
    /// Blocks publication.
    Error,
    /// Should be addressed.
    Warning,
}

/// A single quality issue found during validation.
#[derive(Debug, Clone)]
pub struct QualityIssue {
    /// What dimension this issue relates to.
    pub dimension: String,
    /// Severity level.
    pub severity: IssueSeverity,
    /// Human-readable description.
    pub message: String,
}

/// The text of a quality issue: each string field as its characters.
pub struct QualityIssueView {
    /// Dimension the issue relates to.
    pub dimension: Seq<char>,
    /// Severity level.
    pub severity: IssueSeverity,
    /// Human-readable description.
    pub message: Seq<char>,
}

impl View for QualityIssue {
    type V = QualityIssueView;

    open spec fn view(&self) -> QualityIssueView {
        QualityIssueView {
            dimension: self.dimension@,
            severity: self.severity,
            message: self.message@,
        }
    }
}

/// The texts of a sequence of quality issues.
pub open spec fn quality_issue_views(v: Seq<QualityIssue>) -> Seq<QualityIssueView> {
    v.map_values(|i: QualityIssue| i@)
}

/// A quality issue with the given texts.
pub open spec fn quality_issue(
    dimension: Seq<char>,
    severity: IssueSeverity,
    message: Seq<char>,
) -> QualityIssueView {
    QualityIssueView { dimension, severity, message }
}

/// Issues about volume: too few characters, too few citations.
pub open spec fn volume_issues_for(characters: nat, citations: nat) -> Seq<QualityIssueView> {
    let chars = if characters < MIN_CHARACTERS {
        seq![
            quality_issue(
                "characters"@,
                IssueSeverity::Error,
                "Content has "@ + decimal(characters) + " characters, minimum is "@ + decimal(
                    MIN_CHARACTERS as nat,
                ),
            ),
        ]
    } else if characters < RECOMMENDED_CHARACTERS {
        seq![
            quality_issue(
                "characters"@,
                IssueSeverity::Warning,
                "Content has "@ + decimal(characters) + " characters, recommended is "@ + decimal(
                    RECOMMENDED_CHARACTERS as nat,
                ),
            ),
        ]
    } else {
        seq![]
    };
    let cites = if citations < MIN_CITATIONS {
        seq![
            quality_issue(
                "citations"@,
                IssueSeverity::Error,
                "Content has "@ + decimal(citations) + " citations, minimum is "@ + decimal(
                    MIN_CITATIONS as nat,
                ),
            ),
        ]
    } else if citations < RECOMMENDED_CITATIONS {
        seq![
            quality_issue(
                "citations"@,
                IssueSeverity::Warning,
                "Content has "@ + decimal(citations) + " citations, recommended is "@ + decimal(
                    RECOMMENDED_CITATIONS as nat,
                ),
            ),
        ]
    } else {
        seq![]
    };
    chars + cites
}

/// Issues about coverage: fewer than 4 Bloom's levels, no practical
/// examples, no recent years.
pub open spec fn coverage_issues_for(bloom_levels: nat, examples: bool, current: bool) -> Seq<
    QualityIssueView,
> {
    let bloom = if bloom_levels < 4 {
        seq![
            quality_issue(
                "bloom_taxonomy"@,
                IssueSeverity::Warning,
                "Only "@ + decimal(bloom_levels) + "/6 Bloom's levels represented, recommended >= 4"@,
            ),
        ]
    } else {
        seq![]
    };
    let ex = if !examples {
        seq![
            quality_issue(
                "examples"@,
                IssueSeverity::Warning,
                "No practical examples detected (STAR method, case studies, scenarios)"@,
            ),
        ]
    } else {
        seq![]
    };
    let cur = if !current {
        seq![
            quality_issue(
                "currency"@,
                IssueSeverity::Warning,
                "No references to recent years (2023-2026) found"@,
            ),
        ]
    } else {
        seq![]
    };
    bloom + ex + cur
}

/// Whether the average credibility of `count` sources with `total`
/// credibility falls below 70 (no sources average 0).
pub open spec fn low_credibility_for(total: nat, count: nat) -> bool {
    count == 0 || total < 70 * count
}

/// What quality validation finds in research content, before the weighted
/// overall score: the measured dimensions and the issues raised for them.
///
/// The issues of a full report are `volume_issues`, then a credibility
/// warning when `low_credibility` holds, then `coverage_issues`.
pub struct QualityFindings {
    /// Character count of the content (Unicode scalar values).
    pub character_count: usize,
    /// Number of citations.
    pub citation_count: usize,
    /// Sum of the citations' credibility scores.
    pub credibility_total: u128,
    /// Number of Bloom's levels represented.
    pub bloom_levels_found: usize,
    /// Whether practical examples are present.
    pub has_examples: bool,
    /// Whether current year references exist.
    pub has_current_info: bool,
    /// Whether the average credibility is below 70.
    pub low_credibility: bool,
    /// Character and citation count issues.
    pub volume_issues: Vec<QualityIssue>,
    /// Bloom's coverage, example and currency issues.
    pub coverage_issues: Vec<QualityIssue>,
    /// Whether content passes minimum standards (no issue is an error).
    pub passes_standards: bool,
}

fn quality_issue_exec(dimension: &str, severity: IssueSeverity, message: String) -> (r: QualityIssue)
    ensures
        r@ == quality_issue(dimension@, severity, message@),
{
    QualityIssue { dimension: String::from_str(dimension), severity, message }
}

fn push_quality_issue(issues: &mut Vec<QualityIssue>, item: QualityIssue)
    ensures
        quality_issue_views(final(issues)@) == quality_issue_views(old(issues)@).push(item@),
{
    issues.push(item);
    assert(quality_issue_views(issues@) =~= quality_issue_views(old(issues)@).push(item@));
}

fn count_message(lead: &str, n: usize, middle: &str, limit: usize) -> (r: String)
    ensures
        r@ == lead@ + decimal(n as nat) + middle@ + decimal(limit as nat),
{
    let mut s = String::from_str(lead);
    push_decimal(&mut s, n as u64);
    push_text(&mut s, middle);
    push_decimal(&mut s, limit as u64);
    s
}

/// No issue in `s` is an error.
pub open spec fn no_errors(s: Seq<QualityIssueView>) -> bool {
    forall|i: int| 0 <= i < s.len() ==> (#[trigger] s[i]).severity != IssueSeverity::Error
}

/// Examine research content and its citations against the quality standards:
/// character count, citation count, source credibility, Bloom's taxonomy
/// coverage, practical examples and current information.
pub fn quality_findings(content: &str, citation_urls: &[&str]) -> (r: QualityFindings)
    ensures
        r.character_count == content@.len(),
        r.citation_count == citation_urls@.len(),
        r.credibility_total == credibility_sum(citation_urls@, citation_urls@.len()),
        r.bloom_levels_found == levels_covered(lowercase_of(content@), 6).len(),
        r.has_examples == contains_any_of(lowercase_of(content@), example_indicators()),
        r.has_current_info == contains_any_of(content@, current_years()),
        r.low_credibility == low_credibility_for(r.credibility_total as nat, r.citation_count as nat),
        quality_issue_views(r.volume_issues@) == volume_issues_for(
            r.character_count as nat,
            r.citation_count as nat,
        ),
        quality_issue_views(r.coverage_issues@) == coverage_issues_for(
            r.bloom_levels_found as nat,
            r.has_examples,
            r.has_current_info,
        ),
        r.passes_standards == no_errors(quality_issue_views(r.volume_issues@)),
        r.passes_standards == (r.character_count >= MIN_CHARACTERS && r.citation_count
            >= MIN_CITATIONS),
{
    let character_count = chars_of(content).len();
    let citation_count = citation_urls.len();
    let credibility = credibility_total(citation_urls);
    let bloom_levels = bloom_coverage(content);
    let bloom_count = bloom_levels.len();
    let examples = has_practical_examples(content);
    let current = has_current_info(content);

    let mut volume: Vec<QualityIssue> = Vec::new();
    // Character count checks
    if character_count < MIN_CHARACTERS {
        let msg = count_message("Content has ", character_count, " characters, minimum is ", MIN_CHARACTERS);
        push_quality_issue(&mut volume, quality_issue_exec("characters", IssueSeverity::Error, msg));
    } else if character_count < RECOMMENDED_CHARACTERS {
        let msg = count_message(
            "Content has ",
            character_count,
            " characters, recommended is ",
            RECOMMENDED_CHARACTERS,
        );
        push_quality_issue(&mut volume, quality_issue_exec("characters", IssueSeverity::Warning, msg));
    }
    let ghost after_chars = quality_issue_views(volume@);
    // Citation count checks
    if citation_count < MIN_CITATIONS {
        let msg = count_message("Content has ", citation_count, " citations, minimum is ", MIN_CITATIONS);
        push_quality_issue(&mut volume, quality_issue_exec("citations", IssueSeverity::Error, msg));
    } else if citation_count < RECOMMENDED_CITATIONS {
        let msg = count_message(
            "Content has ",
            citation_count,
            " citations, recommended is ",
            RECOMMENDED_CITATIONS,
        );
        push_quality_issue(&mut volume, quality_issue_exec("citations", IssueSeverity::Warning, msg));
    }
    assert(quality_issue_views(volume@) =~= volume_issues_for(character_count as nat, citation_count as nat));

    // Source credibility
    let low_credibility = citation_count == 0 || credibility < 70 * (citation_count as u128);

    let mut coverage: Vec<QualityIssue> = Vec::new();
    // Bloom's coverage
    if bloom_count < 4 {
        let mut msg = String::from_str("Only ");
        push_decimal(&mut msg, bloom_count as u64);
        push_text(&mut msg, "/6 Bloom's levels represented, recommended >= 4");
        push_quality_issue(&mut coverage, quality_issue_exec("bloom_taxonomy", IssueSeverity::Warning, msg));
    }
    // Practical examples
    if !examples {
        let msg = String::from_str("No practical examples detected (STAR method, case studies, scenarios)");
        push_quality_issue(&mut coverage, quality_issue_exec("examples", IssueSeverity::Warning, msg));
    }
    // Current information
    if !current {
        let msg = String::from_str("No references to recent years (2023-2026) found");
        push_quality_issue(&mut coverage, quality_issue_exec("currency", IssueSeverity::Warning, msg));
    }
    assert(quality_issue_views(coverage@) =~= coverage_issues_for(bloom_count as nat, examples, current));

    let passes_standards = character_count >= MIN_CHARACTERS && citation_count >= MIN_CITATIONS;
    proof {
        let v = quality_issue_views(volume@);
        if !passes_standards {
            if character_count < MIN_CHARACTERS {
                assert(v[0].severity == IssueSeverity::Error);
            } else {
                assert(v[v.len() - 1].severity == IssueSeverity::Error);
            }
        }
    }
    QualityFindings {
        character_count,
        citation_count,
        credibility_total: credibility,
        bloom_levels_found: bloom_count,
        has_examples: examples,
        has_current_info: current,
        low_credibility,
        volume_issues: volume,
        coverage_issues: coverage,
        passes_standards,
    }
}

/// Some issue in `s` concerns `dimension`.
pub open spec fn has_dimension(s: Seq<QualityIssueView>, dimension: Seq<char>) -> bool {
    exists|x: int| 0 <= x < s.len() && (#[trigger] s[x]).dimension == dimension
}

/// Some issue in `s` concerns `dimension` and has severity `severity`.
pub open spec fn has_dimension_at(
    s: Seq<QualityIssueView>,
    dimension: Seq<char>,
    severity: IssueSeverity,
) -> bool {
    exists|x: int| 0 <= x < s.len() && (#[trigger] s[x]).dimension == dimension && s[x].severity == severity
}

/// Coverage findings: a Bloom's taxonomy warning exactly when fewer than 4
/// of the 6 levels are found, an examples warning exactly when no practical
/// example is found, a currency warning exactly when no recent year is
/// found, and nothing else; all of them are warnings.
pub proof fn coverage_issue_rules(bloom_levels: nat, examples: bool, current: bool)
    ensures
        has_dimension(coverage_issues_for(bloom_levels, examples, current), "bloom_taxonomy"@)
            <==> bloom_levels < 4,
        bloom_levels < 4 ==> coverage_issues_for(bloom_levels, examples, current)[0] == quality_issue(
            "bloom_taxonomy"@,
            IssueSeverity::Warning,
            "Only "@ + decimal(bloom_levels) + "/6 Bloom's levels represented, recommended >= 4"@,
        ),
        has_dimension(coverage_issues_for(bloom_levels, examples, current), "examples"@) <==> !examples,
        has_dimension(coverage_issues_for(bloom_levels, examples, current), "currency"@) <==> !current,
        coverage_issues_for(bloom_levels, examples, current).len() == (if bloom_levels < 4 {
            1int
        } else {
            0int
        }) + (if examples {
            0int
        } else {
            1int
        }) + (if current {
            0int
        } else {
            1int
        }),
        forall|x: int|
            0 <= x < coverage_issues_for(bloom_levels, examples, current).len() ==> (
            #[trigger] coverage_issues_for(bloom_levels, examples, current)[x]).severity
                == IssueSeverity::Warning,
{
    reveal_strlit("bloom_taxonomy");
    reveal_strlit("examples");
    reveal_strlit("currency");
    assert("bloom_taxonomy"@.len() != "examples"@.len());
    assert("bloom_taxonomy"@.len() != "currency"@.len());
    assert("examples"@[0] != "currency"@[0]);
    let s = coverage_issues_for(bloom_levels, examples, current);
    if bloom_levels < 4 {
        assert(s[0].dimension == "bloom_taxonomy"@);
    }
    let e: int = if bloom_levels < 4 {
        1
    } else {
        0
    };
    if !examples {
        assert(s[e].dimension == "examples"@);
    }
    if !current {
        assert(s[s.len() - 1].dimension == "currency"@);
    }
}

/// Volume findings: a characters issue exactly when the content has fewer
/// than 18,000 characters, an error exactly when fewer than 15,000; a
/// citations issue exactly when there are fewer than 50 citations, an error
/// exactly when fewer than 40. The findings are free of errors exactly when
/// the content reaches 15,000 characters and 40 citations.
pub proof fn volume_issue_rules(characters: nat, citations: nat)
    ensures
        has_dimension(volume_issues_for(characters, citations), "characters"@) <==> characters < 18_000,
        has_dimension_at(volume_issues_for(characters, citations), "characters"@, IssueSeverity::Error)
            <==> characters < 15_000,
        has_dimension(volume_issues_for(characters, citations), "citations"@) <==> citations < 50,
        has_dimension_at(volume_issues_for(characters, citations), "citations"@, IssueSeverity::Error)
            <==> citations < 40,
        no_errors(volume_issues_for(characters, citations)) <==> (characters >= 15_000 && citations
            >= 40),
{
    reveal_strlit("characters");
    reveal_strlit("citations");
    assert("characters"@.len() != "citations"@.len());
    let s = volume_issues_for(characters, citations);
    if characters < 18_000 {
        assert(s[0].dimension == "characters"@);
    }
    if citations < 50 {
        assert(s[s.len() - 1].dimension == "citations"@);
    }
    if characters < 15_000 {
        assert(s[0].severity == IssueSeverity::Error);
    }
    if citations < 40 {
        assert(s[s.len() - 1].severity == IssueSeverity::Error);
    }
}

/// The credibility warning is raised when there are no sources, or when the
/// whole-number average credibility of the sources is below 70.
pub proof fn low_credibility_rules(total: nat, count: nat)
    ensures
        count == 0 ==> low_credibility_for(total, count),
        count > 0 ==> (low_credibility_for(total, count) <==> total / count < 70),
{
    if count > 0 {
        if total < 70 * count {
            assert(total / count < 70) by (nonlinear_arith)
                requires
                    count > 0,
                    total < 70 * count,
            ;
        } else {
            assert(total / count >= 70) by (nonlinear_arith)
                requires
                    count > 0,
                    total >= 70 * count,
            ;
        }
    }
}

/// The credibility total adds one score per source: each source contributes
/// the score of its lower-cased URL, which lies in 0–100.
pub proof fn credibility_sum_rules(sources: Seq<&str>, n: nat)
    requires
        n < sources.len(),
    ensures
        credibility_sum(sources, n + 1) == credibility_sum(sources, n) + credibility_for(
            lowercase_of(sources[n as int]@),
        ),
        credibility_sum(sources, 0) == 0,
        credibility_sum(sources, n) <= 100 * n,
{
    lemma_credibility_sum_bound(sources, n);
}

} // verus!
