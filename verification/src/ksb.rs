//! Knowledge, Skills, Behaviors: the competency categories, the components of a
//! framework, and title similarity by longest common subsequence.
use vstd::prelude::*;

use crate::text::{lowercase_of, push_text, to_lowercase};

verus! {

/// The three dimensions of competency.
#[derive(Debug, Clone, Copy, PartialEq, Eq, Hash, Structural)]
pub enum KsbCategory {
    /// Factual and conceptual understanding.
    Knowledge,
    /// Ability to perform tasks and procedures.
    Skill,
    /// Observable professional conduct and attitudes.
    Behavior,
}

impl KsbCategory {
    /// The display label of a category.
    pub open spec fn label_text(self) -> Seq<char> {
        match self {
            KsbCategory::Knowledge => "Knowledge"@,
            KsbCategory::Skill => "Skills"@,
            KsbCategory::Behavior => "Behaviors"@,
        }
    }

    /// The module description of a category: the label, lower-cased, in a
    /// fixed sentence.
    pub open spec fn description_text(self) -> Seq<char> {
        "Learn the essential "@ + match self {
            KsbCategory::Knowledge => "knowledge"@,
            KsbCategory::Skill => "skills"@,
            KsbCategory::Behavior => "behaviors"@,
        } + " components"@
    }

    /// Position of the category in the standard order K, S, B.
    pub open spec fn rank(self) -> nat {
        match self {
            KsbCategory::Knowledge => 0,
            KsbCategory::Skill => 1,
            KsbCategory::Behavior => 2,
        }
    }

    /// Display label used in the academy UI.
    pub fn label(&self) -> (r: &'static str)
        ensures
            r@ == self.label_text(),
    {
        match self {
            KsbCategory::Knowledge => "Knowledge",
            KsbCategory::Skill => "Skills",
            KsbCategory::Behavior => "Behaviors",
        }
    }

    /// Module description template.
    pub fn module_description(&self) -> (r: String)
        ensures
            r@ == self.description_text(),
    {
        let mut s = String::from_str("Learn the essential ");
        match self {
            KsbCategory::Knowledge => push_text(&mut s, "knowledge"),
            KsbCategory::Skill => push_text(&mut s, "skills"),
            KsbCategory::Behavior => push_text(&mut s, "behaviors"),
        }
        push_text(&mut s, " components");
        s
    }

    /// All three categories in standard order.
    pub const ALL: [KsbCategory; 3] = [
        KsbCategory::Knowledge,
        KsbCategory::Skill,
        KsbCategory::Behavior,
    ];
}

/// A single KSB component within a framework.
#[derive(Debug, Clone)]
pub struct KsbComponent {
    /// Unique identifier (e.g., "K1", "S3", "B7").
    pub id: String,
    /// Category of this component.
    pub category: KsbCategory,
    /// Title of the competency.
    pub title: String,
    /// Detailed description.
    pub description: String,
}

/// A complete KSB framework decomposition for a topic.
#[derive(Debug, Clone)]
pub struct KsbFramework {
    /// Topic this framework covers.
    pub topic: String,
    /// Domain context (e.g., "Pharmaceutical Industry").
    pub domain: String,
    /// Knowledge components.
    pub knowledge: Vec<KsbComponent>,
    /// Skill components.
    pub skills: Vec<KsbComponent>,
    /// Behavior components.
    pub behaviors: Vec<KsbComponent>,
}

impl KsbFramework {
    /// Number of components across all categories.
    pub open spec fn component_total(&self) -> nat {
        self.knowledge@.len() + self.skills@.len() + self.behaviors@.len()
    }

    /// The components of one category.
    pub open spec fn components_of(&self, cat: KsbCategory) -> Seq<KsbComponent> {
        match cat {
            KsbCategory::Knowledge => self.knowledge@,
            KsbCategory::Skill => self.skills@,
            KsbCategory::Behavior => self.behaviors@,
        }
    }

    /// Total number of components across all categories.
    pub fn total_components(&self) -> (r: usize)
        requires
            self.component_total() <= usize::MAX,
        ensures
            r == self.component_total(),
    {
        self.knowledge.len() + self.skills.len() + self.behaviors.len()
    }

    /// All components of a given category.
    pub fn by_category(&self, cat: KsbCategory) -> (r: &[KsbComponent])
        ensures
            r@ == self.components_of(cat),
    {
        match cat {
            KsbCategory::Knowledge => self.knowledge.as_slice(),
            KsbCategory::Skill => self.skills.as_slice(),
            KsbCategory::Behavior => self.behaviors.as_slice(),
        }
    }
}

/// The categories partition a framework: its Knowledge, Skills and
/// Behaviors components together are all of its components.
pub proof fn categories_partition_components(fw: KsbFramework)
    ensures
        fw.components_of(KsbCategory::Knowledge).len() + fw.components_of(KsbCategory::Skill).len()
            + fw.components_of(KsbCategory::Behavior).len() == fw.component_total(),
{
}

/// Length of a longest common subsequence of two byte sequences.
pub open spec fn lcs(a: Seq<u8>, b: Seq<u8>) -> nat
    decreases a.len() + b.len(),
{
    if a.len() == 0 || b.len() == 0 {
        0
    } else if a.last() == b.last() {
        lcs(a.drop_last(), b.drop_last()) + 1
    } else {
        let skip_a = lcs(a.drop_last(), b);
        let skip_b = lcs(a, b.drop_last());
        if skip_a >= skip_b {
            skip_a
        } else {
            skip_b
        }
    }
}

proof fn lemma_lcs_bounded(a: Seq<u8>, b: Seq<u8>)
    ensures
        lcs(a, b) <= a.len(),
        lcs(a, b) <= b.len(),
    decreases a.len() + b.len(),
{
    if a.len() > 0 && b.len() > 0 {
        lemma_lcs_bounded(a.drop_last(), b.drop_last());
        lemma_lcs_bounded(a.drop_last(), b);
        lemma_lcs_bounded(a, b.drop_last());
    }
}

proof fn lemma_lcs_symmetric(a: Seq<u8>, b: Seq<u8>)
    ensures
        lcs(a, b) == lcs(b, a),
    decreases a.len() + b.len(),
{
    if a.len() > 0 && b.len() > 0 {
        lemma_lcs_symmetric(a.drop_last(), b.drop_last());
        lemma_lcs_symmetric(a.drop_last(), b);
        lemma_lcs_symmetric(a, b.drop_last());
    }
}

proof fn lemma_lcs_self(a: Seq<u8>)
    ensures
        lcs(a, a) == a.len(),
    decreases a.len(),
{
    if a.len() > 0 {
        lemma_lcs_self(a.drop_last());
    }
}

/// `idx` picks, in increasing positions of `t`, the elements of `c` in order.
pub open spec fn embeds(c: Seq<u8>, t: Seq<u8>, idx: Seq<int>) -> bool {
    &&& idx.len() == c.len()
    &&& forall|k: int| 0 <= k < idx.len() ==> 0 <= #[trigger] idx[k] < t.len() && t[idx[k]] == c[k]
    &&& forall|k1: int, k2: int| 0 <= k1 < k2 < idx.len() ==> #[trigger] idx[k1] < #[trigger] idx[k2]
}

/// `c` is a subsequence of `t`: `t` with some elements left out.
pub open spec fn is_subsequence(c: Seq<u8>, t: Seq<u8>) -> bool {
    exists|idx: Seq<int>| embeds(c, t, idx)
}

proof fn lemma_embeds_shorter(c: Seq<u8>, t: Seq<u8>, idx: Seq<int>)
    requires
        embeds(c, t, idx),
        c.len() > 0,
        idx[c.len() - 1] < t.len() - 1,
    ensures
        embeds(c, t.drop_last(), idx),
{
    let n = c.len() as int;
    assert forall|k: int| 0 <= k < idx.len() implies 0 <= #[trigger] idx[k] < t.drop_last().len()
        && t.drop_last()[idx[k]] == c[k] by {
        if k < n - 1 {
            assert(idx[k] < idx[n - 1]);
        }
    }
}

proof fn lemma_embeds_prefix(c: Seq<u8>, t: Seq<u8>, idx: Seq<int>)
    requires
        embeds(c, t, idx),
        c.len() > 0,
    ensures
        embeds(c.drop_last(), t.drop_last(), idx.drop_last()),
{
    let n = c.len() as int;
    let i2 = idx.drop_last();
    assert forall|k: int| 0 <= k < i2.len() implies 0 <= #[trigger] i2[k] < t.drop_last().len()
        && t.drop_last()[i2[k]] == c.drop_last()[k] by {
        assert(idx[k] < idx[n - 1]);
    }
    assert forall|k1: int, k2: int| 0 <= k1 < k2 < i2.len() implies #[trigger] i2[k1]
        < #[trigger] i2[k2] by {
        assert(idx[k1] < idx[k2]);
    }
}

proof fn lemma_common_bounded(a: Seq<u8>, b: Seq<u8>, c: Seq<u8>, ia: Seq<int>, ib: Seq<int>)
    requires
        embeds(c, a, ia),
        embeds(c, b, ib),
    ensures
        c.len() <= lcs(a, b),
    decreases a.len() + b.len(),
{
    let n = c.len() as int;
    if n == 0 {
        return;
    }
    assert(0 <= ia[n - 1] < a.len());
    assert(0 <= ib[n - 1] < b.len());
    if a.last() == b.last() {
        if c[n - 1] == a.last() {
            // match the last elements with each other
            lemma_embeds_prefix(c, a, ia);
            lemma_embeds_prefix(c, b, ib);
            lemma_common_bounded(a.drop_last(), b.drop_last(), c.drop_last(), ia.drop_last(), ib.drop_last());
        } else {
            // neither last element is used
            assert(ia[n - 1] < a.len() - 1);
            assert(ib[n - 1] < b.len() - 1);
            lemma_embeds_shorter(c, a, ia);
            lemma_embeds_shorter(c, b, ib);
            lemma_common_bounded(a.drop_last(), b.drop_last(), c, ia, ib);
        }
    } else if ia[n - 1] < a.len() - 1 {
        lemma_embeds_shorter(c, a, ia);
        lemma_common_bounded(a.drop_last(), b, c, ia, ib);
    } else {
        assert(c[n - 1] == a.last());
        assert(ib[n - 1] < b.len() - 1);
        lemma_embeds_shorter(c, b, ib);
        lemma_common_bounded(a, b.drop_last(), c, ia, ib);
    }
}

proof fn lemma_lcs_witness(a: Seq<u8>, b: Seq<u8>) -> (w: (Seq<u8>, Seq<int>, Seq<int>))
    ensures
        embeds(w.0, a, w.1),
        embeds(w.0, b, w.2),
        w.0.len() == lcs(a, b),
    decreases a.len() + b.len(),
{
    if a.len() == 0 || b.len() == 0 {
        (Seq::empty(), Seq::empty(), Seq::empty())
    } else if a.last() == b.last() {
        let (c, ia, ib) = lemma_lcs_witness(a.drop_last(), b.drop_last());
        let c2 = c.push(a.last());
        let ia2 = ia.push(a.len() - 1);
        let ib2 = ib.push(b.len() - 1);
        assert forall|k1: int, k2: int| 0 <= k1 < k2 < ia2.len() implies #[trigger] ia2[k1]
            < #[trigger] ia2[k2] by {
            if k2 < ia.len() {
                assert(ia[k1] < ia[k2]);
            } else {
                assert(ia[k1] < a.len() - 1);
            }
        }
        assert forall|k1: int, k2: int| 0 <= k1 < k2 < ib2.len() implies #[trigger] ib2[k1]
            < #[trigger] ib2[k2] by {
            if k2 < ib.len() {
                assert(ib[k1] < ib[k2]);
            } else {
                assert(ib[k1] < b.len() - 1);
            }
        }
        assert forall|k: int| 0 <= k < ia2.len() implies 0 <= #[trigger] ia2[k] < a.len() && a[ia2[k]]
            == c2[k] by {
            if k < ia.len() {
                assert(a.drop_last()[ia[k]] == c[k]);
            }
        }
        assert forall|k: int| 0 <= k < ib2.len() implies 0 <= #[trigger] ib2[k] < b.len() && b[ib2[k]]
            == c2[k] by {
            if k < ib.len() {
                assert(b.drop_last()[ib[k]] == c[k]);
            }
        }
        (c2, ia2, ib2)
    } else if lcs(a.drop_last(), b) >= lcs(a, b.drop_last()) {
        let (c, ia, ib) = lemma_lcs_witness(a.drop_last(), b);
        assert forall|k: int| 0 <= k < ia.len() implies 0 <= #[trigger] ia[k] < a.len() && a[ia[k]]
            == c[k] by {
            assert(a.drop_last()[ia[k]] == c[k]);
        }
        (c, ia, ib)
    } else {
        let (c, ia, ib) = lemma_lcs_witness(a, b.drop_last());
        assert forall|k: int| 0 <= k < ib.len() implies 0 <= #[trigger] ib[k] < b.len() && b[ib[k]]
            == c[k] by {
            assert(b.drop_last()[ib[k]] == c[k]);
        }
        (c, ia, ib)
    }
}

/// `lcs` is what its name says: some common subsequence of `a` and `b` has
/// length `lcs(a, b)`, and no common subsequence is longer.
pub proof fn lcs_is_longest_common_subsequence(a: Seq<u8>, b: Seq<u8>)
    ensures
        exists|c: Seq<u8>|
            is_subsequence(c, a) && is_subsequence(c, b) && #[trigger] c.len() == lcs(a, b),
        forall|c: Seq<u8>|
            is_subsequence(c, a) && is_subsequence(c, b) ==> #[trigger] c.len() <= lcs(a, b),
{
    let (w, ia, ib) = lemma_lcs_witness(a, b);
    assert(is_subsequence(w, a));
    assert(is_subsequence(w, b));
    assert forall|c: Seq<u8>| is_subsequence(c, a) && is_subsequence(c, b) implies #[trigger] c.len()
        <= lcs(a, b) by {
        let ja = choose|idx: Seq<int>| embeds(c, a, idx);
        let jb = choose|idx: Seq<int>| embeds(c, b, idx);
        lemma_common_bounded(a, b, c, ja, jb);
    }
}

/// Length of a longest common subsequence, by dynamic programming over two rows.
pub fn lcs_length(a: &[u8], b: &[u8]) -> (r: usize)
    ensures
        r == lcs(a@, b@),
{
    let m = a.len();
    let n = b.len();
    if m == 0 || n == 0 {
        return 0;
    }
    // prev[k] holds the LCS length of a[..i] and b[..k + 1]
    let mut prev: Vec<usize> = vec![0usize; n];
    let mut curr: Vec<usize> = vec![0usize; n];
    let mut i: usize = 0;
    while i < m
        invariant
            m == a@.len(),
            n == b@.len(),
            0 < n,
            i <= m,
            prev@.len() == n,
            curr@.len() == n,
            forall|k: int| 0 <= k < n ==> #[trigger] prev@[k] == lcs(a@.take(i as int), b@.take(k + 1)),
        decreases m - i,
    {
        let mut j: usize = 0;
        while j < n
            invariant
                m == a@.len(),
                n == b@.len(),
                i < m,
                j <= n,
                prev@.len() == n,
                curr@.len() == n,
                forall|k: int| 0 <= k < n ==> #[trigger] prev@[k] == lcs(a@.take(i as int), b@.take(k + 1)),
                forall|k: int| 0 <= k < j ==> #[trigger] curr@[k] == lcs(a@.take(i + 1), b@.take(k + 1)),
            decreases n - j,
        {
            let ghost row = a@.take(i + 1);
            let ghost col = b@.take(j + 1);
            proof {
                assert(row.drop_last() =~= a@.take(i as int));
                assert(col.drop_last() =~= b@.take(j as int));
                assert(row.last() == a@[i as int]);
                assert(col.last() == b@[j as int]);
                assert(prev@[j as int] == lcs(row.drop_last(), col));
                if j > 0 {
                    assert(b@.take(j as int) =~= b@.take((j - 1) + 1));
                    assert(prev@[j - 1] == lcs(row.drop_last(), col.drop_last()));
                    assert(curr@[j - 1] == lcs(row, col.drop_last()));
                    lemma_lcs_bounded(a@.take(i as int), b@.take(j as int));
                } else {
                    assert(lcs(row.drop_last(), col.drop_last()) == 0);
                    assert(lcs(row, col.drop_last()) == 0);
                }
            }
            let v = if a[i] == b[j] {
                let diag = if j == 0 {
                    0
                } else {
                    prev[j - 1]
                };
                diag + 1
            } else {
                let up = prev[j];
                let left = if j == 0 {
                    0
                } else {
                    curr[j - 1]
                };
                if up >= left {
                    up
                } else {
                    left
                }
            };
            assert(v == lcs(row, col));
            curr.set(j, v);
            j = j + 1;
        }
        std::mem::swap(&mut prev, &mut curr);
        i = i + 1;
    }
    assert(a@.take(m as int) =~= a@);
    assert(b@.take((n - 1) + 1) =~= b@);
    prev[n - 1]
}

/// The bytes that title comparison works on: the UTF-8 encoding of the
/// lower-cased title.
pub open spec fn folded_bytes(s: Seq<char>) -> Seq<u8> {
    vstd::utf8::encode_utf8(lowercase_of(s))
}

/// What title similarity is computed from: the longest common subsequence
/// of the two folded titles and the two folded lengths. The similarity
/// score is `2 * common / (left_len + right_len)`, or 0 when either title
/// folds to nothing.
#[derive(Debug, Clone, Copy, PartialEq, Eq, Structural)]
pub struct SimilarityCounts {
    /// Length of a longest common subsequence of the folded titles.
    pub common: usize,
    /// Byte length of the first folded title.
    pub left_len: usize,
    /// Byte length of the second folded title.
    pub right_len: usize,
}

proof fn lemma_encoding_empty(s: Seq<char>)
    ensures
        vstd::utf8::encode_utf8(s).len() == 0 <==> s.len() == 0,
{
    if s.len() > 0 {
        assert(vstd::utf8::encode_scalar(s[0] as u32).len() > 0);
    }
}

/// Compares two KSB titles: lower-cases both and measures their longest
/// common subsequence over UTF-8 bytes.
pub fn ksb_similarity_counts(a: &str, b: &str) -> (r: SimilarityCounts)
    ensures
        r.left_len == folded_bytes(a@).len(),
        r.right_len == folded_bytes(b@).len(),
        r.common == lcs(folded_bytes(a@), folded_bytes(b@)),
        2 * r.common <= r.left_len + r.right_len,
        r.left_len == 0 <==> a@.len() == 0,
        r.right_len == 0 <==> b@.len() == 0,
        a@ == b@ ==> r.common == r.left_len && r.left_len == r.right_len,
{
    let a_lower = to_lowercase(a);
    let b_lower = to_lowercase(b);
    let a_bytes = a_lower.as_str().as_bytes();
    let b_bytes = b_lower.as_str().as_bytes();
    let common = lcs_length(a_bytes, b_bytes);
    proof {
        lemma_lcs_bounded(a_bytes@, b_bytes@);
        lemma_encoding_empty(a_lower@);
        lemma_encoding_empty(b_lower@);
        if a@ == b@ {
            lemma_lcs_self(a_bytes@);
        }
    }
    SimilarityCounts { common, left_len: a_bytes.len(), right_len: b_bytes.len() }
}

/// Similarity is symmetric: comparing `a` with `b` finds the same common
/// subsequence length as comparing `b` with `a`, and the same total length.
pub proof fn similarity_is_symmetric(a: Seq<char>, b: Seq<char>)
    ensures
        lcs(folded_bytes(a), folded_bytes(b)) == lcs(folded_bytes(b), folded_bytes(a)),
{
    lemma_lcs_symmetric(folded_bytes(a), folded_bytes(b));
}

/// A title is fully similar to itself: the common subsequence is the whole
/// folded title, so the score `2 * common / (len + len)` is 1 whenever the
/// title is not empty.
pub proof fn similarity_of_identical(a: Seq<char>)
    ensures
        lcs(folded_bytes(a), folded_bytes(a)) == folded_bytes(a).len(),
{
    lemma_lcs_self(folded_bytes(a));
}

/// Similarity never exceeds 1: twice the common subsequence length is at
/// most the combined length of the two folded titles.
pub proof fn similarity_at_most_one(a: Seq<char>, b: Seq<char>)
    ensures
        2 * lcs(folded_bytes(a), folded_bytes(b)) <= folded_bytes(a).len() + folded_bytes(b).len(),
{
    lemma_lcs_bounded(folded_bytes(a), folded_bytes(b));
}

// ---------------------------------------------------------------------------
// Best match in a library
// ---------------------------------------------------------------------------

/// Numerator of a similarity score, halved: the score is `2 * num / den`.
/// A comparison where either title folds to nothing scores 0.
pub open spec fn score_num(x: SimilarityCounts) -> nat {
    if x.left_len == 0 || x.right_len == 0 {
        0
    } else {
        x.common as nat
    }
}

/// Denominator of a similarity score: the combined folded length, or 1
/// when either title folds to nothing.
pub open spec fn score_den(x: SimilarityCounts) -> nat {
    if x.left_len == 0 || x.right_len == 0 {
        1
    } else {
        (x.left_len + x.right_len) as nat
    }
}

/// The score of `x` is strictly greater than that of `y`, compared exactly
/// as fractions.
pub open spec fn scores_above(x: SimilarityCounts, y: SimilarityCounts) -> bool {
    score_num(x) * score_den(y) > score_num(y) * score_den(x)
}

/// The counts of comparing two titles, as `ksb_similarity_counts` gives
/// them.
pub open spec fn counts_match(c: SimilarityCounts, a: Seq<char>, b: Seq<char>) -> bool {
    &&& c.left_len == folded_bytes(a).len()
    &&& c.right_len == folded_bytes(b).len()
    &&& c.common == lcs(folded_bytes(a), folded_bytes(b))
}

/// `n * (l + r)` for `n`, `l`, `r` below 2^64, as a 129-bit number: the
/// carry above 2^128 and the low 128 bits.
fn wide_product(n: usize, l: usize, r: usize) -> (w: (bool, u128))
    ensures
        n * (l + r) == (if w.0 {
            0x1_0000_0000_0000_0000_0000_0000_0000_0000int
        } else {
            0int
        }) + w.1,
{
    assert(n <= 0xffff_ffff_ffff_ffff && l <= 0xffff_ffff_ffff_ffff && r <= 0xffff_ffff_ffff_ffff);
    assert(n * l <= 0xffff_ffff_ffff_fffe_0000_0000_0000_0001) by (nonlinear_arith)
        requires
            n <= 0xffff_ffff_ffff_ffff,
            l <= 0xffff_ffff_ffff_ffff,
    ;
    assert(n * r <= 0xffff_ffff_ffff_fffe_0000_0000_0000_0001) by (nonlinear_arith)
        requires
            n <= 0xffff_ffff_ffff_ffff,
            r <= 0xffff_ffff_ffff_ffff,
    ;
    let a: u128 = (n as u128) * (l as u128);
    let b: u128 = (n as u128) * (r as u128);
    assert(n * (l + r) == n * l + n * r) by (nonlinear_arith);
    if a > u128::MAX - b {
        (true, a - (u128::MAX - b) - 1)
    } else {
        (false, a + b)
    }
}

/// Whether `x` is above `y` as 129-bit numbers.
fn wide_above(x: (bool, u128), y: (bool, u128)) -> (r: bool)
    ensures
        r == ((if x.0 {
            0x1_0000_0000_0000_0000_0000_0000_0000_0000int
        } else {
            0int
        }) + x.1 > (if y.0 {
            0x1_0000_0000_0000_0000_0000_0000_0000_0000int
        } else {
            0int
        }) + y.1),
{
    if x.0 != y.0 {
        x.0
    } else {
        x.1 > y.1
    }
}

/// Compares two similarity scores exactly: whether `x` scores strictly
/// higher than `y`.
pub fn score_above(x: &SimilarityCounts, y: &SimilarityCounts) -> (r: bool)
    ensures
        r == scores_above(*x, *y),
{
    let (xn, xl, xr): (usize, usize, usize) = if x.left_len == 0 || x.right_len == 0 {
        (0, 1, 0)
    } else {
        (x.common, x.left_len, x.right_len)
    };
    let (yn, yl, yr): (usize, usize, usize) = if y.left_len == 0 || y.right_len == 0 {
        (0, 1, 0)
    } else {
        (y.common, y.left_len, y.right_len)
    };
    let lhs = wide_product(xn, yl, yr);
    let rhs = wide_product(yn, xl, xr);
    wide_above(lhs, rhs)
}

proof fn lemma_above_over_not_above(x: SimilarityCounts, y: SimilarityCounts, z: SimilarityCounts)
    requires
        scores_above(x, y),
        !scores_above(z, y),
    ensures
        scores_above(x, z),
{
    let (nx, dx, ny, dy, nz, dz) = (
        score_num(x),
        score_den(x),
        score_num(y),
        score_den(y),
        score_num(z),
        score_den(z),
    );
    assert(nx * dz > nz * dx) by (nonlinear_arith)
        requires
            nx * dy > ny * dx,
            nz * dy <= ny * dz,
            dx > 0,
            dy > 0,
            dz > 0,
    {
        assert(nx * dy * dz > ny * dx * dz);
        assert(nz * dy * dx <= ny * dz * dx);
    }
}

/// Finds the library title most similar to `title`: the first one with the
/// highest score, with its counts, as long as that score is above 0; `None`
/// when every library title scores 0 (so also for an empty library).
pub fn best_library_match(title: &str, library: &[&str]) -> (r: Option<(usize, SimilarityCounts)>)
    ensures
        match r {
            None => forall|j: int|
                0 <= j < library@.len() ==> #[trigger] folded_bytes(library@[j]@).len() == 0
                    || folded_bytes(title@).len() == 0 || lcs(
                    folded_bytes(title@),
                    folded_bytes(library@[j]@),
                ) == 0,
            Some((i, c)) => {
                &&& i < library@.len()
                &&& counts_match(c, title@, library@[i as int]@)
                &&& score_num(c) > 0
                &&& forall|j: int, d: SimilarityCounts|
                    0 <= j < i && #[trigger] counts_match(d, title@, library@[j]@)
                        ==> scores_above(c, d)
                &&& forall|j: int, d: SimilarityCounts|
                    i < j < library@.len() && #[trigger] counts_match(d, title@, library@[j]@)
                        ==> !scores_above(d, c)
            },
        },
{
    let mut best: Option<(usize, SimilarityCounts)> = None;
    let mut j: usize = 0;
    while j < library.len()
        invariant
            j <= library@.len(),
            best is None ==> forall|k: int|
                0 <= k < j ==> #[trigger] folded_bytes(library@[k]@).len() == 0 || folded_bytes(
                    title@,
                ).len() == 0 || lcs(folded_bytes(title@), folded_bytes(library@[k]@)) == 0,
            best matches Some((i, c)) ==> i < j && counts_match(c, title@, library@[i as int]@)
                && score_num(c) > 0,
            best matches Some((i, c)) ==> forall|k: int, d: SimilarityCounts|
                0 <= k < i && #[trigger] counts_match(d, title@, library@[k]@) ==> scores_above(c, d),
            best matches Some((i, c)) ==> forall|k: int, d: SimilarityCounts|
                i < k < j && #[trigger] counts_match(d, title@, library@[k]@) ==> !scores_above(d, c),
        decreases library@.len() - j,
    {
        let counts = ksb_similarity_counts(title, library[j]);
        let better = match &best {
            None => counts.left_len != 0 && counts.right_len != 0 && counts.common != 0,
            Some((_, c)) => score_above(&counts, c),
        };
        if better {
            proof {
                match best {
                    None => {
                        assert forall|k: int, d: SimilarityCounts|
                            0 <= k < j && #[trigger] counts_match(d, title@, library@[k]@)
                                implies scores_above(counts, d) by {
                            assert(score_num(d) == 0);
                            assert(score_num(counts) * score_den(d) > 0) by (nonlinear_arith)
                                requires
                                    score_num(counts) > 0,
                                    score_den(d) > 0,
                            ;
                        }
                    },
                    Some((i, c)) => {
                        assert(score_num(counts) > 0) by (nonlinear_arith)
                            requires
                                score_num(counts) * score_den(c) > score_num(c) * score_den(counts),
                        ;
                        assert forall|k: int, d: SimilarityCounts|
                            0 <= k < j && #[trigger] counts_match(d, title@, library@[k]@)
                                implies scores_above(counts, d) by {
                            if k < i {
                                lemma_above_chain(counts, c, d);
                            } else if k == i {
                            } else {
                                lemma_above_over_not_above(counts, c, d);
                            }
                        }
                    },
                }
            }
            best = Some((j, counts));
        } else {
            proof {
                if let Some((i, c)) = best {
                    assert forall|k: int, d: SimilarityCounts|
                        i < k < j + 1 && #[trigger] counts_match(d, title@, library@[k]@)
                            implies !scores_above(d, c) by {
                        if k == j {
                            assert(d == counts);
                        }
                    }
                }
            }
        }
        j = j + 1;
    }
    best
}

proof fn lemma_above_chain(x: SimilarityCounts, y: SimilarityCounts, z: SimilarityCounts)
    requires
        scores_above(x, y),
        scores_above(y, z),
    ensures
        scores_above(x, z),
{
    let (nx, dx, ny, dy, nz, dz) = (
        score_num(x),
        score_den(x),
        score_num(y),
        score_den(y),
        score_num(z),
        score_den(z),
    );
    assert(nx * dz > nz * dx) by (nonlinear_arith)
        requires
            nx * dy > ny * dx,
            ny * dz > nz * dy,
            dx > 0,
            dy > 0,
            dz > 0,
    {
        assert(nx * dy * dz > ny * dx * dz);
        assert(ny * dz * dx > nz * dy * dx);
    }
}

} // verus!
