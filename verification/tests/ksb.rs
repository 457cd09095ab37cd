use academy_engine::ksb::{
    best_library_match, ksb_similarity_counts, lcs_length, score_above, KsbCategory, KsbComponent,
    KsbFramework, SimilarityCounts,
};

fn score(c: &SimilarityCounts) -> f64 {
    if c.left_len == 0 || c.right_len == 0 {
        0.0
    } else {
        2.0 * c.common as f64 / (c.left_len + c.right_len) as f64
    }
}

#[test]
fn ksb_category_labels() {
    assert_eq!(KsbCategory::Knowledge.label(), "Knowledge");
    assert_eq!(KsbCategory::Skill.label(), "Skills");
    assert_eq!(KsbCategory::Behavior.label(), "Behaviors");
}

#[test]
fn similarity_identical() {
    let score = score(&ksb_similarity_counts("Drug Safety Assessment", "Drug Safety Assessment"));
    assert!((score - 1.0).abs() < 0.001);
}

#[test]
fn similarity_partial() {
    let score = score(&ksb_similarity_counts("Drug Safety Assessment", "Drug Safety Evaluation"));
    assert!(score > 0.6); // Substantial overlap
}

#[test]
fn similarity_unrelated() {
    let score = score(&ksb_similarity_counts("Pharmacovigilance", "Quantum Computing"));
    // LCS shares some common letters (a, n, i, c, etc.), so score is moderate
    assert!(score < 0.5);
}

#[test]
fn framework_total_components() {
    let fw = KsbFramework {
        topic: "PV".into(),
        domain: "Pharma".into(),
        knowledge: vec![KsbComponent {
            id: "K1".into(),
            category: KsbCategory::Knowledge,
            title: "Test".into(),
            description: "Desc".into(),
        }],
        skills: vec![],
        behaviors: vec![],
    };
    assert_eq!(fw.total_components(), 1);
}

#[test]
fn lcs_exact_values() {
    assert_eq!(lcs_length(b"ABCBDAB", b"BDCABA"), 4);
    assert_eq!(lcs_length(b"", b"abc"), 0);
    assert_eq!(lcs_length(b"abc", b""), 0);
    assert_eq!(lcs_length(b"abc", b"abc"), 3);
    assert_eq!(lcs_length(b"abc", b"def"), 0);
    assert_eq!(lcs_length(b"a", b"a"), 1);
}

#[test]
fn similarity_folds_case() {
    let c = ksb_similarity_counts("DRUG", "drug");
    assert_eq!(c.common, 4);
    assert_eq!(c.left_len, 4);
    assert_eq!(c.right_len, 4);
    assert!((score(&c) - 1.0).abs() < 1e-12);
}

#[test]
fn similarity_symmetric_and_bounded() {
    let a = "Signal Detection";
    let b = "PV Signal Detection Methods";
    let ab = ksb_similarity_counts(a, b);
    let ba = ksb_similarity_counts(b, a);
    assert_eq!(ab.common, ba.common);
    assert_eq!(ab.left_len + ab.right_len, ba.left_len + ba.right_len);
    assert!(2 * ab.common <= ab.left_len + ab.right_len);
    assert_eq!(ab.common, 16);
}

#[test]
fn similarity_of_empty_title_is_zero() {
    let c = ksb_similarity_counts("", "Drug Safety");
    assert_eq!(c.common, 0);
    assert_eq!(c.left_len, 0);
    assert_eq!(score(&c), 0.0);
}

#[test]
fn by_category_and_descriptions() {
    let comp = |id: &str, cat| KsbComponent {
        id: id.into(),
        category: cat,
        title: "t".into(),
        description: "d".into(),
    };
    let fw = KsbFramework {
        topic: "T".into(),
        domain: "D".into(),
        knowledge: vec![comp("K1", KsbCategory::Knowledge)],
        skills: vec![comp("S1", KsbCategory::Skill), comp("S2", KsbCategory::Skill)],
        behaviors: vec![],
    };
    assert_eq!(fw.by_category(KsbCategory::Skill).len(), 2);
    assert_eq!(fw.by_category(KsbCategory::Skill)[1].id, "S2");
    assert_eq!(fw.by_category(KsbCategory::Behavior).len(), 0);
    assert_eq!(fw.total_components(), 3);
    let by_cat: usize = KsbCategory::ALL.iter().map(|c| fw.by_category(*c).len()).sum();
    assert_eq!(by_cat, fw.total_components());
    assert_eq!(KsbCategory::Knowledge.module_description(), "Learn the essential knowledge components");
    assert_eq!(KsbCategory::Skill.module_description(), "Learn the essential skills components");
    assert_eq!(KsbCategory::ALL, [KsbCategory::Knowledge, KsbCategory::Skill, KsbCategory::Behavior]);
}

#[test]
fn similarity_of_two_empty_titles_is_zero() {
    let c = ksb_similarity_counts("", "");
    assert_eq!((c.common, c.left_len, c.right_len), (0, 0, 0));
    assert_eq!(score(&c), 0.0);
    // A non-empty title folds to something and matches itself fully.
    let c = ksb_similarity_counts("\u{c9}tude", "\u{c9}tude");
    assert_eq!((c.common, c.left_len, c.right_len), (6, 6, 6));
}

/// Matches of discovered titles against a library at a threshold: each
/// discovered title with its best library title, when that scores enough.
fn matches(discovered: &[&str], library: &[&str], threshold: f64) -> Vec<(usize, usize, f64)> {
    let mut out = Vec::new();
    for (di, d) in discovered.iter().enumerate() {
        let (idx, best) = match best_library_match(d, library) {
            Some((i, c)) => (i, score(&c)),
            None => (0, 0.0),
        };
        if best >= threshold {
            out.push((di, idx, best));
        }
    }
    out
}

#[test]
fn match_ksbs_finds_matches() {
    let discovered = vec!["Drug Safety", "Signal Detection", "Regulatory Compliance"];
    let library = vec!["Drug Safety Assessment", "PV Signal Detection Methods", "Cooking"];
    let m = matches(&discovered, &library, 0.5);
    assert_eq!(m.len(), 2); // Drug Safety + Signal Detection match
    assert_eq!((m[0].0, m[0].1), (0, 0));
    assert_eq!((m[1].0, m[1].1), (1, 1));
}

#[test]
fn best_match_prefers_first_of_equal_scores() {
    // "ab" against "ab" scores 1, as does the second "AB".
    let r = best_library_match("ab", &["xy", "ab", "AB"]);
    let (i, c) = r.expect("a match");
    assert_eq!(i, 1);
    assert_eq!((c.common, c.left_len, c.right_len), (2, 2, 2));
    // Equal fractions 2/4 and 3/6 tie: the first stays.
    let half_a = SimilarityCounts { common: 1, left_len: 2, right_len: 2 };
    let half_b = SimilarityCounts { common: 3, left_len: 6, right_len: 6 };
    assert!(!score_above(&half_a, &half_b));
    assert!(!score_above(&half_b, &half_a));
    let more = SimilarityCounts { common: 2, left_len: 3, right_len: 3 };
    assert!(score_above(&more, &half_a));
    let empty = SimilarityCounts { common: 0, left_len: 0, right_len: 5 };
    assert!(score_above(&half_a, &empty));
    assert!(!score_above(&empty, &half_a));
}

#[test]
fn best_match_none_when_nothing_scores() {
    assert!(best_library_match("abc", &[]).is_none());
    assert!(best_library_match("abc", &["xyz", ""]).is_none());
    assert!(best_library_match("", &["abc"]).is_none());
}

#[test]
fn score_above_compares_large_counts_exactly() {
    let big = usize::MAX / 2;
    let x = SimilarityCounts { common: big, left_len: big, right_len: big + 1 };
    let y = SimilarityCounts { common: big - 1, left_len: big, right_len: big };
    // x: big / (2 big + 1); y: (big - 1) / (2 big): x is the larger.
    assert!(score_above(&x, &y));
    assert!(!score_above(&y, &x));
    assert!(!score_above(&x, &x));
}
