use academy_engine::quality::{
    bloom_coverage, bloom_levels_of_lowered, credibility_of_lowered, credibility_total,
    examples_in_lowered, has_current_info, has_practical_examples, quality_findings,
    source_credibility_score, BloomLevel, IssueSeverity, QualityIssue,
};

#[test]
fn source_credibility_specific_domains() {
    assert_eq!(source_credibility_score("https://pubmed.ncbi.nlm.nih.gov/123"), 95);
    assert_eq!(source_credibility_score("https://www.fda.gov/drugs"), 95);
    assert_eq!(source_credibility_score("https://arxiv.org/abs/2024.1"), 80);
    assert_eq!(source_credibility_score("https://medium.com/post"), 50);
    assert_eq!(source_credibility_score("https://random-blog.com/x"), 40);
}

#[test]
fn source_credibility_tld_fallback() {
    assert_eq!(source_credibility_score("https://example.gov"), 95);
    assert_eq!(source_credibility_score("https://mit.edu"), 90);
    assert_eq!(source_credibility_score("https://who.org"), 85);
    assert_eq!(source_credibility_score("https://example.com"), 60);
}

#[test]
fn bloom_coverage_detects_levels() {
    let content = "Define the term. Explain the concept. Apply the method. Compare results.";
    let levels = bloom_coverage(content);
    assert_eq!(levels.len(), 4); // Remember, Understand, Apply, Analyze
}

#[test]
fn bloom_coverage_empty_content() {
    let levels = bloom_coverage("no keywords here at all");
    assert!(levels.is_empty());
}

#[test]
fn examples_detection() {
    assert!(has_practical_examples("Use the STAR method to structure your response"));
    assert!(has_practical_examples("Consider this case study:"));
    assert!(!has_practical_examples("This is plain text without examples"));
}

/// The weighted overall score of the findings, capped at 100.
fn overall(f: &academy_engine::quality::QualityFindings) -> f64 {
    let avg = if f.citation_count == 0 {
        0.0
    } else {
        f.credibility_total as f64 / f.citation_count as f64
    };
    let char_pct = (f.character_count as f64 / 18_000.0).min(1.0) * 100.0;
    let cite_pct = (f.citation_count as f64 / 50.0).min(1.0) * 100.0;
    let bloom_pct = (f.bloom_levels_found as f64 / 6.0) * 100.0;
    let example_pct = if f.has_examples { 100.0 } else { 0.0 };
    let current_pct = if f.has_current_info { 100.0 } else { 0.0 };
    (char_pct * 0.25 + cite_pct * 0.25 + avg * 0.20 + bloom_pct * 0.15 + example_pct * 0.10
        + current_pct * 0.05)
        .min(100.0)
}

fn all_issues(f: &academy_engine::quality::QualityFindings) -> Vec<&QualityIssue> {
    f.volume_issues.iter().chain(f.coverage_issues.iter()).collect()
}

#[test]
fn quality_validation_passes() {
    // Need 15,000+ chars: "define explain apply compare " is 29 chars, 29*520 = 15,080
    let content = "define explain apply compare ".repeat(520);
    let content = format!("{content} for example, in 2024, this case study shows");
    let sources: Vec<&str> = (0..50).map(|_| "https://pubmed.ncbi.nlm.nih.gov/123").collect();
    let result = quality_findings(&content, &sources);
    assert!(result.passes_standards);
    assert!(overall(&result) > 80.0);
}

#[test]
fn quality_validation_fails_on_low_chars() {
    let content = "short content";
    let sources: Vec<&str> = vec![];
    let result = quality_findings(content, &sources);
    assert!(!result.passes_standards);
    assert!(all_issues(&result)
        .iter()
        .any(|i| i.dimension == "characters" && i.severity == IssueSeverity::Error));
}

#[test]
fn credibility_is_case_insensitive() {
    assert_eq!(source_credibility_score("HTTPS://WWW.FDA.GOV/Drugs"), 95);
    assert_eq!(source_credibility_score("https://en.WIKIPEDIA.org/wiki/x"), 55);
    assert_eq!(source_credibility_score("https://nejm.org"), 95);
    assert_eq!(source_credibility_score("https://www.nature.com/a"), 90);
    assert_eq!(source_credibility_score("https://link.springer.com/a"), 85);
    assert_eq!(source_credibility_score("https://www.researchgate.net/a"), 80);
    assert_eq!(source_credibility_score("ftp://unknown.net"), 50);
    assert_eq!(source_credibility_score(""), 50);
}

#[test]
fn credibility_total_sums_scores() {
    assert_eq!(credibility_total(&[]), 0);
    assert_eq!(credibility_total(&["https://fda.gov", "https://x.com", "x"]), 95 + 60 + 50);
}

#[test]
fn bloom_levels_come_in_order() {
    let levels = bloom_coverage("We CREATE, then we Recall, then we assess.");
    assert_eq!(levels, vec![BloomLevel::Remember, BloomLevel::Evaluate, BloomLevel::Create]);
    assert_eq!(BloomLevel::Apply.keywords(), &["demonstrate", "implement", "use", "execute", "apply", "solve"]);
    assert_eq!(BloomLevel::ALL.len(), 6);
}

#[test]
fn current_info_detection() {
    assert!(has_current_info("Updated in 2025."));
    assert!(!has_current_info("Updated in 2022."));
    assert!(!has_current_info(""));
}

#[test]
fn quality_findings_messages_and_warnings() {
    let content = "x".repeat(16_000);
    let sources: Vec<&str> = (0..45).map(|_| "https://blog.example").collect();
    let f = quality_findings(&content, &sources);
    assert!(f.passes_standards);
    assert_eq!(f.character_count, 16_000);
    assert_eq!(f.citation_count, 45);
    assert_eq!(f.credibility_total, 45 * 40);
    assert!(f.low_credibility);
    assert_eq!(f.volume_issues.len(), 2);
    assert_eq!(f.volume_issues[0].message, "Content has 16000 characters, recommended is 18000");
    assert_eq!(f.volume_issues[0].severity, IssueSeverity::Warning);
    assert_eq!(f.volume_issues[1].message, "Content has 45 citations, recommended is 50");
    assert_eq!(f.coverage_issues.len(), 3);
    assert_eq!(f.coverage_issues[0].dimension, "bloom_taxonomy");
    assert_eq!(f.coverage_issues[0].message, "Only 0/6 Bloom's levels represented, recommended >= 4");
    assert_eq!(f.coverage_issues[1].dimension, "examples");
    assert_eq!(f.coverage_issues[2].dimension, "currency");
}

#[test]
fn quality_findings_errors() {
    let f = quality_findings("abc", &["https://nih.gov"]);
    assert!(!f.passes_standards);
    assert!(!f.low_credibility);
    assert_eq!(f.volume_issues[0].message, "Content has 3 characters, minimum is 15000");
    assert_eq!(f.volume_issues[1].message, "Content has 1 citations, minimum is 40");
    assert_eq!(f.volume_issues[1].severity, IssueSeverity::Error);
}

#[test]
fn character_count_counts_characters_not_bytes() {
    // 7,500 two-byte characters are 15,000 bytes but only 7,500 characters.
    let content = "\u{e9}".repeat(7_500);
    let f = quality_findings(&content, &[]);
    assert_eq!(f.character_count, 7_500);
    assert!(!f.passes_standards);
    assert_eq!(f.volume_issues[0].message, "Content has 7500 characters, minimum is 15000");
    assert_eq!(f.volume_issues[0].severity, IssueSeverity::Error);

    // 16,000 characters of 3 bytes each: a warning, not an error, and no
    // pass of the recommended size although the bytes exceed 18,000.
    let content = "\u{4e2d}".repeat(16_000);
    let f = quality_findings(&content, &[]);
    assert_eq!(f.character_count, 16_000);
    assert_eq!(f.volume_issues[0].message, "Content has 16000 characters, recommended is 18000");
    assert_eq!(f.volume_issues[0].severity, IssueSeverity::Warning);
}

#[test]
fn lowered_text_functions() {
    assert_eq!(credibility_of_lowered("https://www.fda.gov/drugs"), 95);
    // Already-lowered input is taken as it is: upper case does not match.
    assert_eq!(credibility_of_lowered("HTTPS://WWW.FDA.GOV"), 50);
    assert_eq!(credibility_of_lowered("https://a.blog.org"), 40);
    assert_eq!(
        bloom_levels_of_lowered("we recall, then assess"),
        vec![BloomLevel::Remember, BloomLevel::Evaluate]
    );
    assert!(bloom_levels_of_lowered("DEFINE").is_empty());
    assert!(examples_in_lowered("a case study"));
    assert!(!examples_in_lowered("A CASE STUDY"));
}

#[test]
fn bloom_keywords_are_lowercase_and_disjoint() {
    let mut seen: Vec<&str> = Vec::new();
    for level in BloomLevel::ALL {
        let kws = level.keywords();
        assert!(!kws.is_empty());
        for kw in kws {
            assert!(!kw.is_empty() && kw.chars().all(|c| c.is_ascii_lowercase()));
            assert!(!seen.contains(kw), "{kw}");
            seen.push(kw);
        }
    }
    assert_eq!(seen.len(), 34);
}
