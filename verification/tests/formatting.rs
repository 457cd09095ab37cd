use academy_engine::formatting::{
    estimate_duration_minutes, format_course, generate_description, generate_title,
    title_from_lowered, word_count,
    Assessment, FormatCourseParams, LessonContent, MAX_DURATION_MINUTES, MIN_DURATION_MINUTES,
};
use academy_engine::ksb::{KsbCategory, KsbComponent, KsbFramework};
use academy_engine::validation::{validate_course, ValidationStatus};

#[test]
fn duration_estimation() {
    assert_eq!(estimate_duration_minutes(0), MIN_DURATION_MINUTES);
    assert_eq!(estimate_duration_minutes(200), 3_u32.clamp(MIN_DURATION_MINUTES, MAX_DURATION_MINUTES)); // 1 + 2 = 3, clamped to 5
    assert_eq!(estimate_duration_minutes(1000), 7); // 5 + 2
    assert_eq!(estimate_duration_minutes(20000), MAX_DURATION_MINUTES); // 100 + 2, clamped to 60
}

#[test]
fn title_generation() {
    assert_eq!(
        generate_title("Pharmacovigilance", "Pharmaceutical Industry"),
        "Pharmacovigilance (Pharmaceutical Industry)"
    );
    assert_eq!(
        generate_title("Pharmaceutical Industry Overview", "Pharmaceutical Industry"),
        "Pharmaceutical Industry Overview"
    );
}

fn pv_framework() -> KsbFramework {
    KsbFramework {
        topic: "PV Basics".into(),
        domain: "Pharma".into(),
        knowledge: vec![KsbComponent {
            id: "K1".into(),
            category: KsbCategory::Knowledge,
            title: "ADR Classification".into(),
            description: "Understand ADR types".into(),
        }],
        skills: vec![],
        behaviors: vec![],
    }
}

#[test]
fn format_course_structure() {
    let fw = pv_framework();

    let content = vec![LessonContent {
        component_id: "K1".into(),
        html: "<p>ADRs are classified into Type A and Type B reactions.</p>".into(),
        learning_objectives: vec!["Classify ADR types".into()],
    }];

    let course = format_course(&FormatCourseParams {
        course_id: "test-001",
        framework: &fw,
        content: &content,
        target_audience: "PharmD graduates",
        generated_at: "2026-03-22T00:00:00Z",
        quality_score_bits: None,
    });

    assert_eq!(course.course_id, "test-001");
    assert_eq!(course.modules.len(), 3); // K, S, B modules always created
    assert_eq!(course.modules[0].lessons.len(), 1);
    assert_eq!(course.modules[1].lessons.len(), 0);
    assert_eq!(course.metadata.total_lessons, 1);
}

#[test]
fn duration_clamps_low_and_high() {
    assert_eq!(estimate_duration_minutes(1), 5);
    assert_eq!(estimate_duration_minutes(599), 5); // 2 + 2 = 4 -> 5
    assert_eq!(estimate_duration_minutes(600), 5); // 3 + 2
    assert_eq!(estimate_duration_minutes(800), 6); // 4 + 2
    assert_eq!(estimate_duration_minutes(11600), 60); // 58 + 2
    assert_eq!(estimate_duration_minutes(11800), 60); // 59 + 2 -> 60
}

#[test]
fn word_count_splits_on_any_whitespace() {
    assert_eq!(word_count(""), 0);
    assert_eq!(word_count("   "), 0);
    assert_eq!(word_count("one"), 1);
    assert_eq!(word_count("  two words  "), 2);
    assert_eq!(word_count("a\tb\nc\r\nd"), 4);
    assert_eq!(word_count("non\u{00A0}breaking space"), 3);
}

#[test]
fn title_ignores_case_and_empty_domain() {
    assert_eq!(generate_title("PHARMA basics", "pharma"), "PHARMA basics");
    assert_eq!(generate_title("Topic", ""), "Topic");
    assert_eq!(generate_title("Topic", "Domain"), "Topic (Domain)");
}

#[test]
fn description_generation() {
    assert_eq!(
        generate_description("PV", "Pharma", "Nurses"),
        "A comprehensive course on PV. Designed for Nurses. Covers essential concepts and practical applications in Pharma. This course includes structured lessons with learning objectives, rich content, and assessments to validate understanding."
    );
    assert_eq!(
        generate_description("PV", "", ""),
        "A comprehensive course on PV. This course includes structured lessons with learning objectives, rich content, and assessments to validate understanding."
    );
}

#[test]
fn format_course_falls_back_without_content() {
    let fw = pv_framework();
    let course = format_course(&FormatCourseParams {
        course_id: "c",
        framework: &fw,
        content: &[],
        target_audience: "",
        generated_at: "now",
        quality_score_bits: Some(0x4054_0000_0000_0000),
    });
    let lesson = &course.modules[0].lessons[0];
    assert_eq!(lesson.content, "<p>Understand ADR types</p>");
    assert_eq!(lesson.learning_objectives, vec!["Understand ADR Classification".to_string()]);
    assert_eq!(lesson.duration, 5);
    assert_eq!(lesson.order, 1);
    assert_eq!(course.title, "PV Basics (Pharma)");
    assert_eq!(course.modules[0].title, "Knowledge");
    assert_eq!(course.modules[1].title, "Skills");
    assert_eq!(course.modules[2].title, "Behaviors");
    assert_eq!(course.modules[2].description, "Learn the essential behaviors components");
    assert_eq!(course.modules[2].order, 3);
    assert_eq!(course.metadata.total_modules, 3);
    assert_eq!(course.metadata.estimated_duration, 5);
    assert_eq!(course.metadata.quality_score_bits, Some(0x4054_0000_0000_0000));
}

#[test]
fn format_course_last_content_wins() {
    let fw = pv_framework();
    let content = vec![
        LessonContent {
            component_id: "K1".into(),
            html: "first".into(),
            learning_objectives: vec![],
        },
        LessonContent {
            component_id: "K1".into(),
            html: "second".into(),
            learning_objectives: vec!["b".into()],
        },
    ];
    let course = format_course(&FormatCourseParams {
        course_id: "c",
        framework: &fw,
        content: &content,
        target_audience: "",
        generated_at: "",
        quality_score_bits: None,
    });
    assert_eq!(course.modules[0].lessons[0].content, "second");
    assert_eq!(course.modules[0].lessons[0].learning_objectives, vec!["b".to_string()]);
}

#[test]
fn formatted_course_validates_cleanly() {
    let fw = pv_framework();
    let course = format_course(&FormatCourseParams {
        course_id: "c-1",
        framework: &fw,
        content: &[],
        target_audience: "Nurses",
        generated_at: "",
        quality_score_bits: None,
    });
    let report = validate_course(&course);
    assert_eq!(report.status, ValidationStatus::Pass);
    assert_eq!(report.validation_score, 100);
}

#[test]
fn assessment_defaults() {
    let a = Assessment::default();
    assert_eq!(a.passing_score, 70);
    assert_eq!(a.max_attempts, 3);
    assert!(!a.randomize_questions);
}

#[test]
fn try_format_course_formats_when_minutes_fit() {
    let fw = pv_framework();
    let params = FormatCourseParams {
        course_id: "c",
        framework: &fw,
        content: &[],
        target_audience: "",
        generated_at: "",
        quality_score_bits: None,
    };
    let course = academy_engine::formatting::try_format_course(&params).expect("fits");
    assert_eq!(course.metadata.total_lessons, 1);
    assert_eq!(course.metadata.estimated_duration, 5);
    assert_eq!(course.course_id, format_course(&params).course_id);
}

#[test]
fn duration_is_not_truncated_to_u32() {
    let huge: usize = usize::MAX;
    assert_eq!(estimate_duration_minutes(huge), MAX_DURATION_MINUTES);
    if usize::BITS > 32 {
        let over_u32 = (u32::MAX as usize) + 1;
        assert_eq!(estimate_duration_minutes(over_u32), MAX_DURATION_MINUTES);
    }
    // Monotone: more words never shorten the estimate.
    assert!(estimate_duration_minutes(20_000) <= estimate_duration_minutes(huge));
}

#[test]
fn title_from_lowered_forms() {
    assert_eq!(title_from_lowered("PV", "Pharma", "pv", "pharma"), "PV (Pharma)");
    assert_eq!(title_from_lowered("Pharma Basics", "PHARMA", "pharma basics", "pharma"), "Pharma Basics");
    assert_eq!(title_from_lowered("Topic", "", "topic", ""), "Topic");
    // The lower-cased forms decide: given as they are, they need not match.
    assert_eq!(title_from_lowered("Pharma Basics", "PHARMA", "Pharma Basics", "PHARMA"), "Pharma Basics (PHARMA)");
}

#[test]
fn formatted_course_warns_once_per_lesson_without_objectives() {
    let mut fw = pv_framework();
    fw.skills = vec![KsbComponent {
        id: "S1".into(),
        category: KsbCategory::Skill,
        title: "Signal Detection".into(),
        description: "Detect signals".into(),
    }];
    fw.behaviors = vec![KsbComponent {
        id: "B1".into(),
        category: KsbCategory::Behavior,
        title: "Diligence".into(),
        description: "Act with care".into(),
    }];
    let content = vec![
        LessonContent {
            component_id: "K1".into(),
            html: "<p>x</p>".into(),
            learning_objectives: vec![],
        },
        LessonContent {
            component_id: "S1".into(),
            html: "<p>y</p>".into(),
            learning_objectives: vec!["Detect".into()],
        },
        LessonContent {
            component_id: "B1".into(),
            html: "<p>z</p>".into(),
            learning_objectives: vec![],
        },
    ];
    let course = format_course(&FormatCourseParams {
        course_id: "c-2",
        framework: &fw,
        content: &content,
        target_audience: "",
        generated_at: "",
        quality_score_bits: None,
    });
    let report = validate_course(&course);
    assert_eq!(report.errors, 0);
    assert_eq!(report.warnings, 2);
    assert_eq!(report.status, ValidationStatus::Warning);
    assert_eq!(report.validation_score, 94);
}
