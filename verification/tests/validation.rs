use academy_engine::formatting::{AcademyCourse, Assessment, CourseMetadata, Lesson, Module};
use academy_engine::validation::{
    validate_course, QualityRating, ValidationSeverity, ValidationStatus,
};

fn minimal_course() -> AcademyCourse {
    AcademyCourse {
        course_id: "test-001".into(),
        title: "Test Course".into(),
        description: "A test".into(),
        topic: "Testing".into(),
        domain: "QA".into(),
        target_audience: "Engineers".into(),
        modules: vec![Module {
            title: "Knowledge".into(),
            description: "Learn knowledge".into(),
            order: 1,
            lessons: vec![Lesson {
                title: "Lesson 1".into(),
                description: "First lesson".into(),
                content: "<p>Content here</p>".into(),
                video_url: None,
                video_provider: None,
                video_id: None,
                duration: 10,
                order: 1,
                assessment: None,
                learning_objectives: vec!["Understand testing".into()],
            }],
        }],
        metadata: CourseMetadata {
            total_lessons: 1,
            total_modules: 1,
            estimated_duration: 10,
            generated_at: "2026-03-22T00:00:00Z".into(),
            quality_score_bits: None,
        },
    }
}

#[test]
fn valid_course_passes() {
    let report = validate_course(&minimal_course());
    assert_eq!(report.status, ValidationStatus::Pass);
    assert_eq!(report.errors, 0);
    assert!(report.validation_score >= 95);
}

#[test]
fn empty_course_id_is_error() {
    let mut course = minimal_course();
    course.course_id = String::new();
    let report = validate_course(&course);
    assert_eq!(report.status, ValidationStatus::Fail);
    assert!(report.issues.iter().any(|i| i.id == "S1"));
}

#[test]
fn empty_content_is_error() {
    let mut course = minimal_course();
    course.modules[0].lessons[0].content = String::new();
    let report = validate_course(&course);
    assert!(report.issues.iter().any(|i| i.id == "C1"));
}

#[test]
fn quality_rating_thresholds() {
    assert_eq!(QualityRating::from_score(100), QualityRating::Excellent);
    assert_eq!(QualityRating::from_score(95), QualityRating::Excellent);
    assert_eq!(QualityRating::from_score(85), QualityRating::Good);
    assert_eq!(QualityRating::from_score(70), QualityRating::Acceptable);
    assert_eq!(QualityRating::from_score(50), QualityRating::NeedsWork);
    assert_eq!(QualityRating::from_score(49), QualityRating::Critical);
}

#[test]
fn rating_edges_and_labels() {
    assert_eq!(QualityRating::from_score(94), QualityRating::Good);
    assert_eq!(QualityRating::from_score(84), QualityRating::Acceptable);
    assert_eq!(QualityRating::from_score(69), QualityRating::NeedsWork);
    assert_eq!(QualityRating::from_score(0), QualityRating::Critical);
    assert_eq!(QualityRating::from_score(101), QualityRating::Critical);
    assert_eq!(QualityRating::NeedsWork.label(), "Needs Work");
    assert_eq!(QualityRating::Excellent.label(), "Excellent");
}

#[test]
fn ordering_issues_are_warnings() {
    let mut course = minimal_course();
    course.modules[0].order = 2;
    course.modules[0].lessons[0].order = 7;
    course.modules[0].lessons[0].duration = 61;
    let report = validate_course(&course);
    assert_eq!(report.status, ValidationStatus::Warning);
    assert_eq!(report.warnings, 3);
    assert_eq!(report.validation_score, 91);
    assert_eq!(report.rating, QualityRating::Good);
    assert_eq!(report.issues[0].id, "S4");
    assert_eq!(report.issues[0].message, "Module 'Knowledge' has order 2 but is at position 1");
    assert_eq!(report.issues[0].location.as_deref(), Some("modules[0].order"));
    assert_eq!(report.issues[1].id, "S5");
    assert_eq!(report.issues[1].message, "Lesson 'Lesson 1' has order 7 but is at position 1");
    assert_eq!(report.issues[1].location.as_deref(), Some("modules[0].lessons[0].order"));
    assert_eq!(report.issues[2].id, "C3");
    assert_eq!(
        report.issues[2].message,
        "Lesson 'Lesson 1' duration 61 min is outside recommended range (5-60)"
    );
    assert_eq!(report.recommendations, vec!["Address 3 warning(s) to improve quality".to_string()]);
}

#[test]
fn assessment_errors() {
    let mut course = minimal_course();
    course.modules[0].lessons[0].assessment = Some(Assessment {
        passing_score: 120,
        max_attempts: 0,
        randomize_questions: false,
    });
    let report = validate_course(&course);
    assert_eq!(report.errors, 2);
    assert_eq!(report.status, ValidationStatus::Fail);
    assert_eq!(report.validation_score, 80);
    assert_eq!(report.issues[0].id, "A1");
    assert_eq!(report.issues[0].message, "Assessment passing score 120 exceeds 100");
    assert_eq!(
        report.issues[0].location.as_deref(),
        Some("modules[0].lessons[0].assessment.passingScore")
    );
    assert_eq!(report.issues[1].id, "A2");
    assert_eq!(report.issues[1].severity, ValidationSeverity::Error);
    assert_eq!(
        report.recommendations,
        vec![
            "Fix 2 error(s) before publishing".to_string(),
            "Consider adding learning objectives to all lessons".to_string(),
        ]
    );
}

#[test]
fn empty_course_scores_and_fails() {
    let course = AcademyCourse {
        course_id: String::new(),
        title: String::new(),
        description: String::new(),
        topic: String::new(),
        domain: String::new(),
        target_audience: String::new(),
        modules: vec![],
        metadata: CourseMetadata {
            total_lessons: 0,
            total_modules: 0,
            estimated_duration: 0,
            generated_at: String::new(),
            quality_score_bits: None,
        },
    };
    let report = validate_course(&course);
    let ids: Vec<&str> = report.issues.iter().map(|i| i.id.as_str()).collect();
    assert_eq!(ids, vec!["S1", "S2", "S3", "S6"]);
    assert_eq!(report.errors, 3);
    assert_eq!(report.warnings, 1);
    assert_eq!(report.infos, 0);
    assert_eq!(report.total_issues, 4);
    assert_eq!(report.validation_score, 67);
    assert_eq!(report.rating, QualityRating::NeedsWork);
}

#[test]
fn many_errors_floor_at_zero() {
    let mut course = minimal_course();
    let mut lesson = course.modules[0].lessons[0].clone();
    lesson.content = String::new();
    lesson.title = String::new();
    course.modules[0].lessons = vec![lesson; 6];
    for (i, l) in course.modules[0].lessons.iter_mut().enumerate() {
        l.order = (i + 1) as u32;
    }
    let report = validate_course(&course);
    assert_eq!(report.errors, 12);
    assert_eq!(report.validation_score, 0);
    assert_eq!(report.rating, QualityRating::Critical);
    assert_eq!(report.issues[0].message, "Lesson '' has no content");
    assert_eq!(report.issues[1].message, "Lesson has empty title");
}
