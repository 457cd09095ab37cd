//! Course validation: structure, content and assessment checks, and the
//! report that scores and rates a course.
use vstd::prelude::*;

use crate::formatting::{
    category_at, course_built, lesson_built, module_built, AcademyCourse, FormatCourseParams, Lesson,
    Module,
};
use crate::text::{decimal, push_decimal, push_text, texts};

verus! {

/// Category of validation check.
#[derive(Debug, Clone, Copy, PartialEq, Eq, Hash, Structural)]
pub enum ValidationCategory {
    /// Schema compliance.
    Structure,
    /// Content quality standards.
    Content,
    /// WCAG 2.1 AA accessibility.
    Accessibility,
    /// Component auto-detection syntax.
    Components,
    /// Quiz and assessment rules.
    Assessment,
}

/// Severity of a validation issue.
#[derive(Debug, Clone, Copy, PartialEq, Eq, Ord, PartialOrd, Hash, Structural)]
pub enum ValidationSeverity {
    /// Informational — no action required.
    Info,
    /// Warning — should be addressed before publishing.
    Warning,
    /// Error — must be fixed before publishing.
    Error,
}

/// A single validation issue.
#[derive(Debug, Clone)]
pub struct ValidationIssue {
    /// Issue identifier (the check that raised it).
    pub id: String,
    /// Which category this check belongs to.
    pub category: ValidationCategory,
    /// Severity level.
    pub severity: ValidationSeverity,
    /// Human-readable description.
    pub message: String,
    /// Location in the course (e.g., "modules[0].lessons[2]").
    pub location: Option<String>,
    /// Suggestion for fixing the issue.
    pub suggestion: Option<String>,
}

/// The text of a validation issue: each string field as its characters.
pub struct IssueView {
    /// Identifier of the check.
    pub id: Seq<char>,
    /// Category of the check.
    pub category: ValidationCategory,
    /// Severity level.
    pub severity: ValidationSeverity,
    /// Human-readable description.
    pub message: Seq<char>,
    /// Location in the course, if any.
    pub location: Option<Seq<char>>,
    /// Suggested fix, if any.
    pub suggestion: Option<Seq<char>>,
}

/// The characters of an optional string.
pub open spec fn text_of(s: Option<String>) -> Option<Seq<char>> {
    match s {
        Some(t) => Some(t@),
        None => None,
    }
}

impl View for ValidationIssue {
    type V = IssueView;

    open spec fn view(&self) -> IssueView {
        IssueView {
            id: self.id@,
            category: self.category,
            severity: self.severity,
            message: self.message@,
            location: text_of(self.location),
            suggestion: text_of(self.suggestion),
        }
    }
}

/// The texts of a sequence of issues.
pub open spec fn issue_views(v: Seq<ValidationIssue>) -> Seq<IssueView> {
    v.map_values(|i: ValidationIssue| i@)
}

/// An issue that names its location and suggests a fix.
pub open spec fn issue(
    id: Seq<char>,
    category: ValidationCategory,
    severity: ValidationSeverity,
    message: Seq<char>,
    location: Seq<char>,
    suggestion: Seq<char>,
) -> IssueView {
    IssueView {
        id,
        category,
        severity,
        message,
        location: Some(location),
        suggestion: Some(suggestion),
    }
}

fn make_issue(
    id: &str,
    category: ValidationCategory,
    severity: ValidationSeverity,
    message: String,
    location: String,
    suggestion: &str,
) -> (r: ValidationIssue)
    ensures
        r@ == issue(id@, category, severity, message@, location@, suggestion@),
{
    ValidationIssue {
        id: String::from_str(id),
        category,
        severity,
        message,
        location: Some(location),
        suggestion: Some(String::from_str(suggestion)),
    }
}

fn push_issue(issues: &mut Vec<ValidationIssue>, item: ValidationIssue)
    ensures
        issue_views(final(issues)@) == issue_views(old(issues)@).push(item@),
{
    issues.push(item);
    assert(issue_views(issues@) =~= issue_views(old(issues)@).push(item@));
}

// ---------------------------------------------------------------------------
// Locations and messages
// ---------------------------------------------------------------------------

/// `modules[mi].lessons[li]`
pub open spec fn lesson_location(mi: nat, li: nat) -> Seq<char> {
    "modules["@ + decimal(mi) + "].lessons["@ + decimal(li) + "]"@
}

fn lesson_location_text(mi: usize, li: usize) -> (r: String)
    ensures
        r@ == lesson_location(mi as nat, li as nat),
{
    let mut s = String::from_str("modules[");
    push_decimal(&mut s, mi as u64);
    push_text(&mut s, "].lessons[");
    push_decimal(&mut s, li as u64);
    push_text(&mut s, "]");
    s
}

/// `Lesson '<title>'<tail>`
pub open spec fn lesson_named(title: Seq<char>, tail: Seq<char>) -> Seq<char> {
    "Lesson '"@ + title + "'"@ + tail
}

fn lesson_named_text(title: &str, tail: &str) -> (r: String)
    ensures
        r@ == lesson_named(title@, tail@),
{
    let mut s = String::from_str("Lesson '");
    push_text(&mut s, title);
    push_text(&mut s, "'");
    push_text(&mut s, tail);
    s
}

fn location_with(base: &String, tail: &str) -> (r: String)
    ensures
        r@ == base@ + tail@,
{
    let mut s = base.clone();
    push_text(&mut s, tail);
    s
}

// ---------------------------------------------------------------------------
// Sweeps over lessons
// ---------------------------------------------------------------------------

/// Issues raised for the first `k` lessons of module `mi` by a per-lesson check.
pub open spec fn module_sweep(
    lessons: Seq<Lesson>,
    mi: nat,
    k: nat,
    check: spec_fn(Lesson, nat, nat) -> Seq<IssueView>,
) -> Seq<IssueView>
    decreases k,
{
    if k == 0 {
        seq![]
    } else {
        module_sweep(lessons, mi, (k - 1) as nat, check) + check(lessons[k - 1], mi, (k - 1) as nat)
    }
}

/// Issues raised for every lesson of the first `n` modules by a per-lesson check.
pub open spec fn course_sweep(
    modules: Seq<Module>,
    n: nat,
    check: spec_fn(Lesson, nat, nat) -> Seq<IssueView>,
) -> Seq<IssueView>
    decreases n,
{
    if n == 0 {
        seq![]
    } else {
        course_sweep(modules, (n - 1) as nat, check) + module_sweep(
            modules[n - 1].lessons@,
            (n - 1) as nat,
            modules[n - 1].lessons@.len(),
            check,
        )
    }
}

// ---------------------------------------------------------------------------
// Structure checks
// ---------------------------------------------------------------------------

/// S4: the issue for module `m` at position `i` whose order is off.
pub open spec fn module_order_issue(m: Module, i: nat) -> IssueView {
    issue(
        "S4"@,
        ValidationCategory::Structure,
        ValidationSeverity::Warning,
        "Module '"@ + m.title@ + "' has order "@ + decimal(m.order as nat) + " but is at position "@
            + decimal(i + 1),
        "modules["@ + decimal(i) + "].order"@,
        "Fix module ordering to be sequential"@,
    )
}

/// S4 issues for the first `n` modules: each module's order must be its position.
pub open spec fn module_order_issues(modules: Seq<Module>, n: nat) -> Seq<IssueView>
    decreases n,
{
    if n == 0 {
        seq![]
    } else {
        let i = (n - 1) as nat;
        module_order_issues(modules, i) + if modules[i as int].order != i + 1 {
            seq![module_order_issue(modules[i as int], i)]
        } else {
            seq![]
        }
    }
}

/// S5: a lesson's order must be its position within its module.
pub open spec fn lesson_order_check(l: Lesson, mi: nat, li: nat) -> Seq<IssueView> {
    if l.order != li + 1 {
        seq![
            issue(
                "S5"@,
                ValidationCategory::Structure,
                ValidationSeverity::Warning,
                "Lesson '"@ + l.title@ + "' has order "@ + decimal(l.order as nat)
                    + " but is at position "@ + decimal(li + 1),
                lesson_location(mi, li) + ".order"@,
                "Fix lesson ordering to be sequential"@,
            ),
        ]
    } else {
        seq![]
    }
}

/// Some module has a lesson.
pub open spec fn has_lessons(modules: Seq<Module>) -> bool {
    exists|i: int| 0 <= i < modules.len() && #[trigger] modules[i].lessons@.len() > 0
}

/// All structure issues of a course, in the order the checks run.
pub open spec fn structure_issues(c: AcademyCourse) -> Seq<IssueView> {
    let s1 = if c.course_id@.len() == 0 {
        seq![
            issue(
                "S1"@,
                ValidationCategory::Structure,
                ValidationSeverity::Error,
                "Course ID is empty"@,
                "courseId"@,
                "Provide a unique course identifier"@,
            ),
        ]
    } else {
        seq![]
    };
    let s2 = if c.title@.len() == 0 {
        seq![
            issue(
                "S2"@,
                ValidationCategory::Structure,
                ValidationSeverity::Error,
                "Course title is empty"@,
                "title"@,
                "Add a descriptive course title"@,
            ),
        ]
    } else {
        seq![]
    };
    let s3 = if !has_lessons(c.modules@) {
        seq![
            issue(
                "S3"@,
                ValidationCategory::Structure,
                ValidationSeverity::Error,
                "Course has no lessons in any module"@,
                "modules"@,
                "Add at least one lesson to a module"@,
            ),
        ]
    } else {
        seq![]
    };
    let s6 = if c.description@.len() == 0 {
        seq![
            issue(
                "S6"@,
                ValidationCategory::Structure,
                ValidationSeverity::Warning,
                "Course description is empty"@,
                "description"@,
                "Add a course description"@,
            ),
        ]
    } else {
        seq![]
    };
    s1 + s2 + s3 + module_order_issues(c.modules@, c.modules@.len()) + course_sweep(
        c.modules@,
        c.modules@.len(),
        |l: Lesson, mi: nat, li: nat| lesson_order_check(l, mi, li),
    ) + s6
}

fn any_lessons(modules: &Vec<Module>) -> (r: bool)
    ensures
        r == has_lessons(modules@),
{
    let mut i: usize = 0;
    while i < modules.len()
        invariant
            i <= modules@.len(),
            forall|k: int| 0 <= k < i ==> #[trigger] modules@[k].lessons@.len() == 0,
        decreases modules@.len() - i,
    {
        if modules[i].lessons.len() > 0 {
            assert(modules@[i as int].lessons@.len() > 0);
            return true;
        }
        i = i + 1;
    }
    false
}

fn module_order_message(title: &str, order: u32, position: usize) -> (r: String)
    ensures
        r@ == "Module '"@ + title@ + "' has order "@ + decimal(order as nat) + " but is at position "@
            + decimal(position as nat),
{
    let mut s = String::from_str("Module '");
    push_text(&mut s, title);
    push_text(&mut s, "' has order ");
    push_decimal(&mut s, order as u64);
    push_text(&mut s, " but is at position ");
    push_decimal(&mut s, position as u64);
    s
}

fn check_lesson_order(l: &Lesson, mi: usize, li: usize, issues: &mut Vec<ValidationIssue>)
    requires
        li < usize::MAX,
    ensures
        issue_views(final(issues)@) == issue_views(old(issues)@) + lesson_order_check(
            *l,
            mi as nat,
            li as nat,
        ),
{
    if (l.order as usize) != li + 1 {
        let mut msg = String::from_str("Lesson '");
        push_text(&mut msg, l.title.as_str());
        push_text(&mut msg, "' has order ");
        push_decimal(&mut msg, l.order as u64);
        push_text(&mut msg, " but is at position ");
        push_decimal(&mut msg, (li + 1) as u64);
        let loc = lesson_location_text(mi, li);
        let loc = location_with(&loc, ".order");
        let item = make_issue(
            "S5",
            ValidationCategory::Structure,
            ValidationSeverity::Warning,
            msg,
            loc,
            "Fix lesson ordering to be sequential",
        );
        push_issue(issues, item);
    }
}

/// Run all structure validation checks.
fn validate_structure(course: &AcademyCourse) -> (r: Vec<ValidationIssue>)
    ensures
        issue_views(r@) == structure_issues(*course),
{
    let mut issues: Vec<ValidationIssue> = Vec::new();
    let ghost c = *course;

    // S1: course must have an ID
    if course.course_id.as_str().is_empty() {
        let item = make_issue(
            "S1",
            ValidationCategory::Structure,
            ValidationSeverity::Error,
            String::from_str("Course ID is empty"),
            String::from_str("courseId"),
            "Provide a unique course identifier",
        );
        push_issue(&mut issues, item);
    }
    // S2: course must have a title
    if course.title.as_str().is_empty() {
        let item = make_issue(
            "S2",
            ValidationCategory::Structure,
            ValidationSeverity::Error,
            String::from_str("Course title is empty"),
            String::from_str("title"),
            "Add a descriptive course title",
        );
        push_issue(&mut issues, item);
    }
    // S3: course must have at least one module with lessons
    if !any_lessons(&course.modules) {
        let item = make_issue(
            "S3",
            ValidationCategory::Structure,
            ValidationSeverity::Error,
            String::from_str("Course has no lessons in any module"),
            String::from_str("modules"),
            "Add at least one lesson to a module",
        );
        push_issue(&mut issues, item);
    }
    let ghost head = issue_views(issues@);

    // S4: module order must be sequential
    let n = course.modules.len();
    let mut i: usize = 0;
    while i < n
        invariant
            n == course.modules@.len(),
            i <= n,
            issue_views(issues@) == head + module_order_issues(course.modules@, i as nat),
        decreases n - i,
    {
        let module = &course.modules[i];
        if (module.order as usize) != i + 1 {
            let msg = module_order_message(module.title.as_str(), module.order, i + 1);
            let mut loc = String::from_str("modules[");
            push_decimal(&mut loc, i as u64);
            push_text(&mut loc, "].order");
            let item = make_issue(
                "S4",
                ValidationCategory::Structure,
                ValidationSeverity::Warning,
                msg,
                loc,
                "Fix module ordering to be sequential",
            );
            push_issue(&mut issues, item);
        }
        assert(module_order_issues(course.modules@, (i + 1) as nat) == module_order_issues(
            course.modules@,
            i as nat,
        ) + if course.modules@[i as int].order != i + 1 {
            seq![module_order_issue(course.modules@[i as int], i as nat)]
        } else {
            seq![]
        });
        i = i + 1;
    }
    let ghost mid = issue_views(issues@);
    let ghost check = |l: Lesson, mi: nat, li: nat| lesson_order_check(l, mi, li);

    // S5: lesson order must be sequential within each module
    let mut mi: usize = 0;
    while mi < n
        invariant
            n == course.modules@.len(),
            mi <= n,
            check == (|l: Lesson, mi: nat, li: nat| lesson_order_check(l, mi, li)),
            issue_views(issues@) == mid + course_sweep(course.modules@, mi as nat, check),
        decreases n - mi,
    {
        let lessons = &course.modules[mi].lessons;
        let ln = lessons.len();
        let ghost before = issue_views(issues@);
        let mut li: usize = 0;
        while li < ln
            invariant
                ln == lessons@.len(),
                lessons@ == course.modules@[mi as int].lessons@,
                li <= ln,
                check == (|l: Lesson, mi: nat, li: nat| lesson_order_check(l, mi, li)),
                issue_views(issues@) == before + module_sweep(lessons@, mi as nat, li as nat, check),
            decreases ln - li,
        {
            check_lesson_order(&lessons[li], mi, li, &mut issues);
            assert(module_sweep(lessons@, mi as nat, (li + 1) as nat, check) == module_sweep(
                lessons@,
                mi as nat,
                li as nat,
                check,
            ) + check(lessons@[li as int], mi as nat, li as nat));
            li = li + 1;
        }
        mi = mi + 1;
    }

    // S6: description must not be empty
    if course.description.as_str().is_empty() {
        let item = make_issue(
            "S6",
            ValidationCategory::Structure,
            ValidationSeverity::Warning,
            String::from_str("Course description is empty"),
            String::from_str("description"),
            "Add a course description",
        );
        push_issue(&mut issues, item);
    }
    issues
}


// ---------------------------------------------------------------------------
// Content checks
// ---------------------------------------------------------------------------

/// C1–C4: a lesson needs content, learning objectives, a 5–60 minute duration
/// and a title.
pub open spec fn content_check(l: Lesson, mi: nat, li: nat) -> Seq<IssueView> {
    let loc = lesson_location(mi, li);
    let c1 = if l.content@.len() == 0 {
        seq![
            issue(
                "C1"@,
                ValidationCategory::Content,
                ValidationSeverity::Error,
                lesson_named(l.title@, " has no content"@),
                loc + ".content"@,
                "Add lesson content"@,
            ),
        ]
    } else {
        seq![]
    };
    let c2 = if l.learning_objectives@.len() == 0 {
        seq![
            issue(
                "C2"@,
                ValidationCategory::Content,
                ValidationSeverity::Warning,
                lesson_named(l.title@, " has no learning objectives"@),
                loc + ".learningObjectives"@,
                "Add at least one learning objective"@,
            ),
        ]
    } else {
        seq![]
    };
    let c3 = if l.duration < 5 || l.duration > 60 {
        seq![
            issue(
                "C3"@,
                ValidationCategory::Content,
                ValidationSeverity::Warning,
                lesson_named(l.title@, " duration "@) + decimal(l.duration as nat)
                    + " min is outside recommended range (5-60)"@,
                loc + ".duration"@,
                "Adjust content length for 5-60 minute lessons"@,
            ),
        ]
    } else {
        seq![]
    };
    let c4 = if l.title@.len() == 0 {
        seq![
            issue(
                "C4"@,
                ValidationCategory::Content,
                ValidationSeverity::Error,
                "Lesson has empty title"@,
                loc + ".title"@,
                "Add a descriptive lesson title"@,
            ),
        ]
    } else {
        seq![]
    };
    c1 + c2 + c3 + c4
}

fn check_lesson_content(l: &Lesson, mi: usize, li: usize, issues: &mut Vec<ValidationIssue>)
    ensures
        issue_views(final(issues)@) == issue_views(old(issues)@) + content_check(
            *l,
            mi as nat,
            li as nat,
        ),
{
    let ghost start = issue_views(issues@);
    let loc = lesson_location_text(mi, li);
    if l.content.as_str().is_empty() {
        let item = make_issue(
            "C1",
            ValidationCategory::Content,
            ValidationSeverity::Error,
            lesson_named_text(l.title.as_str(), " has no content"),
            location_with(&loc, ".content"),
            "Add lesson content",
        );
        push_issue(issues, item);
    }
    let ghost after1 = issue_views(issues@);
    if l.learning_objectives.len() == 0 {
        let item = make_issue(
            "C2",
            ValidationCategory::Content,
            ValidationSeverity::Warning,
            lesson_named_text(l.title.as_str(), " has no learning objectives"),
            location_with(&loc, ".learningObjectives"),
            "Add at least one learning objective",
        );
        push_issue(issues, item);
    }
    let ghost after2 = issue_views(issues@);
    if l.duration < 5 || l.duration > 60 {
        let mut msg = lesson_named_text(l.title.as_str(), " duration ");
        push_decimal(&mut msg, l.duration as u64);
        push_text(&mut msg, " min is outside recommended range (5-60)");
        let item = make_issue(
            "C3",
            ValidationCategory::Content,
            ValidationSeverity::Warning,
            msg,
            location_with(&loc, ".duration"),
            "Adjust content length for 5-60 minute lessons",
        );
        push_issue(issues, item);
    }
    let ghost after3 = issue_views(issues@);
    if l.title.as_str().is_empty() {
        let item = make_issue(
            "C4",
            ValidationCategory::Content,
            ValidationSeverity::Error,
            String::from_str("Lesson has empty title"),
            location_with(&loc, ".title"),
            "Add a descriptive lesson title",
        );
        push_issue(issues, item);
    }
    assert(issue_views(issues@) =~= start + content_check(*l, mi as nat, li as nat));
}

/// Runs a per-lesson check over every lesson of every module.
fn validate_content(course: &AcademyCourse) -> (r: Vec<ValidationIssue>)
    ensures
        issue_views(r@) == course_sweep(
            course.modules@,
            course.modules@.len(),
            |l: Lesson, mi: nat, li: nat| content_check(l, mi, li),
        ),
{
    let mut issues: Vec<ValidationIssue> = Vec::new();
    let ghost check = |l: Lesson, mi: nat, li: nat| content_check(l, mi, li);
    let n = course.modules.len();
    let mut mi: usize = 0;
    assert(issue_views(issues@) =~= seq![]);
    while mi < n
        invariant
            n == course.modules@.len(),
            mi <= n,
            check == (|l: Lesson, mi: nat, li: nat| content_check(l, mi, li)),
            issue_views(issues@) == course_sweep(course.modules@, mi as nat, check),
        decreases n - mi,
    {
        let lessons = &course.modules[mi].lessons;
        let ln = lessons.len();
        let ghost before = issue_views(issues@);
        let mut li: usize = 0;
        while li < ln
            invariant
                ln == lessons@.len(),
                lessons@ == course.modules@[mi as int].lessons@,
                li <= ln,
                check == (|l: Lesson, mi: nat, li: nat| content_check(l, mi, li)),
                issue_views(issues@) == before + module_sweep(lessons@, mi as nat, li as nat, check),
            decreases ln - li,
        {
            check_lesson_content(&lessons[li], mi, li, &mut issues);
            assert(module_sweep(lessons@, mi as nat, (li + 1) as nat, check) == module_sweep(
                lessons@,
                mi as nat,
                li as nat,
                check,
            ) + check(lessons@[li as int], mi as nat, li as nat));
            li = li + 1;
        }
        mi = mi + 1;
    }
    issues
}

// ---------------------------------------------------------------------------
// Assessment checks
// ---------------------------------------------------------------------------

/// A1–A2: an assessment's passing score is at most 100 and it allows an attempt.
pub open spec fn assessment_check(l: Lesson, mi: nat, li: nat) -> Seq<IssueView> {
    match l.assessment {
        Some(a) => {
            let loc = lesson_location(mi, li) + ".assessment"@;
            let a1 = if a.passing_score > 100 {
                seq![
                    issue(
                        "A1"@,
                        ValidationCategory::Assessment,
                        ValidationSeverity::Error,
                        "Assessment passing score "@ + decimal(a.passing_score as nat)
                            + " exceeds 100"@,
                        loc + ".passingScore"@,
                        "Set passing score between 0 and 100"@,
                    ),
                ]
            } else {
                seq![]
            };
            let a2 = if a.max_attempts == 0 {
                seq![
                    issue(
                        "A2"@,
                        ValidationCategory::Assessment,
                        ValidationSeverity::Error,
                        "Assessment allows 0 attempts"@,
                        loc + ".maxAttempts"@,
                        "Set max attempts to at least 1"@,
                    ),
                ]
            } else {
                seq![]
            };
            a1 + a2
        },
        None => seq![],
    }
}

fn check_lesson_assessment(l: &Lesson, mi: usize, li: usize, issues: &mut Vec<ValidationIssue>)
    ensures
        issue_views(final(issues)@) == issue_views(old(issues)@) + assessment_check(
            *l,
            mi as nat,
            li as nat,
        ),
{
    let ghost start = issue_views(issues@);
    match &l.assessment {
        Some(assessment) => {
            let base = lesson_location_text(mi, li);
            let loc = location_with(&base, ".assessment");
            if assessment.passing_score > 100 {
                let mut msg = String::from_str("Assessment passing score ");
                push_decimal(&mut msg, assessment.passing_score as u64);
                push_text(&mut msg, " exceeds 100");
                let item = make_issue(
                    "A1",
                    ValidationCategory::Assessment,
                    ValidationSeverity::Error,
                    msg,
                    location_with(&loc, ".passingScore"),
                    "Set passing score between 0 and 100",
                );
                push_issue(issues, item);
            }
            if assessment.max_attempts == 0 {
                let item = make_issue(
                    "A2",
                    ValidationCategory::Assessment,
                    ValidationSeverity::Error,
                    String::from_str("Assessment allows 0 attempts"),
                    location_with(&loc, ".maxAttempts"),
                    "Set max attempts to at least 1",
                );
                push_issue(issues, item);
            }
        },
        None => {},
    }
    assert(issue_views(issues@) =~= start + assessment_check(*l, mi as nat, li as nat));
}

/// Run assessment validation checks.
fn validate_assessments(course: &AcademyCourse) -> (r: Vec<ValidationIssue>)
    ensures
        issue_views(r@) == course_sweep(
            course.modules@,
            course.modules@.len(),
            |l: Lesson, mi: nat, li: nat| assessment_check(l, mi, li),
        ),
{
    let mut issues: Vec<ValidationIssue> = Vec::new();
    let ghost check = |l: Lesson, mi: nat, li: nat| assessment_check(l, mi, li);
    let n = course.modules.len();
    let mut mi: usize = 0;
    assert(issue_views(issues@) =~= seq![]);
    while mi < n
        invariant
            n == course.modules@.len(),
            mi <= n,
            check == (|l: Lesson, mi: nat, li: nat| assessment_check(l, mi, li)),
            issue_views(issues@) == course_sweep(course.modules@, mi as nat, check),
        decreases n - mi,
    {
        let lessons = &course.modules[mi].lessons;
        let ln = lessons.len();
        let ghost before = issue_views(issues@);
        let mut li: usize = 0;
        while li < ln
            invariant
                ln == lessons@.len(),
                lessons@ == course.modules@[mi as int].lessons@,
                li <= ln,
                check == (|l: Lesson, mi: nat, li: nat| assessment_check(l, mi, li)),
                issue_views(issues@) == before + module_sweep(lessons@, mi as nat, li as nat, check),
            decreases ln - li,
        {
            check_lesson_assessment(&lessons[li], mi, li, &mut issues);
            assert(module_sweep(lessons@, mi as nat, (li + 1) as nat, check) == module_sweep(
                lessons@,
                mi as nat,
                li as nat,
                check,
            ) + check(lessons@[li as int], mi as nat, li as nat));
            li = li + 1;
        }
        mi = mi + 1;
    }
    issues
}


// ---------------------------------------------------------------------------
// Ratings, status and the report
// ---------------------------------------------------------------------------

/// Quality rating based on validation score.
#[derive(Debug, Clone, Copy, PartialEq, Eq, Structural)]
pub enum QualityRating {
    /// Score 95–100.
    Excellent,
    /// Score 85–94.
    Good,
    /// Score 70–84.
    Acceptable,
    /// Score 50–69.
    NeedsWork,
    /// Score below 50, or above 100.
    Critical,
}

impl QualityRating {
    /// The rating a score earns.
    pub open spec fn rating_for(score: u32) -> QualityRating {
        if 95 <= score && score <= 100 {
            QualityRating::Excellent
        } else if 85 <= score && score <= 94 {
            QualityRating::Good
        } else if 70 <= score && score <= 84 {
            QualityRating::Acceptable
        } else if 50 <= score && score <= 69 {
            QualityRating::NeedsWork
        } else {
            QualityRating::Critical
        }
    }

    /// Rank of a rating, from 0 (Critical) to 4 (Excellent).
    pub open spec fn rank(self) -> nat {
        match self {
            QualityRating::Critical => 0,
            QualityRating::NeedsWork => 1,
            QualityRating::Acceptable => 2,
            QualityRating::Good => 3,
            QualityRating::Excellent => 4,
        }
    }

    /// Human-readable label of a rating.
    pub open spec fn label_text(self) -> Seq<char> {
        match self {
            QualityRating::Excellent => "Excellent"@,
            QualityRating::Good => "Good"@,
            QualityRating::Acceptable => "Acceptable"@,
            QualityRating::NeedsWork => "Needs Work"@,
            QualityRating::Critical => "Critical"@,
        }
    }

    /// Determine rating from a score (0–100).
    pub fn from_score(score: u32) -> (r: Self)
        ensures
            r == Self::rating_for(score),
    {
        match score {
            95..=100 => QualityRating::Excellent,
            85..=94 => QualityRating::Good,
            70..=84 => QualityRating::Acceptable,
            50..=69 => QualityRating::NeedsWork,
            _ => QualityRating::Critical,
        }
    }

    /// Human-readable label.
    pub fn label(&self) -> (r: &'static str)
        ensures
            r@ == self.label_text(),
    {
        match self {
            QualityRating::Excellent => "Excellent",
            QualityRating::Good => "Good",
            QualityRating::Acceptable => "Acceptable",
            QualityRating::NeedsWork => "Needs Work",
            QualityRating::Critical => "Critical",
        }
    }
}

/// A higher score within 0–100 never earns a lower rating.
pub proof fn rating_is_monotone(low: u32, high: u32)
    requires
        low <= high <= 100,
    ensures
        QualityRating::rating_for(low).rank() <= QualityRating::rating_for(high).rank(),
{
}

/// Status of overall validation.
#[derive(Debug, Clone, Copy, PartialEq, Eq, Structural)]
pub enum ValidationStatus {
    /// All checks passed.
    Pass,
    /// Non-blocking issues found.
    Warning,
    /// Blocking issues found.
    Fail,
}

/// Complete validation report.
#[derive(Debug, Clone)]
pub struct ValidationReport {
    /// Overall status.
    pub status: ValidationStatus,
    /// Course ID validated.
    pub course_id: String,
    /// Course title.
    pub course_title: String,
    /// Total issues found.
    pub total_issues: usize,
    /// Error count.
    pub errors: usize,
    /// Warning count.
    pub warnings: usize,
    /// Info count.
    pub infos: usize,
    /// Validation score (0–100).
    pub validation_score: u32,
    /// Quality rating.
    pub rating: QualityRating,
    /// Individual issues.
    pub issues: Vec<ValidationIssue>,
    /// Recommendations for improvement.
    pub recommendations: Vec<String>,
}

/// Every issue the checks raise for a course: structure, then content, then
/// assessments.
pub open spec fn course_issues(c: AcademyCourse) -> Seq<IssueView> {
    structure_issues(c) + course_sweep(
        c.modules@,
        c.modules@.len(),
        |l: Lesson, mi: nat, li: nat| content_check(l, mi, li),
    ) + course_sweep(
        c.modules@,
        c.modules@.len(),
        |l: Lesson, mi: nat, li: nat| assessment_check(l, mi, li),
    )
}

/// Number of issues of a given severity.
pub open spec fn severity_count(s: Seq<IssueView>, sev: ValidationSeverity) -> nat
    decreases s.len(),
{
    if s.len() == 0 {
        0
    } else {
        severity_count(s.drop_last(), sev) + if s.last().severity == sev {
            1nat
        } else {
            0nat
        }
    }
}

/// The score: 100, less 10 per error, 3 per warning and 1 per info, and
/// never below 0.
pub open spec fn score_for(errors: nat, warnings: nat, infos: nat) -> u32 {
    let deductions = errors * 10 + warnings * 3 + infos;
    if deductions >= 100 {
        0
    } else {
        (100 - deductions) as u32
    }
}

/// More issues never raise the score: the score is antitone in each count
/// and always at most 100.
pub proof fn score_never_rises_with_issues(
    errors: nat,
    warnings: nat,
    infos: nat,
    more_errors: nat,
    more_warnings: nat,
    more_infos: nat,
)
    requires
        errors <= more_errors,
        warnings <= more_warnings,
        infos <= more_infos,
    ensures
        score_for(more_errors, more_warnings, more_infos) <= score_for(errors, warnings, infos) <= 100,
{
}

/// Fail with any error, else Warning with any warning, else Pass.
pub open spec fn status_for(errors: nat, warnings: nat) -> ValidationStatus {
    if errors > 0 {
        ValidationStatus::Fail
    } else if warnings > 0 {
        ValidationStatus::Warning
    } else {
        ValidationStatus::Pass
    }
}

/// Recommendations: fix the errors, address the warnings, and add learning
/// objectives when the score is below 85.
pub open spec fn recommendations_for(errors: nat, warnings: nat, score: u32) -> Seq<Seq<char>> {
    let fix = if errors > 0 {
        seq!["Fix "@ + decimal(errors) + " error(s) before publishing"@]
    } else {
        seq![]
    };
    let address = if warnings > 0 {
        seq!["Address "@ + decimal(warnings) + " warning(s) to improve quality"@]
    } else {
        seq![]
    };
    let consider = if score < 85 {
        seq!["Consider adding learning objectives to all lessons"@]
    } else {
        seq![]
    };
    fix + address + consider
}

fn append_issues(all: &mut Vec<ValidationIssue>, more: Vec<ValidationIssue>)
    ensures
        issue_views(final(all)@) == issue_views(old(all)@) + issue_views(more@),
{
    let ghost added = more@;
    let mut more = more;
    all.append(&mut more);
    assert(issue_views(all@) =~= issue_views(old(all)@) + issue_views(added));
}


proof fn lemma_counts_split(s: Seq<IssueView>)
    ensures
        severity_count(s, ValidationSeverity::Error) + severity_count(s, ValidationSeverity::Warning)
            + severity_count(s, ValidationSeverity::Info) == s.len(),
    decreases s.len(),
{
    if s.len() > 0 {
        lemma_counts_split(s.drop_last());
    }
}

fn count_line(prefix: &str, n: usize, suffix: &str) -> (r: String)
    ensures
        r@ == prefix@ + decimal(n as nat) + suffix@,
{
    let mut s = String::from_str(prefix);
    push_decimal(&mut s, n as u64);
    push_text(&mut s, suffix);
    s
}

/// Validate a complete academy course.
///
/// Runs structure, content, and assessment checks. Returns a full report
/// with score, rating, and actionable issues.
pub fn validate_course(course: &AcademyCourse) -> (r: ValidationReport)
    ensures
        issue_views(r.issues@) == course_issues(*course),
        r.total_issues == r.issues@.len(),
        r.errors == severity_count(course_issues(*course), ValidationSeverity::Error),
        r.warnings == severity_count(course_issues(*course), ValidationSeverity::Warning),
        r.infos == severity_count(course_issues(*course), ValidationSeverity::Info),
        r.validation_score == score_for(r.errors as nat, r.warnings as nat, r.infos as nat),
        r.validation_score <= 100,
        r.status == status_for(r.errors as nat, r.warnings as nat),
        r.rating == QualityRating::rating_for(r.validation_score),
        texts(r.recommendations@) == recommendations_for(
            r.errors as nat,
            r.warnings as nat,
            r.validation_score,
        ),
        r.course_id@ == course.course_id@,
        r.course_title@ == course.title@,
{
    let mut all_issues = validate_structure(course);
    append_issues(&mut all_issues, validate_content(course));
    append_issues(&mut all_issues, validate_assessments(course));
    let ghost views = issue_views(all_issues@);
    assert(views == course_issues(*course));

    let total = all_issues.len();
    let mut errors: usize = 0;
    let mut warnings: usize = 0;
    let mut infos: usize = 0;
    let mut k: usize = 0;
    while k < total
        invariant
            total == all_issues@.len(),
            views == issue_views(all_issues@),
            k <= total,
            errors == severity_count(views.take(k as int), ValidationSeverity::Error),
            warnings == severity_count(views.take(k as int), ValidationSeverity::Warning),
            infos == severity_count(views.take(k as int), ValidationSeverity::Info),
        decreases total - k,
    {
        proof {
            assert(views.take(k + 1).drop_last() =~= views.take(k as int));
            lemma_counts_split(views.take(k as int));
        }
        assert(views[k as int].severity == all_issues@[k as int].severity);
        match all_issues[k].severity {
            ValidationSeverity::Error => errors = errors + 1,
            ValidationSeverity::Warning => warnings = warnings + 1,
            ValidationSeverity::Info => infos = infos + 1,
        }
        k = k + 1;
    }
    assert(views.take(total as int) =~= views);

    // Score: start at 100, deduct 10 per error, 3 per warning, 1 per info
    let deductions = (errors as u128) * 10 + (warnings as u128) * 3 + (infos as u128);
    let validation_score: u32 = if deductions >= 100 {
        0
    } else {
        100 - (deductions as u32)
    };

    let status = if errors > 0 {
        ValidationStatus::Fail
    } else if warnings > 0 {
        ValidationStatus::Warning
    } else {
        ValidationStatus::Pass
    };

    let rating = QualityRating::from_score(validation_score);

    let mut recommendations: Vec<String> = Vec::new();
    let ghost rec0 = texts(recommendations@);
    if errors > 0 {
        recommendations.push(count_line("Fix ", errors, " error(s) before publishing"));
    }
    let ghost rec1 = texts(recommendations@);
    if warnings > 0 {
        recommendations.push(count_line("Address ", warnings, " warning(s) to improve quality"));
    }
    let ghost rec2 = texts(recommendations@);
    if validation_score < 85 {
        recommendations.push(String::from_str("Consider adding learning objectives to all lessons"));
    }
    assert(texts(recommendations@) =~= recommendations_for(
        errors as nat,
        warnings as nat,
        validation_score,
    ));

    ValidationReport {
        status,
        course_id: course.course_id.clone(),
        course_title: course.title.clone(),
        total_issues: total,
        errors,
        warnings,
        infos,
        validation_score,
        rating,
        issues: all_issues,
        recommendations,
    }
}


// ---------------------------------------------------------------------------
// Laws
// ---------------------------------------------------------------------------

/// Every issue in `s` satisfies `p`.
pub open spec fn all_issues(s: Seq<IssueView>, p: spec_fn(IssueView) -> bool) -> bool {
    forall|x: int| 0 <= x < s.len() ==> #[trigger] p(s[x])
}

proof fn lemma_all_concat(a: Seq<IssueView>, b: Seq<IssueView>, p: spec_fn(IssueView) -> bool)
    requires
        all_issues(a, p),
        all_issues(b, p),
    ensures
        all_issues(a + b, p),
{
    assert forall|x: int| 0 <= x < (a + b).len() implies #[trigger] p((a + b)[x]) by {
        if x < a.len() {
            assert((a + b)[x] == a[x]);
        } else {
            assert((a + b)[x] == b[x - a.len()]);
        }
    }
}

proof fn lemma_module_sweep_all(
    lessons: Seq<Lesson>,
    mi: nat,
    k: nat,
    check: spec_fn(Lesson, nat, nat) -> Seq<IssueView>,
    p: spec_fn(IssueView) -> bool,
)
    requires
        k <= lessons.len(),
        forall|li: int| 0 <= li < k ==> all_issues(#[trigger] check(lessons[li], mi, li as nat), p),
    ensures
        all_issues(module_sweep(lessons, mi, k, check), p),
    decreases k,
{
    if k > 0 {
        lemma_module_sweep_all(lessons, mi, (k - 1) as nat, check, p);
        let last = (k - 1) as int;
        assert(all_issues(check(lessons[last], mi, last as nat), p));
        lemma_all_concat(
            module_sweep(lessons, mi, (k - 1) as nat, check),
            check(lessons[last], mi, (k - 1) as nat),
            p,
        );
    }
}

proof fn lemma_course_sweep_all(
    modules: Seq<Module>,
    n: nat,
    check: spec_fn(Lesson, nat, nat) -> Seq<IssueView>,
    p: spec_fn(IssueView) -> bool,
)
    requires
        n <= modules.len(),
        forall|mi: int, li: int|
            0 <= mi < n && 0 <= li < modules[mi].lessons@.len() ==> all_issues(
                #[trigger] check(modules[mi].lessons@[li], mi as nat, li as nat),
                p,
            ),
    ensures
        all_issues(course_sweep(modules, n, check), p),
    decreases n,
{
    if n > 0 {
        lemma_course_sweep_all(modules, (n - 1) as nat, check, p);
        let mi = (n - 1) as int;
        let lessons = modules[mi].lessons@;
        assert forall|li: int| 0 <= li < lessons.len() implies all_issues(
            #[trigger] check(lessons[li], mi as nat, li as nat),
            p,
        ) by {
            assert(all_issues(check(modules[mi].lessons@[li], mi as nat, li as nat), p));
        }
        lemma_module_sweep_all(lessons, mi as nat, lessons.len(), check, p);
        lemma_all_concat(
            course_sweep(modules, (n - 1) as nat, check),
            module_sweep(lessons, mi as nat, lessons.len(), check),
            p,
        );
    }
}

proof fn lemma_module_orders_all(modules: Seq<Module>, n: nat, p: spec_fn(IssueView) -> bool)
    requires
        n <= modules.len(),
        forall|i: int| 0 <= i < n ==> #[trigger] p(module_order_issue(modules[i], i as nat)),
    ensures
        all_issues(module_order_issues(modules, n), p),
    decreases n,
{
    if n > 0 {
        lemma_module_orders_all(modules, (n - 1) as nat, p);
        let i = (n - 1) as int;
        assert(p(module_order_issue(modules[i], i as nat)));
        let tail = if modules[i].order != i + 1 {
            seq![module_order_issue(modules[i], i as nat)]
        } else {
            seq![]
        };
        assert(all_issues(tail, p));
        lemma_all_concat(module_order_issues(modules, (n - 1) as nat), tail, p);
    }
}

proof fn lemma_count_absent(s: Seq<IssueView>, sev: ValidationSeverity)
    requires
        forall|x: int| 0 <= x < s.len() ==> (#[trigger] s[x]).severity != sev,
    ensures
        severity_count(s, sev) == 0,
    decreases s.len(),
{
    if s.len() > 0 {
        assert(s.last().severity != sev);
        lemma_count_absent(s.drop_last(), sev);
    }
}

/// No check raises an informational issue: every report counts 0 infos.
#[verifier::rlimit(40)]
pub proof fn reports_have_no_infos(c: AcademyCourse)
    ensures
        severity_count(course_issues(c), ValidationSeverity::Info) == 0,
{
    let p = |i: IssueView| i.severity != ValidationSeverity::Info;
    let order = |l: Lesson, mi: nat, li: nat| lesson_order_check(l, mi, li);
    let content = |l: Lesson, mi: nat, li: nat| content_check(l, mi, li);
    let assess = |l: Lesson, mi: nat, li: nat| assessment_check(l, mi, li);
    let mods = c.modules@;
    lemma_module_orders_all(mods, mods.len(), p);
    assert forall|mi: int, li: int|
        0 <= mi < mods.len() && 0 <= li < mods[mi].lessons@.len() implies all_issues(
        #[trigger] order(mods[mi].lessons@[li], mi as nat, li as nat),
        p,
    ) by {}
    lemma_course_sweep_all(mods, mods.len(), order, p);
    lemma_course_sweep_all(mods, mods.len(), content, p);
    lemma_course_sweep_all(mods, mods.len(), assess, p);
    let s = structure_issues(c);
    assert(all_issues(s, p));
    let all = course_issues(c);
    lemma_all_concat(s, course_sweep(mods, mods.len(), content), p);
    lemma_all_concat(
        s + course_sweep(mods, mods.len(), content),
        course_sweep(mods, mods.len(), assess),
        p,
    );
    assert forall|x: int| 0 <= x < all.len() implies (#[trigger] all[x]).severity
        != ValidationSeverity::Info by {
        assert(p(all[x]));
    }
    lemma_count_absent(all, ValidationSeverity::Info);
}


proof fn lemma_sequential_modules(modules: Seq<Module>, n: nat)
    requires
        n <= modules.len(),
        n <= 3,
        forall|i: int| 0 <= i < n ==> (#[trigger] modules[i]).order == i + 1,
    ensures
        module_order_issues(modules, n) == Seq::<IssueView>::empty(),
    decreases n,
{
    if n > 0 {
        lemma_sequential_modules(modules, (n - 1) as nat);
        let i = (n - 1) as int;
        assert(modules[i].order == i + 1);
        assert(module_order_issues(modules, n) =~= Seq::<IssueView>::empty() + Seq::<
            IssueView,
        >::empty());
    }
}

/// The issue identifiers that validation can raise for a formatted course.
pub open spec fn formatted_issue_id(i: IssueView) -> bool {
    ||| i.id == "S1"@
    ||| i.id == "S2"@
    ||| i.id == "S3"@
    ||| i.id == "C1"@
    ||| i.id == "C2"@
    ||| i.id == "C4"@
}

/// A formatted course keeps the rules that formatting is responsible for:
/// modules and lessons are numbered in order, every lesson lasts 5–60
/// minutes, no lesson carries an assessment and the description is never
/// empty. So validating it can only raise S1 (empty course ID), S2 (empty
/// title), S3 (no lessons at all), C1 (empty content), C2 (no learning
/// objectives) or C4 (empty lesson title).
pub proof fn formatted_course_keeps_rules(r: AcademyCourse, params: FormatCourseParams)
    requires
        course_built(r, params),
    ensures
        all_issues(course_issues(r), |i: IssueView| formatted_issue_id(i)),
{
    let p = |i: IssueView| formatted_issue_id(i);
    let order = |l: Lesson, mi: nat, li: nat| lesson_order_check(l, mi, li);
    let content = |l: Lesson, mi: nat, li: nat| content_check(l, mi, li);
    let assess = |l: Lesson, mi: nat, li: nat| assessment_check(l, mi, li);
    let mods = r.modules@;
    let fw = *params.framework;
    assert forall|i: int| 0 <= i < 3 implies (#[trigger] mods[i]).order == i + 1 by {
        assert(module_built(
            mods[i],
            category_at(i as nat),
            fw.components_of(category_at(i as nat)),
            params.content@,
            i as nat,
        ));
    }
    lemma_sequential_modules(mods, 3);
    assert forall|mi: int, li: int|
        0 <= mi < mods.len() && 0 <= li < mods[mi].lessons@.len() implies {
        &&& all_issues(#[trigger] order(mods[mi].lessons@[li], mi as nat, li as nat), p)
        &&& all_issues(content(mods[mi].lessons@[li], mi as nat, li as nat), p)
        &&& all_issues(assess(mods[mi].lessons@[li], mi as nat, li as nat), p)
    } by {
        let cat = category_at(mi as nat);
        let comps = fw.components_of(cat);
        assert(module_built(mods[mi], cat, comps, params.content@, mi as nat));
        let l = mods[mi].lessons@[li];
        assert(lesson_built(l, comps[li], params.content@, li as nat));
        assert(l.order == li + 1);
        assert(5 <= l.duration <= 60);
        assert(lesson_order_check(l, mi as nat, li as nat) =~= Seq::<IssueView>::empty());
        assert(assessment_check(l, mi as nat, li as nat) =~= Seq::<IssueView>::empty());
    }
    lemma_course_sweep_all(mods, mods.len(), order, p);
    lemma_course_sweep_all(mods, mods.len(), content, p);
    lemma_course_sweep_all(mods, mods.len(), assess, p);
    reveal_strlit(".");
    assert(r.description@.len() > 0);
    let s = structure_issues(r);
    assert(all_issues(s, p));
    lemma_all_concat(s, course_sweep(mods, mods.len(), content), p);
    lemma_all_concat(
        s + course_sweep(mods, mods.len(), content),
        course_sweep(mods, mods.len(), assess),
        p,
    );
}


/// Number of lessons among the first `k` that have no learning objectives.
pub open spec fn lessons_missing_objectives(lessons: Seq<Lesson>, k: nat) -> nat
    decreases k,
{
    if k == 0 {
        0
    } else {
        lessons_missing_objectives(lessons, (k - 1) as nat) + if lessons[k - 1].learning_objectives@.len()
            == 0 {
            1nat
        } else {
            0nat
        }
    }
}

/// Number of lessons, over the first `n` modules, that have no learning
/// objectives.
pub open spec fn course_missing_objectives(modules: Seq<Module>, n: nat) -> nat
    decreases n,
{
    if n == 0 {
        0
    } else {
        course_missing_objectives(modules, (n - 1) as nat) + lessons_missing_objectives(
            modules[n - 1].lessons@,
            modules[n - 1].lessons@.len(),
        )
    }
}

proof fn lemma_count_concat(a: Seq<IssueView>, b: Seq<IssueView>, sev: ValidationSeverity)
    ensures
        severity_count(a + b, sev) == severity_count(a, sev) + severity_count(b, sev),
    decreases b.len(),
{
    if b.len() == 0 {
        assert(a + b =~= a);
    } else {
        assert((a + b).drop_last() =~= a + b.drop_last());
        lemma_count_concat(a, b.drop_last(), sev);
    }
}

proof fn lemma_lesson_warnings(l: Lesson, mi: nat, li: nat)
    requires
        5 <= l.duration <= 60,
    ensures
        severity_count(content_check(l, mi, li), ValidationSeverity::Warning) == if l.learning_objectives@.len()
            == 0 {
            1nat
        } else {
            0nat
        },
{
    let w = ValidationSeverity::Warning;
    let all = content_check(l, mi, li);
    let n1: int = if l.content@.len() == 0 {
        1
    } else {
        0
    };
    let n2: int = if l.learning_objectives@.len() == 0 {
        1
    } else {
        0
    };
    let a = all.subrange(0, n1);
    let b = all.subrange(n1, n1 + n2);
    let c = all.subrange(n1 + n2, all.len() as int);
    assert(all =~= a + b + c);
    assert forall|x: int| 0 <= x < a.len() implies (#[trigger] a[x]).severity != w by {
        assert(a[x] == all[x]);
    }
    assert forall|x: int| 0 <= x < c.len() implies (#[trigger] c[x]).severity != w by {
        assert(c[x] == all[n1 + n2 + x]);
    }
    lemma_count_absent(a, w);
    lemma_count_absent(c, w);
    if n2 == 1 {
        assert(b[0] == all[n1]);
        assert(all[n1].severity == w);
        assert(b.drop_last() =~= Seq::<IssueView>::empty());
        assert(severity_count(b.drop_last(), w) == 0);
        assert(b.last() == b[0]);
    } else {
        assert(b.len() == 0);
    }
    lemma_count_concat(a, b, w);
    lemma_count_concat(a + b, c, w);
}

proof fn lemma_module_warnings(lessons: Seq<Lesson>, mi: nat, k: nat)
    requires
        k <= lessons.len(),
        forall|li: int| 0 <= li < k ==> 5 <= (#[trigger] lessons[li]).duration <= 60,
    ensures
        severity_count(
            module_sweep(lessons, mi, k, |l: Lesson, mi: nat, li: nat| content_check(l, mi, li)),
            ValidationSeverity::Warning,
        ) == lessons_missing_objectives(lessons, k),
    decreases k,
{
    let check = |l: Lesson, mi: nat, li: nat| content_check(l, mi, li);
    if k > 0 {
        lemma_module_warnings(lessons, mi, (k - 1) as nat);
        let last = (k - 1) as int;
        assert(5 <= lessons[last].duration <= 60);
        lemma_lesson_warnings(lessons[last], mi, last as nat);
        lemma_count_concat(
            module_sweep(lessons, mi, (k - 1) as nat, check),
            check(lessons[last], mi, last as nat),
            ValidationSeverity::Warning,
        );
    }
}

proof fn lemma_course_warnings(modules: Seq<Module>, n: nat)
    requires
        n <= modules.len(),
        forall|mi: int, li: int|
            0 <= mi < n && 0 <= li < modules[mi].lessons@.len() ==> 5 <= (
            #[trigger] modules[mi].lessons@[li]).duration <= 60,
    ensures
        severity_count(
            course_sweep(modules, n, |l: Lesson, mi: nat, li: nat| content_check(l, mi, li)),
            ValidationSeverity::Warning,
        ) == course_missing_objectives(modules, n),
    decreases n,
{
    let check = |l: Lesson, mi: nat, li: nat| content_check(l, mi, li);
    if n > 0 {
        lemma_course_warnings(modules, (n - 1) as nat);
        let mi = (n - 1) as int;
        let lessons = modules[mi].lessons@;
        assert forall|li: int| 0 <= li < lessons.len() implies 5 <= (
        #[trigger] lessons[li]).duration <= 60 by {
            assert(5 <= modules[mi].lessons@[li].duration <= 60);
        }
        lemma_module_warnings(lessons, mi as nat, lessons.len());
        lemma_count_concat(
            course_sweep(modules, (n - 1) as nat, check),
            module_sweep(lessons, mi as nat, lessons.len(), check),
            ValidationSeverity::Warning,
        );
    }
}

/// Validating a formatted course warns exactly once per lesson without
/// learning objectives and for nothing else: the report's warning count is
/// the number of such lessons.
pub proof fn formatted_course_warnings(r: AcademyCourse, params: FormatCourseParams)
    requires
        course_built(r, params),
    ensures
        severity_count(course_issues(r), ValidationSeverity::Warning) == course_missing_objectives(
            r.modules@,
            r.modules@.len(),
        ),
{
    let w = ValidationSeverity::Warning;
    let p = |i: IssueView| i.severity != ValidationSeverity::Warning;
    let order = |l: Lesson, mi: nat, li: nat| lesson_order_check(l, mi, li);
    let content = |l: Lesson, mi: nat, li: nat| content_check(l, mi, li);
    let assess = |l: Lesson, mi: nat, li: nat| assessment_check(l, mi, li);
    let mods = r.modules@;
    let fw = *params.framework;
    assert forall|i: int| 0 <= i < 3 implies (#[trigger] mods[i]).order == i + 1 by {
        assert(module_built(
            mods[i],
            category_at(i as nat),
            fw.components_of(category_at(i as nat)),
            params.content@,
            i as nat,
        ));
    }
    lemma_sequential_modules(mods, 3);
    assert forall|mi: int, li: int|
        0 <= mi < mods.len() && 0 <= li < mods[mi].lessons@.len() implies {
        &&& all_issues(#[trigger] order(mods[mi].lessons@[li], mi as nat, li as nat), p)
        &&& all_issues(assess(mods[mi].lessons@[li], mi as nat, li as nat), p)
        &&& 5 <= mods[mi].lessons@[li].duration <= 60
    } by {
        let cat = category_at(mi as nat);
        let comps = fw.components_of(cat);
        assert(module_built(mods[mi], cat, comps, params.content@, mi as nat));
        let l = mods[mi].lessons@[li];
        assert(lesson_built(l, comps[li], params.content@, li as nat));
        assert(lesson_order_check(l, mi as nat, li as nat) =~= Seq::<IssueView>::empty());
        assert(assessment_check(l, mi as nat, li as nat) =~= Seq::<IssueView>::empty());
    }
    lemma_course_sweep_all(mods, mods.len(), order, p);
    lemma_course_sweep_all(mods, mods.len(), assess, p);
    lemma_course_warnings(mods, mods.len());
    reveal_strlit(".");
    assert(r.description@.len() > 0);
    let s = structure_issues(r);
    let a = course_sweep(mods, mods.len(), assess);
    assert(all_issues(s, p));
    assert forall|x: int| 0 <= x < s.len() implies (#[trigger] s[x]).severity != w by {
        assert(p(s[x]));
    }
    assert forall|x: int| 0 <= x < a.len() implies (#[trigger] a[x]).severity != w by {
        assert(p(a[x]));
    }
    lemma_count_absent(s, w);
    lemma_count_absent(a, w);
    lemma_count_concat(s, course_sweep(mods, mods.len(), content), w);
    lemma_count_concat(s + course_sweep(mods, mods.len(), content), a, w);
}

proof fn lemma_count_present(s: Seq<IssueView>, x: int, sev: ValidationSeverity)
    requires
        0 <= x < s.len(),
        s[x].severity == sev,
    ensures
        severity_count(s, sev) > 0,
    decreases s.len(),
{
    if x < s.len() - 1 {
        assert(s.drop_last()[x] == s[x]);
        lemma_count_present(s.drop_last(), x, sev);
    }
}

/// A course with an empty ID, an empty title or no lessons at all fails
/// validation: each of these raises an error.
pub proof fn blocking_structure_fails(c: AcademyCourse)
    requires
        c.course_id@.len() == 0 || c.title@.len() == 0 || !has_lessons(c.modules@),
    ensures
        severity_count(course_issues(c), ValidationSeverity::Error) > 0,
        status_for(severity_count(course_issues(c), ValidationSeverity::Error), severity_count(
            course_issues(c),
            ValidationSeverity::Warning,
        )) == ValidationStatus::Fail,
{
    let all = course_issues(c);
    let s = structure_issues(c);
    // Whichever of the three checks fires first, its error opens the report.
    assert(all[0] == s[0]);
    assert(s[0].severity == ValidationSeverity::Error);
    lemma_count_present(all, 0, ValidationSeverity::Error);
}

/// A course in which no module has a lesson fails validation, however many
/// modules it has: the S3 error "Course has no lessons in any module" is
/// among its issues.
pub proof fn lessonless_course_fails(c: AcademyCourse)
    requires
        forall|i: int| 0 <= i < c.modules@.len() ==> #[trigger] c.modules@[i].lessons@.len() == 0,
    ensures
        exists|x: int|
            0 <= x < course_issues(c).len() && #[trigger] course_issues(c)[x] == issue(
                "S3"@,
                ValidationCategory::Structure,
                ValidationSeverity::Error,
                "Course has no lessons in any module"@,
                "modules"@,
                "Add at least one lesson to a module"@,
            ),
        severity_count(course_issues(c), ValidationSeverity::Error) > 0,
        status_for(severity_count(course_issues(c), ValidationSeverity::Error), severity_count(
            course_issues(c),
            ValidationSeverity::Warning,
        )) == ValidationStatus::Fail,
{
    let all = course_issues(c);
    let s = structure_issues(c);
    assert(!has_lessons(c.modules@));
    let k: int = (if c.course_id@.len() == 0 {
        1int
    } else {
        0int
    }) + (if c.title@.len() == 0 {
        1int
    } else {
        0int
    });
    assert(s[k].severity == ValidationSeverity::Error);
    assert(all[k] == s[k]);
    lemma_count_present(all, k, ValidationSeverity::Error);
}

/// A course in which some module has a lesson never gets the S3 issue.
#[verifier::rlimit(40)]
pub proof fn course_with_lessons_has_no_s3(c: AcademyCourse)
    requires
        exists|i: int| 0 <= i < c.modules@.len() && #[trigger] c.modules@[i].lessons@.len() > 0,
    ensures
        forall|x: int| 0 <= x < course_issues(c).len() ==> (#[trigger] course_issues(c)[x]).id != "S3"@,
{
    reveal_strlit("S1");
    reveal_strlit("S2");
    reveal_strlit("S3");
    reveal_strlit("S4");
    reveal_strlit("S5");
    reveal_strlit("S6");
    reveal_strlit("C1");
    reveal_strlit("C2");
    reveal_strlit("C3");
    reveal_strlit("C4");
    reveal_strlit("A1");
    reveal_strlit("A2");
    assert("S1"@[1] != "S3"@[1] || "S1"@[0] != "S3"@[0]);
    assert("S2"@[1] != "S3"@[1] || "S2"@[0] != "S3"@[0]);
    assert("S4"@[1] != "S3"@[1] || "S4"@[0] != "S3"@[0]);
    assert("S5"@[1] != "S3"@[1] || "S5"@[0] != "S3"@[0]);
    assert("S6"@[1] != "S3"@[1] || "S6"@[0] != "S3"@[0]);
    assert("C1"@[1] != "S3"@[1] || "C1"@[0] != "S3"@[0]);
    assert("C2"@[1] != "S3"@[1] || "C2"@[0] != "S3"@[0]);
    assert("C3"@[1] != "S3"@[1] || "C3"@[0] != "S3"@[0]);
    assert("C4"@[1] != "S3"@[1] || "C4"@[0] != "S3"@[0]);
    assert("A1"@[1] != "S3"@[1] || "A1"@[0] != "S3"@[0]);
    assert("A2"@[1] != "S3"@[1] || "A2"@[0] != "S3"@[0]);
    let p = |i: IssueView| i.id != "S3"@;
    let order = |l: Lesson, mi: nat, li: nat| lesson_order_check(l, mi, li);
    let content = |l: Lesson, mi: nat, li: nat| content_check(l, mi, li);
    let assess = |l: Lesson, mi: nat, li: nat| assessment_check(l, mi, li);
    let mods = c.modules@;
    assert(has_lessons(mods));
    lemma_module_orders_all(mods, mods.len(), p);
    assert forall|mi: int, li: int|
        0 <= mi < mods.len() && 0 <= li < mods[mi].lessons@.len() implies {
        &&& all_issues(#[trigger] order(mods[mi].lessons@[li], mi as nat, li as nat), p)
        &&& all_issues(content(mods[mi].lessons@[li], mi as nat, li as nat), p)
        &&& all_issues(assess(mods[mi].lessons@[li], mi as nat, li as nat), p)
    } by {}
    lemma_course_sweep_all(mods, mods.len(), order, p);
    lemma_course_sweep_all(mods, mods.len(), content, p);
    lemma_course_sweep_all(mods, mods.len(), assess, p);
    let s = structure_issues(c);
    assert(all_issues(s, p));
    let all = course_issues(c);
    lemma_all_concat(s, course_sweep(mods, mods.len(), content), p);
    lemma_all_concat(
        s + course_sweep(mods, mods.len(), content),
        course_sweep(mods, mods.len(), assess),
        p,
    );
    assert forall|x: int| 0 <= x < all.len() implies (#[trigger] all[x]).id != "S3"@ by {
        assert(p(all[x]));
    }
}

/// Some issue in `s` has identifier `id`.
pub open spec fn has_id(s: Seq<IssueView>, id: Seq<char>) -> bool {
    exists|x: int| 0 <= x < s.len() && (#[trigger] s[x]).id == id
}

/// Some issue in `s` has identifier `id` and severity `severity`.
pub open spec fn has_id_at(s: Seq<IssueView>, id: Seq<char>, severity: ValidationSeverity) -> bool {
    exists|x: int| 0 <= x < s.len() && (#[trigger] s[x]).id == id && s[x].severity == severity
}

/// The content checks of one lesson: C1 (error) exactly when it has no
/// content, C2 (warning) exactly when it has no learning objectives, C3
/// (warning) exactly when its duration is outside 5–60 minutes, C4 (error)
/// exactly when its title is empty.
pub proof fn lesson_content_rules(l: Lesson, mi: nat, li: nat)
    ensures
        has_id(content_check(l, mi, li), "C1"@) <==> l.content@.len() == 0,
        has_id(content_check(l, mi, li), "C2"@) <==> l.learning_objectives@.len() == 0,
        has_id(content_check(l, mi, li), "C3"@) <==> (l.duration < 5 || l.duration > 60),
        has_id(content_check(l, mi, li), "C4"@) <==> l.title@.len() == 0,
        l.content@.len() == 0 ==> has_id_at(content_check(l, mi, li), "C1"@, ValidationSeverity::Error),
        l.learning_objectives@.len() == 0 ==> has_id_at(
            content_check(l, mi, li),
            "C2"@,
            ValidationSeverity::Warning,
        ),
        (l.duration < 5 || l.duration > 60) ==> has_id_at(
            content_check(l, mi, li),
            "C3"@,
            ValidationSeverity::Warning,
        ),
        l.title@.len() == 0 ==> has_id_at(content_check(l, mi, li), "C4"@, ValidationSeverity::Error),
{
    lemma_check_ids_distinct();
    let s = content_check(l, mi, li);
    let n1: int = if l.content@.len() == 0 {
        1
    } else {
        0
    };
    let n2: int = if l.learning_objectives@.len() == 0 {
        1
    } else {
        0
    };
    let n3: int = if l.duration < 5 || l.duration > 60 {
        1
    } else {
        0
    };
    if n1 == 1 {
        assert(s[0].id == "C1"@ && s[0].severity == ValidationSeverity::Error);
    }
    if n2 == 1 {
        assert(s[n1].id == "C2"@ && s[n1].severity == ValidationSeverity::Warning);
    }
    if n3 == 1 {
        assert(s[n1 + n2].id == "C3"@ && s[n1 + n2].severity == ValidationSeverity::Warning);
    }
    if l.title@.len() == 0 {
        assert(s[n1 + n2 + n3].id == "C4"@ && s[n1 + n2 + n3].severity == ValidationSeverity::Error);
    }
}

/// The assessment checks of one lesson: none without an assessment; A1
/// (error) exactly when the passing score exceeds 100, A2 (error) exactly
/// when no attempt is allowed.
pub proof fn lesson_assessment_rules(l: Lesson, mi: nat, li: nat)
    ensures
        l.assessment is None ==> assessment_check(l, mi, li).len() == 0,
        has_id(assessment_check(l, mi, li), "A1"@) <==> (l.assessment matches Some(a)
            && a.passing_score > 100),
        has_id(assessment_check(l, mi, li), "A2"@) <==> (l.assessment matches Some(a)
            && a.max_attempts == 0),
        forall|x: int|
            0 <= x < assessment_check(l, mi, li).len() ==> (#[trigger] assessment_check(
                l,
                mi,
                li,
            )[x]).severity == ValidationSeverity::Error,
{
    lemma_check_ids_distinct();
    let s = assessment_check(l, mi, li);
    if let Some(a) = l.assessment {
        let n1: int = if a.passing_score > 100 {
            1
        } else {
            0
        };
        if n1 == 1 {
            assert(s[0].id == "A1"@);
        }
        if a.max_attempts == 0 {
            assert(s[n1].id == "A2"@);
        }
    }
}

/// No issue of `s` is one of the course-level checks S1, S2, S3, S6.
spec fn no_course_level_ids(s: Seq<IssueView>) -> bool {
    forall|x: int|
        0 <= x < s.len() ==> (#[trigger] s[x]).id != "S1"@ && s[x].id != "S2"@ && s[x].id != "S3"@
            && s[x].id != "S6"@
}

proof fn lemma_per_lesson_ids(c: AcademyCourse)
    ensures
        no_course_level_ids(
            module_order_issues(c.modules@, c.modules@.len()) + course_sweep(
                c.modules@,
                c.modules@.len(),
                |l: Lesson, mi: nat, li: nat| lesson_order_check(l, mi, li),
            ),
        ),
        no_course_level_ids(
            course_sweep(
                c.modules@,
                c.modules@.len(),
                |l: Lesson, mi: nat, li: nat| content_check(l, mi, li),
            ) + course_sweep(
                c.modules@,
                c.modules@.len(),
                |l: Lesson, mi: nat, li: nat| assessment_check(l, mi, li),
            ),
        ),
{
    lemma_check_ids_distinct();
    let q = |i: IssueView| i.id != "S1"@ && i.id != "S2"@ && i.id != "S3"@ && i.id != "S6"@;
    let order = |l: Lesson, mi: nat, li: nat| lesson_order_check(l, mi, li);
    let content = |l: Lesson, mi: nat, li: nat| content_check(l, mi, li);
    let assess = |l: Lesson, mi: nat, li: nat| assessment_check(l, mi, li);
    let mods = c.modules@;
    lemma_module_orders_all(mods, mods.len(), q);
    assert forall|mi: int, li: int|
        0 <= mi < mods.len() && 0 <= li < mods[mi].lessons@.len() implies {
        &&& all_issues(#[trigger] order(mods[mi].lessons@[li], mi as nat, li as nat), q)
        &&& all_issues(content(mods[mi].lessons@[li], mi as nat, li as nat), q)
        &&& all_issues(assess(mods[mi].lessons@[li], mi as nat, li as nat), q)
    } by {}
    lemma_course_sweep_all(mods, mods.len(), order, q);
    lemma_course_sweep_all(mods, mods.len(), content, q);
    lemma_course_sweep_all(mods, mods.len(), assess, q);
    let m = module_order_issues(mods, mods.len()) + course_sweep(mods, mods.len(), order);
    lemma_all_concat(module_order_issues(mods, mods.len()), course_sweep(mods, mods.len(), order), q);
    let t = course_sweep(mods, mods.len(), content) + course_sweep(mods, mods.len(), assess);
    lemma_all_concat(course_sweep(mods, mods.len(), content), course_sweep(mods, mods.len(), assess), q);
    assert forall|x: int| 0 <= x < m.len() implies (#[trigger] m[x]).id != "S1"@ && m[x].id != "S2"@
        && m[x].id != "S3"@ && m[x].id != "S6"@ by {
        assert(q(m[x]));
    }
    assert forall|x: int| 0 <= x < t.len() implies (#[trigger] t[x]).id != "S1"@ && t[x].id != "S2"@
        && t[x].id != "S3"@ && t[x].id != "S6"@ by {
        assert(q(t[x]));
    }
}

/// The course-level structure checks: S1 (error) exactly when the course
/// ID is empty, S2 (error) exactly when the title is empty, S3 (error)
/// exactly when no module has a lesson, S6 (warning) exactly when the
/// description is empty.
#[verifier::spinoff_prover]
#[verifier::rlimit(50)]
pub proof fn course_structure_rules(c: AcademyCourse)
    ensures
        has_id(course_issues(c), "S1"@) <==> c.course_id@.len() == 0,
        has_id(course_issues(c), "S2"@) <==> c.title@.len() == 0,
        has_id(course_issues(c), "S3"@) <==> (forall|i: int|
            0 <= i < c.modules@.len() ==> #[trigger] c.modules@[i].lessons@.len() == 0),
        has_id(course_issues(c), "S6"@) <==> c.description@.len() == 0,
        c.course_id@.len() == 0 ==> has_id_at(course_issues(c), "S1"@, ValidationSeverity::Error),
        c.title@.len() == 0 ==> has_id_at(course_issues(c), "S2"@, ValidationSeverity::Error),
        c.description@.len() == 0 ==> has_id_at(course_issues(c), "S6"@, ValidationSeverity::Warning),
{
    lemma_check_ids_distinct();
    lemma_per_lesson_ids(c);
    let mods = c.modules@;
    let m = module_order_issues(mods, mods.len()) + course_sweep(
        mods,
        mods.len(),
        |l: Lesson, mi: nat, li: nat| lesson_order_check(l, mi, li),
    );
    let t = course_sweep(mods, mods.len(), |l: Lesson, mi: nat, li: nat| content_check(l, mi, li))
        + course_sweep(mods, mods.len(), |l: Lesson, mi: nat, li: nat| assessment_check(l, mi, li));
    let all = course_issues(c);
    let n1: int = if c.course_id@.len() == 0 {
        1
    } else {
        0
    };
    let n2: int = if c.title@.len() == 0 {
        1
    } else {
        0
    };
    let n3: int = if !has_lessons(mods) {
        1
    } else {
        0
    };
    let n6: int = if c.description@.len() == 0 {
        1
    } else {
        0
    };
    let head = n1 + n2 + n3;
    let mid = all.subrange(head, head + m.len());
    let back = all.subrange(head + m.len() + n6, all.len() as int);
    assert(all.len() == head + m.len() + n6 + t.len());
    assert(mid =~= m);
    assert(back =~= t);
    assert forall|x: int|
        head <= x < head + m.len() || head + m.len() + n6 <= x < all.len() implies {
        &&& (#[trigger] all[x]).id != "S1"@
        &&& all[x].id != "S2"@
        &&& all[x].id != "S3"@
        &&& all[x].id != "S6"@
    } by {
        if x < head + m.len() {
            assert(all[x] == m[x - head]);
        } else {
            assert(all[x] == t[x - head - m.len() - n6]);
        }
    }
    if n1 == 1 {
        assert(all[0].id == "S1"@ && all[0].severity == ValidationSeverity::Error);
    }
    if n2 == 1 {
        assert(all[n1].id == "S2"@ && all[n1].severity == ValidationSeverity::Error);
    }
    if n3 == 1 {
        assert(all[n1 + n2].id == "S3"@);
    } else {
        let i = choose|i: int| 0 <= i < mods.len() && #[trigger] mods[i].lessons@.len() > 0;
        assert(c.modules@[i].lessons@.len() > 0);
    }
    if n6 == 1 {
        assert(all[head + m.len()].id == "S6"@ && all[head + m.len()].severity
            == ValidationSeverity::Warning);
    }
}

/// Counting issues by severity: an empty list counts 0, one more issue
/// adds 1 to its own severity only, counts add up over concatenation, and
/// the three counts together are the number of issues.
pub proof fn severity_count_rules(s: Seq<IssueView>, t: Seq<IssueView>, x: IssueView, sev: ValidationSeverity)
    ensures
        severity_count(Seq::<IssueView>::empty(), sev) == 0,
        severity_count(s.push(x), sev) == severity_count(s, sev) + if x.severity == sev {
            1int
        } else {
            0int
        },
        severity_count(s + t, sev) == severity_count(s, sev) + severity_count(t, sev),
        severity_count(s, ValidationSeverity::Error) + severity_count(s, ValidationSeverity::Warning)
            + severity_count(s, ValidationSeverity::Info) == s.len(),
{
    assert(s.push(x).drop_last() =~= s);
    lemma_count_concat(s, t, sev);
    lemma_counts_split(s);
}

/// The report status: Fail exactly when there is an error, Warning exactly
/// when there is a warning but no error, Pass exactly when there is
/// neither.
pub proof fn status_rules(errors: nat, warnings: nat)
    ensures
        status_for(errors, warnings) == ValidationStatus::Fail <==> errors > 0,
        status_for(errors, warnings) == ValidationStatus::Warning <==> (errors == 0 && warnings > 0),
        status_for(errors, warnings) == ValidationStatus::Pass <==> (errors == 0 && warnings == 0),
{
}

/// The score starts at 100 with no issues; each further error takes 10
/// points, each warning 3 and each info 1, never going below 0.
pub proof fn score_rules(errors: nat, warnings: nat, infos: nat)
    ensures
        score_for(0, 0, 0) == 100,
        score_for(errors, warnings, infos) <= 100,
        score_for(errors + 1, warnings, infos) == if score_for(errors, warnings, infos) >= 10 {
            score_for(errors, warnings, infos) - 10
        } else {
            0
        },
        score_for(errors, warnings + 1, infos) == if score_for(errors, warnings, infos) >= 3 {
            score_for(errors, warnings, infos) - 3
        } else {
            0
        },
        score_for(errors, warnings, infos + 1) == if score_for(errors, warnings, infos) >= 1 {
            score_for(errors, warnings, infos) - 1
        } else {
            0
        },
{
}

/// The rating bands: Excellent for 95–100, Good for 85–94, Acceptable for
/// 70–84, Needs work for 50–69, Critical below 50 or above 100.
pub proof fn rating_rules(score: u32)
    ensures
        QualityRating::rating_for(score) == QualityRating::Excellent <==> (95 <= score && score <= 100),
        QualityRating::rating_for(score) == QualityRating::Good <==> (85 <= score && score < 95),
        QualityRating::rating_for(score) == QualityRating::Acceptable <==> (70 <= score && score < 85),
        QualityRating::rating_for(score) == QualityRating::NeedsWork <==> (50 <= score && score < 70),
        QualityRating::rating_for(score) == QualityRating::Critical <==> (score < 50 || score > 100),
{
}

/// The recommendations: one to fix the errors when there are any, one to
/// address the warnings when there are any, one to add learning objectives
/// when the score is below 85, in that order and nothing else.
pub proof fn recommendation_rules(errors: nat, warnings: nat, score: u32)
    ensures
        recommendations_for(errors, warnings, score).len() == (if errors > 0 {
            1int
        } else {
            0int
        }) + (if warnings > 0 {
            1int
        } else {
            0int
        }) + (if score < 85 {
            1int
        } else {
            0int
        }),
        errors > 0 ==> recommendations_for(errors, warnings, score)[0] == "Fix "@ + decimal(errors)
            + " error(s) before publishing"@,
        warnings > 0 ==> recommendations_for(errors, warnings, score)[if errors > 0 {
            1int
        } else {
            0int
        }] == "Address "@ + decimal(warnings) + " warning(s) to improve quality"@,
        score < 85 ==> recommendations_for(errors, warnings, score).last()
            == "Consider adding learning objectives to all lessons"@,
{
}

proof fn lemma_module_sweep_has(
    lessons: Seq<Lesson>,
    mi: nat,
    k: nat,
    check: spec_fn(Lesson, nat, nat) -> Seq<IssueView>,
    li: int,
    x: int,
)
    requires
        0 <= li < k <= lessons.len(),
        0 <= x < check(lessons[li], mi, li as nat).len(),
    ensures
        module_sweep(lessons, mi, k, check).contains(check(lessons[li], mi, li as nat)[x]),
    decreases k,
{
    let prev = module_sweep(lessons, mi, (k - 1) as nat, check);
    let last = check(lessons[k - 1], mi, (k - 1) as nat);
    if li == k - 1 {
        assert((prev + last)[prev.len() + x] == last[x]);
    } else {
        lemma_module_sweep_has(lessons, mi, (k - 1) as nat, check, li, x);
        let y = choose|y: int| 0 <= y < prev.len() && prev[y] == check(lessons[li], mi, li as nat)[x];
        assert((prev + last)[y] == prev[y]);
    }
}

proof fn lemma_course_sweep_has(
    modules: Seq<Module>,
    n: nat,
    check: spec_fn(Lesson, nat, nat) -> Seq<IssueView>,
    mi: int,
    li: int,
    x: int,
)
    requires
        0 <= mi < n <= modules.len(),
        0 <= li < modules[mi].lessons@.len(),
        0 <= x < check(modules[mi].lessons@[li], mi as nat, li as nat).len(),
    ensures
        course_sweep(modules, n, check).contains(check(modules[mi].lessons@[li], mi as nat, li as nat)[x]),
    decreases n,
{
    let prev = course_sweep(modules, (n - 1) as nat, check);
    let lessons = modules[n - 1].lessons@;
    let last = module_sweep(lessons, (n - 1) as nat, lessons.len(), check);
    let item = check(modules[mi].lessons@[li], mi as nat, li as nat)[x];
    if mi == n - 1 {
        lemma_module_sweep_has(lessons, (n - 1) as nat, lessons.len(), check, li, x);
        let y = choose|y: int| 0 <= y < last.len() && last[y] == item;
        assert((prev + last)[prev.len() + y] == last[y]);
    } else {
        lemma_course_sweep_has(modules, (n - 1) as nat, check, mi, li, x);
        let y = choose|y: int| 0 <= y < prev.len() && prev[y] == item;
        assert((prev + last)[y] == prev[y]);
    }
}

/// Every lesson of every module is checked: each issue its order, content
/// and assessment checks raise is among the course's issues.
pub proof fn lesson_issues_reach_report(c: AcademyCourse, mi: int, li: int)
    requires
        0 <= mi < c.modules@.len(),
        0 <= li < c.modules@[mi].lessons@.len(),
    ensures
        forall|x: int|
            0 <= x < content_check(c.modules@[mi].lessons@[li], mi as nat, li as nat).len()
                ==> course_issues(c).contains(
                #[trigger] content_check(c.modules@[mi].lessons@[li], mi as nat, li as nat)[x],
            ),
        forall|x: int|
            0 <= x < assessment_check(c.modules@[mi].lessons@[li], mi as nat, li as nat).len()
                ==> course_issues(c).contains(
                #[trigger] assessment_check(c.modules@[mi].lessons@[li], mi as nat, li as nat)[x],
            ),
        forall|x: int|
            0 <= x < lesson_order_check(c.modules@[mi].lessons@[li], mi as nat, li as nat).len()
                ==> course_issues(c).contains(
                #[trigger] lesson_order_check(c.modules@[mi].lessons@[li], mi as nat, li as nat)[x],
            ),
{
    let mods = c.modules@;
    let n = mods.len();
    let l = mods[mi].lessons@[li];
    let order = |l: Lesson, mi: nat, li: nat| lesson_order_check(l, mi, li);
    let content = |l: Lesson, mi: nat, li: nat| content_check(l, mi, li);
    let assess = |l: Lesson, mi: nat, li: nat| assessment_check(l, mi, li);
    let s = structure_issues(c);
    let cs = course_sweep(mods, n, content);
    let as_ = course_sweep(mods, n, assess);
    let all = course_issues(c);
    assert forall|x: int| 0 <= x < content_check(l, mi as nat, li as nat).len() implies all.contains(
        #[trigger] content_check(l, mi as nat, li as nat)[x],
    ) by {
        lemma_course_sweep_has(mods, n, content, mi, li, x);
        let y = choose|y: int| 0 <= y < cs.len() && cs[y] == content_check(l, mi as nat, li as nat)[x];
        assert(all[s.len() + y] == cs[y]);
    }
    assert forall|x: int| 0 <= x < assessment_check(l, mi as nat, li as nat).len() implies all.contains(
        #[trigger] assessment_check(l, mi as nat, li as nat)[x],
    ) by {
        lemma_course_sweep_has(mods, n, assess, mi, li, x);
        let y = choose|y: int| 0 <= y < as_.len() && as_[y] == assessment_check(l, mi as nat, li as nat)[x];
        assert(all[s.len() + cs.len() + y] == as_[y]);
    }
    assert forall|x: int| 0 <= x < lesson_order_check(l, mi as nat, li as nat).len() implies all.contains(
        #[trigger] lesson_order_check(l, mi as nat, li as nat)[x],
    ) by {
        lemma_course_sweep_has(mods, n, order, mi, li, x);
        let os = course_sweep(mods, n, order);
        let y = choose|y: int| 0 <= y < os.len() && os[y] == lesson_order_check(l, mi as nat, li as nat)[x];
        let k: int = (if c.course_id@.len() == 0 {
            1int
        } else {
            0int
        }) + (if c.title@.len() == 0 {
            1int
        } else {
            0int
        }) + (if !has_lessons(mods) {
            1int
        } else {
            0int
        }) + module_order_issues(mods, n).len();
        assert(s[k + y] == os[y]);
        assert(all[k + y] == s[k + y]);
    }
}

/// A lesson's order check raises S5 exactly when its order is not its
/// position within the module.
pub proof fn lesson_order_rules(l: Lesson, mi: nat, li: nat)
    ensures
        has_id(lesson_order_check(l, mi, li), "S5"@) <==> l.order != li + 1,
{
    reveal_strlit("S5");
    if l.order != li + 1 {
        assert(lesson_order_check(l, mi, li)[0].id == "S5"@);
    }
}

proof fn lemma_module_orders_has(modules: Seq<Module>, n: nat, i: int)
    requires
        0 <= i < n <= modules.len(),
        modules[i].order != i + 1,
    ensures
        module_order_issues(modules, n).contains(module_order_issue(modules[i], i as nat)),
    decreases n,
{
    let prev = module_order_issues(modules, (n - 1) as nat);
    let last = (n - 1) as int;
    let tail = if modules[last].order != last + 1 {
        seq![module_order_issue(modules[last], last as nat)]
    } else {
        seq![]
    };
    assert(module_order_issues(modules, n) == prev + tail);
    if i == last {
        assert((prev + tail)[prev.len() as int] == module_order_issue(modules[i], i as nat));
    } else {
        lemma_module_orders_has(modules, (n - 1) as nat, i);
        let y = choose|y: int| 0 <= y < prev.len() && prev[y] == module_order_issue(modules[i], i as nat);
        assert((prev + tail)[y] == prev[y]);
    }
}

proof fn lemma_module_orders_none(modules: Seq<Module>, n: nat)
    requires
        n <= modules.len(),
        forall|i: int| 0 <= i < n ==> (#[trigger] modules[i]).order == i + 1,
    ensures
        module_order_issues(modules, n).len() == 0,
    decreases n,
{
    if n > 0 {
        lemma_module_orders_none(modules, (n - 1) as nat);
        assert(modules[n - 1].order == n);
    }
}

/// Module order: a module whose order is not its position raises the S4
/// warning among the course's issues; when every module's order is its
/// position, the module order check raises nothing.
pub proof fn module_order_rules(c: AcademyCourse, i: int)
    ensures
        0 <= i < c.modules@.len() && c.modules@[i].order != i + 1 ==> course_issues(c).contains(
            module_order_issue(c.modules@[i], i as nat),
        ),
        module_order_issue(c.modules@[i], i as nat).id == "S4"@,
        module_order_issue(c.modules@[i], i as nat).severity == ValidationSeverity::Warning,
        (forall|j: int| 0 <= j < c.modules@.len() ==> (#[trigger] c.modules@[j]).order == j + 1)
            ==> module_order_issues(c.modules@, c.modules@.len()).len() == 0,
{
    let mods = c.modules@;
    if 0 <= i < mods.len() && mods[i].order != i + 1 {
        lemma_module_orders_has(mods, mods.len(), i);
        let mo = module_order_issues(mods, mods.len());
        let y = choose|y: int| 0 <= y < mo.len() && mo[y] == module_order_issue(mods[i], i as nat);
        let k: int = (if c.course_id@.len() == 0 {
            1int
        } else {
            0int
        }) + (if c.title@.len() == 0 {
            1int
        } else {
            0int
        }) + (if !has_lessons(mods) {
            1int
        } else {
            0int
        });
        assert(structure_issues(c)[k + y] == mo[y]);
        assert(course_issues(c)[k + y] == structure_issues(c)[k + y]);
    }
    if forall|j: int| 0 <= j < mods.len() ==> (#[trigger] mods[j]).order == j + 1 {
        lemma_module_orders_none(mods, mods.len());
    }
}

/// The check identifiers differ from one another.
proof fn lemma_check_ids_distinct()
    ensures
        "S1"@ != "S2"@,
        "S1"@ != "S3"@,
        "S1"@ != "S4"@,
        "S1"@ != "S5"@,
        "S1"@ != "S6"@,
        "S1"@ != "C1"@,
        "S1"@ != "C2"@,
        "S1"@ != "C3"@,
        "S1"@ != "C4"@,
        "S1"@ != "A1"@,
        "S1"@ != "A2"@,
        "S2"@ != "S3"@,
        "S2"@ != "S4"@,
        "S2"@ != "S5"@,
        "S2"@ != "S6"@,
        "S2"@ != "C1"@,
        "S2"@ != "C2"@,
        "S2"@ != "C3"@,
        "S2"@ != "C4"@,
        "S2"@ != "A1"@,
        "S2"@ != "A2"@,
        "S3"@ != "S4"@,
        "S3"@ != "S5"@,
        "S3"@ != "S6"@,
        "S3"@ != "C1"@,
        "S3"@ != "C2"@,
        "S3"@ != "C3"@,
        "S3"@ != "C4"@,
        "S3"@ != "A1"@,
        "S3"@ != "A2"@,
        "S4"@ != "S5"@,
        "S4"@ != "S6"@,
        "S4"@ != "C1"@,
        "S4"@ != "C2"@,
        "S4"@ != "C3"@,
        "S4"@ != "C4"@,
        "S4"@ != "A1"@,
        "S4"@ != "A2"@,
        "S5"@ != "S6"@,
        "S5"@ != "C1"@,
        "S5"@ != "C2"@,
        "S5"@ != "C3"@,
        "S5"@ != "C4"@,
        "S5"@ != "A1"@,
        "S5"@ != "A2"@,
        "S6"@ != "C1"@,
        "S6"@ != "C2"@,
        "S6"@ != "C3"@,
        "S6"@ != "C4"@,
        "S6"@ != "A1"@,
        "S6"@ != "A2"@,
        "C1"@ != "C2"@,
        "C1"@ != "C3"@,
        "C1"@ != "C4"@,
        "C1"@ != "A1"@,
        "C1"@ != "A2"@,
        "C2"@ != "C3"@,
        "C2"@ != "C4"@,
        "C2"@ != "A1"@,
        "C2"@ != "A2"@,
        "C3"@ != "C4"@,
        "C3"@ != "A1"@,
        "C3"@ != "A2"@,
        "C4"@ != "A1"@,
        "C4"@ != "A2"@,
        "A1"@ != "A2"@,
{
    reveal_strlit("S1");
    reveal_strlit("S2");
    reveal_strlit("S3");
    reveal_strlit("S4");
    reveal_strlit("S5");
    reveal_strlit("S6");
    reveal_strlit("C1");
    reveal_strlit("C2");
    reveal_strlit("C3");
    reveal_strlit("C4");
    reveal_strlit("A1");
    reveal_strlit("A2");
    assert("S1"@[1] != "S2"@[1]);
    assert("S1"@[1] != "S3"@[1]);
    assert("S1"@[1] != "S4"@[1]);
    assert("S1"@[1] != "S5"@[1]);
    assert("S1"@[1] != "S6"@[1]);
    assert("S1"@[0] != "C1"@[0]);
    assert("S1"@[0] != "C2"@[0]);
    assert("S1"@[0] != "C3"@[0]);
    assert("S1"@[0] != "C4"@[0]);
    assert("S1"@[0] != "A1"@[0]);
    assert("S1"@[0] != "A2"@[0]);
    assert("S2"@[1] != "S3"@[1]);
    assert("S2"@[1] != "S4"@[1]);
    assert("S2"@[1] != "S5"@[1]);
    assert("S2"@[1] != "S6"@[1]);
    assert("S2"@[0] != "C1"@[0]);
    assert("S2"@[0] != "C2"@[0]);
    assert("S2"@[0] != "C3"@[0]);
    assert("S2"@[0] != "C4"@[0]);
    assert("S2"@[0] != "A1"@[0]);
    assert("S2"@[0] != "A2"@[0]);
    assert("S3"@[1] != "S4"@[1]);
    assert("S3"@[1] != "S5"@[1]);
    assert("S3"@[1] != "S6"@[1]);
    assert("S3"@[0] != "C1"@[0]);
    assert("S3"@[0] != "C2"@[0]);
    assert("S3"@[0] != "C3"@[0]);
    assert("S3"@[0] != "C4"@[0]);
    assert("S3"@[0] != "A1"@[0]);
    assert("S3"@[0] != "A2"@[0]);
    assert("S4"@[1] != "S5"@[1]);
    assert("S4"@[1] != "S6"@[1]);
    assert("S4"@[0] != "C1"@[0]);
    assert("S4"@[0] != "C2"@[0]);
    assert("S4"@[0] != "C3"@[0]);
    assert("S4"@[0] != "C4"@[0]);
    assert("S4"@[0] != "A1"@[0]);
    assert("S4"@[0] != "A2"@[0]);
    assert("S5"@[1] != "S6"@[1]);
    assert("S5"@[0] != "C1"@[0]);
    assert("S5"@[0] != "C2"@[0]);
    assert("S5"@[0] != "C3"@[0]);
    assert("S5"@[0] != "C4"@[0]);
    assert("S5"@[0] != "A1"@[0]);
    assert("S5"@[0] != "A2"@[0]);
    assert("S6"@[0] != "C1"@[0]);
    assert("S6"@[0] != "C2"@[0]);
    assert("S6"@[0] != "C3"@[0]);
    assert("S6"@[0] != "C4"@[0]);
    assert("S6"@[0] != "A1"@[0]);
    assert("S6"@[0] != "A2"@[0]);
    assert("C1"@[1] != "C2"@[1]);
    assert("C1"@[1] != "C3"@[1]);
    assert("C1"@[1] != "C4"@[1]);
    assert("C1"@[0] != "A1"@[0]);
    assert("C1"@[0] != "A2"@[0]);
    assert("C2"@[1] != "C3"@[1]);
    assert("C2"@[1] != "C4"@[1]);
    assert("C2"@[0] != "A1"@[0]);
    assert("C2"@[0] != "A2"@[0]);
    assert("C3"@[1] != "C4"@[1]);
    assert("C3"@[0] != "A1"@[0]);
    assert("C3"@[0] != "A2"@[0]);
    assert("C4"@[0] != "A1"@[0]);
    assert("C4"@[0] != "A2"@[0]);
    assert("A1"@[1] != "A2"@[1]);
}

} // verus!
