//! The academy course structure, and its formatting from a KSB framework and
//! lesson content.
use vstd::prelude::*;

use crate::ksb::{KsbCategory, KsbComponent, KsbFramework};
use crate::text::{
    count_words, lowercase_of, push_text, same_text, seq_contains, str_contains, texts,
    to_lowercase, words_in,
};

verus! {

/// Assumed reading speed in words per minute.
pub const READING_SPEED_WPM: u32 = 200;

/// Buffer minutes added to reading duration.
pub const DURATION_BUFFER_MINUTES: u32 = 2;

/// Maximum lesson duration in minutes.
pub const MAX_DURATION_MINUTES: u32 = 60;

/// Minimum lesson duration in minutes (fallback for empty content).
pub const MIN_DURATION_MINUTES: u32 = 5;

/// Default assessment passing score (0–100).
pub const DEFAULT_PASSING_SCORE: u32 = 70;

/// Default maximum assessment attempts.
pub const DEFAULT_MAX_ATTEMPTS: u32 = 3;

/// Assessment configuration for a lesson.
#[derive(Debug, Clone, Copy)]
pub struct Assessment {
    /// Minimum score to pass (0–100).
    pub passing_score: u32,
    /// Maximum number of attempts allowed.
    pub max_attempts: u32,
    /// Whether to randomize question order.
    pub randomize_questions: bool,
}

impl Default for Assessment {
    fn default() -> (r: Self)
        ensures
            r.passing_score == DEFAULT_PASSING_SCORE,
            r.max_attempts == DEFAULT_MAX_ATTEMPTS,
            !r.randomize_questions,
    {
        Assessment {
            passing_score: DEFAULT_PASSING_SCORE,
            max_attempts: DEFAULT_MAX_ATTEMPTS,
            randomize_questions: false,
        }
    }
}

/// A single lesson within a module.
#[derive(Debug, Clone)]
pub struct Lesson {
    /// Lesson title.
    pub title: String,
    /// Short description.
    pub description: String,
    /// HTML content body.
    pub content: String,
    /// Video URL (if any).
    pub video_url: Option<String>,
    /// Video provider (e.g., "youtube").
    pub video_provider: Option<String>,
    /// Video ID.
    pub video_id: Option<String>,
    /// Estimated duration in minutes.
    pub duration: u32,
    /// Position within module (1-indexed).
    pub order: u32,
    /// Assessment configuration (if present).
    pub assessment: Option<Assessment>,
    /// Learning objectives for this lesson.
    pub learning_objectives: Vec<String>,
}

/// A module (group of lessons by KSB category).
#[derive(Debug, Clone)]
pub struct Module {
    /// Module title (e.g., "Knowledge").
    pub title: String,
    /// Module description.
    pub description: String,
    /// Position within course (1-indexed).
    pub order: u32,
    /// Lessons in this module.
    pub lessons: Vec<Lesson>,
}

/// Course metadata.
#[derive(Debug, Clone)]
pub struct CourseMetadata {
    /// Total number of lessons.
    pub total_lessons: usize,
    /// Total number of modules.
    pub total_modules: usize,
    /// Total estimated duration in minutes.
    pub estimated_duration: u32,
    /// ISO 8601 generation timestamp.
    pub generated_at: String,
    /// Quality score (if validated), as the bit pattern of an IEEE-754 double.
    pub quality_score_bits: Option<u64>,
}

/// Complete academy course structure.
#[derive(Debug, Clone)]
pub struct AcademyCourse {
    /// Unique course identifier.
    pub course_id: String,
    /// Course title.
    pub title: String,
    /// Course description.
    pub description: String,
    /// Topic covered.
    pub topic: String,
    /// Domain context.
    pub domain: String,
    /// Target audience.
    pub target_audience: String,
    /// Modules (K, S, B).
    pub modules: Vec<Module>,
    /// Course metadata.
    pub metadata: CourseMetadata,
}

/// Content generated for a KSB component.
pub struct LessonContent {
    /// Component ID this content belongs to.
    pub component_id: String,
    /// HTML content body.
    pub html: String,
    /// Learning objectives.
    pub learning_objectives: Vec<String>,
}


// ---------------------------------------------------------------------------
// Duration
// ---------------------------------------------------------------------------

/// Reading duration for a word count: `words / 200 + 2` minutes, clamped to
/// [5, 60], and 5 for no words.
pub open spec fn duration_for(words: nat) -> u32 {
    if words == 0 {
        MIN_DURATION_MINUTES
    } else {
        let raw: nat = words / (READING_SPEED_WPM as nat) + DURATION_BUFFER_MINUTES as nat;
        if raw < MIN_DURATION_MINUTES {
            MIN_DURATION_MINUTES
        } else if raw > MAX_DURATION_MINUTES {
            MAX_DURATION_MINUTES
        } else {
            raw as u32
        }
    }
}

/// Estimate reading duration in minutes from word count.
///
/// Formula: `words / 200 WPM + 2 min buffer`, clamped to [5, 60].
pub fn estimate_duration_minutes(word_count: usize) -> (r: u32)
    ensures
        r == duration_for(word_count as nat),
        MIN_DURATION_MINUTES <= r <= MAX_DURATION_MINUTES,
{
    if word_count == 0 {
        return MIN_DURATION_MINUTES;
    }
    let raw: usize = word_count / (READING_SPEED_WPM as usize) + (DURATION_BUFFER_MINUTES as usize);
    // clamp to [MIN_DURATION_MINUTES, MAX_DURATION_MINUTES]
    if raw < MIN_DURATION_MINUTES as usize {
        MIN_DURATION_MINUTES
    } else if raw > MAX_DURATION_MINUTES as usize {
        MAX_DURATION_MINUTES
    } else {
        raw as u32
    }
}

/// More words never mean a shorter estimate: the reading duration is
/// monotone in the word count.
pub proof fn duration_is_monotone(a: nat, b: nat)
    requires
        a <= b,
    ensures
        duration_for(a) <= duration_for(b),
{
    assert(a / 200 <= b / 200) by (nonlinear_arith)
        requires
            a <= b,
    ;
}

/// The reading duration in steps: 5 minutes below 800 words, one more
/// minute for every further 200 words, and 60 minutes from 11,600 words on.
pub proof fn duration_steps(words: nat)
    ensures
        words < 800 ==> duration_for(words) == 5,
        words >= 11_600 ==> duration_for(words) == 60,
        words >= 600 ==> duration_for(words + 200) == if duration_for(words) < 60 {
            duration_for(words) + 1
        } else {
            60
        },
{
    assert((words + 200) / 200 == words / 200 + 1) by (nonlinear_arith);
    if words < 800 {
        assert(words / 200 <= 3) by (nonlinear_arith)
            requires
                words < 800,
        ;
    }
    if words >= 11_600 {
        assert(words / 200 >= 58) by (nonlinear_arith)
            requires
                words >= 11_600,
        ;
    }
    if words >= 600 {
        assert(words / 200 >= 3) by (nonlinear_arith)
            requires
                words >= 600,
        ;
    }
}

/// Count words in content (whitespace-separated).
pub fn word_count(content: &str) -> (r: usize)
    ensures
        r == words_in(content@),
{
    count_words(content)
}

// ---------------------------------------------------------------------------
// Title and description
// ---------------------------------------------------------------------------

/// The course title, given the lower-cased topic and domain: the topic
/// alone when the domain is empty or its lower-cased form occurs in the
/// lower-cased topic, else `topic (domain)`.
pub open spec fn title_given(
    topic: Seq<char>,
    domain: Seq<char>,
    topic_lower: Seq<char>,
    domain_lower: Seq<char>,
) -> Seq<char> {
    if seq_contains(topic_lower, domain_lower) || domain.len() == 0 {
        topic
    } else {
        topic + " ("@ + domain + ")"@
    }
}

/// The course title: the topic alone when the domain is empty or already
/// part of the topic (ignoring case), else `topic (domain)`.
pub open spec fn title_for(topic: Seq<char>, domain: Seq<char>) -> Seq<char> {
    title_given(topic, domain, lowercase_of(topic), lowercase_of(domain))
}

/// The title is the topic alone whenever the lower-cased domain occurs in
/// the lower-cased topic at any offset, or the domain is empty; otherwise
/// it is the topic followed by ` (domain)`.
pub proof fn title_keeps_topic_when_domain_inside(
    topic: Seq<char>,
    domain: Seq<char>,
    topic_lower: Seq<char>,
    domain_lower: Seq<char>,
)
    ensures
        (exists|i: int|
            0 <= i && i + domain_lower.len() <= topic_lower.len() && #[trigger] topic_lower.subrange(
                i,
                i + domain_lower.len(),
            ) == domain_lower) || domain.len() == 0 ==> title_given(
            topic,
            domain,
            topic_lower,
            domain_lower,
        ) == topic,
        (forall|i: int|
            0 <= i && i + domain_lower.len() <= topic_lower.len() ==> #[trigger] topic_lower.subrange(
                i,
                i + domain_lower.len(),
            ) != domain_lower) && domain.len() > 0 ==> title_given(
            topic,
            domain,
            topic_lower,
            domain_lower,
        ) == topic + " ("@ + domain + ")"@,
        title_for(topic, domain) == title_given(topic, domain, lowercase_of(topic), lowercase_of(domain)),
{
}

/// Generate course title from topic and domain.
///
/// If the domain is already part of the topic, just use the topic.
pub fn generate_title(topic: &str, domain: &str) -> (r: String)
    ensures
        r@ == title_for(topic@, domain@),
{
    let topic_lower = to_lowercase(topic);
    let domain_lower = to_lowercase(domain);
    title_from_lowered(topic, domain, topic_lower.as_str(), domain_lower.as_str())
}

/// The course title from the topic and domain and their lower-cased forms.
pub fn title_from_lowered(topic: &str, domain: &str, topic_lower: &str, domain_lower: &str) -> (r:
    String)
    ensures
        r@ == title_given(topic@, domain@, topic_lower@, domain_lower@),
{
    if str_contains(topic_lower, domain_lower) || domain.is_empty() {
        String::from_str(topic)
    } else {
        let mut s = String::from_str(topic);
        push_text(&mut s, " (");
        push_text(&mut s, domain);
        push_text(&mut s, ")");
        s
    }
}

/// The course description: fixed sentences around the topic, the audience
/// (when given) and the domain (when given), joined by single spaces.
pub open spec fn description_for(topic: Seq<char>, domain: Seq<char>, audience: Seq<char>) -> Seq<
    char,
> {
    let opening = "A comprehensive course on "@ + topic + "."@;
    let for_audience = if audience.len() > 0 {
        " Designed for "@ + audience + "."@
    } else {
        Seq::empty()
    };
    let for_domain = if domain.len() > 0 {
        " Covers essential concepts and practical applications in "@ + domain + "."@
    } else {
        Seq::empty()
    };
    opening + for_audience + for_domain
        + " This course includes structured lessons with learning objectives, rich content, and assessments to validate understanding."@
}

/// Generate course description.
pub fn generate_description(topic: &str, domain: &str, target_audience: &str) -> (r: String)
    ensures
        r@ == description_for(topic@, domain@, target_audience@),
{
    let mut s = String::from_str("A comprehensive course on ");
    push_text(&mut s, topic);
    push_text(&mut s, ".");
    let ghost opening = s@;
    if !target_audience.is_empty() {
        push_text(&mut s, " Designed for ");
        push_text(&mut s, target_audience);
        push_text(&mut s, ".");
    } else {
        assert(s@ =~= opening + Seq::<char>::empty());
    }
    let ghost with_audience = s@;
    if !domain.is_empty() {
        push_text(&mut s, " Covers essential concepts and practical applications in ");
        push_text(&mut s, domain);
        push_text(&mut s, ".");
    } else {
        assert(s@ =~= with_audience + Seq::<char>::empty());
    }
    push_text(
        &mut s,
        " This course includes structured lessons with learning objectives, rich content, and assessments to validate understanding.",
    );
    s
}


// ---------------------------------------------------------------------------
// Formatting engine
// ---------------------------------------------------------------------------

/// Parameters for formatting a course.
pub struct FormatCourseParams<'a> {
    /// Unique course identifier.
    pub course_id: &'a str,
    /// KSB framework to format.
    pub framework: &'a KsbFramework,
    /// Content for each KSB component.
    pub content: &'a [LessonContent],
    /// Target audience description.
    pub target_audience: &'a str,
    /// ISO 8601 generation timestamp.
    pub generated_at: &'a str,
    /// Quality score (if validated), as the bit pattern of an IEEE-754 double.
    pub quality_score_bits: Option<u64>,
}

/// Index of the content that belongs to component `id`, among the first `n`
/// entries: the last one with that component ID wins.
pub open spec fn content_for(content: Seq<LessonContent>, id: Seq<char>, n: nat) -> Option<int>
    decreases n,
{
    if n == 0 {
        None
    } else if content[n - 1].component_id@ == id {
        Some(n - 1)
    } else {
        content_for(content, id, (n - 1) as nat)
    }
}

proof fn lemma_content_for_in_range(content: Seq<LessonContent>, id: Seq<char>, n: nat)
    requires
        n <= content.len(),
    ensures
        content_for(content, id, n) matches Some(k) ==> 0 <= k < n && content[k].component_id@ == id,
    decreases n,
{
    if n > 0 {
        lemma_content_for_in_range(content, id, (n - 1) as nat);
    }
}

/// The lesson body of a component: its content's HTML, or its description in
/// a paragraph when no content belongs to it.
pub open spec fn lesson_html(comp: KsbComponent, content: Seq<LessonContent>) -> Seq<char> {
    match content_for(content, comp.id@, content.len()) {
        Some(k) => content[k].html@,
        None => "<p>"@ + comp.description@ + "</p>"@,
    }
}

/// The content lookup picks the last entry with the component's ID among
/// the first `n`, and finds none exactly when no entry has that ID.
pub proof fn content_lookup_rules(content: Seq<LessonContent>, id: Seq<char>, n: nat)
    requires
        n <= content.len(),
    ensures
        content_for(content, id, n) matches Some(k) ==> 0 <= k < n && content[k].component_id@ == id
            && forall|j: int| k < j < n ==> (#[trigger] content[j]).component_id@ != id,
        content_for(content, id, n) is None <==> forall|j: int|
            0 <= j < n ==> (#[trigger] content[j]).component_id@ != id,
    decreases n,
{
    if n > 0 {
        content_lookup_rules(content, id, (n - 1) as nat);
    }
}

/// A lesson takes the HTML and learning objectives of the last content
/// entry with its component's ID; with no such entry its HTML is the
/// component's description in a paragraph and its one objective is
/// "Understand" followed by the component's title.
pub proof fn lesson_content_choice(comp: KsbComponent, content: Seq<LessonContent>, k: int)
    ensures
        0 <= k < content.len() && content[k].component_id@ == comp.id@ && (forall|j: int|
            k < j < content.len() ==> (#[trigger] content[j]).component_id@ != comp.id@)
            ==> lesson_html(comp, content) == content[k].html@ && lesson_objectives(comp, content)
            == texts(content[k].learning_objectives@),
        (forall|j: int| 0 <= j < content.len() ==> (#[trigger] content[j]).component_id@ != comp.id@)
            ==> lesson_html(comp, content) == "<p>"@ + comp.description@ + "</p>"@ && lesson_objectives(
            comp,
            content,
        ) == seq!["Understand "@ + comp.title@],
{
    content_lookup_rules(content, comp.id@, content.len());
    if let Some(m) = content_for(content, comp.id@, content.len()) {
        if 0 <= k < content.len() && content[k].component_id@ == comp.id@ && (forall|j: int|
            k < j < content.len() ==> (#[trigger] content[j]).component_id@ != comp.id@) {
            if m < k {
                assert(content[k].component_id@ != comp.id@);
            } else if m > k {
                assert(content[m].component_id@ != comp.id@);
            }
        }
    }
}

/// The learning objectives of a component: its content's objectives, or
/// "Understand <title>" when no content belongs to it.
pub open spec fn lesson_objectives(comp: KsbComponent, content: Seq<LessonContent>) -> Seq<
    Seq<char>,
> {
    match content_for(content, comp.id@, content.len()) {
        Some(k) => texts(content[k].learning_objectives@),
        None => seq!["Understand "@ + comp.title@],
    }
}

/// `l` is the lesson formatted from component `comp` at position `j` of its module.
pub open spec fn lesson_built(
    l: Lesson,
    comp: KsbComponent,
    content: Seq<LessonContent>,
    j: nat,
) -> bool {
    &&& l.title@ == comp.title@
    &&& l.description@ == comp.description@
    &&& l.content@ == lesson_html(comp, content)
    &&& l.video_url is None
    &&& l.video_provider is None
    &&& l.video_id is None
    &&& l.duration == duration_for(words_in(lesson_html(comp, content)))
    &&& l.order == j + 1
    &&& l.assessment is None
    &&& texts(l.learning_objectives@) == lesson_objectives(comp, content)
}

/// `m` is the module formatted from the components of `cat`, at position `k`.
pub open spec fn module_built(
    m: Module,
    cat: KsbCategory,
    comps: Seq<KsbComponent>,
    content: Seq<LessonContent>,
    k: nat,
) -> bool {
    &&& m.title@ == cat.label_text()
    &&& m.description@ == cat.description_text()
    &&& m.order == k + 1
    &&& m.lessons@.len() == comps.len()
    &&& forall|j: int|
        0 <= j < comps.len() ==> lesson_built(#[trigger] m.lessons@[j], comps[j], content, j as nat)
}

/// The category of module `k`: Knowledge, Skills, Behaviors in that order.
pub open spec fn category_at(k: nat) -> KsbCategory {
    if k == 0 {
        KsbCategory::Knowledge
    } else if k == 1 {
        KsbCategory::Skill
    } else {
        KsbCategory::Behavior
    }
}

/// Sum of the lesson durations.
pub open spec fn duration_sum(lessons: Seq<Lesson>) -> nat
    decreases lessons.len(),
{
    if lessons.len() == 0 {
        0
    } else {
        duration_sum(lessons.drop_last()) + lessons.last().duration as nat
    }
}

fn find_content(content: &[LessonContent], id: &str) -> (r: Option<usize>)
    ensures
        match r {
            Some(i) => content_for(content@, id@, content@.len()) == Some(i as int),
            None => content_for(content@, id@, content@.len()) is None,
        },
{
    let n = content.len();
    let mut i = n;
    while i > 0
        invariant
            n == content@.len(),
            i <= n,
            content_for(content@, id@, n as nat) == content_for(content@, id@, i as nat),
        decreases i,
    {
        if same_text(content[i - 1].component_id.as_str(), id) {
            return Some(i - 1);
        }
        i = i - 1;
    }
    None
}

fn copy_texts(v: &Vec<String>) -> (r: Vec<String>)
    ensures
        texts(r@) == texts(v@),
{
    let mut r: Vec<String> = Vec::new();
    let mut i: usize = 0;
    while i < v.len()
        invariant
            i <= v@.len(),
            r@.len() == i,
            texts(r@) == texts(v@).take(i as int),
        decreases v@.len() - i,
    {
        let ghost before = r@;
        let c = v[i].clone();
        assert(c@ == v@[i as int]@);
        r.push(c);
        assert(r@ == before.push(c));
        assert forall|k: int| 0 <= k < i implies texts(r@)[k] == texts(before)[k] by {
            assert(r@[k] == before[k]);
        }
        assert(texts(r@)[i as int] == texts(v@)[i as int]);
        assert(texts(r@) =~= texts(v@).take(i + 1));
        i = i + 1;
    }
    assert(texts(v@).take(v@.len() as int) =~= texts(v@));
    r
}

/// Minutes of the lesson formatted from a component.
pub open spec fn lesson_minutes(comp: KsbComponent, content: Seq<LessonContent>) -> nat {
    duration_for(words_in(lesson_html(comp, content))) as nat
}

/// Minutes of the lessons formatted from the first `n` components.
pub open spec fn planned_minutes(comps: Seq<KsbComponent>, content: Seq<LessonContent>, n: nat) -> nat
    decreases n,
{
    if n == 0 {
        0
    } else {
        planned_minutes(comps, content, (n - 1) as nat) + lesson_minutes(comps[n - 1], content)
    }
}

/// Minutes of every lesson of the course formatted from a framework: the
/// course's estimated duration.
pub open spec fn course_minutes(fw: KsbFramework, content: Seq<LessonContent>) -> nat {
    planned_minutes(fw.knowledge@, content, fw.knowledge@.len()) + planned_minutes(
        fw.skills@,
        content,
        fw.skills@.len(),
    ) + planned_minutes(fw.behaviors@, content, fw.behaviors@.len())
}

proof fn lemma_planned_bounds(comps: Seq<KsbComponent>, content: Seq<LessonContent>, n: nat)
    ensures
        5 * n <= planned_minutes(comps, content, n) <= 60 * n,
        forall|m: nat| m <= n ==> #[trigger] planned_minutes(comps, content, m) <= planned_minutes(
            comps,
            content,
            n,
        ),
    decreases n,
{
    if n > 0 {
        lemma_planned_bounds(comps, content, (n - 1) as nat);
        assert(5 <= duration_for(words_in(lesson_html(comps[n - 1], content))) <= 60);
    }
}

fn html_for(component: &KsbComponent, content: &[LessonContent], found: Option<usize>) -> (r: String)
    requires
        match found {
            Some(i) => content_for(content@, component.id@, content@.len()) == Some(i as int),
            None => content_for(content@, component.id@, content@.len()) is None,
        },
    ensures
        r@ == lesson_html(*component, content@),
{
    proof {
        lemma_content_for_in_range(content@, component.id@, content@.len());
    }
    match found {
        Some(k) => content[k].html.clone(),
        None => {
            let mut html = String::from_str("<p>");
            push_text(&mut html, component.description.as_str());
            push_text(&mut html, "</p>");
            html
        },
    }
}

fn build_lesson(component: &KsbComponent, content: &[LessonContent], j: usize) -> (l: Lesson)
    requires
        j < u32::MAX,
    ensures
        lesson_built(l, *component, content@, j as nat),
{
    let found = find_content(content, component.id.as_str());
    proof {
        lemma_content_for_in_range(content@, component.id@, content@.len());
    }
    let html = html_for(component, content, found);
    let objectives = match found {
        Some(k) => copy_texts(&content[k].learning_objectives),
        None => {
            let mut objective = String::from_str("Understand ");
            push_text(&mut objective, component.title.as_str());
            let mut objectives: Vec<String> = Vec::new();
            objectives.push(objective);
            assert(texts(objectives@) =~= seq!["Understand "@ + component.title@]);
            objectives
        },
    };
    let duration = estimate_duration_minutes(word_count(html.as_str()));
    Lesson {
        title: component.title.clone(),
        description: component.description.clone(),
        content: html,
        video_url: None,
        video_provider: None,
        video_id: None,
        duration,
        order: (j + 1) as u32,
        assessment: None,
        learning_objectives: objectives,
    }
}

fn build_module(
    framework: &KsbFramework,
    category: KsbCategory,
    content: &[LessonContent],
    module_order: usize,
    total_duration: &mut u32,
) -> (m: Module)
    requires
        module_order < 3,
        *old(total_duration) + planned_minutes(
            framework.components_of(category),
            content@,
            framework.components_of(category).len(),
        ) <= u32::MAX,
    ensures
        module_built(m, category, framework.components_of(category), content@, module_order as nat),
        *final(total_duration) == *old(total_duration) + duration_sum(m.lessons@),
        duration_sum(m.lessons@) == planned_minutes(
            framework.components_of(category),
            content@,
            framework.components_of(category).len(),
        ),
{
    let components = framework.by_category(category);
    let n = components.len();
    let ghost start = *total_duration;
    let ghost comps = components@;
    proof {
        lemma_planned_bounds(comps, content@, n as nat);
    }
    let mut lessons: Vec<Lesson> = Vec::new();
    let mut j: usize = 0;
    while j < n
        invariant
            n == comps.len(),
            comps == components@,
            comps == framework.components_of(category),
            j <= n,
            start + planned_minutes(comps, content@, n as nat) <= u32::MAX,
            5 * n <= planned_minutes(comps, content@, n as nat),
            forall|m: nat| m <= n ==> #[trigger] planned_minutes(comps, content@, m) <= planned_minutes(
                comps,
                content@,
                n as nat,
            ),
            lessons@.len() == j,
            forall|q: int|
                0 <= q < j ==> lesson_built(#[trigger] lessons@[q], comps[q], content@, q as nat),
            *total_duration == start + duration_sum(lessons@),
            duration_sum(lessons@) == planned_minutes(comps, content@, j as nat),
        decreases n - j,
    {
        assert(planned_minutes(comps, content@, (j + 1) as nat) <= planned_minutes(
            comps,
            content@,
            n as nat,
        ));
        let lesson = build_lesson(&components[j], content, j);
        let duration = lesson.duration;
        let ghost before = lessons@;
        *total_duration = *total_duration + duration;
        lessons.push(lesson);
        assert(lessons@.drop_last() =~= before);
        j = j + 1;
    }
    Module {
        title: String::from_str(category.label()),
        description: category.module_description(),
        order: (module_order + 1) as u32,
        lessons,
    }
}

/// The course formatted from a framework and its content.
pub open spec fn course_built(r: AcademyCourse, params: FormatCourseParams) -> bool {
    let fw = *params.framework;
    &&& r.course_id@ == params.course_id@
    &&& r.title@ == title_for(fw.topic@, fw.domain@)
    &&& r.description@ == description_for(fw.topic@, fw.domain@, params.target_audience@)
    &&& r.topic@ == fw.topic@
    &&& r.domain@ == fw.domain@
    &&& r.target_audience@ == params.target_audience@
    &&& r.modules@.len() == 3
    &&& forall|k: int|
        0 <= k < 3 ==> module_built(
            #[trigger] r.modules@[k],
            category_at(k as nat),
            fw.components_of(category_at(k as nat)),
            params.content@,
            k as nat,
        )
    &&& r.metadata.total_lessons == fw.component_total()
    &&& r.metadata.total_modules == 3
    &&& r.metadata.estimated_duration == course_minutes(fw, params.content@)
    &&& r.metadata.estimated_duration == duration_sum(r.modules@[0].lessons@) + duration_sum(
        r.modules@[1].lessons@,
    ) + duration_sum(r.modules@[2].lessons@)
    &&& r.metadata.generated_at@ == params.generated_at@
    &&& r.metadata.quality_score_bits == params.quality_score_bits
}

/// Format a KSB framework + content into an academy course.
///
/// Each KSB category becomes a module. Each component becomes a lesson.
/// Content is matched by component ID. The estimated duration is kept in a
/// `u32`, so the lessons' minutes must fit in one.
pub fn format_course(params: &FormatCourseParams<'_>) -> (r: AcademyCourse)
    requires
        course_minutes(*params.framework, params.content@) <= u32::MAX,
    ensures
        course_built(r, *params),
{
    let framework = params.framework;
    let ghost content = params.content@;
    let ghost k_min = planned_minutes(framework.knowledge@, content, framework.knowledge@.len());
    let ghost s_min = planned_minutes(framework.skills@, content, framework.skills@.len());
    let ghost b_min = planned_minutes(framework.behaviors@, content, framework.behaviors@.len());
    proof {
        lemma_planned_bounds(framework.knowledge@, content, framework.knowledge@.len());
        lemma_planned_bounds(framework.skills@, content, framework.skills@.len());
        lemma_planned_bounds(framework.behaviors@, content, framework.behaviors@.len());
    }
    let mut modules: Vec<Module> = Vec::new();
    let mut total_lessons: u32 = 0;
    let mut total_duration: u32 = 0;
    let mut module_order: usize = 0;
    while module_order < 3
        invariant
            framework == params.framework,
            content == params.content@,
            k_min == planned_minutes(framework.knowledge@, content, framework.knowledge@.len()),
            s_min == planned_minutes(framework.skills@, content, framework.skills@.len()),
            b_min == planned_minutes(framework.behaviors@, content, framework.behaviors@.len()),
            k_min + s_min + b_min <= u32::MAX,
            5 * framework.knowledge@.len() <= k_min,
            5 * framework.skills@.len() <= s_min,
            5 * framework.behaviors@.len() <= b_min,
            module_order <= 3,
            modules@.len() == module_order,
            forall|k: int|
                0 <= k < module_order ==> module_built(
                    #[trigger] modules@[k],
                    category_at(k as nat),
                    framework.components_of(category_at(k as nat)),
                    content,
                    k as nat,
                ),
            forall|k: int|
                0 <= k < module_order ==> duration_sum(#[trigger] modules@[k].lessons@)
                    == planned_minutes(
                    framework.components_of(category_at(k as nat)),
                    content,
                    framework.components_of(category_at(k as nat)).len(),
                ),
            total_lessons == if module_order == 0 {
                0
            } else if module_order == 1 {
                framework.knowledge@.len()
            } else if module_order == 2 {
                framework.knowledge@.len() + framework.skills@.len()
            } else {
                framework.component_total()
            },
            total_duration == if module_order == 0 {
                0
            } else if module_order == 1 {
                k_min
            } else if module_order == 2 {
                k_min + s_min
            } else {
                k_min + s_min + b_min
            },
        decreases 3 - module_order,
    {
        let category = KsbCategory::ALL[module_order];
        assert(category == category_at(module_order as nat));
        let module = build_module(framework, category, params.content, module_order, &mut total_duration);
        total_lessons = total_lessons + module.lessons.len() as u32;
        modules.push(module);
        module_order = module_order + 1;
    }
    AcademyCourse {
        course_id: String::from_str(params.course_id),
        title: generate_title(framework.topic.as_str(), framework.domain.as_str()),
        description: generate_description(
            framework.topic.as_str(),
            framework.domain.as_str(),
            params.target_audience,
        ),
        topic: framework.topic.clone(),
        domain: framework.domain.clone(),
        target_audience: String::from_str(params.target_audience),
        modules,
        metadata: CourseMetadata {
            total_lessons: total_lessons as usize,
            total_modules: 3,
            estimated_duration: total_duration,
            generated_at: String::from_str(params.generated_at),
            quality_score_bits: params.quality_score_bits,
        },
    }
}

/// Minutes of the lesson formatted from a component.
fn lesson_duration(component: &KsbComponent, content: &[LessonContent]) -> (r: u32)
    ensures
        r == lesson_minutes(*component, content@),
{
    let found = find_content(content, component.id.as_str());
    let html = html_for(component, content, found);
    estimate_duration_minutes(word_count(html.as_str()))
}

/// Adds the minutes of the lessons of `components` to `start`, or gives
/// `None` once the sum passes `u32::MAX`.
fn add_planned_minutes(components: &[KsbComponent], content: &[LessonContent], start: u64) -> (r:
    Option<u64>)
    requires
        start <= u32::MAX,
    ensures
        match r {
            Some(t) => t == start + planned_minutes(components@, content@, components@.len())
                && t <= u32::MAX,
            None => start + planned_minutes(components@, content@, components@.len()) > u32::MAX,
        },
{
    let n = components.len();
    proof {
        lemma_planned_bounds(components@, content@, n as nat);
    }
    let mut total = start;
    let mut j: usize = 0;
    while j < n
        invariant
            n == components@.len(),
            j <= n,
            total <= u32::MAX,
            total == start + planned_minutes(components@, content@, j as nat),
            forall|m: nat| m <= n ==> #[trigger] planned_minutes(components@, content@, m)
                <= planned_minutes(components@, content@, n as nat),
        decreases n - j,
    {
        let d = lesson_duration(&components[j], content);
        total = total + d as u64;
        if total > 0xffff_ffff {
            assert(planned_minutes(components@, content@, (j + 1) as nat) <= planned_minutes(
                components@,
                content@,
                n as nat,
            ));
            return None;
        }
        j = j + 1;
    }
    Some(total)
}

/// Format a course when its lessons' minutes fit in the `u32` estimated
/// duration, and give `None` when they do not.
pub fn try_format_course(params: &FormatCourseParams<'_>) -> (r: Option<AcademyCourse>)
    ensures
        r is Some <==> course_minutes(*params.framework, params.content@) <= u32::MAX,
        r matches Some(c) ==> course_built(c, *params),
{
    let framework = params.framework;
    let knowledge = add_planned_minutes(framework.knowledge.as_slice(), params.content, 0);
    let after_knowledge = match knowledge {
        Some(t) => t,
        None => return None,
    };
    let skills = add_planned_minutes(framework.skills.as_slice(), params.content, after_knowledge);
    let after_skills = match skills {
        Some(t) => t,
        None => return None,
    };
    let behaviors = add_planned_minutes(framework.behaviors.as_slice(), params.content, after_skills);
    match behaviors {
        Some(_) => Some(format_course(params)),
        None => None,
    }
}

} // verus!
