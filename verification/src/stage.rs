//! Configuration of the course generation pipeline: its stages, the
//! validation agents that score content, and the research cache.
use vstd::prelude::*;

pub mod models;

verus! {

/// Course generation pipeline stages.
///
/// Two pipeline variants exist: Legacy (prototyping) and Quality (production).
#[derive(Debug, Clone, Copy, PartialEq, Eq, Hash, Structural)]
pub enum PipelineStage {
    // --- Legacy Pipeline ---
    /// Decompose topic into Knowledge, Skills, Behaviors.
    KsbDecomposition,
    /// Research each KSB component.
    Research,
    /// Generate lesson content from research.
    ContentGeneration,
    /// Validate content quality via AI agents.
    QualityValidation,
    /// Format content into Academy JSON structure.
    AcademyFormatting,
    /// Validate the course.
    CourseValidation,
    /// Upload to the academy store.
    AcademyUpload,
    // --- Quality Pipeline ---
    /// Research-validate KSBs against library.
    KsbValidation,
    /// High-fidelity research with caching.
    HighQualityResearch,
    /// Generate individual lessons.
    LessonGeneration,
    /// Validate individual lessons.
    LessonValidation,
    /// Publish to Academy.
    AcademyPublishing,
    /// Update KSB library with new entries.
    KsbLibraryUpdate,
}

impl PipelineStage {
    /// Human-readable name of a stage.
    pub open spec fn name_text(self) -> Seq<char> {
        match self {
            PipelineStage::KsbDecomposition => "KSB Decomposition"@,
            PipelineStage::Research => "Research"@,
            PipelineStage::ContentGeneration => "Content Generation"@,
            PipelineStage::QualityValidation => "Quality Validation"@,
            PipelineStage::AcademyFormatting => "Academy Formatting"@,
            PipelineStage::CourseValidation => "Course Validation"@,
            PipelineStage::AcademyUpload => "Academy Upload"@,
            PipelineStage::KsbValidation => "KSB Validation"@,
            PipelineStage::HighQualityResearch => "High-Quality Research"@,
            PipelineStage::LessonGeneration => "Lesson Generation"@,
            PipelineStage::LessonValidation => "Lesson Validation"@,
            PipelineStage::AcademyPublishing => "Academy Publishing"@,
            PipelineStage::KsbLibraryUpdate => "KSB Library Update"@,
        }
    }

    /// Progress percentage window of a stage.
    pub open spec fn range_of(self) -> (u8, u8) {
        match self {
            PipelineStage::KsbDecomposition => (0, 20),
            PipelineStage::Research => (20, 40),
            PipelineStage::ContentGeneration => (40, 70),
            PipelineStage::QualityValidation => (70, 85),
            PipelineStage::AcademyFormatting => (85, 90),
            PipelineStage::CourseValidation => (85, 90),
            PipelineStage::AcademyUpload => (90, 100),
            PipelineStage::KsbValidation => (0, 15),
            PipelineStage::HighQualityResearch => (15, 40),
            PipelineStage::LessonGeneration => (40, 70),
            PipelineStage::LessonValidation => (70, 85),
            PipelineStage::AcademyPublishing => (85, 100),
            PipelineStage::KsbLibraryUpdate => (85, 100),
        }
    }

    /// Stages that run without an AI model: formatting, upload, publishing
    /// and the library update.
    pub open spec fn runs_without_ai(self) -> bool {
        match self {
            PipelineStage::AcademyFormatting => true,
            PipelineStage::AcademyUpload => true,
            PipelineStage::AcademyPublishing => true,
            PipelineStage::KsbLibraryUpdate => true,
            _ => false,
        }
    }

    /// Human-readable display name.
    pub fn display_name(&self) -> (r: &'static str)
        ensures
            r@ == self.name_text(),
    {
        match self {
            PipelineStage::KsbDecomposition => "KSB Decomposition",
            PipelineStage::Research => "Research",
            PipelineStage::ContentGeneration => "Content Generation",
            PipelineStage::QualityValidation => "Quality Validation",
            PipelineStage::AcademyFormatting => "Academy Formatting",
            PipelineStage::CourseValidation => "Course Validation",
            PipelineStage::AcademyUpload => "Academy Upload",
            PipelineStage::KsbValidation => "KSB Validation",
            PipelineStage::HighQualityResearch => "High-Quality Research",
            PipelineStage::LessonGeneration => "Lesson Generation",
            PipelineStage::LessonValidation => "Lesson Validation",
            PipelineStage::AcademyPublishing => "Academy Publishing",
            PipelineStage::KsbLibraryUpdate => "KSB Library Update",
        }
    }

    /// Progress percentage range [start, end] for this stage.
    pub fn progress_range(&self) -> (r: (u8, u8))
        ensures
            r == self.range_of(),
            r.0 < r.1 <= 100,
    {
        match self {
            PipelineStage::KsbDecomposition => (0, 20),
            PipelineStage::Research => (20, 40),
            PipelineStage::ContentGeneration => (40, 70),
            PipelineStage::QualityValidation => (70, 85),
            PipelineStage::AcademyFormatting => (85, 90),
            PipelineStage::CourseValidation => (85, 90),
            PipelineStage::AcademyUpload => (90, 100),
            PipelineStage::KsbValidation => (0, 15),
            PipelineStage::HighQualityResearch => (15, 40),
            PipelineStage::LessonGeneration => (40, 70),
            PipelineStage::LessonValidation => (70, 85),
            PipelineStage::AcademyPublishing => (85, 100),
            PipelineStage::KsbLibraryUpdate => (85, 100),
        }
    }

    /// Whether this stage requires AI model calls.
    pub fn requires_ai(&self) -> (r: bool)
        ensures
            r == !self.runs_without_ai(),
    {
        !matches!(
            self,
            PipelineStage::AcademyFormatting | PipelineStage::AcademyUpload
                | PipelineStage::AcademyPublishing | PipelineStage::KsbLibraryUpdate
        )
    }

    /// Legacy pipeline stages in order.
    pub const LEGACY: [PipelineStage; 7] = [
        PipelineStage::KsbDecomposition,
        PipelineStage::Research,
        PipelineStage::ContentGeneration,
        PipelineStage::QualityValidation,
        PipelineStage::AcademyFormatting,
        PipelineStage::CourseValidation,
        PipelineStage::AcademyUpload,
    ];

    /// Quality pipeline stages in order.
    pub const QUALITY: [PipelineStage; 6] = [
        PipelineStage::KsbValidation,
        PipelineStage::HighQualityResearch,
        PipelineStage::LessonGeneration,
        PipelineStage::LessonValidation,
        PipelineStage::AcademyPublishing,
        PipelineStage::KsbLibraryUpdate,
    ];
}

/// Each pipeline's stages advance progress: every stage of a pipeline starts
/// no earlier than the previous stage started, and the last stage ends at 100.
pub proof fn pipelines_advance_progress()
    ensures
        forall|i: int|
            0 < i < 7 ==> (#[trigger] PipelineStage::LEGACY[i]).range_of().0 >= PipelineStage::LEGACY[i
                - 1].range_of().0,
        forall|i: int|
            0 < i < 6 ==> (#[trigger] PipelineStage::QUALITY[i]).range_of().0
                >= PipelineStage::QUALITY[i - 1].range_of().0,
        PipelineStage::LEGACY[0].range_of().0 == 0,
        PipelineStage::QUALITY[0].range_of().0 == 0,
        PipelineStage::LEGACY[6].range_of().1 == 100,
        PipelineStage::QUALITY[5].range_of().1 == 100,
{
}

// ---------------------------------------------------------------------------
// AI model configuration
// ---------------------------------------------------------------------------

/// AI model configuration for a pipeline stage.
#[derive(Debug, Clone)]
pub struct AiModelConfig {
    /// Model identifier (e.g., "sonar-pro").
    pub model: String,
    /// Sampling temperature in hundredths (0–200, i.e. 0.0–2.0).
    pub temperature_hundredths: u32,
    /// Maximum output tokens.
    pub max_tokens: u32,
}

// ---------------------------------------------------------------------------
// Quality validation agents
// ---------------------------------------------------------------------------

/// Configuration for a quality validation agent.
#[derive(Debug, Clone)]
pub struct ValidationAgentConfig {
    /// Agent name (identifier).
    pub name: String,
    /// Human-readable description.
    pub description: String,
    /// Weight in the overall score, in percent (all agents sum to 100).
    pub weight_percent: u32,
    /// Minimum passing score for this agent (0–100).
    pub pass_threshold: u32,
}

/// The default agents: name, description and weight in percent.
pub open spec fn default_agent(k: int) -> (Seq<char>, Seq<char>, u32) {
    if k == 0 {
        ("content_quality"@, "Content Quality & Accuracy"@, 25)
    } else if k == 1 {
        ("pedagogical_soundness"@, "Pedagogical Design & Learning Effectiveness"@, 20)
    } else if k == 2 {
        ("accessibility"@, "Accessibility & Inclusive Design"@, 15)
    } else if k == 3 {
        ("technical_accuracy"@, "Technical Accuracy & Currency"@, 15)
    } else if k == 4 {
        ("engagement"@, "Learner Engagement & Motivation"@, 15)
    } else {
        ("assessment_quality"@, "Assessment Design & Alignment"@, 10)
    }
}

/// Sum of the agents' weights, in percent.
pub open spec fn weight_total(agents: Seq<ValidationAgentConfig>) -> nat
    decreases agents.len(),
{
    if agents.len() == 0 {
        0
    } else {
        weight_total(agents.drop_last()) + agents.last().weight_percent as nat
    }
}

fn agent(name: &str, description: &str, weight_percent: u32) -> (r: ValidationAgentConfig)
    ensures
        r.name@ == name@,
        r.description@ == description@,
        r.weight_percent == weight_percent,
        r.pass_threshold == 70,
{
    ValidationAgentConfig {
        name: String::from_str(name),
        description: String::from_str(description),
        weight_percent,
        pass_threshold: 70,
    }
}

/// Default quality validation agent configurations.
///
/// 6 agents with weights summing to 100 percent.
pub fn default_validation_agents() -> (r: Vec<ValidationAgentConfig>)
    ensures
        r@.len() == 6,
        forall|k: int|
            0 <= k < 6 ==> {
                &&& (#[trigger] r@[k]).name@ == default_agent(k).0
                &&& r@[k].description@ == default_agent(k).1
                &&& r@[k].weight_percent == default_agent(k).2
                &&& r@[k].pass_threshold == 70
            },
        weight_total(r@) == 100,
{
    let mut agents: Vec<ValidationAgentConfig> = Vec::new();
    agents.push(agent("content_quality", "Content Quality & Accuracy", 25));
    agents.push(
        agent("pedagogical_soundness", "Pedagogical Design & Learning Effectiveness", 20),
    );
    agents.push(agent("accessibility", "Accessibility & Inclusive Design", 15));
    agents.push(agent("technical_accuracy", "Technical Accuracy & Currency", 15));
    agents.push(agent("engagement", "Learner Engagement & Motivation", 15));
    agents.push(agent("assessment_quality", "Assessment Design & Alignment", 10));
    proof {
        let s = agents@;
        assert(s.drop_last().drop_last().drop_last().drop_last().drop_last().drop_last().len() == 0);
        assert(weight_total(s) == 100) by {
            reveal_with_fuel(weight_total, 7);
        }
    }
    agents
}

// ---------------------------------------------------------------------------
// Research cache configuration
// ---------------------------------------------------------------------------

/// Research cache configuration.
#[derive(Debug, Clone, Copy)]
pub struct CacheConfig {
    /// Whether caching is enabled.
    pub enabled: bool,
    /// Default TTL in days.
    pub ttl_days: u32,
    /// Extended TTL for popular topics.
    pub popular_ttl_days: u32,
    /// Request timeout in seconds.
    pub timeout_seconds: u32,
}

impl Default for CacheConfig {
    fn default() -> (r: Self)
        ensures
            r.enabled,
            r.ttl_days == 30,
            r.popular_ttl_days == 90,
            r.timeout_seconds == 300,
    {
        CacheConfig { enabled: true, ttl_days: 30, popular_ttl_days: 90, timeout_seconds: 300 }
    }
}

} // verus!
