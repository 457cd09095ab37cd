use academy_engine::stage::models::perplexity_sonar;
use academy_engine::stage::{default_validation_agents, CacheConfig, PipelineStage};

#[test]
fn stage_display_names() {
    assert_eq!(PipelineStage::KsbDecomposition.display_name(), "KSB Decomposition");
    assert_eq!(PipelineStage::AcademyUpload.display_name(), "Academy Upload");
}

#[test]
fn stage_progress_ranges() {
    let (start, end) = PipelineStage::Research.progress_range();
    assert_eq!(start, 20);
    assert_eq!(end, 40);
}

#[test]
fn formatting_does_not_require_ai() {
    assert!(!PipelineStage::AcademyFormatting.requires_ai());
    assert!(PipelineStage::ContentGeneration.requires_ai());
}

#[test]
fn validation_agent_weights_sum_to_one() {
    let agents = default_validation_agents();
    let total: f32 = agents.iter().map(|a| a.weight_percent as f32 / 100.0).sum();
    assert!((total - 1.0).abs() < 0.001);
}

#[test]
fn every_stage_range_is_within_progress() {
    for stage in PipelineStage::LEGACY.iter().chain(PipelineStage::QUALITY.iter()) {
        let (start, end) = stage.progress_range();
        assert!(start < end && end <= 100);
    }
    assert_eq!(PipelineStage::KsbLibraryUpdate.progress_range(), (85, 100));
    assert_eq!(PipelineStage::HighQualityResearch.display_name(), "High-Quality Research");
}

#[test]
fn ai_free_stages() {
    let without: Vec<PipelineStage> = PipelineStage::LEGACY
        .iter()
        .chain(PipelineStage::QUALITY.iter())
        .copied()
        .filter(|s| !s.requires_ai())
        .collect();
    assert_eq!(
        without,
        vec![
            PipelineStage::AcademyFormatting,
            PipelineStage::AcademyUpload,
            PipelineStage::AcademyPublishing,
            PipelineStage::KsbLibraryUpdate,
        ]
    );
}

#[test]
fn default_agents_and_models() {
    let agents = default_validation_agents();
    assert_eq!(agents.len(), 6);
    assert_eq!(agents[0].name, "content_quality");
    assert_eq!(agents[5].description, "Assessment Design & Alignment");
    assert_eq!(agents.iter().map(|a| a.weight_percent).sum::<u32>(), 100);
    assert!(agents.iter().all(|a| a.pass_threshold == 70));
    let m = perplexity_sonar();
    assert_eq!(m.model, "sonar-pro");
    assert_eq!(m.temperature_hundredths, 70);
    assert_eq!(m.max_tokens, 4000);
    let c = CacheConfig::default();
    assert!(c.enabled);
    assert_eq!((c.ttl_days, c.popular_ttl_days, c.timeout_seconds), (30, 90, 300));
}

#[test]
fn pipelines_start_at_zero_and_end_at_hundred() {
    for pipeline in [&PipelineStage::LEGACY[..], &PipelineStage::QUALITY[..]] {
        assert_eq!(pipeline[0].progress_range().0, 0);
        assert_eq!(pipeline[pipeline.len() - 1].progress_range().1, 100);
        for pair in pipeline.windows(2) {
            assert!(pair[0].progress_range().0 <= pair[1].progress_range().0);
        }
    }
}
