//! Pre-configured AI model settings.
use vstd::prelude::*;

use super::AiModelConfig;

verus! {

/// Perplexity Sonar Pro for research.
pub fn perplexity_sonar() -> (r: AiModelConfig)
    ensures
        r.model@ == "sonar-pro"@,
        r.temperature_hundredths == 70,
        r.max_tokens == 4000,
{
    AiModelConfig {
        model: String::from_str("sonar-pro"),
        temperature_hundredths: 70,
        max_tokens: 4000,
    }
}

} // verus!
