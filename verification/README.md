# academy_engine

A verified engine for competency-based course generation: KSB (Knowledge,
Skills, Behaviors) frameworks, title similarity, content quality findings,
course formatting and course validation.

- `src/` is the library, verified with Verus. Each public function states
  what it returns in its contract; the proof functions state the laws the
  library keeps (similarity is a symmetric longest-common-subsequence ratio
  in [0, 1], ratings never drop as scores rise, formatted courses keep the
  ordering and duration rules that validation checks, and so on).
- `app/` holds what Verus does not take: the serde forms of the types, and
  the floating-point scores (similarity ratio, average credibility,
  weighted quality score, agent weights and model temperatures).
- `tests/` exercises the library on concrete inputs.
- Of the model presets, only the research preset (`sonar-pro`) is
  provided; the two presets for general content generation and validation
  are not part of this library.
