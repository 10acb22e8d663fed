# tesela

An ontology runtime library: object, link and action vocabulary, policy and
audit, record stores and versioning, lineage, transform pipelines, agent
loops with context compaction, upload mapping and evaluation suites.

- `src/` is the library, verified with Verus. Each public function states
  its result in `ensures`; laws that relate several functions are public
  `proof fn lemma_*` items next to them. Calls into outside crates
  (`serde_json`, `jsonschema`, `chrono`, `uuid`, `getrandom`, `base64`) go through small
  trusted wrappers whose doc comments say what is assumed of them.
- Work that waits on the outside world is modelled as state machines:
  `pipeline_run::PipelineRun` and `agent_loop::AgentLoop` say which outside
  step comes next and take its outcome back.
- `app/` is plain Rust around the library: serde and JSON-schema forms of
  tool inputs, the drivers that perform the steps the state machines ask
  for, lock-guarded shared stores, event buses over channels, environment
  secrets, and the floating-point parts of evaluation and truthiness.
- `tests/` exercises the library through its public API.
