# bombadil

Property-based testing of user interfaces, with the logic verified by Verus.

A test drives a browser page or a terminal program through random actions.
Properties written in a linear temporal logic (`always`, `eventually`, `next`,
with optional time bounds) are evaluated state by state, and violations are
reported with the snapshots that led to them.

## Layout

- `src/` is the verified library:
  - `eval.rs`, `formula.rs`, `state.rs`, `time.rs`: the temporal logic, its
    evaluator and residuals, with the evaluator specified by `eval_spec` and
    `step_spec`; `ltl_laws.rs` proves laws of the logic (the meaning of
    `next`, `always` and `eventually`, distributivity of `next` over `or`,
    bounded residuals, which snapshots make a formula true).
  - `properties.rs`: stepping the properties of a specification, and what
    a step gives; `exports.rs`: which exports of a specification are
    properties and which are action generators.
  - `tree.rs`: weighted action trees (mapping, filtering, pruning, picking,
    breadth-first values).
  - `browser_machine.rs`: the state machine that drives a browser page
    through navigation, quiescence, state capture and actions.
  - `quiescence.rs`, `activity.rs`: when a page has gone quiet.
  - `strategy.rs`, `terminal.rs`: when a test stops, which action comes
    next, what an action does to a terminal.
  - `text.rs`: white space, and trimming it.
  - `interception.rs`: what becomes of a response paused for coverage
    instrumentation, and which of its headers are passed on.
  - `duration.rs`, `options.rs`, `location.rs`, `module_key.rs`,
    `exception.rs`, `page.rs` (with the navigation history and where going
    back or forward leads), `schema.rs`, `small_string.rs`,
    `terminal_grid.rs`: command-line options, URLs, module sources,
    exception messages and the data that states are made of.
- `tests/`: tests of the library.
- `app/`: the command line, and the floating-point action logic.
