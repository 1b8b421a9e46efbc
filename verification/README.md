# nightloop

A parent/child GitHub issue runner. A parent issue is an ordered campaign of
child issues; `start` runs the first runnable child, `nightly` packs as many
runnable children as fit in a 2–6 hour window and publishes one stacked draft
pull request per successful child.

## Layout

- `src/` is the verified library. It holds the issue parsers, the lint and
  eligibility rules, the estimator, the budget packing, the campaign planner
  and run state, the diff budget, the report and prompt rendering, the
  command line parser, and the `gh`/`git` command builders together with the
  readers of their output. Every function carries a contract that Verus
  proves; the public proof functions state the laws that hold across calls
  (budget packing, parent order, dependencies met by earlier children,
  the plan's laws kept by the campaign it becomes, the diff budget checked
  before anything is published, stacked publication, report escaping and
  its round trip, the round trips of the size band and estimation basis
  names, bundle size limits, and an ASCII excerpt keeping one character
  per byte). The order of git commands (switch before deleting a checked
  out branch, stage before committing) and of branch preparation is also
  decided there.
- `app/` is the program around it: it reads configuration and history
  files, runs `gh`, `git` and the agent commands, applies the floating-point
  weights of the estimator, and prints the reports.
- `tests/` runs the library on concrete inputs.
