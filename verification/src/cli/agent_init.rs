//! `bmo agent-init`: what an agent is shown at the start of a session.

use vstd::prelude::*;

verus! {

/// The arguments of `bmo agent-init`: none.
#[derive(Debug)]
pub struct AgentInitArgs {}

/// The commands an agent uses, with the tags of its comments.
pub const CHEAT_SHEET: &'static str = r#"## BMO Quick Reference

### Claiming & Working Issues
  bmo issue claim BMO-N [--assignee <name>]  # atomically claim a ticket (exits 4 if already claimed)
  bmo issue show  BMO-N --json               # full details + comments
  bmo issue file conflicts BMO-N --json      # check for file overlaps with other in-progress work
  bmo issue comment add BMO-N --body "..."   # record findings, decisions, handoffs
  bmo issue move  BMO-N --status review      # advance status
  bmo issue close BMO-N                      # mark done

### Planning & Discovery
  bmo agent-init --json                      # refresh board state (run once per session)
  bmo next --json                            # work-ready issues (no unresolved blockers)
  bmo plan --phase 1 --json                  # all issues in phase 1 (iterate phases 1..N)
  bmo board --json                           # full kanban overview

### JSON Parsing
  bmo next --json | jq '.data[] | {id: .id, title: .title}'
  bmo issue comment list BMO-N --json | jq '.data[] | select(.body | startswith("HANDOFF:")) | .body'

### Comment Tags (prefix every agent comment with the appropriate tag)
  BLOCKER:    — work cannot proceed without resolution (any agent)
  CONCERN:    — should be addressed, not a hard stop (staff-engineer, ux-designer)
  SUGGESTION: — optional improvement (staff-engineer)
  APPROVED:   — review complete, change accepted (staff-engineer)
  BUG:        — defect found with reproduction steps (qa-engineer)
  VERIFIED:   — acceptance criteria confirmed passing (qa-engineer)
  FINDING:    — information discovered during implementation (senior-engineer)
  DECISION:   — approach chosen and rationale (senior-engineer)
  HANDOFF:    — work complete, context for the next agent (any agent)"#;

} // verus!
