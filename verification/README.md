# selection_comments

Selection comments let a user attach a comment to a selection in an editor and
queue it, together with a quote of the selected lines, into an agent thread.
This crate holds the logic of that feature, verified with Verus, together
with the migration of the `agent.expand_terminal_card` setting from a boolean
to a display mode and the plan of the Wezel binary-size CI workflow.

## Layout

- `src/editor.rs`: the markers of an editor as a state machine. Every
  operation (show, attach, confirm, cancel, delete, edit, refresh, clear,
  render) is a function from the current markers and what the host observed
  (focus, input text, resolved ranges) to the next markers and what the host
  has to do (resize or remove a block, where the focus goes, run the callback).
  Markers keep distinct ids and every queued comment is non-empty and trimmed.
- `src/ranges.rs`: points and ranges, the expansion of an empty selection to
  its whole line, and the quotable range of a selection.
- `src/text.rs`: trimming, line counting and decimal notation over characters.
- `src/thread_queue.rs`: when the comment action shows an input, and the
  prose that follows a queued selection.
- `src/settings_migration.rs`: a model of a settings object, and the
  migration of `agent.expand_terminal_card` from a boolean to a display mode:
  which key path it reads, what it writes there, and when it refuses.
- `src/wezel.rs`: the Wezel workflow as plain values: its inputs, access,
  concurrency group, and each job's runner, timeout, condition, environment
  and steps.
- `src/laws.rs`: properties that span several operations, proved.
- `app/`: the host side. It drives the state machine through an editor host
  trait, converts settings JSON to the settings model and makes the decided
  write with `serde_json`, and turns the workflow plan into `gh-workflow` types.
- `tests/`: tests on concrete values.
