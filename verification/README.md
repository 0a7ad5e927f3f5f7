# dack

An event-driven agent harness: an agent sleeps until a stimulus wakes it, thinks in one of four
bounded states, acts within guardrails, and sleeps again. This crate is the dumb, deterministic
part around the model, written in Verus: every rule it enforces is stated in a contract and
proved.

## Layout

- `src/` is the verified library.
  - `state`, `state_prompt`, `agent_def`, `stimuli`, `config`: the documents that an operator and an
    agent write, and what they mean.
  - `model`: stimuli, batons, what an agent answers, run log entries.
  - `bus`, `queue`, `rows`, `sensor`, `sources`, `webserver`: from a trigger to a row of the queue.
  - `runtime`: the bridge to the engine, and the wall that decides on every tool call.
  - `harness`: one cycle, from the trust it starts with to the states it may reach.
  - `identity`, `secrets`, `sandbox`, `repo`, `runlog`: the plumbing.
  - `text`, `json`, `decode`, `strmap`, `paths`, `error`: the ground.
- `app/` is the daemon around it: files, processes, sockets, SQLite and the command line.
- `tests/` runs the library.

## What is proved

The laws stand beside the functions they speak of, as public proof functions. Among them: a
step never opens above the trust that its branch holds, and trust only falls, also where one thing
folds into another; the raw payload never crosses into a state that acts, nor into the tail of the
run log; no state runs a shell or writes the run log; an operator's instruction counts only with
the operator's signature; a full queue sheds nothing but low rows; a row with a plain payload (no
fractions, nested to at most a hundred levels) reads back as it was stored, and what is folded
together out of such payloads is one.

What the library takes on trust from other crates stands behind items marked
`#[verifier::external_body]`, each with a comment that says what is claimed.
