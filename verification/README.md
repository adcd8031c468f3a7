# agent_collab

What a terminal client needs to let agents work together, as a verified library:

- `multi_agents`, `picker`, `agent`, `line`: what the transcript and the agent
  picker show of agents, their statuses and their events.
- `btw`, `btw_run`: side questions (`/btw`), the answer read off a turn, the cell
  that shows it, and the course from the fork of the thread to its release.
- `team`, `spawn_team`, `spawn_team_run`: spawning an agent team, and what holds
  of every run.
- `team_message`, `team_message_run`: messages between teammates.
- `reasoning_summary_translation`: collecting reasoning summaries by section.
- `text`, `thread_id`: the texts and identifiers that all of these share.

`src/` holds the logic with its contracts and laws, checked by Verus. Where the
course of a call alternates between decisions and the outside world, the library
is a state machine: it says what to do next and is told how it went.

`app/` connects the library to `ratatui`, `tokio`, `serde` and the services of the
session. `tests/` runs the library on concrete values.
