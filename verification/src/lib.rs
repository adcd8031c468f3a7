//! Verified core of a multi-agent terminal client: side questions, agent
//! transcripts, agent teams and the buffering of reasoning summaries.

pub mod text;
pub mod thread_id;
pub mod line;
pub mod agent;
pub mod picker;
pub mod multi_agents;
pub mod transcript_laws;
pub mod reasoning_summary_translation;
pub mod btw;
pub mod btw_run;
pub mod team;
pub mod spawn_team;
pub mod spawn_team_run;
pub mod spawn_team_history;
pub mod team_message;
pub mod team_message_run;
