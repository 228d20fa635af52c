//! Decision logic of a chat bot that archives videos: who may use it, which
//! links it takes, how a download runs from the first line of output to the
//! upload, and what the bot says at every point.
//!
//! Nothing here touches the chat service, the disk or another process. The
//! handling of a message is a machine: each step asks for one action and goes on
//! with the event that answers it (`protocol`, `handlers`, `pipeline`,
//! `bookkeeping`). The tables that it reads and changes are in `state`, and what
//! an action means for the message that is handled is in `requests`.
//!
//! What the functions give for whatever they are given is stated once more in
//! `operation_laws`. What holds of every run is proved apart: of texts in
//! `course_laws`, `url_laws`, `update_laws`, `record_laws` and `ending_laws`, of
//! commands in `command_course_laws` and `command_laws`, and of saves that run
//! side by side in `save_laws`.
pub mod bookkeeping;
pub mod clock;
pub mod command_course_laws;
pub mod command_laws;
pub mod config;
pub mod course_laws;
pub mod ending_laws;
pub mod handlers;
pub mod links;
pub mod media;
pub mod messages;
pub mod operation_laws;
pub mod pipeline;
pub mod progress;
pub mod protocol;
pub mod record_laws;
pub mod requests;
pub mod save_laws;
pub mod size;
pub mod state;
pub mod storage;
pub mod table;
pub mod text;
pub mod update_laws;
pub mod url_laws;
pub mod url_runs;
