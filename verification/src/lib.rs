//! Core logic of a chat client for a streaming LLM completion backend:
//! transcript compaction into alternating author turns, a progress channel
//! for background-task results, demultiplexing of thought/answer streams,
//! retry/regenerate editing of history, error normalization, and export.

pub mod backend;
pub mod channel;
pub mod chat;
pub mod compact;
pub mod demux;
pub mod errnorm;
pub mod export;
pub mod import;
pub mod media;
pub mod msg;
pub mod numfmt;
pub mod sessions;
pub mod stream;
pub mod textutil;
