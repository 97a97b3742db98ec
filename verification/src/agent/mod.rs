//! Agent-side bookkeeping: session records and transcripts, compaction phases,
//! turn diagnostics and the tool router's text handling.

pub mod session_record;
pub mod tool_router;
pub mod session_transcript;
pub mod state;
pub mod query_engine;
pub mod compaction_pipeline;
