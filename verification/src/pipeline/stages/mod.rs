//! The stages of the commit pipeline, in the order they run.
pub mod ai;
pub mod commit;
pub mod diff;
pub mod enrich;
pub mod parse;
pub mod push;

pub use ai::AiGenerator;
pub use commit::CommitExecutor;
pub use diff::DiffCollector;
pub use enrich::ContextEnricher;
pub use parse::EntryParser;
pub use push::GitPusher;
