//! Decisions of a desktop assistant's process layer: the assistant's line-delimited
//! event stream, the arguments and tool configuration of an assistant turn, the
//! registry of running shell jobs and services, and the order of a directory listing.

pub mod jobs;
pub mod json;
pub mod listing;
pub mod registry;
pub mod stream;
pub mod text;
pub mod turn;

pub use jobs::{ProcessError, ProcessRegistry, ServiceOutput, ShellOutput};
pub use listing::DirEntry;
pub use stream::{ClaudeResponse, ClaudeResult};
pub use turn::IntegrationConfig;
