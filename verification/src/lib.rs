pub mod channel;
pub mod config;
pub mod deleter;
pub mod errors;
pub mod paths;
pub mod progress;
pub mod pipeline;
pub mod queue;
pub mod removal;
pub mod results;
pub mod scanner;
