pub mod config;
pub mod decimal;
pub mod duration;
pub mod environment;

pub use config::EnvConfig;
pub use duration::Duration;
pub use environment::Environment;
