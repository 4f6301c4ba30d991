//! The concrete configuration sources.
pub mod ai_builtin;
pub mod ai_env;
pub mod ai_file;

pub use ai_builtin::AiBuiltinSource;
pub use ai_env::AiEnvSource;
pub use ai_file::AiFileSource;
pub mod defaults;
pub mod markdown;
pub mod yaml;

pub use defaults::DefaultsSource;
pub use markdown::MarkdownSource;
pub use yaml::YamlSource;
