//! Project scaffolding and run planning for NockApp projects: the template
//! context, the commit a new project pins, which binary `cargo run` starts,
//! and how a REPL line is read.
pub mod text;
pub mod toml_doc;
pub mod run;
pub mod context;
pub mod init;
pub mod repl;
pub mod template_check;
