//! nexus — the text translator between nexus text and the signal
//! request/reply model.
pub mod text;
pub mod lexer;
pub mod model;
pub mod encode;
pub mod error;
pub mod renderer;
pub mod parser;
pub mod parse;
pub mod criome_link;
pub mod connection;
pub mod roundtrip;
pub mod archive;
pub mod entropy;
pub mod client_msg;
pub mod cli_msg;

pub use error::{Error, Result};
pub use parse::QueryParser;
pub use parser::Parser;
pub use renderer::Renderer;
