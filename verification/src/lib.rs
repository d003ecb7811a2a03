//! Resolution of the installed applications that can open a URL, and synthesis
//! of the command line that launches the chosen one.

pub mod cli;
pub mod error;
pub mod entry;
pub mod exec;
pub mod handler;
pub mod label;
pub mod locale;
pub mod seqs;
pub mod store;
pub mod text;

pub use error::Error;
pub use handler::UrlHandlerApp;
