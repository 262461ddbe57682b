pub mod text;
pub mod error;
pub mod argument;
pub mod read;
pub mod env;
pub mod definition;
pub mod instance;
pub mod status;
pub mod shell;
pub mod log;
pub mod prompt;
