pub mod grammar;
pub mod laws;
pub mod parser;
pub mod translator;
pub mod types;
