pub mod cmd;
pub mod config;
pub mod git;
pub mod print;
