pub mod error;
pub mod project;
pub mod tag;
pub mod task;
pub mod text;
pub mod command;
pub mod cli;
pub mod query_lab;
pub mod repository;
pub mod service;
pub mod repl;
pub mod output;
