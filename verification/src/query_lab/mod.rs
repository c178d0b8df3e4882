pub mod analysis;
pub mod ast;
pub mod plan;
pub mod report;
pub mod runtime;
pub mod scenarios;
