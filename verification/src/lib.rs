pub mod text;
pub mod patterns;
pub mod checks;
pub mod json;
pub mod spec;
pub mod probe;
pub mod schema;
pub mod generate;
pub mod score;
pub mod loop_run;
pub mod report;
