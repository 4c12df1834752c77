pub mod adapter;
pub mod aggregate;
pub mod analyzer;
pub mod laws;
pub mod output;
pub mod paths;
pub mod text;

pub use adapter::FnSpan;
pub use aggregate::{AnalysisError, AnalysisResult, SourceFile, Summary, analyze_files, summarize};
pub use analyzer::{FunctionRecord, calculate_complexity};
pub use output::{OutputFormat, parse_output_format};
pub use paths::is_eligible_path;
pub use text::{contains_substr, str_eq};
