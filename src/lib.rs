//! Scans Terraform-style configuration text line by line, collects the
//! documentation fragments it holds (resource names, input and output
//! variables with their descriptions, and the title comment block), and
//! renders them as Markdown.

pub mod laws;
pub mod parser;
pub mod printer;
pub mod text;
pub mod types;
