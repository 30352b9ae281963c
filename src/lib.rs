pub mod ast;
pub mod builder_java;
pub mod counts;
pub mod cs_source;
pub mod fidelity;
pub mod generator_java;
pub mod laws;
pub mod layout;
pub mod parser_cs;
pub mod syntax;
pub mod text;
