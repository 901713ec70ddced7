//! A library that turns a structured markdown test description into a test
//! document model, and renders that model as a DOCX file.
pub mod text;
pub mod types;
pub mod parser;
pub mod document;
pub mod template;
pub mod template_file;
pub mod markdown;
pub mod generator;
pub mod render;
