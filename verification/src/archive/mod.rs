//! Application packages: what is taken out of their archives.
pub mod bundle;
pub mod choice_laws;
pub mod extraction_laws;
pub mod natives;
pub mod select;
pub mod zip_file;
