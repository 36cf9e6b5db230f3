//! Detection engine of a commit-time secret scanner: signature patterns,
//! mnemonic-phrase confirmation, entropy candidates and path exclusion.
pub mod text;
pub mod path;
pub mod external;
pub mod config;
pub mod vocabulary;
pub mod entropy;
pub mod scanner;
pub mod laws;
pub mod git;
pub mod report;
