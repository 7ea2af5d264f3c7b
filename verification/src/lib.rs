//! Verified core of the item-storage manager: the rules by which the local
//! item database is kept in step with its copy on GitHub, the formats it reads
//! and writes, and the decisions taken around them.

pub mod config;
pub mod github;
pub mod json;
pub mod monitor;
pub mod scanner;
pub mod sync;
pub mod text;
pub mod version;
