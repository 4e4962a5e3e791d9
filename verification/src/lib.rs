//! Package lifecycle tracking: who maintains which package, which status
//! marks a package carries, and how a finished build unblocks its dependents.

pub mod assignments;
pub mod engine;
pub mod frames;
pub mod laws;
pub mod marks;
pub mod model;
pub mod notices;
pub mod packagers;
pub mod packages;
pub mod relations;
pub mod routes;
pub mod seqs;
pub mod store;
pub mod text;
pub mod tg;
pub mod vocab;
