//! Authentication and authorization core: permissions, groups, users,
//! login sessions and a two-phase event engine over an in-memory relational
//! model whose invariants are proved.

pub mod seqs;
pub mod matcher;
pub mod password;
pub mod listing;
pub mod store;
pub mod tables;
pub mod permissions;
pub mod groups;
pub mod users;
pub mod sessions;
pub mod events;
pub mod engine;
pub mod bootstrap;
pub mod routes;
pub mod user_delete;
pub mod cli;
pub mod laws;
