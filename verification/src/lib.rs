//! Reconciliation of a declared set of teams and repositories against the
//! state observed on a code-hosting provider.

pub mod api;
pub mod apply;
pub mod declared;
pub mod diff;
pub mod engine;
pub mod laws;
pub mod listmap;
pub mod permissions;
pub mod protection;
pub mod render;
pub mod repos;
pub mod settle;
pub mod settle_teams;
pub mod teams;
pub mod text;
pub mod write;
