//! Identity resolution and credential distribution for disposable
//! development workspaces.

pub mod cli;
pub mod cli_reset;
pub mod clone;
pub mod create;
pub mod credentials;
pub mod discovery;
pub mod dispatch;
pub mod lookup;
pub mod names;
pub mod orchestrate;
pub mod repo;
pub mod reset;
pub mod text;
