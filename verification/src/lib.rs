//! Templates for new projects, taken from GitHub repositories.
//!
//! A repository, or a directory of one, is named by a reference
//! ([`repository`]), asked about at GitHub ([`github_api`]), fetched into a
//! cache and stored under a name ([`store`]), from where it is copied to
//! wherever a project is to begin ([`scafalra`]). This library decides what is
//! asked, where things go and what is stored; whoever uses it sends what is
//! to be sent and moves the files.

pub mod cli;
pub mod config;
pub mod error;
pub mod github_api;
pub mod json;
pub mod path_ext;
pub mod repository;
pub mod repository_config;
pub mod scafalra;
pub mod similarity;
pub mod store;
pub mod sub_template;
pub mod template;
pub mod text;
pub mod utils;
