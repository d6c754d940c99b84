//! Release-management operations for changeset-driven projects: planning
//! version bumps from changesets, validating release configuration, managing
//! pre-release and graduation state, and the steps of a release.
#![allow(unused_imports)]

pub mod text;

pub mod version;
pub mod error;
pub mod model;
pub mod name_map;
pub mod release_state;
pub mod validator;
pub mod none_bump;
pub mod planner;
pub mod paths;
pub mod config;
pub mod git;
pub mod graph;
pub mod changelog;
pub mod traits;
pub mod manage;
pub mod verification;
pub mod verify;
pub mod status;
pub mod release_types;
pub mod saga;
pub mod versioning;
pub mod changelog_plan;
pub mod release;
pub mod add;
pub mod additional_packages;
pub mod init;
