//! Annotates filesystem paths with version-control state: the checked-out
//! branch of a git repository, or the bookmarks along the first-parent
//! ancestry of a jujutsu working copy.
//!
//! The library holds the decisions; reading the filesystem and the
//! repositories is done by the caller, which hands the observations in.

pub mod ancestry;
pub mod jj_config;
pub mod line;
pub mod stream;
pub mod template;
pub mod text;
