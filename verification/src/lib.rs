//! Core library of a command-line client for git forges (GitHub, GitLab,
//! Gitea/Forgejo).
//!
//! The centrepiece is an interactive, paginated search-and-select engine:
//! a grapheme-aware search editor with history, a query parser for
//! `@key=value` filters, an item list with a highlighted selection, a
//! single-slot fetch scheduler that discards stale results, and the state
//! machine that ties them together.  Around it sit the pure parts of the
//! surrounding tool: git remote URL parsing, configuration scope
//! resolution, forge detection and URL building, and output formatting.
//!
//! Everything here is verified; the I/O shell (terminal, network, git
//! subprocesses) lives outside and drives these functions with plain
//! values.

pub mod browse;
pub mod cli;
pub mod config;
pub mod controller;
pub mod fetch;
pub mod forge;
pub mod git_url;
pub mod io;
pub mod issue;
pub mod list;
pub mod options;
pub mod pr;
pub mod search;
pub mod text;
pub mod web;
