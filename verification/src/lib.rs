//! Index cache and consistency rules of a package repository server.
//!
//! The server hosts package repositories kept in one version-controlled
//! workspace. This library holds the rules of that server as functions on
//! plain values: how a repository snapshot is built from parsed descriptors,
//! how the binary package index is laid out, how snapshots are published and
//! looked up, which version-control commands an operation runs, and which
//! answer each request gets.

pub mod catalog;
pub mod clock;
pub mod config;
pub mod git;
pub mod graphql;
pub mod indexing;
pub mod legacy;
pub mod mutation;
pub mod openapi;
pub mod package;
pub mod state;
pub mod text;
pub mod toml;
