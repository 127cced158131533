//! Generation of per-target deployment manifests from a tree of application
//! definitions: the project processor and what it is made of, with proofs.
//!
//! - `sanitize`: names as identifiers of the target platform.
//! - `document`, `json`, `merge`: option documents and their layering.
//! - `app_project`, `entry_set`, `aggregate`: the access rights of a project
//!   and the manifests of its applications.
//! - `context`: the rendering context of an application on a target.
//! - `engine`, `filters`: the template engine and the two filters.
//! - `tree`, `hook`, `output`: what to do with the files of an application,
//!   its hook script, and the output file of a project.
//! - `processor`: the pass itself.
//! - `config`, `layout`, `error`, `keyed`, `text`: shapes, fixed names,
//!   errors and tools.

pub mod aggregate;
pub mod app_project;
pub mod config;
pub mod context;
pub mod document;
pub mod engine;
pub mod entry_set;
pub mod error;
pub mod filters;
pub mod hook;
pub mod json;
pub mod keyed;
pub mod layout;
pub mod merge;
pub mod output;
pub mod processor;
pub mod sanitize;
pub mod text;
pub mod tree;
