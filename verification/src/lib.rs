//! A PDF rendering service core: a client submits a document specification
//! naming a template URL, asset URLs, template variables, an output filename
//! and a callback URL; the service fetches and expands the template, downloads
//! the assets into a scratch workspace, runs the typesetter, uploads the
//! result to an object store and reports the outcome to the callback URL.
//!
//! This crate holds the verified core: the decisions and computations of the
//! pipeline. The surrounding process (HTTP transport, filesystem, the
//! typesetter binary, the object store) is driven from outside through the
//! actions and events of [`pipeline`].

pub mod assets;
pub mod body;
pub mod bytes;
pub mod document;
pub mod errors;
pub mod escape;
pub mod expand;
pub mod fetch;
pub mod form;
pub mod pipeline;
pub mod routes;
