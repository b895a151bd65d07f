//! The diagnostics core of a paste service for server logs.
//!
//! An uploaded text is stored, its kind is sniffed from its bytes
//! ([`paste::analyzer`]) and kept in a cache beside it ([`cache`]). For a
//! log, the first lines are extracted ([`lines`]), the detection rules that
//! apply to the server are run ([`rules`], [`script`]), and what they return
//! is resolved against the descriptions of the known problems, filled with
//! the rules' captures ([`template`]), filtered and put in order of severity
//! ([`report`], [`detections`]). Around this stand the decisions of the
//! service that need no transport to be made: who may call the API
//! ([`middleware`]), what becomes of an upload ([`upload`]) and what is sent
//! back ([`response`]).
//!
//! The functions state what they return over mathematical models of their
//! data, and the laws that relate them are proved beside them. The few calls
//! into other crates sit behind small trusted declarations, each documented
//! where it stands; what such a call returns is either named or left open,
//! and what is done with it is proved for every value of it.

pub mod cache;
pub mod configuration;
pub mod detections;
pub mod lines;
pub mod middleware;
pub mod paste;
pub mod report;
pub mod response;
pub mod rules;
pub mod script;
pub mod sequences;
pub mod template;
pub mod text;
pub mod upload;
