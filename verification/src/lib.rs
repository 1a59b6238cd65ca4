//! Parser and validator for BCP-47 / RFC 5646 language tags.
//!
//! A tag such as `en-US-u-co-phonebk-x-private` is decomposed into its typed
//! subtag groups (language, extended language, script, region, variants,
//! extensions, private use), each recognized subtag is resolved against a
//! terminology lookup collaborator, and the outcome is assembled into a
//! concept with a property list, a display string, and a sorted,
//! duplicate-free list of severity-tagged diagnostics.

pub mod model;
pub mod text;
pub mod grammar;
pub mod tag;
pub mod parser;
pub mod details;
pub mod concept;
pub mod terminology;
pub mod engine;
pub mod laws;
pub mod codesystem;

pub use codesystem::CODE_SYSTEM;
pub use engine::Guest;
pub use model::Coding;
pub use model::Concept;
pub use model::ParseDetail;
pub use model::ParseRequest;
pub use model::ParseResponse;
pub use model::LookupRequest;
pub use model::LookupResponse;
pub use model::Property;
pub use model::Severity;
pub use model::SubsumesRequest;
pub use model::SubsumesResponse;
pub use model::ValueX;
pub use tag::Extension;
pub use tag::LanguageTag;
pub use terminology::HostReal;
pub use terminology::TerminologyDb;
pub use terminology::TerminologyEngine;
pub use terminology::WithDb;
