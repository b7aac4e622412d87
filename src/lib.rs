//! Audits which URL path templates of an API description are referenced,
//! as quoted string literals, in a body of source text.
//!
//! - `doc`: the parsed description as a tree of values, with lookups.
//! - `pattern`: path templates compiled to patterns; reference splitting.
//! - `coverage`: which patterns some source line matches.
//! - `metadata`: tags and parameter summaries of the matched paths.
//! - `report`: the tab-separated report, in a fixed order.
pub mod coverage;
pub mod doc;
pub mod metadata;
pub mod pattern;
pub mod report;
