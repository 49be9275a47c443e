//! Worklist and reporting logic for a radiology front-end that talks to a
//! DICOMweb archive: study filtering, query construction, relative date
//! ranges, response classification and structured-report composition.

pub mod dates;
pub mod filter;
pub mod query;
pub mod report;
pub mod session;
pub mod study;
pub mod text;
