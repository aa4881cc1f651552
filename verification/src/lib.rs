//! A Prometheus range query as a virtual table.
//!
//! A scan names one metric and a time window through column filters. The
//! library turns the filters into the URL of a `query_range` request, decodes
//! the JSON answer into rows, and hands the rows out one by one. Sending the
//! request is left to the caller: the scan takes what came of it as a value.

pub mod text;
pub mod percent;
pub mod numeral;
pub mod json;
pub mod interface;
pub mod options;
pub mod translate;
pub mod decode;
pub mod fdw;
