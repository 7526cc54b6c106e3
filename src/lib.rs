//! Bulk renaming of a field in JSON-lines objects of an object store.
//!
//! - `pointer`: field references, flat names or slash-delimited pointers.
//! - `record`: renaming the addressed field of one JSON record.
//! - `rewrite`: rewriting one object's records and deciding what to do with it.
//! - `dispatch`: walking the listing and running one task per key under a bound.
//! - `location`: the bucket and prefix that an `s3://` URL names.
//! - `json`: the JSON values, as serde_json gives them.
pub mod dispatch;
pub mod json;
pub mod location;
pub mod pointer;
pub mod record;
pub mod rewrite;
