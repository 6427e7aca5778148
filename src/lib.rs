//! A verified binding layer over an embedded key-value storage engine.
//!
//! The library holds the decisions that sit around every native call: the
//! error channel, the open protocol with its time-to-live configuration, the
//! column-family registry, and the preparation of ingestion and option
//! requests. The native calls themselves are made by the program around it,
//! which hands plain values in and takes plain values back.

pub mod column_family;
pub mod db_with_ttl;
pub mod error;
pub mod ffi_util;
pub mod ingest_external_file;
pub mod name_order;
pub mod open;
pub mod options;

pub use crate::column_family::{ColumnFamilies, ColumnFamily};
pub use crate::db_with_ttl::{DBWithTTL, TTLOpenDescriptor, TTLs, TtlOpen};
pub use crate::error::Error;
pub use crate::ingest_external_file::{IngestExternalFile, IngestExternalFileCF};
