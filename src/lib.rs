//! A reader for IP2Location binary databases: header, range tables, index tables and records.
pub mod bytes;
pub mod database;
pub mod layout;
pub mod record;

pub use database::IP2Location;
pub use record::{DbError, IP2LocationRecord, IpAddress};
