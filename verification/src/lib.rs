//! Administrative backend core for tracking medicinal inventory.
//!
//! The library holds the verified logic of the system: tolerant
//! spreadsheet/CSV ingestion (header detection and per-row validation),
//! the in-memory inventory store with its duplicate-prevention invariant,
//! the expiry scanner with its two urgency bands and re-notify cooldown,
//! and the notification dispatcher.  I/O (web routing, file transfer,
//! the actual SMS transport) stays outside, handing the library plain
//! values and taking plain values back.

pub mod admin;
pub mod arg;
pub mod cache;
pub mod config;
pub mod dates;
pub mod error;
pub mod excel;
pub mod form;
pub mod hcaptcha;
pub mod helper;
pub mod ingest;
pub mod model;
pub mod pagination;
pub mod password;
pub mod session;
pub mod sms;
pub mod store;
pub mod strings;

pub use dates::Date;
