//! The decisions of a desktop shell for remote access servers: the list of
//! servers and their probes, device pairing, and file transfers.
//!
//! The library performs no I/O. It takes what was read, received or answered
//! as plain values, and says what follows; what a contract of this crate
//! claims is proved, but for the functions of [`web`] that call into other
//! crates or the standard library, and for `String::push`.

pub mod address;
pub mod allowlist;
pub mod allowlist_laws;
pub mod commands;
pub mod downloads;
pub mod drive;
pub mod drive_laws;
pub mod drops;
pub mod http;
pub mod instances;
pub mod merge_laws;
pub mod name_laws;
pub mod pairing;
pub mod pairing_commands;
pub mod pairing_laws;
pub mod plan;
pub mod probe;
pub mod probe_laws;
pub mod provisioning;
pub mod seqs;
pub mod store_laws;
pub mod text;
pub mod text_laws;
pub mod textmap;
pub mod tokens;
pub mod transfer;
pub mod transfer_laws;
pub mod uploads;
pub mod view_laws;
pub mod web;
