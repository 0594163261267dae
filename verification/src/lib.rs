//! Verification of Telegram Mini App `initData` payloads.
//!
//! The crate reconstructs the canonical check string that Telegram signed,
//! derives the bot-specific secret key, compares the received signature
//! against the computed HMAC-SHA256 digest under several historically used
//! encodings, and extracts the authenticated user identity.
//!
//! All payloads are handled as byte strings: the check string is hashed as
//! bytes, and percent-decoded values may hold arbitrary UTF-8.

pub mod b64code;
pub mod bytestr;
pub mod canon;
pub mod decision;
pub mod errors;
pub mod fields;
pub mod hexcode;
pub mod identity;
pub mod mac;
pub mod models;
pub mod names;
pub mod parser;
pub mod resolver;
pub mod signer;
pub mod urlcode;
