//! Verified core of a multi-user file-sharing backend: authentication
//! (password and public-key challenge), session issuance and validation,
//! failure throttling, and a content-addressed file store with
//! transactional metadata discipline.

pub mod account;
pub mod assoc;
pub mod challenge;
pub mod config;
pub mod decimal;
pub mod error;
pub mod filedb;
pub mod filestore;
pub mod hexfmt;
pub mod keys;
pub mod passhash;
pub mod password;
pub mod rng;
pub mod session;
pub mod text;
pub mod throttle;
pub mod ticket;
pub mod token;
pub mod user;
