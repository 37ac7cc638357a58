//! Verified core of the WARDEN-11 authorized patrol workbench.
pub mod case;
pub mod clock;
pub mod ext;
pub mod hashes;
pub mod models;
pub mod passwords;
pub mod report;
pub mod scope;
pub mod secrets;
pub mod text;
pub mod util;
pub mod web;
