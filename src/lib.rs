//! Validation and generation of Swiss social-insurance numbers (NAVS13).
//!
//! A NAVS13 is thirteen decimal digits: the country code 756, nine free
//! digits, and an EAN-13 check digit over the first twelve.

pub mod checksum;
pub mod generate;
pub mod laws;
pub mod nav13;

pub use checksum::ean13_check;
pub use generate::create_fake_swiss_navs13;
pub use nav13::{Nav13, ParseNav13Error};
