//! Builds vCard 4.0 contact records line by line, with verified contracts on
//! the order of the lines, the suppression of empty optional fields and the
//! escaping of multi-line text.

pub mod cli;
pub mod contact;
pub mod lines;
pub mod vcard;

pub use vcard::VCard;
