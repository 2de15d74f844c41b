//! Random password generation with per-category minimum-count constraints
//! and character exclusion.
//!
//! A [`PwdGen`] is built by validating a requested length against a
//! [`PwdGenOptions`] value; once built, it can produce any number of
//! passwords, each of exactly the requested length, meeting every
//! per-category minimum and avoiding every excluded character.

pub mod charset;
pub mod counting;
pub mod error;
pub mod generator;
pub mod random;
pub mod util;

pub use error::{Category, Error};
pub use generator::{gen, CharacterSet, PwdGen, PwdGenOptions, MIN_LENGTH};
