//! Parsing for a home energy meter's plain-text "P1" telegrams and the
//! text formats around them.
//!
//! The heart of the crate is [`telegram`], which recognizes five
//! fixed-format data lines in a telegram and assembles them, in a strict
//! order, into one validated reading.  [`extract`] holds the literal
//! prefix/suffix matcher those lines are recognized with, [`decimal`] the
//! exact decimal model used for energy counters, and [`timestamp`] the
//! two-digit-year calendar reconstruction.
//!
//! Around the core sit [`readings`], the validation of manually submitted
//! meter readings, [`data_rows`], the parsing of the storage layer's
//! row-oriented text, [`lease`], the hostname lookup in a DHCP lease
//! table, and the shared [`text`] and [`ints`] utilities.

pub mod data_rows;
pub mod decimal;
pub mod extract;
pub mod ints;
pub mod lease;
pub mod readings;
pub mod telegram;
pub mod text;
pub mod timestamp;
