//! Extraction of geographic, administrative and linguistic facts from
//! knowledge-base records.
//!
//! A record is one knowledge-base item: an identifier, property claims and
//! display labels. The engine classifies each record against a [`classify::ClassIndex`]
//! and emits an ordered sequence of [`model::Fact`] values. All of the
//! classification, temporal-qualifier and extraction logic is verified; the
//! surrounding process (decompression, JSON decoding, channels, persistence)
//! stays outside this crate and hands it plain values.

pub mod model;
pub mod temporal;
pub mod classify;
pub mod quantity;
pub mod extract;
pub mod laws;
