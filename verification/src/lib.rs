//! Control logic of a card-operated jukebox.
//!
//! A tagged card is tapped against a reader; the card's identity is looked up
//! in a library and the action bound to it drives the audio sink, the
//! maintenance hotspot and the pairing workflow.  This crate holds the
//! decisions only: every function maps plain values to plain values, and the
//! caller performs the commands that come back.

pub mod card;
pub mod card_reader;
pub mod error;
mod library;
pub mod service;

pub use library::{
    is_listing_of, is_random_pick, lemma_listing_round_trip, library_of, listed_at, listing_view,
    Library, Line,
};
