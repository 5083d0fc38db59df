//! A verified core for a webcomic feed enricher.
//!
//! The library turns the entries of a syndicated comic feed, each of which
//! links to an HTML page, into self-contained entries that embed the comic
//! image, either as a direct URL reference or as an inlined `data:` URL.
//! All text is carried as UTF-8 byte strings (`Vec<u8>`).
//!
//! The caller performs the network fetches and the feed-document parsing;
//! this crate holds every decision and every transformation in between, with
//! contracts, and the thin trusted boundary to the HTML query engine, the
//! base64 encoder and the MIME sniffer.

pub mod bytes;
pub mod comic;
pub mod feed;
pub mod laws;
pub mod pipeline;
mod trusted;
