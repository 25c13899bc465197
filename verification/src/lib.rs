//! A client core for the line-oriented chat protocol of Twitch: parsing of
//! inbound lines, framing of the byte stream, the handler table and the
//! commands that a session sends.

pub mod callbacks;
pub mod capability;
pub mod config;
pub mod connection;
pub mod decode;
pub mod framing;
pub mod message;
pub mod parser;
pub mod reply;
pub mod text;
