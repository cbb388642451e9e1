//! Verified core of a terminal habit tracker: the habit data model with its
//! three goal kinds, calendar cursor navigation, focus handling, command
//! processing, and the monthly archival partition.

pub mod archive;
pub mod bit;
pub mod clock;
pub mod collection;
pub mod command;
pub mod config;
pub mod count;
pub mod cursor;
pub mod date;
pub mod datemap;
pub mod events;
pub mod float;
pub mod message;
pub mod strnum;
pub mod variant;
