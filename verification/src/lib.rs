//! Verified core of QM Unlock: FLAC metadata editing, embedded tag reading,
//! catalogue matching and the QQ Music library bookkeeping.

pub mod bytes;
pub mod flac;
pub mod picture;
pub mod cover;
pub mod stream_info;
pub mod text;
pub mod tags;
pub mod matching;
pub mod catalog;
pub mod library;
pub mod qq_attributes;
pub mod requests;
pub mod media;
pub mod commands;
pub mod enhance;
