//! A client library for a video platform's player protocol: video-id and
//! token extraction, stream and caption selection, timed-text decoding,
//! ranged downloads and a shared retry policy, all specified and verified.

pub mod text;
pub mod video_id;
pub mod auth;
pub mod numbers;
pub mod caption;
pub mod audio;
pub mod retry;
pub mod download;
pub mod request;
pub mod settings;
