//! Validation and inference rules for fetching a single GitHub attachment.

pub mod auth;
pub mod destination;
pub mod downloader;
pub mod error;
pub mod extension;
pub mod outside;
pub mod source;
pub mod text;
