//! Build planning for Android application bundles: artifact paths, tool command
//! lines, archive entry rules and manifest defaults, with their contracts.

pub mod apk;
pub mod archive;
pub mod bundle;
pub mod command;
pub mod error;
pub mod manifest;
pub mod path;
pub mod text;
pub mod uid;
