//! AssetLab: upload videos, transcode them into several qualities, and
//! play them back by id. This crate holds the decisions of the API and of
//! the transcode worker, verified; the programs around it do the I/O.

pub mod auth;
pub mod config;
pub mod error;
pub mod ids;
pub mod keys;
pub mod presign;
pub mod renditions;
pub mod state;
pub mod status;
pub mod text;
pub mod upload;
pub mod video;
pub mod worker;
