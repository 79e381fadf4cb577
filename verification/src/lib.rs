//! A gateway that exposes a remote file server, reached over SFTP, through
//! HTTP: it lists remote directories, streams remote files for download and
//! serves templated static assets.
//!
//! This crate holds the gateway's decisions, each with its contract. It
//! opens no socket and no file: the program around it does, and hands over
//! what it read.

pub mod error;
pub mod http;
pub mod paths;
pub mod sftp;
pub mod text;
