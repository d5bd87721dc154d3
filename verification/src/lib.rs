//! Fixed TCP endpoints for the containers of named objects.
//!
//! A deployment declares routes from TCP ports to container ports ([`config`],
//! [`metadata`], [`reading`]). A node turns them into listeners ([`target`],
//! [`prepare`], [`mapping`], [`registry`]), takes clients ([`serve`]), finds the
//! owner of the target ([`dial`]) and opens the container where the owner is
//! itself ([`local`]). Nodes ask each other for streams over HTTP ([`peer`],
//! [`handshake`], [`accept`], [`reply`]). An established stream is opaque bytes,
//! until it ends or is told to stop ([`relay`]). How many streams a mapping has at
//! a time is counted ([`occupancy`]).
//!
//! What happens between decisions is not done here: a process is a value that
//! says what it waits for, and takes one event at a time.

pub mod accept;
pub mod config;
pub mod dial;
pub mod handshake;
pub mod local;
pub mod mapping;
pub mod metadata;
pub mod occupancy;
pub mod peer;
pub mod prepare;
pub mod reading;
pub mod registry;
pub mod relay;
pub mod reply;
pub mod serve;
pub mod target;
pub mod text;
