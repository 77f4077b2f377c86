//! The logic of a SignalK plugin that brings marine radars of several brands
//! to a SignalK server.
//!
//! - [`radar_provider`] knows the radars and answers requests. [`provider_laws`]
//!   states what holds of it over several requests and polls, [`request_laws`]
//!   what each request asks of a radar, and [`operation_laws`] what each of its
//!   operations does.
//! - [`config`] is how radars are installed, and how that is stored.
//! - [`controls`] reads requests for controls, and [`commands`] is what is asked
//!   of the radars' controllers in turn.
//! - [`radar_state`], [`state_v5`] and [`features`] are what clients are told.
//! - [`spoke_receiver`] merges received spokes into fewer.
//! - [`signalk_ffi`] and [`wasm_io`] are the interface of the host; [`host_laws`]
//!   states what is asked of it and what its replies mean.
//! - [`locator`] describes radars on the network.
//! - [`json`], [`double`], [`string_map`] and [`text`] are the values beneath;
//!   [`view_laws`] states that models hold what their values hold.

pub mod commands;
pub mod config;
pub mod controls;
pub mod double;
pub mod features;
pub mod host_laws;
pub mod json;
pub mod locator;
pub mod operation_laws;
pub mod provider_laws;
pub mod radar_provider;
pub mod radar_state;
pub mod request_laws;
pub mod signalk_ffi;
pub mod spoke_receiver;
pub mod state_v5;
pub mod string_map;
pub mod text;
pub mod view_laws;
pub mod wasm_io;
