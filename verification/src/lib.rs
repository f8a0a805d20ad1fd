//! Platform-independent logic of an irrigation controller.
//!
//! Everything here is plain computation: clock readings, received bytes and
//! stored blobs come in as values, and pin levels, packets and messages go
//! out as values. The program that owns the hardware and the sockets calls in.

pub mod ap;
pub mod api;
pub mod app;
pub mod boot;
pub mod calibration;
pub mod captive_dns;
pub mod config;
pub mod diag;
pub mod dotenv;
pub mod duration;
pub mod ha_discovery;
pub mod http_server;
pub mod json_text;
pub mod json_tree;
pub mod log_buffer;
pub mod mdns;
pub mod mqtt_dispatch;
pub mod mqtt_supervisor;
pub mod nvs;
pub mod order;
pub mod ota;
pub mod placeholders;
pub mod reading;
pub mod schedule;
pub mod sensors;
pub mod serial;
pub mod serial_cli;
pub mod sntp;
pub mod state;
pub mod status;
pub mod string_map;
pub mod switch;
pub mod text;
pub mod traits;
pub mod water_valve;
pub mod webapi;
pub mod webhook;
pub mod webhook_http;
pub mod wifi;
pub mod wire;

use vstd::prelude::*;

verus! {

/// Version of the library.
pub fn version() -> (v: &'static str)
    ensures
        v@ == "0.1.0"@,
{
    "0.1.0"
}

pub fn greeting() -> (s: String)
    ensures
        s@ == "watercontroller-core v"@ + "0.1.0"@,
{
    text::join("watercontroller-core v", version())
}

} // verus!
