//! Requests and replies of the HTTP interface.

use vstd::prelude::*;
use crate::config::Config;
use crate::json_text;
use crate::state::DeviceSnapshot;

pub mod routes;

verus! {

/// A command to one of the outputs.
#[derive(Debug, Clone, Copy, PartialEq, Eq, Structural)]
pub enum SwitchCommand {
    Sprinkler1 { on: bool },
    Sprinkler2 { on: bool },
    WaterControl { on: bool },
}

/// Body of a refusal.
#[derive(Debug, PartialEq, Eq)]
pub struct ApiError {
    pub message: String,
}

impl Clone for ApiError {
    fn clone(&self) -> (e: Self)
        ensures
            e == *self,
    {
        ApiError { message: self.message.clone() }
    }
}

impl ApiError {
    pub fn new(message: &str) -> (e: Self)
        ensures
            e.message@ == message@,
    {
        ApiError { message: message.to_owned() }
    }

    /// The error as a JSON object.
    pub fn to_json(&self) -> (json: String)
        ensures
            json@ == error_json(self.message@),
    {
        let mut json = "{\"message\":".to_owned();
        json.append(json_text::quote(self.message.as_str()).as_str());
        json.append("}");
        json
    }
}

/// An error as a JSON object.
pub open spec fn error_json(message: Seq<char>) -> Seq<char> {
    "{\"message\":"@ + json_text::json_quoted(message) + "}"@
}

/// The JSON object that answers an accepted command.
pub open spec fn accepted_json() -> Seq<char> {
    "{\"result\":\"ok\"}"@
}

/// The JSON object that answers a refused command.
pub open spec fn busy_json(reason: Seq<char>) -> Seq<char> {
    "{\"result\":\"busy\",\"reason\":"@ + json_text::json_quoted(reason) + "}"@
}

/// What became of a command.
#[derive(Debug, PartialEq, Eq)]
pub enum CommandOutcome {
    Accepted,
    /// The valve is in the middle of a sequence.
    Busy { reason: String },
}

impl CommandOutcome {
    /// HTTP status that goes with the outcome.
    pub fn status(&self) -> (s: u16)
        ensures
            s == (match *self {
                CommandOutcome::Accepted => 200u16,
                CommandOutcome::Busy { .. } => 409u16,
            }),
    {
        match self {
            CommandOutcome::Accepted => 200,
            CommandOutcome::Busy { .. } => 409,
        }
    }

    /// The outcome as a JSON object.
    pub fn to_json(&self) -> (json: String)
        ensures
            json@ == (match *self {
                CommandOutcome::Accepted => accepted_json(),
                CommandOutcome::Busy { reason } => busy_json(reason@),
            }),
    {
        match self {
            CommandOutcome::Accepted => "{\"result\":\"ok\"}".to_owned(),
            CommandOutcome::Busy { reason } => {
                let mut json = "{\"result\":\"busy\",\"reason\":".to_owned();
                json.append(json_text::quote(reason.as_str()).as_str());
                json.append("}");
                json
            },
        }
    }
}

pub struct StatusResponse<'a> {
    pub state: &'a DeviceSnapshot,
}

pub struct ConfigResponse<'a> {
    pub config: &'a Config,
}

pub struct ConfigUpdate(pub Config);

/// A network that a scan found.
#[derive(Debug, PartialEq, Eq)]
pub struct WifiScanResult {
    pub ssid: String,
    pub rssi_dbm: i8,
    /// `open`, `wep`, `wpa`, `wpa2`, `wpa3` or `unknown`.
    pub auth: String,
    pub channel: u8,
}

impl Clone for WifiScanResult {
    fn clone(&self) -> (r: Self)
        ensures
            r == *self,
    {
        WifiScanResult {
            ssid: self.ssid.clone(),
            rssi_dbm: self.rssi_dbm,
            auth: self.auth.clone(),
            channel: self.channel,
        }
    }
}

#[derive(Debug, PartialEq, Eq)]
pub struct WifiScanResponse {
    pub networks: Vec<WifiScanResult>,
}

impl Default for WifiScanResponse {
    fn default() -> (r: Self)
        ensures
            r.networks@ == Seq::<WifiScanResult>::empty(),
    {
        WifiScanResponse { networks: Vec::new() }
    }
}

/// The answers as JSON objects: a result, a result with a reason, a message.
pub proof fn answers_are_json_objects(words: Seq<char>)
    ensures
        accepted_json() == "{\"result\":\"ok\"}"@,
        busy_json(words) == "{\"result\":\"busy\",\"reason\":"@ + json_text::json_quoted(words)
            + "}"@,
        error_json(words) == "{\"message\":"@ + json_text::json_quoted(words) + "}"@,
{
}

} // verus!
