//! What the controller needs from the board and the network stack. Programs
//! implement these; the library says only what is asked of them.

use vstd::prelude::*;
use crate::text::join;

verus! {

/// A digital output pin. Setting it is cheap and cannot fail.
pub trait GpioOut: Send {
    fn set(&mut self, high: bool);
}

/// A 12-bit analog input, as the raw count.
pub trait Adc: Send {
    fn read_raw(&mut self) -> u16;
}

/// A counter of pulses that never runs backwards.
pub trait PulseCounter: Send + Sync {
    fn count(&self) -> u64;
}

/// Why a store refused.
#[derive(Debug, PartialEq, Eq)]
pub enum NvsError {
    NotFound,
    Full,
    Io(String),
}

impl NvsError {
    pub open spec fn text(self) -> Seq<char> {
        match self {
            NvsError::NotFound => "key not found"@,
            NvsError::Full => "storage full"@,
            NvsError::Io(s) => "io error: "@ + s@,
        }
    }

    pub fn to_text(&self) -> (s: String)
        ensures
            s@ == self.text(),
    {
        match self {
            NvsError::NotFound => "key not found".to_owned(),
            NvsError::Full => "storage full".to_owned(),
            NvsError::Io(s) => join("io error: ", s.as_str()),
        }
    }
}

/// Persistent store of byte strings under text keys.
pub trait NvsStore: Send + Sync {
    fn get(&self, key: &str) -> Option<Vec<u8>>;

    fn set(&self, key: &str, value: &[u8]) -> Result<(), NvsError>;

    fn remove(&self, key: &str) -> Result<(), NvsError>;
}

#[derive(Debug, Clone, Copy, PartialEq, Eq, Structural)]
pub struct PublishOpts {
    pub retained: bool,
    pub qos: u8,
}

impl Default for PublishOpts {
    fn default() -> (o: Self)
        ensures
            o == (PublishOpts { retained: false, qos: 1 }),
    {
        PublishOpts { retained: false, qos: 1 }
    }
}

/// A broker connection.
pub trait Mqtt: Send + Sync {
    fn publish(&self, topic: &str, payload: &[u8], opts: PublishOpts);

    fn subscribe(&self, topic: &str);

    fn is_connected(&self) -> bool;
}

/// State of the station and of the fallback access point.
#[derive(Debug, PartialEq, Eq)]
pub enum WifiState {
    Disconnected,
    Connecting { ssid: String },
    Connected { ssid: String, ip: String },
    /// The setup portal is up and the station is off.
    ApMode { ssid: String, ip: String },
}

impl Clone for WifiState {
    fn clone(&self) -> (s: Self)
        ensures
            s == *self,
    {
        match self {
            WifiState::Disconnected => WifiState::Disconnected,
            WifiState::Connecting { ssid } => WifiState::Connecting { ssid: ssid.clone() },
            WifiState::Connected { ssid, ip } => WifiState::Connected {
                ssid: ssid.clone(),
                ip: ip.clone(),
            },
            WifiState::ApMode { ssid, ip } => WifiState::ApMode {
                ssid: ssid.clone(),
                ip: ip.clone(),
            },
        }
    }
}

/// Name and password of a network.
#[derive(Debug, PartialEq, Eq)]
pub struct WifiCreds {
    pub ssid: String,
    pub password: String,
}

/// [`WifiCreds`] by the texts that it holds.
pub struct WifiCredsView {
    pub ssid: Seq<char>,
    pub password: Seq<char>,
}

impl View for WifiCreds {
    type V = WifiCredsView;

    open spec fn view(&self) -> WifiCredsView {
        WifiCredsView { ssid: self.ssid@, password: self.password@ }
    }
}

impl Clone for WifiCreds {
    fn clone(&self) -> (c: Self)
        ensures
            c == *self,
    {
        WifiCreds { ssid: self.ssid.clone(), password: self.password.clone() }
    }
}

/// The station side of the radio.
pub trait Wifi: Send + Sync {
    fn state(&self) -> WifiState;

    fn connect(&self, networks: &[WifiCreds]);

    /// Asks for a new scan and a new attempt to connect.
    fn reconnect(&self);
}

/// The words for why a store refused.
pub proof fn refusals_have_their_words(reason: String)
    ensures
        NvsError::NotFound.text() == "key not found"@,
        NvsError::Full.text() == "storage full"@,
        NvsError::Io(reason).text() == "io error: "@ + reason@,
{
}

} // verus!
