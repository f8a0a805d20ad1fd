//! Decisions of the Wi-Fi supervisors: which network to try next, when a link
//! counts as dead, and when to open and to leave the setup access point.

use vstd::prelude::*;
use crate::api::WifiScanResult;
use crate::config;
use crate::text;
use crate::traits::{WifiCreds, WifiState};

verus! {

/// What the station is to do next.
#[derive(Debug, Clone, Copy, PartialEq, Eq, Structural)]
pub enum StationAction {
    /// No network is configured: look again in 15 seconds.
    Idle,
    /// Every network has been tried often enough: store the access point mode
    /// and reboot.
    FallBack,
    /// Try the network at this place of the list.
    Join { index: usize },
}

/// Tries the configured networks in turn. Three rounds without success lead to
/// the setup access point.
#[derive(Debug, Clone, Copy, PartialEq, Eq, Structural)]
pub struct Station {
    /// Place of the network to try next; wraps around.
    pub next: usize,
    /// Failures since the last success.
    pub fails: u32,
}

impl Station {
    /// What a station that knows `count` networks does.
    pub open spec fn action(self, count: nat) -> StationAction {
        if count == 0 {
            StationAction::Idle
        } else if self.fails >= count * 3 {
            StationAction::FallBack
        } else {
            StationAction::Join { index: (self.next as int % count as int) as usize }
        }
    }

    /// The station after one more failure.
    pub open spec fn failed(self, count: nat) -> Station {
        Station {
            next: (self.next as int % count as int + 1) as usize,
            fails: (self.fails + 1) as u32,
        }
    }

    /// The station after as many failures as given, each on the network that
    /// was its turn.
    pub open spec fn failed_times(self, count: nat, times: nat) -> Station
        decreases times,
    {
        if times == 0 {
            self
        } else {
            self.failed_times(count, (times - 1) as nat).failed(count)
        }
    }

    pub fn new() -> (s: Station)
        ensures
            s == (Station { next: 0, fails: 0 }),
    {
        Station { next: 0, fails: 0 }
    }

    pub fn next_action(&self, count: usize) -> (a: StationAction)
        requires
            count * 3 <= u32::MAX,
        ensures
            a == self.action(count as nat),
    {
        if count == 0 {
            StationAction::Idle
        } else if self.fails >= count as u32 * 3 {
            StationAction::FallBack
        } else {
            StationAction::Join { index: self.next % count }
        }
    }

    /// The network that was its turn could not be joined.
    pub fn join_failed(&mut self, count: usize)
        requires
            count > 0,
            count * 3 <= u32::MAX,
            old(self).fails < count * 3,
        ensures
            *final(self) == old(self).failed(count as nat),
    {
        self.next = self.next % count + 1;
        self.fails = self.fails + 1;
    }

    /// The network that was its turn was joined. It stays the first to try.
    pub fn joined(&mut self, count: usize)
        requires
            count > 0,
        ensures
            *final(self) == (Station {
                next: (old(self).next as int % count as int) as usize,
                fails: 0,
            }),
    {
        self.next = self.next % count;
        self.fails = 0;
    }
}

/// Failures walk through the list in turn: each of the first three rounds tries
/// every network once, from the one whose turn it was, and only then does the
/// station fall back.
pub proof fn three_rounds_then_fall_back(s: Station, count: nat, times: nat)
    requires
        count > 0,
        count * 3 <= u32::MAX,
        s.next < count,
        s.fails == 0,
        times <= count * 3,
    ensures
        s.failed_times(count, times).fails == times,
        s.failed_times(count, times).next as int % count as int == (s.next + times) % count as int,
        times < count * 3 ==> s.failed_times(count, times).action(count) == (StationAction::Join {
            index: ((s.next + times) % count as int) as usize,
        }),
        times == count * 3 ==> s.failed_times(count, times).action(count)
            == StationAction::FallBack,
    decreases times,
{
    if times > 0 {
        let before = (times - 1) as nat;
        three_rounds_then_fall_back(s, count, before);
        let m = s.failed_times(count, before);
        let c = count as int;
        let turn = m.next as int % c;
        assert(0 <= turn < c) by (nonlinear_arith)
            requires
                turn == m.next as int % c,
                c > 0,
        ;
        assert(m.failed(count).next as int == turn + 1);
        vstd::arithmetic::div_mod::lemma_add_mod_noop(s.next + before, 1, c);
        vstd::arithmetic::div_mod::lemma_mod_twice(s.next + before, c);
        vstd::arithmetic::div_mod::lemma_add_mod_noop(turn, 1, c);
        vstd::arithmetic::div_mod::lemma_mod_twice(m.next as int, c);
    } else {
        vstd::arithmetic::div_mod::lemma_small_mod(s.next as nat, count);
    }
}

/// Probes that must fail in a row before a link counts as dead.
pub const PROBE_LIMIT: u32 = 3;

/// Watches a link that reports to be up.
#[derive(Debug, Clone, Copy, PartialEq, Eq, Structural)]
pub struct LinkProbe {
    pub fails: u32,
}

impl LinkProbe {
    pub open spec fn after(self, association: bool, gateway: bool) -> LinkProbe {
        if association && gateway {
            LinkProbe { fails: 0 }
        } else {
            LinkProbe { fails: (self.fails + 1) as u32 }
        }
    }

    pub fn new() -> (p: LinkProbe)
        ensures
            p.fails == 0,
    {
        LinkProbe { fails: 0 }
    }

    /// Takes note of a probe: whether the access point is there, and whether
    /// the gateway answers. False where the link is to be given up.
    pub fn probe(&mut self, association: bool, gateway: bool) -> (keep: bool)
        requires
            old(self).fails < u32::MAX,
        ensures
            *final(self) == old(self).after(association, gateway),
            keep == (final(self).fails < PROBE_LIMIT),
            keep == (association && gateway || old(self).fails < 2),
    {
        if association && gateway {
            self.fails = 0;
            return true;
        }
        self.fails = self.fails + 1;
        self.fails < PROBE_LIMIT
    }
}

/// What a probe of the gateway showed.
#[derive(Debug, Clone, Copy, PartialEq, Eq, Structural)]
pub enum GatewayProbe {
    /// The address of the gateway could not be read.
    Unknown,
    /// There is no gateway yet.
    Unset,
    Connected,
    /// The port is closed, but an answer came.
    Refused,
    /// No answer.
    Failed,
}

/// Any answer counts as alive, and so does a gateway that cannot be asked.
pub fn gateway_alive(probe: GatewayProbe) -> (r: bool)
    ensures
        r == !(probe is Failed),
{
    match probe {
        GatewayProbe::Failed => false,
        _ => true,
    }
}

/// Ticks of five seconds between two probes.
pub const PROBE_EVERY_TICKS: u32 = 12;

/// Why the supervisor leaves a link that it was watching.
#[derive(Debug, Clone, Copy, PartialEq, Eq, Structural)]
pub enum LinkVerdict {
    Stay,
    /// The driver says that the link is down.
    Down,
    /// Beacons have stopped.
    BeaconLost,
    /// A new attempt was asked for.
    Rescan,
}

/// One look at a link, in the order in which the reasons count.
pub fn link_verdict(connected: bool, beacon_timeout: bool, rescan: bool) -> (v: LinkVerdict)
    ensures
        v == (if !connected {
            LinkVerdict::Down
        } else if beacon_timeout {
            LinkVerdict::BeaconLost
        } else if rescan {
            LinkVerdict::Rescan
        } else {
            LinkVerdict::Stay
        }),
{
    if !connected {
        LinkVerdict::Down
    } else if beacon_timeout {
        LinkVerdict::BeaconLost
    } else if rescan {
        LinkVerdict::Rescan
    } else {
        LinkVerdict::Stay
    }
}

/// The link is probed at this tick.
pub fn probe_due(ticks: u32) -> (r: bool)
    ensures
        r == (ticks % PROBE_EVERY_TICKS == 0),
        r == (5 * ticks % 60 == 0),
{
    ticks % PROBE_EVERY_TICKS == 0
}

/// What the supervisor does after its round of connection attempts.
#[derive(Debug, Clone, Copy, PartialEq, Eq, Structural)]
pub enum SupervisorPhase {
    /// Watch the link.
    Connected,
    /// Open the access point and look for a known network now and then.
    ApFallback,
    /// Open the access point until a network is configured.
    ApPermanent,
}

pub fn phase_after_attempts(connected: bool, configured: usize) -> (p: SupervisorPhase)
    ensures
        p == (if connected {
            SupervisorPhase::Connected
        } else if configured > 0 {
            SupervisorPhase::ApFallback
        } else {
            SupervisorPhase::ApPermanent
        }),
{
    if connected {
        SupervisorPhase::Connected
    } else if configured > 0 {
        SupervisorPhase::ApFallback
    } else {
        SupervisorPhase::ApPermanent
    }
}

/// Seconds in the access point between two looks for a known network.
pub const AP_SCAN_SECS: u32 = 30;

/// Counts the time in the access point, in steps of two seconds.
#[derive(Debug, Clone, Copy, PartialEq, Eq, Structural)]
pub struct ApWait {
    pub waited: u32,
}

impl ApWait {
    pub fn new() -> (w: ApWait)
        ensures
            w.waited == 0,
    {
        ApWait { waited: 0 }
    }

    /// Two more seconds have passed. True where a look for networks is due; the
    /// count then starts over.
    pub fn step(&mut self) -> (scan: bool)
        requires
            old(self).waited < AP_SCAN_SECS,
        ensures
            scan == (old(self).waited + 2 >= AP_SCAN_SECS),
            scan == (old(self).waited + 2 >= 30),
            final(self).waited == (if scan { 0 } else { old(self).waited + 2 }),
    {
        self.waited = self.waited + 2;
        if self.waited >= AP_SCAN_SECS {
            self.waited = 0;
            true
        } else {
            false
        }
    }
}

/// Texts by their characters.
pub open spec fn holds_text(v: Seq<String>, s: Seq<char>) -> bool {
    exists|i: int| 0 <= i < v.len() && (#[trigger] v[i])@ == s
}

/// A configured network is among those that a scan has found.
pub open spec fn any_known(networks: Seq<WifiCreds>, found: Seq<String>) -> bool {
    exists|i: int| 0 <= i < networks.len() && holds_text(found, (#[trigger] networks[i]).ssid@)
}

fn lists(v: &Vec<String>, s: &str) -> (r: bool)
    ensures
        r == holds_text(v@, s@),
{
    let mut i: usize = 0;
    while i < v.len()
        invariant
            i <= v@.len(),
            forall|j: int| 0 <= j < i ==> (#[trigger] v@[j])@ != s@,
        decreases v@.len() - i,
    {
        if text::same(v[i].as_str(), s) {
            assert(v@[i as int]@ == s@);
            return true;
        }
        i += 1;
    }
    false
}

/// True where one of the saved networks is among the found ones.
pub fn known_ssid_visible(networks: &Vec<WifiCreds>, found: &Vec<String>) -> (r: bool)
    ensures
        r == any_known(networks@, found@),
{
    let mut i: usize = 0;
    while i < networks.len()
        invariant
            i <= networks@.len(),
            forall|j: int|
                0 <= j < i ==> !holds_text(found@, (#[trigger] networks@[j]).ssid@),
        decreases networks@.len() - i,
    {
        if lists(found, networks[i].ssid.as_str()) {
            assert(holds_text(found@, networks@[i as int].ssid@));
            return true;
        }
        i += 1;
    }
    false
}

/// State of the supervisor that other threads see and set.
pub struct WifiSupervisor {
    state: WifiState,
    networks: Vec<WifiCreds>,
    rescan: bool,
}

impl WifiSupervisor {
    pub closed spec fn wifi_state(self) -> WifiState {
        self.state
    }

    /// The networks to try, in order.
    pub closed spec fn known(self) -> Seq<crate::traits::WifiCredsView> {
        config::creds_views(self.networks@)
    }

    /// A new round of attempts was asked for.
    pub closed spec fn rescan_wanted(self) -> bool {
        self.rescan
    }

    /// A supervisor that is about to make its first round of attempts.
    pub fn new(networks: Vec<WifiCreds>) -> (s: Self)
        ensures
            s.wifi_state() == WifiState::Disconnected,
            s.known() == config::creds_views(networks@),
            s.rescan_wanted(),
    {
        WifiSupervisor { state: WifiState::Disconnected, networks, rescan: true }
    }

    pub fn state(&self) -> (s: WifiState)
        ensures
            s == self.wifi_state(),
    {
        self.state.clone()
    }

    pub fn set_state(&mut self, new_state: WifiState)
        ensures
            final(self).wifi_state() == new_state,
            final(self).known() == old(self).known(),
            final(self).rescan_wanted() == old(self).rescan_wanted(),
    {
        self.state = new_state;
    }

    /// Takes over a list of networks. A new round of attempts is asked for
    /// exactly where the list differs from the old one.
    pub fn connect(&mut self, networks: &Vec<WifiCreds>)
        ensures
            final(self).wifi_state() == old(self).wifi_state(),
            final(self).known() == config::creds_views(networks@),
            final(self).rescan_wanted() == (old(self).rescan_wanted() || old(self).known()
                != config::creds_views(networks@)),
    {
        if !same_networks(&self.networks, networks) {
            let copy: Vec<WifiCreds> = networks.clone();
            proof {
                assert forall|i: int| 0 <= i < networks@.len() implies #[trigger] copy@[i]
                    == networks@[i] by {
                    assert(cloned(networks@[i], copy@[i]));
                }
                assert(copy@ =~= networks@);
            }
            self.networks = copy;
            self.rescan = true;
        }
    }

    pub fn reconnect(&mut self)
        ensures
            final(self).wifi_state() == old(self).wifi_state(),
            final(self).known() == old(self).known(),
            final(self).rescan_wanted(),
    {
        self.rescan = true;
    }

    /// Starts a round: the request is taken back, and the networks to try are
    /// handed out.
    pub fn begin_round(&mut self) -> (networks: Vec<WifiCreds>)
        ensures
            config::creds_views(networks@) == old(self).known(),
            final(self).wifi_state() == old(self).wifi_state(),
            final(self).known() == old(self).known(),
            !final(self).rescan_wanted(),
    {
        self.rescan = false;
        let copy: Vec<WifiCreds> = self.networks.clone();
        proof {
            assert forall|i: int| 0 <= i < self.networks@.len() implies #[trigger] copy@[i]
                == self.networks@[i] by {
                assert(cloned(self.networks@[i], copy@[i]));
            }
            assert(copy@ =~= self.networks@);
        }
        copy
    }

    pub fn rescan(&self) -> (r: bool)
        ensures
            r == self.rescan_wanted(),
    {
        self.rescan
    }
}

fn same_networks(a: &Vec<WifiCreds>, b: &Vec<WifiCreds>) -> (r: bool)
    ensures
        r == (config::creds_views(a@) == config::creds_views(b@)),
{
    let ghost x = config::creds_views(a@);
    let ghost y = config::creds_views(b@);
    if a.len() != b.len() {
        assert(x.len() != y.len());
        return false;
    }
    let mut i: usize = 0;
    while i < a.len()
        invariant
            i <= a@.len(),
            a@.len() == b@.len(),
            x == config::creds_views(a@),
            y == config::creds_views(b@),
            forall|j: int| 0 <= j < i ==> x[j] == y[j],
        decreases a@.len() - i,
    {
        if !text::same(a[i].ssid.as_str(), b[i].ssid.as_str()) || !text::same(
            a[i].password.as_str(),
            b[i].password.as_str(),
        ) {
            assert(x[i as int] != y[i as int]);
            return false;
        }
        assert(x[i as int] == y[i as int]);
        i += 1;
    }
    assert(x =~= y);
    true
}

/// How a network is secured.
#[derive(Debug, Clone, Copy, PartialEq, Eq, Structural)]
pub enum AuthMethod {
    Open,
    Wep,
    Wpa,
    Wpa2Personal,
    WpaWpa2Personal,
    Wpa2Enterprise,
    Wpa3Personal,
    Wpa2Wpa3Personal,
    Other,
}

/// The label of a method, where the driver may not know it.
pub open spec fn auth_text(auth: Option<AuthMethod>) -> Seq<char> {
    match auth {
        None => "unknown"@,
        Some(AuthMethod::Open) => "open"@,
        Some(AuthMethod::Wep) => "wep"@,
        Some(AuthMethod::Wpa) => "wpa"@,
        Some(AuthMethod::Wpa2Personal) => "wpa2"@,
        Some(AuthMethod::WpaWpa2Personal) => "wpa2"@,
        Some(AuthMethod::Wpa2Enterprise) => "wpa2-ent"@,
        Some(AuthMethod::Wpa3Personal) => "wpa3"@,
        Some(AuthMethod::Wpa2Wpa3Personal) => "wpa3"@,
        Some(AuthMethod::Other) => "unknown"@,
    }
}

pub fn auth_label(auth: Option<AuthMethod>) -> (s: &'static str)
    ensures
        s@ == auth_text(auth),
{
    match auth {
        None => "unknown",
        Some(AuthMethod::Open) => "open",
        Some(AuthMethod::Wep) => "wep",
        Some(AuthMethod::Wpa) => "wpa",
        Some(AuthMethod::Wpa2Personal) => "wpa2",
        Some(AuthMethod::WpaWpa2Personal) => "wpa2",
        Some(AuthMethod::Wpa2Enterprise) => "wpa2-ent",
        Some(AuthMethod::Wpa3Personal) => "wpa3",
        Some(AuthMethod::Wpa2Wpa3Personal) => "wpa3",
        Some(AuthMethod::Other) => "unknown",
    }
}

/// A network that the scan of the bare-metal driver found. Its driver reports
/// no method for an open network, and the newest methods under other names.
pub fn ap_to_result(
    ssid: &str,
    rssi_dbm: i8,
    auth: Option<AuthMethod>,
    channel: u8,
) -> (r: WifiScanResult)
    ensures
        r.ssid@ == ssid@,
        r.rssi_dbm == rssi_dbm,
        r.channel == channel,
        r.auth@ == (match auth {
            None | Some(AuthMethod::Open) => "open"@,
            Some(AuthMethod::Wep) => "wep"@,
            Some(AuthMethod::Wpa) => "wpa"@,
            Some(AuthMethod::Wpa2Personal) | Some(AuthMethod::WpaWpa2Personal) | Some(
                AuthMethod::Wpa2Enterprise,
            ) => "wpa2"@,
            Some(_) => "wpa3"@,
        }),
{
    let label = match auth {
        None | Some(AuthMethod::Open) => "open",
        Some(AuthMethod::Wep) => "wep",
        Some(AuthMethod::Wpa) => "wpa",
        Some(AuthMethod::Wpa2Personal) | Some(AuthMethod::WpaWpa2Personal) | Some(
            AuthMethod::Wpa2Enterprise,
        ) => "wpa2",
        Some(_) => "wpa3",
    };
    WifiScanResult { ssid: ssid.to_owned(), rssi_dbm, auth: label.to_owned(), channel }
}

/// The method that a network is joined or opened with: none without a password.
pub fn auth_for_password(password: &str) -> (m: AuthMethod)
    ensures
        m == (if password@.len() == 0 { AuthMethod::Open } else { AuthMethod::Wpa2Personal }),
{
    if password.is_empty() {
        AuthMethod::Open
    } else {
        AuthMethod::Wpa2Personal
    }
}

/// What to do while waiting for a link and an address.
#[derive(Debug, Clone, Copy, PartialEq, Eq, Structural)]
pub enum IpWaitAction {
    /// Look at the link again in a second.
    WaitForLink,
    /// Look at the address again in half a second.
    WaitForAddress,
    Done,
    /// There was no link in time.
    NoLink,
    /// There was a link and no address in time.
    NoAddress,
}

/// Waiting for a link, and from the first moment with one for an address.
#[derive(Debug, Clone, Copy, PartialEq, Eq, Structural)]
pub enum IpWait {
    Link { left: u8 },
    Address { left: u8 },
}

/// Looks for an address before giving up.
pub const ADDRESS_LOOKS: u8 = 10;

impl IpWait {
    pub fn new(seconds: u8) -> (w: IpWait)
        ensures
            w == (IpWait::Link { left: seconds }),
    {
        IpWait::Link { left: seconds }
    }

    /// What one look leads to.
    pub open spec fn look(self, linked: bool, address: Option<[u8; 4]>) -> (IpWait, IpWaitAction) {
        let found = address is Some && address->0@ != seq![0u8, 0, 0, 0];
        match self {
            IpWait::Link { left } => if left == 0 {
                (self, IpWaitAction::NoLink)
            } else if linked {
                if found {
                    (self, IpWaitAction::Done)
                } else {
                    (
                        IpWait::Address { left: (ADDRESS_LOOKS - 1) as u8 },
                        IpWaitAction::WaitForAddress,
                    )
                }
            } else {
                (IpWait::Link { left: (left - 1) as u8 }, IpWaitAction::WaitForLink)
            },
            IpWait::Address { left } => if left == 0 {
                (self, IpWaitAction::NoAddress)
            } else if found {
                (self, IpWaitAction::Done)
            } else {
                (IpWait::Address { left: (left - 1) as u8 }, IpWaitAction::WaitForAddress)
            },
        }
    }

    /// One look at the link and at the address, where one could be read.
    pub fn step(&mut self, linked: bool, address: Option<[u8; 4]>) -> (a: IpWaitAction)
        ensures
            (*final(self), a) == old(self).look(linked, address),
    {
        let found = match address {
            Some(ip) => {
                let zero = ip[0] == 0 && ip[1] == 0 && ip[2] == 0 && ip[3] == 0;
                proof {
                    if zero {
                        assert(ip@ =~= seq![0u8, 0, 0, 0]);
                    } else {
                        assert(ip@ != seq![0u8, 0, 0, 0]);
                    }
                }
                !zero
            },
            None => false,
        };
        match *self {
            IpWait::Link { left } => {
                if left == 0 {
                    return IpWaitAction::NoLink;
                }
                if linked {
                    if found {
                        return IpWaitAction::Done;
                    }
                    *self = IpWait::Address { left: ADDRESS_LOOKS - 1 };
                    IpWaitAction::WaitForAddress
                } else {
                    *self = IpWait::Link { left: left - 1 };
                    IpWaitAction::WaitForLink
                }
            },
            IpWait::Address { left } => {
                if left == 0 {
                    return IpWaitAction::NoAddress;
                }
                if found {
                    return IpWaitAction::Done;
                }
                *self = IpWait::Address { left: left - 1 };
                IpWaitAction::WaitForAddress
            },
        }
    }
}

/// A part of an address: one to three digits that stand for at most 255, and no
/// zero before other digits.
pub open spec fn strict_octet(part: Seq<char>) -> Option<nat> {
    if part.len() == 0 || part[0] == '+' || (part.len() > 1 && part[0] == '0') {
        None
    } else {
        text::parsed(part, 255)
    }
}

/// An address in dotted notation, without any liberties.
pub open spec fn dotted_address(s: Seq<char>) -> Option<Seq<u8>> {
    let parts = text::split_at_char(s, '.');
    if parts.len() == 4 && forall|i: int|
        0 <= i < 4 ==> strict_octet(#[trigger] parts[i]) is Some {
        Some(Seq::new(4, |i: int| strict_octet(parts[i])->0 as u8))
    } else {
        None
    }
}

fn read_octet(part: &str) -> (r: Option<u8>)
    ensures
        r is Some == strict_octet(part@) is Some,
        r is Some ==> r->0 == strict_octet(part@)->0,
{
    let v: Vec<char> = text::chars_of(part);
    if v.len() == 0 || v[0] == '+' || (v.len() > 1 && v[0] == '0') {
        return None;
    }
    match text::parse(part, 255) {
        Some(n) => Some(n as u8),
        None => None,
    }
}

fn read_address(s: &str) -> (r: Option<[u8; 4]>)
    ensures
        r is Some == dotted_address(s@) is Some,
        r is Some ==> r->0@ == dotted_address(s@)->0,
{
    let parts: Vec<String> = text::split(s, '.');
    let ghost views = text::split_at_char(s@, '.');
    assert(parts@.len() == views.len());
    if parts.len() != 4 {
        return None;
    }
    let mut octets: [u8; 4] = [0u8; 4];
    let mut i: usize = 0;
    while i < 4
        invariant
            i <= 4,
            parts@.len() == 4,
            views == text::texts(parts@),
            views == text::split_at_char(s@, '.'),
            forall|j: int|
                0 <= j < i ==> strict_octet(#[trigger] views[j]) is Some && octets@[j]
                    == strict_octet(views[j])->0,
        decreases 4 - i,
    {
        assert(views[i as int] == parts@[i as int]@);
        match read_octet(parts[i].as_str()) {
            Some(n) => {
                octets[i] = n;
            },
            None => {
                return None;
            },
        }
        i += 1;
    }
    assert(octets@ =~= dotted_address(s@)->0);
    Some(octets)
}

/// Where the resolver of the setup portal sends clients: to the address of the
/// access point while there is one, and nowhere otherwise.
pub fn captive_redirect(state: &WifiState) -> (ip: Option<[u8; 4]>)
    ensures
        ip is Some == (state matches WifiState::ApMode { ip: a, .. }
            && dotted_address(a@) is Some),
        ip is Some ==> ip->0@ == dotted_address(state->ApMode_ip@)->0,
{
    match state {
        WifiState::ApMode { ip, .. } => read_address(ip.as_str()),
        _ => None,
    }
}

/// A link is given up after three probes in a row that failed in either way; one
/// that went well starts the count over.
pub proof fn probes_count_in_a_row(link: LinkProbe, association: bool, gateway: bool)
    requires
        link.fails < u32::MAX,
    ensures
        link.after(true, true).fails == 0,
        !association || !gateway ==> link.after(association, gateway).fails == link.fails + 1,
        link.after(true, true).after(false, gateway).after(association, false).after(
            false,
            false,
        ).fails == 3,
{
}

/// While there is no link each look takes one of the seconds that are left, and
/// the last one ends the wait. With a link there are ten looks for an address,
/// the first of them at once; `0.0.0.0` is none.
pub proof fn addresses_are_waited_for(left: u8, address: Option<[u8; 4]>, linked: bool)
    requires
        left > 0,
    ensures
        ({
            let zero = address is Some && address->0[0] == 0 && address->0[1] == 0 && address->0[2]
                == 0 && address->0[3] == 0;
            let found = address is Some && !zero;
            let link = IpWait::Link { left };
            let waiting = IpWait::Address { left };
            &&& link.look(false, address) == (
                IpWait::Link { left: (left - 1) as u8 },
                IpWaitAction::WaitForLink,
            )
            &&& found ==> link.look(true, address).1 == IpWaitAction::Done
            &&& !found ==> link.look(true, address) == (
                IpWait::Address { left: 9 },
                IpWaitAction::WaitForAddress,
            )
            &&& found ==> waiting.look(linked, address).1 == IpWaitAction::Done
            &&& !found ==> waiting.look(linked, address) == (
                IpWait::Address { left: (left - 1) as u8 },
                IpWaitAction::WaitForAddress,
            )
            &&& (IpWait::Link { left: 0 }).look(linked, address).1 == IpWaitAction::NoLink
            &&& (IpWait::Address { left: 0 }).look(linked, address).1 == IpWaitAction::NoAddress
        }),
{
    if address is Some {
        let ip = address->0@;
        if ip[0] == 0 && ip[1] == 0 && ip[2] == 0 && ip[3] == 0 {
            assert(ip =~= seq![0u8, 0, 0, 0]);
        } else {
            assert(seq![0u8, 0, 0, 0][0] == 0 && seq![0u8, 0, 0, 0][1] == 0 && seq![0u8, 0, 0, 0][2]
                == 0 && seq![0u8, 0, 0, 0][3] == 0);
        }
    }
}

/// A known network is in sight where a configured name and a found name are the
/// same, and only there.
pub proof fn known_means_the_same_name(
    networks: Seq<WifiCreds>,
    found: Seq<String>,
    i: int,
    j: int,
)
    ensures
        0 <= i < networks.len() && 0 <= j < found.len() && networks[i].ssid@ == found[j]@
            ==> any_known(networks, found),
        any_known(networks, found) ==> exists|a: int, b: int|
            0 <= a < networks.len() && 0 <= b < found.len() && (#[trigger] networks[a]).ssid@ == (
            #[trigger] found[b])@,
{
    if 0 <= i < networks.len() && 0 <= j < found.len() && networks[i].ssid@ == found[j]@ {
        assert(found[j]@ == networks[i].ssid@);
        assert(holds_text(found, networks[i].ssid@));
    }
    if any_known(networks, found) {
        let a = choose|a: int|
            0 <= a < networks.len() && holds_text(found, (#[trigger] networks[a]).ssid@);
        let b = choose|b: int| 0 <= b < found.len() && (#[trigger] found[b])@ == networks[a].ssid@;
        assert(networks[a].ssid@ == found[b]@);
    }
}

/// An address that is written with dots is read as its four numbers; a part
/// with a sign or a leading zero, and one over 255, is none.
pub proof fn written_addresses_are_read(a: u8, b: u8, c: u8, d: u8, n: nat, digits: Seq<char>)
    ensures
        dotted_address(
            text::decimal(a as nat) + seq!['.'] + (text::decimal(b as nat) + seq!['.'] + (
            text::decimal(c as nat) + seq!['.'] + text::decimal(d as nat))),
        ) == Some(seq![a, b, c, d]),
        n > 255 ==> strict_octet(text::decimal(n)) is None,
        digits.len() > 0 ==> strict_octet(seq!['0'] + digits) is None,
        strict_octet(seq!['+'] + digits) is None,
        strict_octet(Seq::empty()) is None,
{
    let last = text::decimal(d as nat);
    let third = text::decimal(c as nat) + seq!['.'] + last;
    let second = text::decimal(b as nat) + seq!['.'] + third;
    let whole = text::decimal(a as nat) + seq!['.'] + second;
    octets_are_strict(a);
    octets_are_strict(b);
    octets_are_strict(c);
    octets_are_strict(d);
    text::parts_stand_between_separators(text::decimal(a as nat), second, '.');
    text::parts_stand_between_separators(text::decimal(b as nat), third, '.');
    text::parts_stand_between_separators(text::decimal(c as nat), last, '.');
    text::parts_stand_between_separators(last, last, '.');
    let parts = text::split_at_char(whole, '.');
    assert(parts =~= seq![
        text::decimal(a as nat),
        text::decimal(b as nat),
        text::decimal(c as nat),
        text::decimal(d as nat),
    ]);
    assert(dotted_address(whole)->0 =~= seq![a, b, c, d]);
    text::written_numbers_are_read_back(n, 255);
}

proof fn octets_are_strict(n: u8)
    ensures
        strict_octet(text::decimal(n as nat)) == Some(n as nat),
        forall|i: int|
            0 <= i < text::decimal(n as nat).len() ==> #[trigger] text::decimal(n as nat)[i]
                != '.',
{
    text::written_numbers_are_read_back(n as nat, 255);
    let s = text::decimal(n as nat);
    assert forall|i: int| 0 <= i < s.len() implies #[trigger] s[i] != '.' by {
        assert('0' <= text::decimal(n as nat)[i] <= '9');
    }
    assert('0' <= text::decimal(n as nat)[0] <= '9');
    if n == 0 {
        assert(s.len() == 1);
    }
}

/// The words for how a network is secured.
pub proof fn methods_have_their_words(m: AuthMethod)
    ensures
        auth_text(None) == "unknown"@,
        auth_text(Some(m)) == (match m {
            AuthMethod::Open => "open"@,
            AuthMethod::Wep => "wep"@,
            AuthMethod::Wpa => "wpa"@,
            AuthMethod::Wpa2Personal => "wpa2"@,
            AuthMethod::WpaWpa2Personal => "wpa2"@,
            AuthMethod::Wpa2Enterprise => "wpa2-ent"@,
            AuthMethod::Wpa3Personal => "wpa3"@,
            AuthMethod::Wpa2Wpa3Personal => "wpa3"@,
            AuthMethod::Other => "unknown"@,
        }),
{
}

} // verus!
