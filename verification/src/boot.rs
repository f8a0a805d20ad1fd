//! Decisions at start-up and about the health of the running image.

use vstd::prelude::*;
use crate::text;
use crate::traits::WifiCreds;

verus! {

/// Which side of the radio is brought up. Changing it takes a reboot.
#[derive(Debug, Clone, Copy, PartialEq, Eq, Structural)]
pub enum BootMode {
    /// Join a configured network.
    Sta,
    /// Open the setup access point.
    Ap,
}

/// Key under which the mode for the next boot is stored.
pub const BOOT_MODE_KEY: &'static str = "wc.bootmode";

/// The mode that a stored value stands for. Anything but a leading 1 stands
/// for the station.
pub open spec fn stored_mode(stored: Option<Seq<u8>>) -> BootMode {
    if stored is Some && stored->0.len() > 0 && stored->0[0] == 1 {
        BootMode::Ap
    } else {
        BootMode::Sta
    }
}

/// A stored value by its bytes.
pub open spec fn stored_bytes(stored: Option<Vec<u8>>) -> Option<Seq<u8>> {
    match stored {
        Some(b) => Some(b@),
        None => None,
    }
}

pub fn read_boot_mode(stored: &Option<Vec<u8>>) -> (m: BootMode)
    ensures
        m == stored_mode(stored_bytes(*stored)),
{
    match stored {
        Some(b) => if b.len() > 0 && b[0] == 1 {
            BootMode::Ap
        } else {
            BootMode::Sta
        },
        None => BootMode::Sta,
    }
}

/// The byte to store for a mode, where the stored value does not stand for it
/// already.
pub fn write_boot_mode(stored: &Option<Vec<u8>>, mode: BootMode) -> (byte: Option<u8>)
    ensures
        byte is None == (stored_mode(stored_bytes(*stored)) == mode),
        byte is Some ==> stored_mode(Some(seq![byte->0])) == mode,
        byte is Some ==> byte->0 == (if mode == BootMode::Ap { 1u8 } else { 0u8 }),
{
    if read_boot_mode(stored) == mode {
        return None;
    }
    let byte: u8 = match mode {
        BootMode::Sta => 0,
        BootMode::Ap => 1,
    };
    assert(seq![byte][0] == byte);
    Some(byte)
}

/// The setup access point is opened where there is no network to join, or
/// where the stored mode says so.
pub fn boots_into_ap(networks: &Vec<WifiCreds>, stored: &Option<Vec<u8>>) -> (r: bool)
    ensures
        r == (networks@.len() == 0 || stored_mode(stored_bytes(*stored)) == BootMode::Ap),
{
    networks.len() == 0 || read_boot_mode(stored) == BootMode::Ap
}

/// Whether a certificate has to be made, and for which name.
pub open spec fn certificate_name(
    cert: Seq<char>,
    key: Seq<char>,
    hostname: Seq<char>,
) -> Option<Seq<char>> {
    if cert.len() > 0 || key.len() > 0 {
        None
    } else if hostname.len() == 0 {
        Some("doremorwater"@)
    } else {
        Some(hostname + ".local"@)
    }
}

/// The name to make a certificate for, where neither certificate nor key is
/// configured.
pub fn missing_certificate(cert: &str, key: &str, hostname: &str) -> (name: Option<String>)
    ensures
        name is Some == certificate_name(cert@, key@, hostname@) is Some,
        name is Some ==> name->0@ == certificate_name(cert@, key@, hostname@)->0,
{
    if !cert.is_empty() || !key.is_empty() {
        return None;
    }
    if hostname.is_empty() {
        Some("doremorwater".to_owned())
    } else {
        Some(text::join(hostname, ".local"))
    }
}

/// Serial number of a certificate out of random bytes: positive, and not zero.
pub open spec fn serial_number(random: Seq<u8>) -> Seq<u8> {
    let first = (random[0] % 128) as u8;
    random.update(0, if first == 0 { 1u8 } else { first })
}

pub fn certificate_serial(random: [u8; 16]) -> (serial: [u8; 16])
    ensures
        serial@ == serial_number(random@),
        0 < serial@[0] < 128,
{
    let mut serial = random;
    let first: u8 = random[0] % 128;
    serial[0] = if first == 0 { 1 } else { first };
    assert(serial@ =~= serial_number(random@));
    serial
}

/// The bytes before the first zero, or all of them.
pub open spec fn before_zero(s: Seq<u8>) -> Seq<u8>
    decreases s.len(),
{
    if s.len() == 0 || s[0] == 0 {
        Seq::empty()
    } else {
        seq![s[0]] + before_zero(s.skip(1))
    }
}

/// The text in a buffer that a C function has ended with a zero. Nothing where
/// it is not valid text.
pub fn text_before_zero(buffer: &[u8]) -> (r: Option<String>)
    ensures
        r is Some == vstd::utf8::valid_utf8(before_zero(buffer@)),
        r is Some ==> r->0@ == vstd::utf8::decode_utf8(before_zero(buffer@)),
{
    let mut n: usize = 0;
    assert(buffer@.skip(0) =~= buffer@);
    assert(buffer@.take(0) + before_zero(buffer@) =~= before_zero(buffer@));
    while n < buffer.len() && buffer[n] != 0
        invariant
            n <= buffer@.len(),
            before_zero(buffer@) == buffer@.take(n as int) + before_zero(buffer@.skip(n as int)),
        decreases buffer@.len() - n,
    {
        assert(buffer@.skip(n as int).skip(1) =~= buffer@.skip(n + 1));
        assert(buffer@.take(n as int) + (seq![buffer@[n as int]] + before_zero(
            buffer@.skip(n + 1),
        )) =~= buffer@.take(n + 1) + before_zero(buffer@.skip(n + 1)));
        n += 1;
    }
    assert(before_zero(buffer@.skip(n as int)) =~= Seq::<u8>::empty());
    assert(before_zero(buffer@) =~= buffer@.take(n as int));
    let part = &buffer[0..n];
    assert(part@ =~= buffer@.take(n as int));
    match text::utf8_text(part) {
        Some(s) => Some(s.to_owned()),
        None => None,
    }
}

/// A text as a C string: its bytes, ended with a zero unless it has one there
/// already.
pub open spec fn zero_ended(s: Seq<u8>) -> Seq<u8> {
    if s.len() > 0 && s.last() == 0 {
        s
    } else {
        s.push(0)
    }
}

pub fn c_string_bytes(s: &str) -> (bytes: Vec<u8>)
    ensures
        bytes@ == zero_ended(vstd::utf8::encode_utf8(s@)),
{
    let mut bytes: Vec<u8> = s.as_bytes_vec();
    let n: usize = bytes.len();
    if n == 0 || bytes[n - 1] != 0 {
        bytes.push(0);
    }
    bytes
}

/// Uptime from which an image can count as healthy, in milliseconds.
pub const HEALTHY_UPTIME_MS: u64 = 60_000;

/// Least heap that a healthy image has left, in bytes.
pub const HEAP_FLOOR_BYTES: u32 = 20_480;

/// The running image has proven itself and is to be marked valid: it was not
/// marked before, it has run for a minute, the heap never got low, and it has
/// a network.
pub fn mark_image_valid(
    already_marked: bool,
    uptime_ms: u64,
    min_free_heap: u32,
    wifi_connected: bool,
) -> (r: bool)
    ensures
        r == (!already_marked && uptime_ms >= HEALTHY_UPTIME_MS && min_free_heap
            >= HEAP_FLOOR_BYTES && wifi_connected),
        r == (!already_marked && uptime_ms >= 60 * 1_000 && min_free_heap >= 20 * 1_024
            && wifi_connected),
{
    !already_marked && uptime_ms >= HEALTHY_UPTIME_MS && min_free_heap >= HEAP_FLOOR_BYTES
        && wifi_connected
}

/// Why the chip was reset.
#[derive(Debug, Clone, Copy, PartialEq, Eq, Structural)]
pub enum ResetReason {
    PowerOn,
    External,
    Software,
    Panic,
    InterruptWatchdog,
    TaskWatchdog,
    OtherWatchdog,
    DeepSleep,
    Brownout,
    Sdio,
    Unknown,
}

impl ResetReason {
    pub open spec fn text(self) -> Seq<char> {
        match self {
            ResetReason::PowerOn => "power-on"@,
            ResetReason::External => "external reset"@,
            ResetReason::Software => "software restart"@,
            ResetReason::Panic => "panic / exception"@,
            ResetReason::InterruptWatchdog => "interrupt watchdog"@,
            ResetReason::TaskWatchdog => "task watchdog"@,
            ResetReason::OtherWatchdog => "other watchdog"@,
            ResetReason::DeepSleep => "wake from deep sleep"@,
            ResetReason::Brownout => "brownout"@,
            ResetReason::Sdio => "sdio reset"@,
            ResetReason::Unknown => "unknown"@,
        }
    }
}

pub fn reset_reason_label(r: ResetReason) -> (s: &'static str)
    ensures
        s@ == r.text(),
{
    match r {
        ResetReason::PowerOn => "power-on",
        ResetReason::External => "external reset",
        ResetReason::Software => "software restart",
        ResetReason::Panic => "panic / exception",
        ResetReason::InterruptWatchdog => "interrupt watchdog",
        ResetReason::TaskWatchdog => "task watchdog",
        ResetReason::OtherWatchdog => "other watchdog",
        ResetReason::DeepSleep => "wake from deep sleep",
        ResetReason::Brownout => "brownout",
        ResetReason::Sdio => "sdio reset",
        ResetReason::Unknown => "unknown",
    }
}

/// A stored one opens the access point; any other byte, and no byte, stands for
/// the station.
pub proof fn only_a_one_opens_the_access_point(byte: u8, more: Seq<u8>)
    ensures
        stored_mode(Some(seq![byte] + more)) == BootMode::Ap <==> byte == 1,
        stored_mode(Some(seq![byte] + more)) == BootMode::Sta <==> byte != 1,
        stored_mode(Some(Seq::empty())) == BootMode::Sta,
        stored_mode(None) == BootMode::Sta,
{
    assert((seq![byte] + more)[0] == byte);
}

/// A certificate is made only where neither part of one is there, for the host
/// name in the `local` domain.
pub proof fn certificates_are_made_where_missing(
    cert: Seq<char>,
    key: Seq<char>,
    hostname: Seq<char>,
)
    ensures
        certificate_name(cert, key, hostname) is Some <==> cert.len() == 0 && key.len() == 0,
        cert.len() == 0 && key.len() == 0 && hostname.len() > 0 ==> certificate_name(
            cert,
            key,
            hostname,
        ) == Some(hostname + ".local"@),
        cert.len() == 0 && key.len() == 0 && hostname.len() == 0 ==> certificate_name(
            cert,
            key,
            hostname,
        ) == Some("doremorwater"@),
{
}

/// A serial number keeps its random bytes but for the first, which loses its
/// highest bit and is never zero.
pub proof fn serial_numbers_keep_their_bytes(random: Seq<u8>, i: int)
    requires
        0 < random.len(),
        0 < i < random.len(),
    ensures
        serial_number(random).len() == random.len(),
        serial_number(random)[i] == random[i],
        0 < serial_number(random)[0] < 128,
        0 < random[0] < 128 ==> serial_number(random) == random,
        random[0] > 128 ==> serial_number(random)[0] == random[0] - 128,
{
    if 0 < random[0] < 128 {
        assert(serial_number(random) =~= random);
    }
}

/// Text ends before the first zero, or with the buffer; and a text that is ended
/// with a zero is read back from its bytes.
pub proof fn zeros_end_texts(text: Seq<u8>, rest: Seq<u8>)
    requires
        forall|i: int| 0 <= i < text.len() ==> #[trigger] text[i] != 0,
    ensures
        before_zero(text) == text,
        before_zero(text + seq![0u8] + rest) == text,
        zero_ended(text) == text.push(0),
        zero_ended(zero_ended(text)) == zero_ended(text),
        before_zero(zero_ended(text)) == text,
    decreases text.len(),
{
    let whole = text + seq![0u8] + rest;
    assert(zero_ended(text).last() == 0);
    if text.len() == 0 {
        assert(whole[0] == 0);
        assert(before_zero(text) =~= text);
        assert(before_zero(whole) =~= text);
        assert(before_zero(zero_ended(text)) =~= text);
    } else {
        zeros_end_texts(text.skip(1), rest);
        assert(whole[0] == text[0]);
        assert(whole.skip(1) =~= text.skip(1) + seq![0u8] + rest);
        assert(seq![text[0]] + text.skip(1) =~= text);
        assert(zero_ended(text).skip(1) =~= zero_ended(text.skip(1)));
        assert(text.last() == text[text.len() - 1]);
    }
}

/// The words for why the chip was reset.
pub proof fn resets_have_their_words(r: ResetReason)
    ensures
        r.text() == (match r {
            ResetReason::PowerOn => "power-on"@,
            ResetReason::External => "external reset"@,
            ResetReason::Software => "software restart"@,
            ResetReason::Panic => "panic / exception"@,
            ResetReason::InterruptWatchdog => "interrupt watchdog"@,
            ResetReason::TaskWatchdog => "task watchdog"@,
            ResetReason::OtherWatchdog => "other watchdog"@,
            ResetReason::DeepSleep => "wake from deep sleep"@,
            ResetReason::Brownout => "brownout"@,
            ResetReason::Sdio => "sdio reset"@,
            ResetReason::Unknown => "unknown"@,
        }),
{
}

} // verus!
