//! The small console of the device without an operating system. It is the one
//! interface that works without a network.

use vstd::prelude::*;
use crate::state::{DeviceSnapshot, WaterControlState};
use crate::text;
use crate::traits::WifiState;

verus! {

/// Longest line in bytes.
pub const LINE_CAPACITY: usize = 80;

/// `heapless::String`, of which the library sees only the contents.
#[verifier::external_type_specification]
#[verifier::external_body]
pub struct ExFixedString<const N: usize>(heapless::String<N>);

/// The characters in a line buffer.
pub uninterp spec fn line_chars(line: heapless::String<80>) -> Seq<char>;

/// `heapless::String::new`: an empty buffer.
#[verifier::external_body]
fn new_line() -> (line: heapless::String<80>)
    ensures
        line_chars(line) == Seq::<char>::empty(),
{
    heapless::String::new()
}

/// `heapless::String::push`: the character goes to the end where its UTF-8
/// bytes still fit; otherwise the buffer refuses it and stays as it is.
#[verifier::external_body]
fn push_char(line: &mut heapless::String<80>, c: char) -> (r: Result<(), ()>)
    ensures
        r is Ok == (vstd::utf8::encode_utf8(line_chars(*old(line)).push(c)).len() <= 80),
        r is Ok ==> line_chars(*final(line)) == line_chars(*old(line)).push(c),
        r is Err ==> line_chars(*final(line)) == line_chars(*old(line)),
{
    line.push(c)
}

/// `heapless::String::pop`: takes the last character, if there is one.
#[verifier::external_body]
fn pop_char(line: &mut heapless::String<80>) -> (c: Option<char>)
    ensures
        line_chars(*old(line)).len() == 0 ==> c is None && line_chars(*final(line)) == line_chars(
            *old(line),
        ),
        line_chars(*old(line)).len() > 0 ==> c == Some(line_chars(*old(line)).last())
            && line_chars(*final(line)) == line_chars(*old(line)).drop_last(),
{
    line.pop()
}

/// `heapless::String::clear`: leaves nothing in the buffer.
#[verifier::external_body]
fn clear_line(line: &mut heapless::String<80>)
    ensures
        line_chars(*final(line)) == Seq::<char>::empty(),
{
    line.clear()
}

/// `heapless::String::as_str`: the characters in the buffer.
#[verifier::external_body]
fn line_text(line: &heapless::String<80>) -> (s: &str)
    ensures
        s@ == line_chars(*line),
{
    line.as_str()
}

pub open spec fn ends_line(byte: u8) -> bool {
    byte == 13 || byte == 10
}

pub open spec fn rubs_out(byte: u8) -> bool {
    byte == 8 || byte == 127
}

/// The line with one more character fits into the buffer.
pub open spec fn fits(line: Seq<char>, byte: u8) -> bool {
    vstd::utf8::encode_utf8(line.push(byte as char)).len() <= LINE_CAPACITY
}

/// The line after a byte. One that gets too long is dropped.
pub open spec fn edited(line: Seq<char>, byte: u8) -> Seq<char> {
    if ends_line(byte) {
        Seq::empty()
    } else if rubs_out(byte) {
        if line.len() > 0 {
            line.drop_last()
        } else {
            line
        }
    } else if fits(line, byte) {
        line.push(byte as char)
    } else {
        Seq::empty()
    }
}

/// Collects bytes into lines.
pub struct LineReader {
    line: heapless::String<80>,
}

impl View for LineReader {
    type V = Seq<char>;

    closed spec fn view(&self) -> Seq<char> {
        line_chars(self.line)
    }
}

impl LineReader {
    pub fn new() -> (r: Self)
        ensures
            r@ == Seq::<char>::empty(),
    {
        LineReader { line: new_line() }
    }

    /// Takes a byte. At the end of a line the line comes back.
    pub fn feed(&mut self, byte: u8) -> (line: Option<String>)
        ensures
            final(self)@ == edited(old(self)@, byte),
            line is Some == ends_line(byte),
            line is Some ==> line->0@ == old(self)@,
    {
        if byte == 13 || byte == 10 {
            let whole = line_text(&self.line).to_owned();
            clear_line(&mut self.line);
            Some(whole)
        } else if byte == 8 || byte == 127 {
            let _ = pop_char(&mut self.line);
            None
        } else {
            if push_char(&mut self.line, byte as char).is_err() {
                clear_line(&mut self.line);
            }
            None
        }
    }
}

/// One thing to do for a command.
#[derive(Debug, PartialEq, Eq)]
pub enum Step {
    /// Logs a line.
    Say(String),
    /// Logs what [`heap_line`] gives.
    ReportHeap,
    /// Asks for a reboot.
    Reboot,
    /// Removes the stored configuration and logs what [`erase_line`] gives.
    EraseConfig,
    /// Stores that the next start is to open the setup access point.
    StoreApMode,
    ClearAlarm,
}

/// A step by its contents.
pub enum StepView {
    Say(Seq<char>),
    ReportHeap,
    Reboot,
    EraseConfig,
    StoreApMode,
    ClearAlarm,
}

impl View for Step {
    type V = StepView;

    open spec fn view(&self) -> StepView {
        match *self {
            Step::Say(line) => StepView::Say(line@),
            Step::ReportHeap => StepView::ReportHeap,
            Step::Reboot => StepView::Reboot,
            Step::EraseConfig => StepView::EraseConfig,
            Step::StoreApMode => StepView::StoreApMode,
            Step::ClearAlarm => StepView::ClearAlarm,
        }
    }
}

pub open spec fn step_views(steps: Seq<Step>) -> Seq<StepView> {
    Seq::new(steps.len(), |i: int| steps[i]@)
}

pub open spec fn wifi_line(wifi: Option<WifiState>) -> Seq<char> {
    match wifi {
        Some(WifiState::Connected { ssid, ip }) => "serial: wifi connected "@ + ssid@ + " ip="@
            + ip@,
        Some(WifiState::ApMode { ssid, ip }) => "serial: wifi AP-mode "@ + ssid@ + " ip="@ + ip@,
        Some(WifiState::Connecting { ssid }) => "serial: wifi connecting to "@ + ssid@,
        _ => "serial: wifi disconnected"@,
    }
}

pub open spec fn water_name(state: WaterControlState) -> Seq<char> {
    match state {
        WaterControlState::Off => "Off"@,
        WaterControlState::On => "On"@,
        WaterControlState::Transitioning => "Transitioning"@,
    }
}

/// The three lines of a status report.
pub open spec fn status_lines(snap: DeviceSnapshot, uptime_secs: u64) -> Seq<Seq<char>> {
    seq![
        "serial: uptime="@ + text::decimal(uptime_secs as nat) + "s fw="@ + snap.firmware_version@
            + " mqtt="@ + text::truth(snap.network.mqtt_connected),
        wifi_line(snap.network.wifi),
        "serial: switches s1="@ + text::truth(snap.switches.sprinkler_1) + " s2="@ + text::truth(
            snap.switches.sprinkler_2,
        ) + " water="@ + water_name(snap.switches.water_control),
    ]
}

fn status(snap: &DeviceSnapshot, uptime_secs: u64) -> (steps: Vec<Step>)
    ensures
        step_views(steps@) == said(status_lines(*snap, uptime_secs)),
{
    let uptime = text::decimal_u64(uptime_secs);
    let mut first = text::join("serial: uptime=", uptime.as_str());
    first.append("s fw=");
    first.append(snap.firmware_version.as_str());
    first.append(" mqtt=");
    first.append(text::truth_text(snap.network.mqtt_connected));
    let second = match &snap.network.wifi {
        Some(WifiState::Connected { ssid, ip }) => {
            let mut s = text::join("serial: wifi connected ", ssid.as_str());
            s.append(" ip=");
            s.append(ip.as_str());
            s
        },
        Some(WifiState::ApMode { ssid, ip }) => {
            let mut s = text::join("serial: wifi AP-mode ", ssid.as_str());
            s.append(" ip=");
            s.append(ip.as_str());
            s
        },
        Some(WifiState::Connecting { ssid }) => {
            text::join("serial: wifi connecting to ", ssid.as_str())
        },
        _ => "serial: wifi disconnected".to_owned(),
    };
    let s1 = text::truth_text(snap.switches.sprinkler_1);
    let mut third = text::join("serial: switches s1=", s1);
    third.append(" s2=");
    third.append(text::truth_text(snap.switches.sprinkler_2));
    third.append(" water=");
    match snap.switches.water_control {
        WaterControlState::Off => {
            third.append("Off");
        },
        WaterControlState::On => {
            third.append("On");
        },
        WaterControlState::Transitioning => {
            third.append("Transitioning");
        },
    }
    let steps = vec![Step::Say(first), Step::Say(second), Step::Say(third)];
    assert(step_views(steps@) =~= said(status_lines(*snap, uptime_secs)));
    steps
}

pub open spec fn said(lines: Seq<Seq<char>>) -> Seq<StepView> {
    Seq::new(lines.len(), |i: int| StepView::Say(lines[i]))
}

/// What a line leads to. White space around a command is ignored; inside of it
/// nothing is.
pub open spec fn line_steps(line: Seq<char>, snap: DeviceSnapshot, uptime_secs: u64) -> Seq<
    StepView,
> {
    let cmd = text::trimmed(line);
    if cmd.len() == 0 {
        Seq::empty()
    } else if cmd == "help"@ {
        said(
            seq![
                "serial: commands — help | status | diag | reset | config reset | ap | alarm clear"@,
            ],
        )
    } else if cmd == "status"@ {
        said(status_lines(snap, uptime_secs))
    } else if cmd == "diag"@ {
        seq![StepView::ReportHeap]
    } else if cmd == "reset"@ {
        seq![StepView::Say("serial: resetting…"@), StepView::Reboot]
    } else if cmd == "config reset"@ {
        seq![StepView::EraseConfig]
    } else if cmd == "ap"@ {
        seq![
            StepView::StoreApMode,
            StepView::Say("serial: AP setup mode set — rebooting"@),
            StepView::Reboot,
        ]
    } else if cmd == "alarm clear"@ {
        seq![StepView::ClearAlarm, StepView::Say("serial: flow alarm cleared"@)]
    } else {
        said(seq!["serial: unknown command '"@ + cmd + "' (try 'help')"@])
    }
}

/// The steps that a line leads to, in order.
pub fn handle(line: &str, snap: &DeviceSnapshot, uptime_secs: u64) -> (steps: Vec<Step>)
    ensures
        step_views(steps@) == line_steps(line@, *snap, uptime_secs),
{
    let trimmed = text::trim(line);
    let cmd = trimmed.as_str();
    let mut steps: Vec<Step> = Vec::new();
    if cmd.is_empty() {
    } else if text::same(cmd, "help") {
        steps.push(
            Step::Say(
                "serial: commands — help | status | diag | reset | config reset | ap | alarm clear".to_owned(),
            ),
        );
    } else if text::same(cmd, "status") {
        steps = status(snap, uptime_secs);
    } else if text::same(cmd, "diag") {
        steps.push(Step::ReportHeap);
    } else if text::same(cmd, "reset") {
        steps.push(Step::Say("serial: resetting…".to_owned()));
        steps.push(Step::Reboot);
    } else if text::same(cmd, "config reset") {
        steps.push(Step::EraseConfig);
    } else if text::same(cmd, "ap") {
        steps.push(Step::StoreApMode);
        steps.push(Step::Say("serial: AP setup mode set — rebooting".to_owned()));
        steps.push(Step::Reboot);
    } else if text::same(cmd, "alarm clear") {
        steps.push(Step::ClearAlarm);
        steps.push(Step::Say("serial: flow alarm cleared".to_owned()));
    } else {
        let mut line = text::join("serial: unknown command '", cmd);
        line.append("' (try 'help')");
        steps.push(Step::Say(line));
    }
    assert(step_views(steps@) =~= line_steps(line@, *snap, uptime_secs));
    steps
}

pub fn heap_line(free: usize, used: usize) -> (line: String)
    ensures
        line@ == "serial: heap_free="@ + text::decimal(free as nat) + " heap_used="@
            + text::decimal(used as nat),
{
    let mut line = text::join("serial: heap_free=", text::decimal_u64(free as u64).as_str());
    line.append(" heap_used=");
    line.append(text::decimal_u64(used as u64).as_str());
    line
}

/// The line after an attempt to remove the configuration, with the error where
/// it failed.
pub fn erase_line(error: Option<&str>) -> (line: String)
    ensures
        line@ == (match error {
            Some(e) => "serial: config reset failed: "@ + e@,
            None => "serial: config erased — run 'reset' to boot defaults"@,
        }),
{
    match error {
        Some(e) => text::join("serial: config reset failed: ", e),
        None => "serial: config erased — run 'reset' to boot defaults".to_owned(),
    }
}

/// The line never holds more than its capacity.
pub proof fn line_stays_within_capacity(line: Seq<char>, byte: u8)
    requires
        vstd::utf8::encode_utf8(line).len() <= LINE_CAPACITY,
    ensures
        vstd::utf8::encode_utf8(edited(line, byte)).len() <= LINE_CAPACITY,
{
    if rubs_out(byte) && line.len() > 0 {
        assert(line.drop_last().push(line.last()) =~= line);
        longer_text_is_not_shorter(line.drop_last(), line.last());
    }
}

proof fn longer_text_is_not_shorter(s: Seq<char>, c: char)
    ensures
        vstd::utf8::encode_utf8(s).len() <= vstd::utf8::encode_utf8(s.push(c)).len(),
    decreases s.len(),
{
    if s.len() > 0 {
        longer_text_is_not_shorter(s.drop_first(), c);
        assert(s.push(c).drop_first() =~= s.drop_first().push(c));
        assert(s.push(c)[0] == s[0]);
    }
}

/// A line of ASCII grows by each visible character while it is shorter than 80,
/// is dropped by one more, loses its last character to either rub-out, and
/// starts over behind either line end.
pub proof fn lines_are_typed(line: Seq<char>, byte: u8)
    requires
        vstd::utf8::is_ascii_chars(line),
        byte <= 127,
    ensures
        byte == 10 || byte == 13 ==> edited(line, byte).len() == 0 && ends_line(byte),
        byte != 10 && byte != 13 ==> !ends_line(byte),
        (byte == 8 || byte == 127) && line.len() > 0 ==> edited(line, byte) == line.subrange(
            0,
            line.len() - 1,
        ),
        (byte == 8 || byte == 127) && line.len() == 0 ==> edited(line, byte).len() == 0,
        32 <= byte <= 126 && line.len() < 80 ==> edited(line, byte) == line.push(byte as char),
        32 <= byte <= 126 && line.len() >= 80 ==> edited(line, byte).len() == 0,
{
    let longer = line.push(byte as char);
    assert forall|i: int| 0 <= i < longer.len() implies '\0' <= #[trigger] longer[i] <= '\u{7f}' by {
        if i < line.len() {
            assert(longer[i] == line[i]);
        }
    }
    vstd::utf8::is_ascii_chars_encode_utf8(longer);
    if line.len() > 0 {
        assert(line.drop_last() =~= line.subrange(0, line.len() - 1));
    }
}

/// What each command does, and that no other line does it: two commands restart
/// the device, one removes the configuration, one opens the access point, one
/// clears the alarm, one reports the heap. White space around a command changes
/// nothing.
pub proof fn commands_do_what_they_say(
    before: Seq<char>,
    cmd: Seq<char>,
    after: Seq<char>,
    snap: DeviceSnapshot,
    uptime_secs: u64,
)
    requires
        forall|i: int| 0 <= i < before.len() ==> text::is_white(#[trigger] before[i]),
        forall|i: int| 0 <= i < after.len() ==> text::is_white(#[trigger] after[i]),
        cmd.len() > 0,
        !text::is_white(cmd[0]),
        !text::is_white(cmd.last()),
    ensures
        ({
            let steps = line_steps(before + cmd + after, snap, uptime_secs);
            &&& steps == line_steps(cmd, snap, uptime_secs)
            &&& steps.contains(StepView::Reboot) <==> cmd == "reset"@ || cmd == "ap"@
            &&& steps.contains(StepView::EraseConfig) <==> cmd == "config reset"@
            &&& steps.contains(StepView::StoreApMode) <==> cmd == "ap"@
            &&& steps.contains(StepView::ClearAlarm) <==> cmd == "alarm clear"@
            &&& steps.contains(StepView::ReportHeap) <==> cmd == "diag"@
            &&& cmd == "ap"@ ==> steps[0] == StepView::StoreApMode && steps.last()
                == StepView::Reboot
            &&& cmd == "reset"@ ==> steps.last() == StepView::Reboot
            &&& cmd == "status"@ ==> steps.len() == 3 && forall|i: int|
                0 <= i < 3 ==> #[trigger] steps[i] == StepView::Say(
                    status_lines(snap, uptime_secs)[i],
                )
        }),
{
    text::only_the_edges_are_trimmed(before, cmd, after);
    assert(cmd =~= Seq::<char>::empty() + cmd + Seq::<char>::empty());
    text::only_the_edges_are_trimmed(Seq::empty(), cmd, Seq::empty());
    reveal_strlit("help");
    reveal_strlit("status");
    reveal_strlit("diag");
    reveal_strlit("reset");
    reveal_strlit("config reset");
    reveal_strlit("ap");
    reveal_strlit("alarm clear");
    assert("help"@.len() == 4 && "status"@.len() == 6 && "diag"@.len() == 4 && "reset"@.len() == 5
        && "config reset"@.len() == 12 && "ap"@.len() == 2 && "alarm clear"@.len() == 11);
    assert("help"@[0] != "diag"@[0]);
    let steps = line_steps(before + cmd + after, snap, uptime_secs);
    if cmd == "reset"@ {
        assert(steps[1] == StepView::Reboot);
    } else if cmd == "ap"@ {
        assert(steps[0] == StepView::StoreApMode && steps[2] == StepView::Reboot);
    } else if cmd == "config reset"@ {
        assert(steps[0] == StepView::EraseConfig);
    } else if cmd == "alarm clear"@ {
        assert(steps[0] == StepView::ClearAlarm);
    } else if cmd == "diag"@ {
        assert(steps[0] == StepView::ReportHeap);
    }
}

/// A status report shows the uptime, the version and the broker, the link, and
/// each switch with its own level.
pub proof fn status_shows_the_state(snap: DeviceSnapshot, uptime_secs: u64)
    ensures
        ({
            let lines = status_lines(snap, uptime_secs);
            let word = |on: bool|
                if on {
                    "true"@
                } else {
                    "false"@
                };
            &&& lines.len() == 3
            &&& lines[0] == "serial: uptime="@ + text::decimal(uptime_secs as nat) + "s fw="@
                + snap.firmware_version@ + " mqtt="@ + word(snap.network.mqtt_connected)
            &&& lines[2] == "serial: switches s1="@ + word(snap.switches.sprinkler_1) + " s2="@
                + word(snap.switches.sprinkler_2) + " water="@ + (
            match snap.switches.water_control {
                WaterControlState::Off => "Off"@,
                WaterControlState::On => "On"@,
                WaterControlState::Transitioning => "Transitioning"@,
            })
            &&& snap.network.wifi matches Some(WifiState::Connected { ssid, ip }) ==> lines[1]
                == "serial: wifi connected "@ + ssid@ + " ip="@ + ip@
            &&& snap.network.wifi matches Some(WifiState::ApMode { ssid, ip }) ==> lines[1]
                == "serial: wifi AP-mode "@ + ssid@ + " ip="@ + ip@
            &&& snap.network.wifi matches Some(WifiState::Connecting { ssid }) ==> lines[1]
                == "serial: wifi connecting to "@ + ssid@
            &&& snap.network.wifi is None ==> lines[1] == "serial: wifi disconnected"@
        }),
{
}

} // verus!
