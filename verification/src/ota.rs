//! Installing a new image: which slot it goes to, and the steps by which a
//! stream of bytes becomes an image that boots.

use vstd::prelude::*;
use crate::text;

verus! {

/// Unit in which flash is erased and written, in bytes.
pub const SECTOR: usize = 4_096;

/// Anything smaller is not an image.
pub const MIN_IMAGE: u32 = 65_536;

/// What an application partition is for.
#[derive(Debug, Clone, Copy, PartialEq, Eq, Structural)]
pub enum AppSlot {
    Factory,
    Ota { number: u8 },
    Test,
}

/// An entry of the partition table. Data partitions have no slot.
#[derive(Debug, Clone, Copy, PartialEq, Eq, Structural)]
pub struct Partition {
    pub slot: Option<AppSlot>,
    pub offset: u32,
    pub len: u32,
}

/// The partition can take a new image while `booted` runs.
pub open spec fn is_target(p: Partition, booted: AppSlot) -> bool {
    p.slot is Some && p.slot->0 != booted && p.slot->0 != AppSlot::Factory
}

/// The first partition that can take a new image. Nothing where the running
/// one is unknown or is no application.
pub fn inactive_slot(table: &Vec<Partition>, booted: Option<Partition>) -> (r: Option<Partition>)
    ensures
        booted is None || booted->0.slot is None ==> r is None,
        booted is Some && booted->0.slot is Some ==> match r {
            Some(p) => exists|i: int|
                0 <= i < table@.len() && #[trigger] table@[i] == p && is_target(
                    p,
                    booted->0.slot->0,
                ) && forall|j: int|
                    0 <= j < i ==> !is_target(#[trigger] table@[j], booted->0.slot->0),
            None => forall|j: int|
                0 <= j < table@.len() ==> !is_target(#[trigger] table@[j], booted->0.slot->0),
        },
{
    let running = match booted {
        Some(p) => match p.slot {
            Some(s) => s,
            None => return None,
        },
        None => return None,
    };
    let mut i: usize = 0;
    while i < table.len()
        invariant
            i <= table@.len(),
            booted is Some,
            booted->0.slot == Some(running),
            forall|j: int| 0 <= j < i ==> !is_target(#[trigger] table@[j], running),
        decreases table@.len() - i,
    {
        let p = table[i];
        if let Some(s) = p.slot {
            if s != running && s != AppSlot::Factory {
                assert(table@[i as int] == p);
                return Some(p);
            }
        }
        i += 1;
    }
    None
}

/// How an installation went.
#[derive(Debug, PartialEq, Eq)]
pub struct OtaReport {
    pub ok: bool,
    pub detail: String,
}

impl OtaReport {
    pub fn err(detail: &str) -> (r: Self)
        ensures
            !r.ok,
            r.detail@ == detail@,
    {
        OtaReport { ok: false, detail: detail.to_owned() }
    }

    /// The report as the reply to the upload.
    pub open spec fn json(self) -> Seq<char> {
        if self.ok {
            "{\"result\":\"ok\",\"detail\":\""@ + self.detail@ + "\"}"@
        } else {
            "{\"error\":\""@ + self.detail@ + "\"}"@
        }
    }

    pub fn to_json(&self) -> (s: String)
        ensures
            s@ == self.json(),
    {
        let mut s = if self.ok {
            "{\"result\":\"ok\",\"detail\":\"".to_owned()
        } else {
            "{\"error\":\"".to_owned()
        };
        s.append(self.detail.as_str());
        s.append("\"}");
        s
    }
}

/// What the installer asks for next.
#[derive(Debug, PartialEq, Eq)]
pub enum OtaAction {
    /// Read up to `len` bytes into the sector buffer, from index `at` on.
    Read { at: usize, len: usize },
    /// Write the first `len` bytes of the sector buffer to flash.
    Write { offset: u32, len: usize },
    /// Make the new slot the one that boots.
    Activate,
    /// It is over; reboot where the report says that it worked.
    Finish { report: OtaReport },
}

/// What came of the last action.
#[derive(Debug, PartialEq, Eq)]
pub enum OtaEvent {
    /// So many bytes came; none at the end of the stream.
    Read { bytes: usize },
    ReadFailed,
    Written,
    WriteFailed,
    Activated,
    /// With the reason.
    ActivateFailed { reason: String },
}

/// What the installer waits for.
#[derive(Debug, Clone, Copy, PartialEq, Eq, Structural)]
pub enum OtaPhase {
    Reading,
    Writing,
    Activating,
    Over,
}

/// An installation under way.
#[derive(Debug, Clone, Copy, PartialEq, Eq, Structural)]
pub struct OtaSession {
    /// Size of the image.
    pub total: u32,
    /// Where the slot begins in flash.
    pub offset: u32,
    /// Bytes that are in flash.
    pub written: u32,
    /// Bytes that are in the sector buffer.
    pub filled: usize,
    pub phase: OtaPhase,
}

impl OtaSession {
    /// Bytes that the current sector is to hold.
    pub open spec fn want(self) -> int {
        if self.total - self.written < SECTOR {
            self.total - self.written
        } else {
            SECTOR as int
        }
    }

    pub open spec fn wf(self) -> bool {
        &&& self.total >= MIN_IMAGE
        &&& self.offset + self.total <= u32::MAX
        &&& self.written + self.filled <= self.total
        &&& match self.phase {
            OtaPhase::Reading => self.filled < self.want(),
            OtaPhase::Writing => 0 < self.filled <= self.want(),
            OtaPhase::Activating => self.written == self.total && self.filled == 0,
            OtaPhase::Over => true,
        }
    }

    /// The event answers the last action.
    pub open spec fn expects(self, e: OtaEvent) -> bool {
        match self.phase {
            OtaPhase::Reading => e is ReadFailed || (e is Read && e->bytes <= self.want()
                - self.filled),
            OtaPhase::Writing => e is Written || e is WriteFailed,
            OtaPhase::Activating => e is Activated || e is ActivateFailed,
            OtaPhase::Over => false,
        }
    }

    /// The session after an event.
    pub open spec fn after(self, e: OtaEvent) -> OtaSession {
        let over = OtaSession { phase: OtaPhase::Over, ..self };
        match e {
            OtaEvent::Read { bytes } => {
                let filled = self.filled + bytes;
                if bytes > 0 && filled < self.want() {
                    OtaSession { filled: filled as usize, ..self }
                } else if filled == 0 {
                    over
                } else {
                    OtaSession { filled: filled as usize, phase: OtaPhase::Writing, ..self }
                }
            },
            OtaEvent::Written => {
                let written = self.written + self.filled;
                OtaSession {
                    written: written as u32,
                    filled: 0,
                    phase: if written < self.total {
                        OtaPhase::Reading
                    } else {
                        OtaPhase::Activating
                    },
                    ..self
                }
            },
            _ => over,
        }
    }

    /// What the session asks for in its current phase; `Over` has no action.
    pub open spec fn asks(self) -> Option<OtaAction> {
        match self.phase {
            OtaPhase::Reading => Some(
                OtaAction::Read {
                    at: self.filled,
                    len: (self.want() - self.filled) as usize,
                },
            ),
            OtaPhase::Writing => Some(
                OtaAction::Write {
                    offset: (self.offset + self.written) as u32,
                    len: self.filled,
                },
            ),
            OtaPhase::Activating => Some(OtaAction::Activate),
            OtaPhase::Over => None,
        }
    }

    /// The words of the report with which an event ends the session.
    pub open spec fn last_words(self, e: OtaEvent) -> Seq<char> {
        match e {
            OtaEvent::Read { .. } => "stream ended early"@,
            OtaEvent::ReadFailed => "read error mid-stream"@,
            OtaEvent::WriteFailed => "flash write failed"@,
            OtaEvent::ActivateFailed { reason } => "activate failed: "@ + reason@,
            _ => text::decimal(self.written as nat) + " bytes, rebooting"@,
        }
    }

    /// Checks an upload against the slot that it would go to.
    pub fn start(total: u32, slot: Result<Partition, String>) -> (r: Result<OtaSession, OtaReport>)
        requires
            slot is Ok ==> slot->Ok_0.offset + slot->Ok_0.len <= u32::MAX,
        ensures
            total < MIN_IMAGE ==> r is Err && r->Err_0.detail@
                == "image too small / no Content-Length"@,
            total >= MIN_IMAGE && slot is Err ==> r is Err && r->Err_0.detail@
                == "no inactive OTA slot: "@ + slot->Err_0@,
            total >= MIN_IMAGE && slot is Ok && total > slot->Ok_0.len ==> r is Err
                && r->Err_0.detail@ == "image larger than OTA partition"@,
            total >= MIN_IMAGE && slot is Ok && total <= slot->Ok_0.len ==> r == Ok::<
                OtaSession,
                OtaReport,
            >(
                OtaSession {
                    total,
                    offset: slot->Ok_0.offset,
                    written: 0,
                    filled: 0,
                    phase: OtaPhase::Reading,
                },
            ),
            r is Ok ==> r->Ok_0.wf(),
            r is Ok ==> 64 * 1_024 <= total <= slot->Ok_0.len,
            64 * 1_024 <= total && slot is Ok && total <= slot->Ok_0.len ==> r is Ok,
            r is Err ==> !r->Err_0.ok,
    {
        if total < MIN_IMAGE {
            return Err(OtaReport::err("image too small / no Content-Length"));
        }
        let target = match slot {
            Ok(p) => p,
            Err(e) => {
                let detail = text::join("no inactive OTA slot: ", e.as_str());
                return Err(OtaReport::err(detail.as_str()));
            },
        };
        if total > target.len {
            return Err(OtaReport::err("image larger than OTA partition"));
        }
        Ok(
            OtaSession {
                total,
                offset: target.offset,
                written: 0,
                filled: 0,
                phase: OtaPhase::Reading,
            },
        )
    }

    /// The action to begin with.
    pub fn first_action(&self) -> (a: OtaAction)
        requires
            self.wf(),
            self.phase == OtaPhase::Reading,
        ensures
            Some(a) == self.asks(),
    {
        OtaAction::Read { at: self.filled, len: self.sector_want() - self.filled }
    }

    fn sector_want(&self) -> (n: usize)
        requires
            self.written <= self.total,
        ensures
            n == self.want(),
    {
        let left: u32 = self.total - self.written;
        if (left as usize) < SECTOR {
            left as usize
        } else {
            SECTOR
        }
    }

    /// Takes note of what the last action came to, and says what is next.
    pub fn step(&mut self, e: OtaEvent) -> (a: OtaAction)
        requires
            old(self).wf(),
            old(self).expects(e),
        ensures
            final(self).wf(),
            *final(self) == old(self).after(e),
            final(self).asks() is Some ==> final(self).asks() == Some(a),
            final(self).asks() is None ==> a is Finish && a->report.ok == (e is Activated)
                && a->report.detail@ == old(self).last_words(e),
    {
        let want: usize = self.sector_want();
        match e {
            OtaEvent::Read { bytes } => {
                let filled: usize = self.filled + bytes;
                if bytes > 0 && filled < want {
                    self.filled = filled;
                    return OtaAction::Read { at: filled, len: want - filled };
                }
                if filled == 0 {
                    self.phase = OtaPhase::Over;
                    return OtaAction::Finish { report: OtaReport::err("stream ended early") };
                }
                self.filled = filled;
                self.phase = OtaPhase::Writing;
                OtaAction::Write { offset: self.offset + self.written, len: filled }
            },
            OtaEvent::ReadFailed => {
                self.phase = OtaPhase::Over;
                OtaAction::Finish { report: OtaReport::err("read error mid-stream") }
            },
            OtaEvent::Written => {
                self.written = self.written + self.filled as u32;
                self.filled = 0;
                if self.written < self.total {
                    self.phase = OtaPhase::Reading;
                    OtaAction::Read { at: 0, len: self.sector_want() }
                } else {
                    self.phase = OtaPhase::Activating;
                    OtaAction::Activate
                }
            },
            OtaEvent::WriteFailed => {
                self.phase = OtaPhase::Over;
                OtaAction::Finish { report: OtaReport::err("flash write failed") }
            },
            OtaEvent::Activated => {
                self.phase = OtaPhase::Over;
                let count = text::decimal_u64(self.written as u64);
                let detail = text::join(count.as_str(), " bytes, rebooting");
                OtaAction::Finish { report: OtaReport { ok: true, detail } }
            },
            OtaEvent::ActivateFailed { reason } => {
                self.phase = OtaPhase::Over;
                let detail = text::join("activate failed: ", reason.as_str());
                OtaAction::Finish { report: OtaReport::err(detail.as_str()) }
            },
        }
    }
}

/// A slot is activated only once the whole image is in flash.
pub proof fn only_whole_images_boot(s: OtaSession)
    requires
        s.wf(),
        s.asks() == Some(OtaAction::Activate),
    ensures
        s.written == s.total,
{
}

/// Every write goes right behind the bytes that are in flash, and stays inside
/// the image's part of the slot: no gap, no overlap, nothing beyond.
pub proof fn writes_are_contiguous(s: OtaSession)
    requires
        s.wf(),
        s.asks() is Some,
        s.asks()->0 is Write,
    ensures
        s.asks()->0->offset == s.offset + s.written,
        0 < s.asks()->0->Write_len <= SECTOR,
        s.asks()->0->offset + s.asks()->0->Write_len <= s.offset + s.total,
        s.after(OtaEvent::Written).written == s.written + s.asks()->0->Write_len,
{
}

/// A stream that ends early, or any failure, ends the session without
/// activating the slot.
pub proof fn failures_never_activate(s: OtaSession, e: OtaEvent)
    requires
        s.wf(),
        s.expects(e),
        e is ReadFailed || e is WriteFailed || (e is Read && e->bytes == 0 && s.filled == 0),
    ensures
        s.after(e).phase == OtaPhase::Over,
        s.after(e).asks() is None,
{
}

/// A new image goes to an application slot that is neither the one that runs
/// nor the factory one.
pub proof fn images_go_to_idle_slots(p: Partition, booted: AppSlot, number: u8)
    ensures
        p.slot is None ==> !is_target(p, booted),
        p.slot == Some(booted) ==> !is_target(p, booted),
        p.slot == Some(AppSlot::Factory) ==> !is_target(p, booted),
        p.slot == Some(AppSlot::Ota { number }) && booted != (AppSlot::Ota { number }) ==> is_target(
            p,
            booted,
        ),
        p.slot == Some(AppSlot::Test) && booted != AppSlot::Test ==> is_target(p, booted),
{
}

/// The image is read in sectors of 4096 bytes, the last one as long as what is
/// left: each piece goes right behind the one before it, a sector is written
/// when it is full or the stream has ended, and the next one starts behind it.
pub proof fn sectors_are_filled_and_written(s: OtaSession, n: usize)
    requires
        s.wf(),
        s.phase == OtaPhase::Reading,
    ensures
        ({
            let left = s.total - s.written;
            let sector = if left < 4_096 { left } else { 4_096 };
            let rest = sector - s.filled;
            let next = s.after(OtaEvent::Read { bytes: n });
            &&& s.asks() == Some(OtaAction::Read { at: s.filled, len: rest as usize })
            &&& 0 < n < rest ==> next.phase == OtaPhase::Reading && next.filled == s.filled + n
            &&& n == rest ==> next.phase == OtaPhase::Writing && next.filled == sector
            &&& n == 0 && s.filled > 0 ==> next.phase == OtaPhase::Writing && next.filled == s.filled
            &&& n == 0 && s.filled == 0 ==> next.phase == OtaPhase::Over
            &&& next.written == s.written && next.total == s.total && next.offset == s.offset
        }),
{
}

/// Once a sector is in flash, reading goes on until the whole image is, and then
/// the slot is activated.
pub proof fn writing_goes_on_to_the_end(s: OtaSession)
    requires
        s.wf(),
        s.phase == OtaPhase::Writing,
    ensures
        ({
            let next = s.after(OtaEvent::Written);
            &&& next.written == s.written + s.filled
            &&& next.filled == 0
            &&& next.phase == OtaPhase::Activating <==> s.written + s.filled == s.total
            &&& next.phase == OtaPhase::Reading <==> s.written + s.filled < s.total
            &&& next.total == s.total && next.offset == s.offset
            &&& next.wf()
        }),
        s.asks() == Some(
            OtaAction::Write { offset: (s.offset + s.written) as u32, len: s.filled },
        ),
{
}

/// A report says how it went and what happened; the words of a failure name it.
pub proof fn reports_say_what_happened(s: OtaSession, r: OtaReport, reason: String, n: usize)
    ensures
        r.ok ==> r.json() == "{\"result\":\"ok\",\"detail\":\""@ + r.detail@ + "\"}"@,
        !r.ok ==> r.json() == "{\"error\":\""@ + r.detail@ + "\"}"@,
        s.last_words(OtaEvent::Activated) == text::decimal(s.written as nat)
            + " bytes, rebooting"@,
        s.last_words(OtaEvent::Read { bytes: n }) == "stream ended early"@,
        s.last_words(OtaEvent::ReadFailed) == "read error mid-stream"@,
        s.last_words(OtaEvent::WriteFailed) == "flash write failed"@,
        s.last_words(OtaEvent::ActivateFailed { reason }) == "activate failed: "@ + reason@,
{
}

} // verus!
