//! A ring of recent log records that subscribers can follow.
//!
//! Every subscriber has a queue of its own with a fixed capacity. A subscriber
//! that falls behind loses records; writing to the log never waits. A queue
//! without capacity hands a record over only to a receiver that waits for it.

use vstd::prelude::*;
use crate::text;
use std::collections::VecDeque;

verus! {

/// How severe a record is.
#[derive(Debug, Clone, Copy, PartialEq, Eq, Structural)]
pub enum LogLevel {
    Error,
    Warn,
    Info,
    Debug,
    Trace,
}

impl LogLevel {
    /// The number that records carry.
    pub fn number(&self) -> (n: u8)
        ensures
            n == (match *self {
                LogLevel::Error => 1u8,
                LogLevel::Warn => 2,
                LogLevel::Info => 3,
                LogLevel::Debug => 4,
                LogLevel::Trace => 5,
            }),
    {
        match self {
            LogLevel::Error => 1,
            LogLevel::Warn => 2,
            LogLevel::Info => 3,
            LogLevel::Debug => 4,
            LogLevel::Trace => 5,
        }
    }

    pub open spec fn letter_text(self) -> Seq<char> {
        match self {
            LogLevel::Error => "E"@,
            LogLevel::Warn => "W"@,
            LogLevel::Info => "I"@,
            LogLevel::Debug => "D"@,
            LogLevel::Trace => "T"@,
        }
    }

    /// The letter in console lines.
    pub fn letter(&self) -> (s: &'static str)
        ensures
            s@ == self.letter_text(),
    {
        match self {
            LogLevel::Error => "E",
            LogLevel::Warn => "W",
            LogLevel::Info => "I",
            LogLevel::Debug => "D",
            LogLevel::Trace => "T",
        }
    }
}

/// A line for the console.
pub open spec fn console_text(
    ms: u64,
    level: LogLevel,
    target: Seq<char>,
    message: Seq<char>,
) -> Seq<char> {
    text::decimal(ms as nat) + " "@ + level.letter_text() + " "@ + target + ": "@ + message
}

pub fn console_line(ms: u64, level: LogLevel, target: &str, message: &str) -> (line: String)
    ensures
        line@ == console_text(ms, level, target@, message@),
{
    let mut line = text::decimal_u64(ms);
    line.append(" ");
    line.append(level.letter());
    line.append(" ");
    line.append(target);
    line.append(": ");
    line.append(message);
    line
}

/// One record. Levels go from 1, an error, to 5, a trace.
#[derive(Debug, PartialEq, Eq)]
pub struct LogRecord {
    pub monotonic_ms: u64,
    pub level: u8,
    pub target: String,
    pub message: String,
}

impl Clone for LogRecord {
    fn clone(&self) -> (r: Self)
        ensures
            r == *self,
    {
        LogRecord {
            monotonic_ms: self.monotonic_ms,
            level: self.level,
            target: self.target.clone(),
            message: self.message.clone(),
        }
    }
}

/// The name of a level, five characters wide.
pub open spec fn level_name(level: u8) -> Seq<char> {
    if level == 1 {
        "ERROR"@
    } else if level == 2 {
        "WARN "@
    } else if level == 3 {
        "INFO "@
    } else if level == 4 {
        "DEBUG"@
    } else if level == 5 {
        "TRACE"@
    } else {
        "?    "@
    }
}

impl LogRecord {
    /// The record as a line.
    pub open spec fn line(self) -> Seq<char> {
        "["@ + text::right_aligned(text::decimal(self.monotonic_ms as nat), 10) + "ms] "@
            + level_name(self.level) + " "@ + self.target@ + ": "@ + self.message@
    }

    pub fn formatted(&self) -> (s: String)
        ensures
            s@ == self.line(),
    {
        let name = if self.level == 1 {
            "ERROR"
        } else if self.level == 2 {
            "WARN "
        } else if self.level == 3 {
            "INFO "
        } else if self.level == 4 {
            "DEBUG"
        } else if self.level == 5 {
            "TRACE"
        } else {
            "?    "
        };
        let ms = text::decimal_u64(self.monotonic_ms);
        let column = text::align_right(ms.as_str(), 10);
        let mut s = "[".to_owned();
        s.append(column.as_str());
        s.append("ms] ");
        s.append(name);
        s.append(" ");
        s.append(self.target.as_str());
        s.append(": ");
        s.append(self.message.as_str());
        s
    }
}

/// A subscriber: what waits for it, and who still holds an end of its queue.
pub struct SubscriberModel {
    pub id: u64,
    pub capacity: nat,
    pub queue: Seq<LogRecord>,
    /// The buffer still sends.
    pub sending: bool,
    /// The receiver still listens.
    pub receiving: bool,
    /// The receiver waits for the next record.
    pub waiting: bool,
}

impl SubscriberModel {
    /// Somebody still holds an end.
    pub open spec fn live(self) -> bool {
        self.sending || self.receiving
    }

    /// One more record can be taken.
    pub open spec fn has_room(self) -> bool {
        self.queue.len() < self.capacity || (self.capacity == 0 && self.waiting
            && self.queue.len() == 0)
    }

    /// The subscriber after a record was offered to it: queued where there is
    /// room, lost where there is none. A receiver that is gone gets nothing more.
    pub open spec fn offered(self, rec: LogRecord) -> SubscriberModel {
        if !self.sending {
            self
        } else if !self.receiving {
            SubscriberModel { sending: false, ..self }
        } else if self.has_room() {
            SubscriberModel { queue: self.queue.push(rec), ..self }
        } else {
            self
        }
    }

    /// The subscriber after many records were offered to it.
    pub open spec fn offered_all(self, more: Seq<LogRecord>) -> SubscriberModel
        decreases more.len(),
    {
        if more.len() == 0 {
            self
        } else {
            self.offered_all(more.drop_last()).offered(more.last())
        }
    }

    /// What the receiver finds: the oldest record that waits for it, and once
    /// there is none, whether more can come.
    pub open spec fn received(self) -> Received {
        if self.queue.len() > 0 {
            Received::Record(self.queue[0])
        } else if self.sending {
            Received::Empty
        } else {
            Received::Closed
        }
    }

    /// The subscriber after its receiver has looked.
    pub open spec fn taken(self) -> SubscriberModel {
        SubscriberModel {
            queue: if self.queue.len() > 0 {
                self.queue.skip(1)
            } else {
                self.queue
            },
            waiting: false,
            ..self
        }
    }
}

/// Subscribers that somebody still holds an end of.
pub open spec fn swept(subs: Seq<SubscriberModel>) -> Seq<SubscriberModel>
    decreases subs.len(),
{
    if subs.len() == 0 {
        Seq::empty()
    } else if subs[0].live() {
        seq![subs[0]] + swept(subs.skip(1))
    } else {
        swept(subs.skip(1))
    }
}

/// The ring after one more record: the oldest leaves where the ring is full, and
/// a ring without room takes none.
pub open spec fn ring_push(records: Seq<LogRecord>, capacity: nat, rec: LogRecord) -> Seq<
    LogRecord,
> {
    if capacity == 0 {
        records
    } else if records.len() >= capacity {
        records.skip(1).push(rec)
    } else {
        records.push(rec)
    }
}

/// The last `n` records, or all where there are fewer.
pub open spec fn latest(records: Seq<LogRecord>, n: nat) -> Seq<LogRecord> {
    if records.len() <= n {
        records
    } else {
        records.skip(records.len() - n)
    }
}

/// Everything that the behaviour of the buffer depends on.
pub struct BufferModel {
    pub capacity: nat,
    pub records: Seq<LogRecord>,
    pub next_id: u64,
    pub subscribers: Seq<SubscriberModel>,
}

impl BufferModel {
    /// Subscribers have the numbers that were given out, each a different one.
    pub open spec fn ids_in_order(self) -> bool {
        &&& forall|i: int|
            0 <= i < self.subscribers.len() ==> (#[trigger] self.subscribers[i]).id < self.next_id
        &&& forall|i: int, j: int|
            0 <= i < j < self.subscribers.len() ==> (#[trigger] self.subscribers[i]).id < (
            #[trigger] self.subscribers[j]).id
    }

    pub open spec fn push(self, rec: LogRecord) -> BufferModel {
        BufferModel {
            records: ring_push(self.records, self.capacity, rec),
            subscribers: swept(
                Seq::new(self.subscribers.len(), |i: int| self.subscribers[i].offered(rec)),
            ),
            ..self
        }
    }

    pub open spec fn subscribe(self, capacity: nat) -> BufferModel {
        BufferModel {
            next_id: (self.next_id + 1) as u64,
            subscribers: self.subscribers.push(
                SubscriberModel {
                    id: self.next_id,
                    capacity,
                    queue: Seq::empty(),
                    sending: true,
                    receiving: true,
                    waiting: false,
                },
            ),
            ..self
        }
    }

    /// The buffer after many records.
    pub open spec fn push_all(self, more: Seq<LogRecord>) -> BufferModel
        decreases more.len(),
    {
        if more.len() == 0 {
            self
        } else {
            self.push_all(more.drop_last()).push(more.last())
        }
    }

    /// Somebody holds an end of every subscriber.
    pub open spec fn all_live(self) -> bool {
        forall|i: int| 0 <= i < self.subscribers.len() ==> (#[trigger] self.subscribers[i]).live()
    }

    /// The buffer without the sending end of a subscriber.
    pub open spec fn unsubscribe(self, id: u64) -> BufferModel {
        BufferModel {
            subscribers: swept(
                Seq::new(
                    self.subscribers.len(),
                    |i: int|
                        if self.subscribers[i].id == id {
                            SubscriberModel { sending: false, ..self.subscribers[i] }
                        } else {
                            self.subscribers[i]
                        },
                ),
            ),
            ..self
        }
    }

    /// The buffer without the receiving end of a subscriber.
    pub open spec fn hang_up(self, id: u64) -> BufferModel {
        BufferModel {
            subscribers: swept(
                Seq::new(
                    self.subscribers.len(),
                    |i: int|
                        if self.subscribers[i].id == id {
                            SubscriberModel {
                                receiving: false,
                                queue: Seq::empty(),
                                ..self.subscribers[i]
                            }
                        } else {
                            self.subscribers[i]
                        },
                ),
            ),
            ..self
        }
    }
}

struct Subscriber {
    id: u64,
    capacity: usize,
    queue: VecDeque<LogRecord>,
    sending: bool,
    receiving: bool,
    waiting: bool,
}

impl View for Subscriber {
    type V = SubscriberModel;

    closed spec fn view(&self) -> SubscriberModel {
        SubscriberModel {
            id: self.id,
            capacity: self.capacity as nat,
            queue: self.queue@,
            sending: self.sending,
            receiving: self.receiving,
            waiting: self.waiting,
        }
    }
}

spec fn subscriber_views(subs: Seq<Subscriber>) -> Seq<SubscriberModel> {
    Seq::new(subs.len(), |i: int| subs[i]@)
}

/// The receiving end of a subscription.
#[derive(Debug, PartialEq, Eq)]
pub struct Receiver {
    id: u64,
}

impl View for Receiver {
    type V = u64;

    closed spec fn view(&self) -> u64 {
        self.id
    }
}

/// What a receiver finds.
#[derive(Debug, PartialEq, Eq)]
pub enum Received {
    Record(LogRecord),
    /// Nothing yet.
    Empty,
    /// Nothing, and nothing will come.
    Closed,
}

pub struct LogBuffer {
    capacity: usize,
    records: VecDeque<LogRecord>,
    next_id: u64,
    subscribers: Vec<Subscriber>,
}

impl View for LogBuffer {
    type V = BufferModel;

    closed spec fn view(&self) -> BufferModel {
        BufferModel {
            capacity: self.capacity as nat,
            records: self.records@,
            next_id: self.next_id,
            subscribers: subscriber_views(self.subscribers@),
        }
    }
}

/// Takes out the subscribers that nobody holds an end of.
fn sweep(subs: &mut Vec<Subscriber>)
    ensures
        subscriber_views(final(subs)@) == swept(subscriber_views(old(subs)@)),
{
    let ghost goal = swept(subscriber_views(subs@));
    let mut i: usize = 0;
    proof {
        let v = subscriber_views(subs@);
        assert(v.skip(0) =~= v);
        assert(v.take(0) + swept(v) =~= swept(v));
    }
    while i < subs.len()
        invariant
            i <= subs@.len(),
            subscriber_views(subs@).take(i as int) + swept(
                subscriber_views(subs@).skip(i as int),
            ) == goal,
        decreases subs@.len() - i,
    {
        let live = subs[i].sending || subs[i].receiving;
        let ghost before = subscriber_views(subs@);
        proof {
            assert(before.skip(i as int)[0] == subs@[i as int]@);
            assert(before.skip(i as int).skip(1) =~= before.skip(i + 1));
        }
        if live {
            i += 1;
            assert(before.take(i - 1) + (seq![before[i - 1]] + swept(before.skip(i as int)))
                =~= before.take(i as int) + swept(before.skip(i as int)));
        } else {
            subs.remove(i);
            proof {
                let after = subscriber_views(subs@);
                assert(after.take(i as int) =~= before.take(i as int));
                assert(after.skip(i as int) =~= before.skip(i + 1));
            }
        }
    }
    proof {
        let v = subscriber_views(subs@);
        assert(v.skip(i as int) =~= Seq::<SubscriberModel>::empty());
        assert(v.take(i as int) + Seq::<SubscriberModel>::empty() =~= v);
    }
}

impl LogBuffer {
    pub fn new(capacity: usize) -> (b: Self)
        ensures
            b@ == (BufferModel {
                capacity: capacity as nat,
                records: Seq::empty(),
                next_id: 0,
                subscribers: Seq::empty(),
            }),
    {
        let b = LogBuffer {
            capacity,
            records: VecDeque::new(),
            next_id: 0,
            subscribers: Vec::new(),
        };
        assert(subscriber_views(b.subscribers@) =~= Seq::<SubscriberModel>::empty());
        b
    }

    /// Adds a record and offers it to every subscriber.
    pub fn push(&mut self, rec: LogRecord)
        ensures
            final(self)@ == old(self)@.push(rec),
    {
        if self.capacity > 0 {
            if self.records.len() >= self.capacity {
                let _ = self.records.pop_front();
                assert(self.records@ =~= old(self)@.records.skip(1));
            }
            self.records.push_back(rec.clone());
        }
        let ghost before = subscriber_views(self.subscribers@);
        let mut i: usize = 0;
        while i < self.subscribers.len()
            invariant
                i <= self.subscribers@.len(),
                self.subscribers@.len() == before.len(),
                self.capacity == old(self)@.capacity,
                self.next_id == old(self)@.next_id,
                self.records@ == ring_push(
                    old(self)@.records,
                    old(self)@.capacity,
                    rec,
                ),
                forall|j: int|
                    0 <= j < i ==> (#[trigger] self.subscribers@[j])@ == before[j].offered(rec),
                forall|j: int|
                    i <= j < before.len() ==> (#[trigger] self.subscribers@[j])@ == before[j],
            decreases self.subscribers@.len() - i,
        {
            if self.subscribers[i].sending {
                if !self.subscribers[i].receiving {
                    self.subscribers[i].sending = false;
                } else {
                    let s = &self.subscribers[i];
                    let room = s.queue.len() < s.capacity || (s.capacity == 0 && s.waiting
                        && s.queue.len() == 0);
                    if room {
                        let copy = rec.clone();
                        self.subscribers[i].queue.push_back(copy);
                    }
                }
            }
            i += 1;
        }
        assert(subscriber_views(self.subscribers@) =~= Seq::new(
            before.len(),
            |k: int| before[k].offered(rec),
        ));
        sweep(&mut self.subscribers);
    }

    /// The last `n` records, oldest first.
    pub fn snapshot(&self, n: usize) -> (out: Vec<LogRecord>)
        ensures
            out@ == latest(self@.records, n as nat),
    {
        let len: usize = self.records.len();
        let start: usize = len.saturating_sub(n);
        let mut out: Vec<LogRecord> = Vec::new();
        let mut i: usize = start;
        while i < len
            invariant
                start <= i <= len,
                len == self.records@.len(),
                out@ == self.records@.subrange(start as int, i as int),
            decreases len - i,
        {
            out.push(self.records[i].clone());
            i += 1;
            assert(out@ =~= self.records@.subrange(start as int, i as int));
        }
        assert(out@ =~= latest(self@.records, n as nat));
        out
    }

    /// The number that the next subscriber gets.
    pub fn next_subscriber_id(&self) -> (id: u64)
        ensures
            id == self@.next_id,
    {
        self.next_id
    }

    /// Follows the log from here on. The capacity is how far the subscriber may
    /// fall behind before it loses records.
    pub fn subscribe(&mut self, channel_capacity: usize) -> (r: (u64, Receiver))
        requires
            old(self)@.next_id < u64::MAX,
        ensures
            r.0 == old(self)@.next_id,
            r.1@ == r.0,
            final(self)@ == old(self)@.subscribe(channel_capacity as nat),
    {
        let id: u64 = self.next_id;
        let ghost before = subscriber_views(self.subscribers@);
        self.next_id = id + 1;
        self.subscribers.push(
            Subscriber {
                id,
                capacity: channel_capacity,
                queue: VecDeque::new(),
                sending: true,
                receiving: true,
                waiting: false,
            },
        );
        assert(subscriber_views(self.subscribers@) =~= before.push(
            SubscriberModel {
                id,
                capacity: channel_capacity as nat,
                queue: Seq::empty(),
                sending: true,
                receiving: true,
                waiting: false,
            },
        ));
        (id, Receiver { id })
    }

    /// Sends nothing more to a subscriber. What waits for it can still be taken.
    pub fn unsubscribe(&mut self, id: u64)
        ensures
            final(self)@ == old(self)@.unsubscribe(id),
    {
        let ghost before = subscriber_views(self.subscribers@);
        let mut i: usize = 0;
        while i < self.subscribers.len()
            invariant
                i <= self.subscribers@.len(),
                self.subscribers@.len() == before.len(),
                self.capacity == old(self)@.capacity,
                self.next_id == old(self)@.next_id,
                self.records@ == old(self)@.records,
                forall|j: int|
                    0 <= j < i ==> (#[trigger] self.subscribers@[j])@ == (if before[j].id == id {
                        SubscriberModel { sending: false, ..before[j] }
                    } else {
                        before[j]
                    }),
                forall|j: int|
                    i <= j < before.len() ==> (#[trigger] self.subscribers@[j])@ == before[j],
            decreases self.subscribers@.len() - i,
        {
            if self.subscribers[i].id == id {
                self.subscribers[i].sending = false;
            }
            i += 1;
        }
        assert(subscriber_views(self.subscribers@) =~= Seq::new(
            before.len(),
            |k: int|
                if before[k].id == id {
                    SubscriberModel { sending: false, ..before[k] }
                } else {
                    before[k]
                },
        ));
        sweep(&mut self.subscribers);
    }

    /// Gives a receiver back. What waited for it is dropped.
    pub fn hang_up(&mut self, receiver: Receiver)
        ensures
            final(self)@ == old(self)@.hang_up(receiver@),
    {
        let id: u64 = receiver.id;
        let ghost before = subscriber_views(self.subscribers@);
        let mut i: usize = 0;
        while i < self.subscribers.len()
            invariant
                i <= self.subscribers@.len(),
                self.subscribers@.len() == before.len(),
                self.capacity == old(self)@.capacity,
                self.next_id == old(self)@.next_id,
                self.records@ == old(self)@.records,
                forall|j: int|
                    0 <= j < i ==> (#[trigger] self.subscribers@[j])@ == (if before[j].id == id {
                        SubscriberModel { receiving: false, queue: Seq::empty(), ..before[j] }
                    } else {
                        before[j]
                    }),
                forall|j: int|
                    i <= j < before.len() ==> (#[trigger] self.subscribers@[j])@ == before[j],
            decreases self.subscribers@.len() - i,
        {
            if self.subscribers[i].id == id {
                self.subscribers[i].receiving = false;
                self.subscribers[i].queue.clear();
            }
            i += 1;
        }
        assert(subscriber_views(self.subscribers@) =~= Seq::new(
            before.len(),
            |k: int|
                if before[k].id == id {
                    SubscriberModel { receiving: false, queue: Seq::empty(), ..before[k] }
                } else {
                    before[k]
                },
        ));
        sweep(&mut self.subscribers);
    }
}

/// The place of the subscriber with this number, or the length of the list.
pub open spec fn place_of(subs: Seq<SubscriberModel>, id: u64) -> int
    decreases subs.len(),
{
    if subs.len() == 0 || subs[0].id == id {
        0
    } else {
        1 + place_of(subs.skip(1), id)
    }
}

proof fn place_of_is_first(subs: Seq<SubscriberModel>, id: u64)
    ensures
        0 <= place_of(subs, id) <= subs.len(),
        place_of(subs, id) < subs.len() ==> subs[place_of(subs, id)].id == id,
        forall|j: int| 0 <= j < place_of(subs, id) ==> (#[trigger] subs[j]).id != id,
    decreases subs.len(),
{
    if subs.len() > 0 && subs[0].id != id {
        place_of_is_first(subs.skip(1), id);
        assert forall|j: int| 0 <= j < place_of(subs, id) implies (#[trigger] subs[j]).id
            != id by {
            if j > 0 {
                assert(subs[j] == subs.skip(1)[j - 1]);
            }
        }
    }
}

/// The subscriber with this number.
pub open spec fn found(subs: Seq<SubscriberModel>, id: u64) -> Option<SubscriberModel> {
    let i = place_of(subs, id);
    if i < subs.len() {
        Some(subs[i])
    } else {
        None
    }
}

impl Receiver {
    /// The place of the receiver's subscriber.
    fn place(&self, buffer: &LogBuffer) -> (i: usize)
        ensures
            i == place_of(buffer@.subscribers, self@),
            i <= buffer.subscribers@.len(),
    {
        let ghost subs = subscriber_views(buffer.subscribers@);
        let mut i: usize = 0;
        while i < buffer.subscribers.len() && buffer.subscribers[i].id != self.id
            invariant
                i <= buffer.subscribers@.len(),
                subs == subscriber_views(buffer.subscribers@),
                forall|j: int| 0 <= j < i ==> (#[trigger] subs[j]).id != self.id,
            decreases buffer.subscribers@.len() - i,
        {
            i += 1;
        }
        proof {
            place_of_is_first(subs, self.id);
            let p = place_of(subs, self.id);
            if i < subs.len() {
                assert(subs[i as int].id == self.id);
            }
            if p < i {
                assert(subs[p].id != self.id);
            }
            assert(p == i);
        }
        i
    }

    /// Takes the oldest record that waits, and waits no longer.
    pub fn recv(&self, buffer: &mut LogBuffer) -> (r: Received)
        ensures
            ({
                let subs = old(buffer)@.subscribers;
                let i = place_of(subs, self@);
                if i < subs.len() {
                    &&& r == subs[i].received()
                    &&& final(buffer)@ == (BufferModel {
                        subscribers: subs.update(i, subs[i].taken()),
                        ..old(buffer)@
                    })
                } else {
                    r == Received::Closed && final(buffer)@ == old(buffer)@
                }
            }),
    {
        let ghost subs = subscriber_views(buffer.subscribers@);
        let i: usize = self.place(buffer);
        if i == buffer.subscribers.len() {
            return Received::Closed;
        }
        buffer.subscribers[i].waiting = false;
        let taken = buffer.subscribers[i].queue.pop_front();
        proof {
            let after = subscriber_views(buffer.subscribers@);
            let s = subs[i as int];
            assert(after[i as int].queue =~= s.taken().queue);
            assert(after =~= subs.update(i as int, s.taken()));
        }
        match taken {
            Some(rec) => Received::Record(rec),
            None => if buffer.subscribers[i].sending {
                Received::Empty
            } else {
                Received::Closed
            },
        }
    }

    /// Begins to wait for the next record.
    pub fn wait(&self, buffer: &mut LogBuffer)
        ensures
            ({
                let subs = old(buffer)@.subscribers;
                let i = place_of(subs, self@);
                final(buffer)@ == (if i < subs.len() {
                    BufferModel {
                        subscribers: subs.update(
                            i,
                            SubscriberModel { waiting: true, ..subs[i] },
                        ),
                        ..old(buffer)@
                    }
                } else {
                    old(buffer)@
                })
            }),
    {
        let ghost subs = subscriber_views(buffer.subscribers@);
        let i: usize = self.place(buffer);
        if i < buffer.subscribers.len() {
            buffer.subscribers[i].waiting = true;
            assert(subscriber_views(buffer.subscribers@) =~= subs.update(
                i as int,
                SubscriberModel { waiting: true, ..subs[i as int] },
            ));
        }
    }
}

/// The ring after many records.
pub open spec fn ring_push_all(
    records: Seq<LogRecord>,
    capacity: nat,
    more: Seq<LogRecord>,
) -> Seq<LogRecord>
    decreases more.len(),
{
    if more.len() == 0 {
        records
    } else {
        ring_push(ring_push_all(records, capacity, more.drop_last()), capacity, more.last())
    }
}

/// However many records come, the ring holds exactly the last ones, in order,
/// and never more than its capacity.
pub proof fn ring_keeps_the_latest(records: Seq<LogRecord>, capacity: nat, more: Seq<LogRecord>)
    requires
        records.len() <= capacity,
    ensures
        ring_push_all(records, capacity, more) == latest(records + more, capacity),
        ring_push_all(records, capacity, more).len() <= capacity,
    decreases more.len(),
{
    if more.len() == 0 {
        assert(records + more =~= records);
    } else {
        let before = more.drop_last();
        ring_keeps_the_latest(records, capacity, before);
        let r = ring_push_all(records, capacity, before);
        assert((records + more) =~= (records + before).push(more.last()));
        assert(ring_push(r, capacity, more.last()) =~= latest(records + more, capacity));
    }
}

/// A subscriber with room gets every record, and a full one loses it; in both
/// cases the record goes to the ring, which takes it where it has any capacity.
/// Nothing else about a subscriber changes.
pub proof fn offers_never_wait(b: BufferModel, rec: LogRecord, s: SubscriberModel)
    requires
        s.sending,
        s.receiving,
    ensures
        s.offered(rec).live(),
        s.offered(rec).id == s.id,
        s.has_room() ==> s.offered(rec).queue == s.queue.push(rec),
        !s.has_room() ==> s.offered(rec) == s,
        s.queue.len() < s.capacity ==> s.has_room(),
        s.queue.len() >= s.capacity > 0 ==> !s.has_room(),
        b.push(rec).records == ring_push(b.records, b.capacity, rec),
        b.capacity > 0 ==> b.push(rec).records.last() == rec,
{
}

/// Subscribers that somebody still listens on or sends to stay, in order, when
/// a record comes.
pub proof fn live_subscribers_stay(subs: Seq<SubscriberModel>)
    requires
        forall|i: int| 0 <= i < subs.len() ==> (#[trigger] subs[i]).live(),
    ensures
        swept(subs) == subs,
    decreases subs.len(),
{
    if subs.len() > 0 {
        assert forall|i: int| 0 <= i < subs.skip(1).len() implies (#[trigger] subs.skip(
            1,
        )[i]).live() by {
            assert(subs.skip(1)[i] == subs[i + 1]);
        }
        live_subscribers_stay(subs.skip(1));
        assert(seq![subs[0]] + subs.skip(1) =~= subs);
    } else {
        assert(swept(subs) =~= subs);
    }
}

/// Ids ascend strictly between two bounds.
spec fn ascend_between(subs: Seq<SubscriberModel>, above: int, below: int) -> bool {
    &&& forall|i: int| 0 <= i < subs.len() ==> above < (#[trigger] subs[i]).id < below
    &&& forall|i: int, j: int|
        0 <= i < j < subs.len() ==> (#[trigger] subs[i]).id < (#[trigger] subs[j]).id
}

proof fn sweeping_keeps_order(subs: Seq<SubscriberModel>, above: int, below: int)
    requires
        ascend_between(subs, above, below),
    ensures
        ascend_between(swept(subs), above, below),
    decreases subs.len(),
{
    if subs.len() > 0 {
        let rest = subs.skip(1);
        assert(ascend_between(rest, subs[0].id as int, below)) by {
            assert forall|i: int| 0 <= i < rest.len() implies subs[0].id < (
            #[trigger] rest[i]).id < below by {
                assert(rest[i] == subs[i + 1]);
            }
            assert forall|i: int, j: int| 0 <= i < j < rest.len() implies (#[trigger] rest[i]).id
                < (#[trigger] rest[j]).id by {
                assert(rest[i] == subs[i + 1] && rest[j] == subs[j + 1]);
            }
        }
        sweeping_keeps_order(rest, subs[0].id as int, below);
        let kept = swept(rest);
        let whole = seq![subs[0]] + kept;
        assert forall|i: int| 0 <= i < kept.len() implies above < (#[trigger] kept[i]).id by {}
        assert forall|i: int, j: int| 0 <= i < j < whole.len() implies (#[trigger] whole[i]).id < (
        #[trigger] whole[j]).id by {
            assert(whole[j] == kept[j - 1]);
            if i > 0 {
                assert(whole[i] == kept[i - 1]);
            }
        }
        assert forall|i: int| 0 <= i < whole.len() implies above < (#[trigger] whole[i]).id
            < below by {
            if i > 0 {
                assert(whole[i] == kept[i - 1]);
            }
        }
    }
}

/// Every subscriber keeps a number of its own, whatever happens to the others.
pub proof fn numbers_stay_distinct(b: BufferModel, rec: LogRecord, id: u64, capacity: nat)
    requires
        b.ids_in_order(),
    ensures
        b.push(rec).ids_in_order(),
        b.unsubscribe(id).ids_in_order(),
        b.hang_up(id).ids_in_order(),
        b.next_id < u64::MAX ==> b.subscribe(capacity).ids_in_order(),
{
    let subs = b.subscribers;
    let offered = Seq::new(subs.len(), |i: int| subs[i].offered(rec));
    let cut = Seq::new(
        subs.len(),
        |i: int|
            if subs[i].id == id {
                SubscriberModel { sending: false, ..subs[i] }
            } else {
                subs[i]
            },
    );
    let hung = Seq::new(
        subs.len(),
        |i: int|
            if subs[i].id == id {
                SubscriberModel { receiving: false, queue: Seq::empty(), ..subs[i] }
            } else {
                subs[i]
            },
    );
    assert(ascend_between(offered, -1, b.next_id as int));
    assert(ascend_between(cut, -1, b.next_id as int));
    assert(ascend_between(hung, -1, b.next_id as int));
    sweeping_keeps_order(offered, -1, b.next_id as int);
    sweeping_keeps_order(cut, -1, b.next_id as int);
    sweeping_keeps_order(hung, -1, b.next_id as int);
}

/// No two subscribers share a number.
spec fn ids_differ(subs: Seq<SubscriberModel>) -> bool {
    forall|i: int, j: int|
        0 <= i < j < subs.len() ==> (#[trigger] subs[i]).id != (#[trigger] subs[j]).id
}

/// Sweeping leaves exactly the subscribers that somebody holds an end of.
proof fn sweeping_keeps_the_live(subs: Seq<SubscriberModel>, id: u64)
    requires
        ids_differ(subs),
    ensures
        found(swept(subs), id) == (match found(subs, id) {
            Some(s) => if s.live() {
                Some(s)
            } else {
                None
            },
            None => None,
        }),
        forall|i: int| 0 <= i < swept(subs).len() ==> (#[trigger] swept(subs)[i]).live(),
    decreases subs.len(),
{
    if subs.len() > 0 {
        let rest = subs.skip(1);
        assert(ids_differ(rest)) by {
            assert forall|i: int, j: int| 0 <= i < j < rest.len() implies (#[trigger] rest[i]).id
                != (#[trigger] rest[j]).id by {
                assert(rest[i] == subs[i + 1] && rest[j] == subs[j + 1]);
            }
        }
        sweeping_keeps_the_live(rest, id);
        place_of_is_first(rest, id);
        place_of_is_first(subs, id);
        let kept = swept(rest);
        if subs[0].id == id {
            let p = place_of(rest, id);
            if p < rest.len() {
                assert(rest[p] == subs[p + 1]);
            }
            assert(found(rest, id) is None);
        } else {
            assert(found(subs, id) == found(rest, id));
        }
        if subs[0].live() {
            let whole = seq![subs[0]] + kept;
            assert(whole.skip(1) =~= kept);
            place_of_is_first(kept, id);
            assert(found(whole, id) == (if subs[0].id == id {
                Some(subs[0])
            } else {
                found(kept, id)
            }));
            assert forall|i: int| 0 <= i < whole.len() implies (#[trigger] whole[i]).live() by {
                if i > 0 {
                    assert(whole[i] == kept[i - 1]);
                }
            }
        }
    } else {
        place_of_is_first(subs, id);
    }
}

/// Two lists with the same numbers have their subscribers in the same places.
proof fn same_numbers_same_place(a: Seq<SubscriberModel>, b: Seq<SubscriberModel>, id: u64)
    requires
        a.len() == b.len(),
        forall|i: int| 0 <= i < a.len() ==> (#[trigger] a[i]).id == b[i].id,
    ensures
        place_of(a, id) == place_of(b, id),
        0 <= place_of(a, id) <= a.len(),
{
    place_of_is_first(a, id);
    place_of_is_first(b, id);
    let p = place_of(a, id);
    let q = place_of(b, id);
    if p < q {
        assert(a[p].id == b[p].id);
    }
    if q < p {
        assert(a[q].id == b[q].id);
    }
}

/// One record reaches the subscriber with this number and changes nothing else
/// about the list.
proof fn push_reaches(b: BufferModel, rec: LogRecord, id: u64)
    requires
        b.ids_in_order(),
    ensures
        found(b.push(rec).subscribers, id) == (match found(b.subscribers, id) {
            Some(s) => if s.offered(rec).live() {
                Some(s.offered(rec))
            } else {
                None
            },
            None => None,
        }),
        b.push(rec).ids_in_order(),
{
    let subs = b.subscribers;
    let offered = Seq::new(subs.len(), |i: int| subs[i].offered(rec));
    assert(ids_differ(offered));
    same_numbers_same_place(subs, offered, id);
    sweeping_keeps_the_live(offered, id);
    numbers_stay_distinct(b, rec, id, 0);
}

/// Many records reach a subscriber that listens, one after the other.
proof fn pushes_reach(b: BufferModel, more: Seq<LogRecord>, id: u64)
    requires
        b.ids_in_order(),
    ensures
        b.push_all(more).ids_in_order(),
        b.push_all(more).capacity == b.capacity,
        b.push_all(more).records == ring_push_all(b.records, b.capacity, more),
        found(b.subscribers, id) matches Some(s) ==> s.receiving ==> {
            &&& found(b.push_all(more).subscribers, id) == Some(s.offered_all(more))
            &&& s.offered_all(more).receiving
            &&& s.offered_all(more).sending == s.sending
            &&& !s.sending ==> s.offered_all(more) == s
        },
        found(b.subscribers, id) is None ==> found(b.push_all(more).subscribers, id) is None,
    decreases more.len(),
{
    if more.len() > 0 {
        pushes_reach(b, more.drop_last(), id);
        push_reaches(b.push_all(more.drop_last()), more.last(), id);
    }
}

/// A queue that nobody takes from fills up with the first records that come.
proof fn queue_fills_up(s: SubscriberModel, more: Seq<LogRecord>)
    requires
        s.sending,
        s.receiving,
        !s.waiting,
        s.queue.len() == 0,
    ensures
        s.offered_all(more) == (SubscriberModel { queue: first(more, s.capacity), ..s }),
    decreases more.len(),
{
    if more.len() > 0 {
        let before = more.drop_last();
        queue_fills_up(s, before);
        assert(s.offered_all(more).queue =~= first(more, s.capacity));
    } else {
        assert(s.queue =~= first(more, s.capacity));
    }
}

/// The first `n` records, or all where there are fewer.
pub open spec fn first(records: Seq<LogRecord>, n: nat) -> Seq<LogRecord> {
    if records.len() <= n {
        records
    } else {
        records.take(n as int)
    }
}

/// A new subscriber gets only what is pushed after it came, in order. While it
/// takes nothing its queue holds the first of those records, as many as it has
/// capacity for; the others are lost to it, and all go through the ring. Its
/// coming changes neither the ring nor the other subscribers.
pub proof fn undrained_subscriber_holds_the_first(
    b: BufferModel,
    capacity: nat,
    more: Seq<LogRecord>,
    other: u64,
)
    requires
        b.ids_in_order(),
        b.next_id < u64::MAX,
        other != b.next_id,
    ensures
        ({
            let after = b.subscribe(capacity).push_all(more);
            &&& found(after.subscribers, b.next_id) == Some(
                SubscriberModel {
                    id: b.next_id,
                    capacity,
                    queue: first(more, capacity),
                    sending: true,
                    receiving: true,
                    waiting: false,
                },
            )
            &&& after.records == ring_push_all(b.records, b.capacity, more)
        }),
        b.subscribe(capacity).records == b.records,
        found(b.subscribe(capacity).subscribers, other) == found(b.subscribers, other),
{
    let joined = b.subscribe(capacity);
    let subs = joined.subscribers;
    let n = b.subscribers.len() as int;
    numbers_stay_distinct(b, arbitrary(), other, capacity);
    place_of_is_first(subs, b.next_id);
    place_of_is_first(subs, other);
    place_of_is_first(b.subscribers, other);
    let p = place_of(subs, b.next_id);
    if p < n {
        assert(subs[p] == b.subscribers[p]);
    }
    if p > n {
        assert(subs[n].id == b.next_id);
    }
    let q = place_of(subs, other);
    let r = place_of(b.subscribers, other);
    if q < n {
        assert(subs[q] == b.subscribers[q]);
    }
    if r < n {
        assert(subs[r] == b.subscribers[r]);
    }
    pushes_reach(joined, more, b.next_id);
    queue_fills_up(subs[n], more);
}

/// Nothing that is pushed after an unsubscription reaches that receiver: it
/// keeps what waited for it, and once that is taken finds the end. Every other
/// subscriber that listens goes on receiving, and the ring is as it was.
pub proof fn unsubscribed_gets_nothing_more(
    b: BufferModel,
    id: u64,
    more: Seq<LogRecord>,
    other: u64,
)
    requires
        b.ids_in_order(),
        other != id,
    ensures
        b.unsubscribe(id).records == b.records,
        ({
            let after = b.unsubscribe(id).push_all(more);
            &&& after.records == ring_push_all(b.records, b.capacity, more)
            &&& found(b.subscribers, id) matches Some(s) ==> s.receiving ==> found(
                after.subscribers,
                id,
            ) == Some(SubscriberModel { sending: false, ..s })
            &&& found(b.subscribers, id) is None ==> found(after.subscribers, id) is None
            &&& found(after.subscribers, id) matches Some(s) ==> s.receiving ==> (
            s.queue.len() == 0 ==> s.received() == Received::Closed)
            &&& found(b.subscribers, other) matches Some(t) ==> t.receiving ==> found(
                after.subscribers,
                other,
            ) == Some(t.offered_all(more))
        }),
{
    let subs = b.subscribers;
    let cut = Seq::new(
        subs.len(),
        |i: int|
            if subs[i].id == id {
                SubscriberModel { sending: false, ..subs[i] }
            } else {
                subs[i]
            },
    );
    assert(ids_differ(cut));
    same_numbers_same_place(subs, cut, id);
    same_numbers_same_place(subs, cut, other);
    place_of_is_first(subs, id);
    place_of_is_first(subs, other);
    sweeping_keeps_the_live(cut, id);
    sweeping_keeps_the_live(cut, other);
    numbers_stay_distinct(b, arbitrary(), id, 0);
    pushes_reach(b.unsubscribe(id), more, id);
    pushes_reach(b.unsubscribe(id), more, other);
}

/// A number that nobody has, or has any longer, can be unsubscribed without any
/// change.
pub proof fn unknown_number_changes_nothing(b: BufferModel, id: u64)
    requires
        b.all_live(),
        found(b.subscribers, id) is None,
    ensures
        b.unsubscribe(id) == b,
{
    place_of_is_first(b.subscribers, id);
    let cut = Seq::new(
        b.subscribers.len(),
        |i: int|
            if b.subscribers[i].id == id {
                SubscriberModel { sending: false, ..b.subscribers[i] }
            } else {
                b.subscribers[i]
            },
    );
    assert(cut =~= b.subscribers);
    live_subscribers_stay(b.subscribers);
}

/// Somebody holds an end of every subscriber in the buffer, whatever happens;
/// and a number that was given out is never given out again.
pub proof fn ends_are_held(b: BufferModel, rec: LogRecord, id: u64, capacity: nat)
    requires
        b.ids_in_order(),
        b.all_live(),
    ensures
        b.push(rec).all_live(),
        b.unsubscribe(id).all_live(),
        b.hang_up(id).all_live(),
        b.subscribe(capacity).all_live(),
        b.push(rec).next_id == b.next_id,
        b.unsubscribe(id).next_id == b.next_id,
        b.hang_up(id).next_id == b.next_id,
        b.next_id < u64::MAX ==> b.subscribe(capacity).next_id == b.next_id + 1,
{
    let subs = b.subscribers;
    let offered = Seq::new(subs.len(), |i: int| subs[i].offered(rec));
    let cut = Seq::new(
        subs.len(),
        |i: int|
            if subs[i].id == id {
                SubscriberModel { sending: false, ..subs[i] }
            } else {
                subs[i]
            },
    );
    let hung = Seq::new(
        subs.len(),
        |i: int|
            if subs[i].id == id {
                SubscriberModel { receiving: false, queue: Seq::empty(), ..subs[i] }
            } else {
                subs[i]
            },
    );
    assert(ids_differ(offered) && ids_differ(cut) && ids_differ(hung));
    sweeping_keeps_the_live(offered, id);
    sweeping_keeps_the_live(cut, id);
    sweeping_keeps_the_live(hung, id);
}

/// An empty ring that has taken records in holds all of them while they fit, and
/// from then on the last ones, as many as it has room for, oldest first.
pub proof fn ring_holds_the_last_records(capacity: nat, more: Seq<LogRecord>)
    ensures
        ring_push_all(Seq::empty(), capacity, more) == (if more.len() <= capacity {
            more
        } else {
            more.subrange(more.len() - capacity, more.len() as int)
        }),
    decreases more.len(),
{
    if more.len() == 0 {
        assert(more =~= Seq::<LogRecord>::empty());
    } else {
        let before = more.drop_last();
        ring_holds_the_last_records(capacity, before);
        let held = ring_push_all(Seq::empty(), capacity, before);
        let now = ring_push_all(Seq::empty(), capacity, more);
        assert(now == ring_push(held, capacity, more.last()));
        if more.len() <= capacity {
            assert(now =~= more);
        } else if capacity == 0 {
            assert(now =~= more.subrange(more.len() - capacity, more.len() as int));
        } else {
            assert(now =~= more.subrange(more.len() - capacity, more.len() as int));
        }
    }
}

/// The latest records are the end of all of them, as many as are asked for.
pub proof fn latest_is_the_end(records: Seq<LogRecord>, n: nat)
    ensures
        n >= records.len() ==> latest(records, n) == records,
        n < records.len() ==> latest(records, n) == records.subrange(
            records.len() - n,
            records.len() as int,
        ),
        latest(records, n).len() == (if n < records.len() { n } else { records.len() }),
{
    if n < records.len() {
        assert(latest(records, n) =~= records.subrange(records.len() - n, records.len() as int));
    }
}

/// A subscriber gets the records in the order in which they came, one at a time,
/// as long as there is room for them.
pub proof fn records_arrive_in_order(s: SubscriberModel, more: Seq<LogRecord>)
    requires
        s.sending,
        s.receiving,
        s.queue.len() + more.len() <= s.capacity,
    ensures
        s.offered_all(more).queue == s.queue + more,
        s.offered_all(more).sending && s.offered_all(more).receiving,
        s.offered_all(more).capacity == s.capacity,
        s.offered_all(more).id == s.id,
    decreases more.len(),
{
    if more.len() == 0 {
        assert(s.queue + more =~= s.queue);
    } else {
        records_arrive_in_order(s, more.drop_last());
        assert((s.queue + more.drop_last()).push(more.last()) =~= s.queue + more);
    }
}

/// A look takes the oldest record and leaves the others; an empty queue says
/// whether more can come.
pub proof fn looks_take_the_oldest(s: SubscriberModel, first: LogRecord, rest: Seq<LogRecord>)
    ensures
        s.queue == seq![first] + rest ==> s.received() == Received::Record(first)
            && s.taken().queue == rest,
        s.queue.len() == 0 && s.sending ==> s.received() == Received::Empty,
        s.queue.len() == 0 && !s.sending ==> s.received() == Received::Closed,
        s.queue.len() == 0 ==> s.taken().queue == s.queue,
        s.taken().sending == s.sending && s.taken().receiving == s.receiving,
        s.taken().id == s.id && s.taken().capacity == s.capacity,
{
    assert((seq![first] + rest)[0] == first);
    assert((seq![first] + rest).skip(1) =~= rest);
}

/// A full queue loses what is offered and keeps what it holds; a receiver that
/// is gone is not sent to again.
pub proof fn full_queues_lose_the_newest(s: SubscriberModel, rec: LogRecord)
    ensures
        s.sending && s.receiving && s.capacity > 0 && s.queue.len() >= s.capacity ==> s.offered(rec)
            == s,
        s.sending && s.receiving && s.queue.len() < s.capacity ==> s.offered(rec).queue
            == s.queue.push(rec),
        s.sending && !s.receiving ==> !s.offered(rec).sending && s.offered(rec).queue == s.queue,
        !s.sending ==> s.offered(rec) == s,
{
}

/// Subscribers leave when both of their ends are gone, and only then.
pub proof fn only_the_abandoned_leave(subs: Seq<SubscriberModel>)
    ensures
        swept(subs) == subs.filter(|s: SubscriberModel| s.sending || s.receiving),
    decreases subs.len(),
{
    let keep = |s: SubscriberModel| s.sending || s.receiving;
    if subs.len() == 0 {
        reveal(Seq::filter);
        assert(swept(subs) =~= subs.filter(keep));
    } else {
        let rest = subs.skip(1);
        only_the_abandoned_leave(rest);
        assert(subs =~= seq![subs[0]] + rest);
        Seq::filter_distributes_over_add(seq![subs[0]], rest, keep);
        assert(seq![subs[0]].filter(keep) == (if keep(subs[0]) {
            seq![subs[0]]
        } else {
            Seq::empty()
        })) by {
            reveal_with_fuel(Seq::filter, 2);
            assert(seq![subs[0]].drop_last() =~= Seq::<SubscriberModel>::empty());
            assert(seq![subs[0]].last() == subs[0]);
            assert(Seq::<SubscriberModel>::empty().push(subs[0]) =~= seq![subs[0]]);
        }
        assert(Seq::<SubscriberModel>::empty() + rest.filter(keep) =~= rest.filter(keep));
    }
}

/// A new subscriber comes last, with a number that was not given out before, an
/// empty queue of the size asked for, and both ends held.
pub proof fn new_subscribers_start_empty(b: BufferModel, capacity: nat)
    requires
        b.next_id < u64::MAX,
    ensures
        ({
            let after = b.subscribe(capacity);
            let s = after.subscribers.last();
            &&& after.subscribers.drop_last() == b.subscribers
            &&& after.subscribers.len() == b.subscribers.len() + 1
            &&& s.id == b.next_id && after.next_id == b.next_id + 1
            &&& s.queue.len() == 0 && s.capacity == capacity
            &&& s.sending && s.receiving
            &&& after.records == b.records && after.capacity == b.capacity
        }),
{
    assert(b.subscribe(capacity).subscribers.drop_last() =~= b.subscribers);
}

/// A record as a line: its time in milliseconds stands in ten characters at the
/// front, then comes its level in five, and the rest is where it comes from and
/// what it says.
pub proof fn lines_show_the_record(r: LogRecord)
    requires
        r.monotonic_ms < 10_000_000_000,
    ensures
        ({
            let line = r.line();
            &&& line[0] == '['
            &&& text::parsed(text::trimmed(line.subrange(1, 11)), 10_000_000_000) == Some(
                r.monotonic_ms as nat,
            )
            &&& line.subrange(11, 15) == "ms] "@
            &&& line.subrange(15, 20) == (if r.level == 1 {
                "ERROR"@
            } else if r.level == 2 {
                "WARN "@
            } else if r.level == 3 {
                "INFO "@
            } else if r.level == 4 {
                "DEBUG"@
            } else if r.level == 5 {
                "TRACE"@
            } else {
                "?    "@
            })
            &&& line[20] == ' '
            &&& line.skip(21) == r.target@ + ": "@ + r.message@
        }),
{
    reveal_strlit("ERROR");
    reveal_strlit("WARN ");
    reveal_strlit("INFO ");
    reveal_strlit("DEBUG");
    reveal_strlit("TRACE");
    reveal_strlit("?    ");
    reveal_strlit("[");
    reveal_strlit("ms] ");
    reveal_strlit(" ");
    let ms = r.monotonic_ms as nat;
    let digits = text::decimal(ms);
    assert(digits.len() <= 10) by {
        reveal_with_fuel(text::decimal, 11);
    }
    let column = text::right_aligned(digits, 10);
    text::columns_are_filled(digits, 10);
    text::written_numbers_are_read_back(ms, 10_000_000_000);
    let blanks = column.take(10 - digits.len());
    assert(column =~= blanks + digits + Seq::<char>::empty());
    assert forall|i: int| 0 <= i < blanks.len() implies text::is_white(#[trigger] blanks[i]) by {
        assert(column[i] == ' ');
    }
    assert('0' <= text::decimal(ms)[0] <= '9');
    assert('0' <= text::decimal(ms)[digits.len() - 1] <= '9');
    text::only_the_edges_are_trimmed(blanks, digits, Seq::empty());
    let line = r.line();
    assert(line.subrange(1, 11) =~= column);
    assert(line.subrange(11, 15) =~= "ms] "@);
    assert(line.subrange(15, 20) =~= level_name(r.level));
    assert(line.skip(21) =~= r.target@ + ": "@ + r.message@);
}

/// A console line starts with its time in milliseconds and the letter of its
/// level, and ends with where it comes from and what it says.
pub proof fn console_lines_show_the_record(
    ms: u64,
    level: LogLevel,
    target: Seq<char>,
    message: Seq<char>,
)
    ensures
        ({
            let line = console_text(ms, level, target, message);
            let letter = match level {
                LogLevel::Error => 'E',
                LogLevel::Warn => 'W',
                LogLevel::Info => 'I',
                LogLevel::Debug => 'D',
                LogLevel::Trace => 'T',
            };
            let n = text::decimal(ms as nat).len() as int;
            &&& text::parsed(line.take(n), u64::MAX as nat) == Some(ms as nat)
            &&& line[n] == ' ' && line[n + 1] == letter && line[n + 2] == ' '
            &&& line.skip(n + 3) == target + ": "@ + message
        }),
{
    reveal_strlit("E");
    reveal_strlit("W");
    reveal_strlit("I");
    reveal_strlit("D");
    reveal_strlit("T");
    reveal_strlit(" ");
    text::written_numbers_are_read_back(ms as nat, u64::MAX as nat);
    let line = console_text(ms, level, target, message);
    let n = text::decimal(ms as nat).len() as int;
    assert(line.take(n) =~= text::decimal(ms as nat));
    assert(line.skip(n + 3) =~= target + ": "@ + message);
}

/// Ending one end of a subscription touches that subscriber alone: one that has
/// another number and an end that is held stays as it is, and the one that is
/// meant loses that end, and leaves where it was its last.
pub proof fn ends_are_given_up_one_by_one(b: BufferModel, id: u64, i: int)
    requires
        0 <= i < b.subscribers.len(),
        b.subscribers[i].sending || b.subscribers[i].receiving,
    ensures
        ({
            let s = b.subscribers[i];
            let unsubscribed = b.unsubscribe(id).subscribers;
            let hung_up = b.hang_up(id).subscribers;
            &&& s.id != id ==> unsubscribed.contains(s) && hung_up.contains(s)
            &&& s.id == id && s.receiving ==> unsubscribed.contains(
                SubscriberModel { sending: false, ..s },
            )
            &&& s.id == id && s.sending ==> hung_up.contains(
                SubscriberModel { receiving: false, queue: Seq::empty(), ..s },
            )
        }),
        forall|k: int|
            0 <= k < b.unsubscribe(id).subscribers.len() && (#[trigger] b.unsubscribe(
                id,
            ).subscribers[k]).id == id ==> !b.unsubscribe(id).subscribers[k].sending,
        forall|k: int|
            0 <= k < b.hang_up(id).subscribers.len() && (#[trigger] b.hang_up(id).subscribers[k]).id
                == id ==> !b.hang_up(id).subscribers[k].receiving,
        b.unsubscribe(id).records == b.records && b.hang_up(id).records == b.records,
{
    let keep = |s: SubscriberModel| s.sending || s.receiving;
    let cut = Seq::new(
        b.subscribers.len(),
        |j: int|
            if b.subscribers[j].id == id {
                SubscriberModel { sending: false, ..b.subscribers[j] }
            } else {
                b.subscribers[j]
            },
    );
    let closed = Seq::new(
        b.subscribers.len(),
        |j: int|
            if b.subscribers[j].id == id {
                SubscriberModel { receiving: false, queue: Seq::empty(), ..b.subscribers[j] }
            } else {
                b.subscribers[j]
            },
    );
    assert(b.unsubscribe(id).subscribers == swept(cut));
    assert(b.hang_up(id).subscribers == swept(closed));
    only_the_abandoned_leave(cut);
    only_the_abandoned_leave(closed);
    if keep(cut[i]) {
        cut.lemma_filter_contains(keep, i);
    }
    if keep(closed[i]) {
        closed.lemma_filter_contains(keep, i);
    }
    assert forall|k: int|
        0 <= k < b.unsubscribe(id).subscribers.len() && (#[trigger] b.unsubscribe(
            id,
        ).subscribers[k]).id == id implies !b.unsubscribe(id).subscribers[k].sending by {
        let s = cut.filter(keep)[k];
        cut.lemma_filter_contains_rev(keep, s);
        let j = choose|j: int| 0 <= j < cut.len() && cut[j] == s;
        assert(cut[j].id == id);
    }
    assert forall|k: int|
        0 <= k < b.hang_up(id).subscribers.len() && (#[trigger] b.hang_up(id).subscribers[k]).id
            == id implies !b.hang_up(id).subscribers[k].receiving by {
        let s = closed.filter(keep)[k];
        closed.lemma_filter_contains_rev(keep, s);
        let j = choose|j: int| 0 <= j < closed.len() && closed[j] == s;
        assert(closed[j].id == id);
    }
}

/// A subscriber without a queue takes a record only while its receiver waits for
/// one, and one at most; a look ends the wait.
pub proof fn records_are_handed_over_without_a_queue(s: SubscriberModel, rec: LogRecord)
    requires
        s.capacity == 0,
        s.sending,
        s.receiving,
    ensures
        s.waiting && s.queue.len() == 0 ==> s.offered(rec).queue == seq![rec],
        !s.waiting || s.queue.len() > 0 ==> s.offered(rec) == s,
        s.offered(rec).offered(rec) == s.offered(rec),
        !s.taken().waiting,
{
    if s.waiting && s.queue.len() == 0 {
        assert(s.queue.push(rec) =~= seq![rec]);
    }
}

} // verus!
