//! Bounded, interruptible local console output: what is admitted to the
//! queue, what the writer takes from it, and what counts as delivered.
use vstd::prelude::*;
use vstd::slice::slice_subrange;

use crate::bytes::{append_bytes, bytes_of};
use crate::terminal_modes::{asks_cursor_report, contains_cursor_report_request};
use crate::terminal_protocol::FlowControlMode;
use crate::text::{first_index, lemma_first_index};

verus! {

/// How many bytes the queue may hold.
pub const OUTPUT_BYTES: usize = 65_536;

/// How many packets the queue may hold.
pub const OUTPUT_PACKETS: usize = 4096;

/// How many bytes have to be queued for an interrupt to drop any.
pub const FLUSH_THRESHOLD: usize = 65_536;

/// How long a writer may make no progress at the end of a session, in
/// milliseconds.
pub const GRACEFUL_DRAIN_STALL_MILLIS: u64 = 1000;

/// A packet of terminal output, and which tracker of terminal modes is told
/// of it once it is delivered.
#[derive(Debug)]
pub struct OutputEntry {
    pub bytes: Vec<u8>,
    pub tracker: u64,
}

/// The contents of an [`OutputEntry`].
pub struct EntryModel {
    pub bytes: Seq<u8>,
    pub tracker: u64,
}

impl DeepView for OutputEntry {
    type V = EntryModel;

    open spec fn deep_view(&self) -> EntryModel {
        EntryModel { bytes: self.bytes@, tracker: self.tracker }
    }
}

/// Why output is not taken.
#[derive(Debug)]
pub enum ConsoleError {
    /// The packet can never fit.
    TooLarge,
    /// No more output is taken.
    Stopped,
    /// The writer failed, with the system's description.
    Writer(String),
}

impl ConsoleError {
    pub open spec fn text(self) -> Seq<char> {
        match self {
            ConsoleError::TooLarge => "terminal output packet exceeds console queue capacity"@,
            ConsoleError::Stopped => "console output stopped"@,
            ConsoleError::Writer(cause) => cause@,
        }
    }

    pub fn message(&self) -> (out: String)
        ensures
            out@ == self.text(),
    {
        match self {
            ConsoleError::TooLarge =>
                "terminal output packet exceeds console queue capacity".to_owned(),
            ConsoleError::Stopped => "console output stopped".to_owned(),
            ConsoleError::Writer(cause) => cause.clone(),
        }
    }
}

/// How many bytes a list of packets holds.
pub open spec fn total_bytes(entries: Seq<EntryModel>) -> nat
    decreases entries.len(),
{
    if entries.len() == 0 {
        0
    } else {
        total_bytes(entries.drop_last()) + entries.last().bytes.len()
    }
}

/// All the bytes of a list of packets, in order.
pub open spec fn all_bytes(entries: Seq<EntryModel>) -> Seq<u8>
    decreases entries.len(),
{
    if entries.len() == 0 {
        Seq::empty()
    } else {
        all_bytes(entries.drop_last()) + entries.last().bytes
    }
}

proof fn lemma_total_is_length(entries: Seq<EntryModel>)
    ensures
        all_bytes(entries).len() == total_bytes(entries),
    decreases entries.len(),
{
    if entries.len() > 0 {
        lemma_total_is_length(entries.drop_last());
    }
}

proof fn lemma_total_first(entries: Seq<EntryModel>)
    requires
        entries.len() > 0,
    ensures
        total_bytes(entries) == entries[0].bytes.len() + total_bytes(entries.skip(1)),
    decreases entries.len(),
{
    if entries.len() == 1 {
        assert(entries.drop_last() =~= Seq::<EntryModel>::empty());
        assert(entries.skip(1) =~= Seq::<EntryModel>::empty());
    } else {
        lemma_total_first(entries.drop_last());
        assert(entries.drop_last().skip(1) =~= entries.skip(1).drop_last());
        assert(entries.skip(1).last() == entries.last());
    }
}

proof fn lemma_total_monotonic(entries: Seq<EntryModel>, i: int)
    requires
        0 <= i <= entries.len(),
    ensures
        total_bytes(entries.take(i)) <= total_bytes(entries),
    decreases entries.len() - i,
{
    if i < entries.len() {
        assert(entries.take(i + 1).drop_last() =~= entries.take(i));
        lemma_total_monotonic(entries, i + 1);
    } else {
        assert(entries.take(i) =~= entries);
    }
}

/// The queue between the session and the console writer.
#[derive(Debug)]
pub struct ConsoleQueue {
    pub queue: Vec<OutputEntry>,
    pub bytes: usize,
    pub stopping: bool,
    pub error: Option<String>,
    pub cursor_reports: usize,
    pub worker_done: bool,
    pub worker_progress: usize,
    /// The rest of a line whose beginning an interrupt dropped is dropped too.
    pub skip_until_newline: bool,
}

/// Whether a packet of `length` bytes has room.
pub open spec fn has_room(entries: Seq<EntryModel>, length: nat) -> bool {
    total_bytes(entries) + length <= OUTPUT_BYTES && entries.len() < OUTPUT_PACKETS
}

/// What is left when packets make way, the oldest first, until there is room.
pub open spec fn make_room(entries: Seq<EntryModel>, length: nat) -> Seq<EntryModel>
    decreases entries.len(),
{
    if has_room(entries, length) || entries.len() == 0 {
        entries
    } else {
        make_room(entries.skip(1), length)
    }
}

/// The part of a packet that can ever fit: its end.
pub open spec fn fitting_end(bytes: Seq<u8>) -> Seq<u8> {
    if bytes.len() > OUTPUT_BYTES {
        bytes.skip(bytes.len() - OUTPUT_BYTES)
    } else {
        bytes
    }
}

/// What is left of a packet that begins inside a dropped line. There is
/// nothing where the line does not end in it.
pub open spec fn after_dropped_line(bytes: Seq<u8>, skipping: bool) -> Option<Seq<u8>> {
    if !skipping {
        Some(bytes)
    } else if first_index(bytes, 10u8) < bytes.len() {
        Some(bytes.skip(first_index(bytes, 10u8) + 1))
    } else {
        None
    }
}

impl ConsoleQueue {
    /// The queued packets.
    pub open spec fn entries(self) -> Seq<EntryModel> {
        self.queue.deep_view()
    }

    /// The bytes are counted, and the queue is within its bounds.
    pub open spec fn well_formed(self) -> bool {
        &&& self.bytes == total_bytes(self.entries())
        &&& self.bytes <= OUTPUT_BYTES
        &&& self.queue@.len() <= OUTPUT_PACKETS
    }

    pub fn new() -> (queue: Self)
        ensures
            queue.well_formed(),
            queue.entries() == Seq::<EntryModel>::empty(),
            !queue.stopping && !queue.worker_done && !queue.skip_until_newline,
            queue.error is None,
            queue.cursor_reports == 0 && queue.worker_progress == 0,
    {
        let queue = ConsoleQueue {
            queue: Vec::new(),
            bytes: 0,
            stopping: false,
            error: None,
            cursor_reports: 0,
            worker_done: false,
            worker_progress: 0,
            skip_until_newline: false,
        };
        assert(queue.entries() =~= Seq::<EntryModel>::empty());
        queue
    }

    /// The same queue in every field but the packets, their count and the
    /// line that is being dropped.
    pub open spec fn same_but_contents(self, other: Self) -> bool {
        &&& self.stopping == other.stopping
        &&& self.error == other.error
        &&& self.cursor_reports == other.cursor_reports
        &&& self.worker_done == other.worker_done
        &&& self.worker_progress == other.worker_progress
    }

    /// Attempt to admit one complete terminal-output packet without waiting.
    ///
    /// `Ok(false)` leaves the packet with the caller, which must retry the
    /// same packet before reading another server packet. In `Discard` mode
    /// the oldest packets make way instead.
    pub fn try_write(&mut self, mode: FlowControlMode, bytes: &[u8], tracker: u64) -> (r: Result<
        bool,
        ConsoleError,
    >)
        requires
            old(self).well_formed(),
        ensures
            final(self).well_formed(),
            if mode != FlowControlMode::Discard && bytes@.len() > OUTPUT_BYTES {
                r == Err::<bool, ConsoleError>(ConsoleError::TooLarge) && *final(self) == *old(self)
            } else if let Some(cause) = old(self).error {
                &&& r == Err::<bool, ConsoleError>(ConsoleError::Writer(cause))
                &&& final(self).error is None
                &&& *final(self) == ConsoleQueue { error: None, ..*old(self) }
            } else if old(self).stopping {
                r == Err::<bool, ConsoleError>(ConsoleError::Stopped) && *final(self) == *old(self)
            } else {
                match after_dropped_line(fitting_end(bytes@), old(self).skip_until_newline) {
                    None => r == Ok::<bool, ConsoleError>(true) && *final(self) == *old(self),
                    Some(kept) => if mode != FlowControlMode::Discard && !has_room(
                        old(self).entries(),
                        kept.len(),
                    ) {
                        r == Ok::<bool, ConsoleError>(false) && *final(self) == *old(self)
                    } else {
                        &&& r == Ok::<bool, ConsoleError>(true)
                        &&& final(self).entries() == make_room(old(self).entries(), kept.len()).push(
                            EntryModel { bytes: kept, tracker },
                        )
                        &&& !final(self).skip_until_newline
                        &&& final(self).same_but_contents(*old(self))
                    },
                }
            },
    {
        if mode != FlowControlMode::Discard && bytes.len() > OUTPUT_BYTES {
            return Err(ConsoleError::TooLarge);
        }
        let end = if bytes.len() > OUTPUT_BYTES {
            slice_subrange(bytes, bytes.len() - OUTPUT_BYTES, bytes.len())
        } else {
            bytes
        };
        assert(end@ =~= fitting_end(bytes@));
        match self.error.take() {
            Some(cause) => {
                return Err(ConsoleError::Writer(cause));
            },
            None => {},
        }
        assert(*self == *old(self));
        if self.stopping {
            return Err(ConsoleError::Stopped);
        }
        let mut kept = end;
        if self.skip_until_newline {
            let k = find_newline(end);
            if k >= end.len() {
                return Ok(true);
            }
            kept = slice_subrange(end, k + 1, end.len());
            assert(kept@ =~= end@.skip(k + 1));
        }
        if mode != FlowControlMode::Discard {
            if self.bytes + kept.len() > OUTPUT_BYTES || self.queue.len() >= OUTPUT_PACKETS {
                return Ok(false);
            }
        } else {
            self.evict(kept.len());
        }
        // The dropped line ends only now: a held packet must come back to
        // the same state while the queue is still full.
        self.skip_until_newline = false;
        self.bytes = self.bytes + kept.len();
        let ghost before = self.entries();
        self.queue.push(OutputEntry { bytes: bytes_of(kept), tracker });
        proof {
            let entry = EntryModel { bytes: kept@, tracker };
            assert(self.entries() =~= before.push(entry));
            assert(before.push(entry).drop_last() =~= before);
        }
        Ok(true)
    }

    fn evict(&mut self, length: usize)
        requires
            old(self).well_formed(),
            length <= OUTPUT_BYTES,
        ensures
            final(self).well_formed(),
            final(self).entries() == make_room(old(self).entries(), length as nat),
            has_room(final(self).entries(), length as nat),
            final(self).same_but_contents(*old(self)),
            final(self).skip_until_newline == old(self).skip_until_newline,
    {
        while (self.bytes + length > OUTPUT_BYTES || self.queue.len() >= OUTPUT_PACKETS)
            && self.queue.len() > 0
            invariant
                self.well_formed(),
                length <= OUTPUT_BYTES,
                make_room(self.entries(), length as nat) == make_room(
                    old(self).entries(),
                    length as nat,
                ),
                self.same_but_contents(*old(self)),
                self.skip_until_newline == old(self).skip_until_newline,
            decreases self.queue@.len(),
        {
            let ghost before = self.entries();
            let removed = self.queue.remove(0);
            proof {
                assert(before[0].bytes == removed.bytes@);
                assert(self.entries() =~= before.skip(1));
                lemma_total_first(before);
            }
            self.bytes = self.bytes - removed.bytes.len();
        }
        assert(self.queue@.len() == 0 ==> self.entries() =~= Seq::<EntryModel>::empty());
    }

    /// Whether anything is still queued.
    pub fn has_pending_data(&self) -> (r: bool)
        requires
            self.well_formed(),
        ensures
            r == (self.entries().len() > 0),
    {
        assert(self.queue@.len() == 0 ==> self.entries() =~= Seq::<EntryModel>::empty());
        self.bytes > 0 || self.queue.len() > 0
    }

    /// Takes note of cursor reports that delivered packets ask for.
    pub fn owe_cursor_reports(&mut self, reports: usize)
        requires
            old(self).cursor_reports + reports <= usize::MAX,
        ensures
            *final(self) == (ConsoleQueue {
                cursor_reports: (old(self).cursor_reports + reports) as usize,
                ..*old(self)
            }),
    {
        self.cursor_reports = self.cursor_reports + reports;
    }

    /// How many cursor reports are owed, which the caller now sends.
    pub fn take_cursor_reports(&mut self) -> (count: usize)
        ensures
            count == old(self).cursor_reports,
            *final(self) == (ConsoleQueue { cursor_reports: 0, ..*old(self) }),
    {
        let count = self.cursor_reports;
        self.cursor_reports = 0;
        count
    }

    /// The failure of the writer, told once.
    pub fn check_error(&mut self) -> (r: Result<(), ConsoleError>)
        ensures
            r == match old(self).error {
                Some(cause) => Err::<(), ConsoleError>(ConsoleError::Writer(cause)),
                None => Ok(()),
            },
            *final(self) == (ConsoleQueue { error: None, ..*old(self) }),
    {
        match self.error.take() {
            Some(cause) => Err(ConsoleError::Writer(cause)),
            None => Ok(()),
        }
    }

    pub fn worker_progress(&self) -> (count: usize)
        ensures
            count == self.worker_progress,
    {
        self.worker_progress
    }

    /// Notes that the writer got something out.
    pub fn report_worker_progress(&mut self)
        ensures
            final(self).worker_progress == (if old(self).worker_progress == usize::MAX {
                0
            } else {
                old(self).worker_progress + 1
            }),
            *final(self) == (ConsoleQueue {
                worker_progress: final(self).worker_progress,
                ..*old(self)
            }),
    {
        self.worker_progress = if self.worker_progress == usize::MAX {
            0
        } else {
            self.worker_progress + 1
        };
    }

    /// What an interrupt could drop, where enough is queued for that.
    pub fn interruptible(&self) -> (r: Option<Vec<u8>>)
        requires
            self.well_formed(),
        ensures
            match r {
                Some(bytes) => self.bytes >= FLUSH_THRESHOLD && bytes@ == all_bytes(self.entries()),
                None => self.bytes < FLUSH_THRESHOLD,
            },
    {
        if self.bytes < FLUSH_THRESHOLD {
            return None;
        }
        Some(joined_bytes(&self.queue))
    }

    /// Puts what an interrupt kept of the queued bytes in place of them. The
    /// packets keep their order and their trackers; those for which nothing
    /// is left go. The packet that the writer already owns is not touched.
    pub fn interrupt(&mut self, kept: &[u8], skip_until_newline: bool)
        requires
            old(self).well_formed(),
            kept@.len() <= old(self).bytes,
        ensures
            final(self).well_formed(),
            all_bytes(final(self).entries()) == kept@,
            final(self).entries() == refill(old(self).entries(), kept@),
            final(self).skip_until_newline == (old(self).skip_until_newline || skip_until_newline),
            final(self).same_but_contents(*old(self)),
    {
        let ghost before = self.entries();
        let mut next: Vec<OutputEntry> = Vec::new();
        let mut used: usize = 0;
        let mut i: usize = 0;
        assert(next.deep_view() =~= refill(before.take(0), kept@));
        assert(all_bytes(next.deep_view()) =~= kept@.take(0));
        while i < self.queue.len()
            invariant
                i <= self.queue@.len(),
                *self == *old(self),
                before == self.entries(),
                used <= kept@.len(),
                next.deep_view() == refill(before.take(i as int), kept@),
                next@.len() <= i,
                all_bytes(next.deep_view()) == kept@.take(used as int),
                used == (if total_bytes(before.take(i as int)) < kept@.len() {
                    total_bytes(before.take(i as int)) as int
                } else {
                    kept@.len() as int
                }),
            decreases self.queue@.len() - i,
        {
            let ghost built = next.deep_view();
            let length: usize = self.queue[i].bytes.len();
            let rest: usize = kept.len() - used;
            let count: usize = if rest < length {
                rest
            } else {
                length
            };
            proof {
                assert(before.take(i + 1).drop_last() =~= before.take(i as int));
                assert(before.take(i + 1).last() == before[i as int]);
                assert(before[i as int].bytes == self.queue@[i as int].bytes@);
            }
            if count != 0 {
                let part = bytes_of(slice_subrange(kept, used, used + count));
                let ghost entry = EntryModel { bytes: part@, tracker: before[i as int].tracker };
                next.push(OutputEntry { bytes: part, tracker: self.queue[i].tracker });
                proof {
                    assert(next.deep_view() =~= built.push(entry));
                    assert(built.push(entry).drop_last() =~= built);
                    assert(kept@.take(used as int) + entry.bytes =~= kept@.take(used + count));
                }
                used = used + count;
            }
            i += 1;
        }
        proof {
            assert(before.take(i as int) =~= before);
            assert(kept@.take(used as int) =~= kept@);
            lemma_total_is_length(next.deep_view());
        }
        self.queue = next;
        self.bytes = kept.len();
        if skip_until_newline {
            self.skip_until_newline = true;
        }
    }

    /// What the writer does next.
    pub open spec fn writer_turn(self) -> WriterTurn {
        if self.entries().len() > 0 {
            WriterTurn::Write
        } else if self.stopping {
            WriterTurn::Exit
        } else {
            WriterTurn::Wait
        }
    }

    pub fn next_turn(&self) -> (turn: WriterTurn)
        ensures
            turn == self.writer_turn(),
    {
        if self.queue.len() > 0 {
            WriterTurn::Write
        } else if self.stopping {
            WriterTurn::Exit
        } else {
            WriterTurn::Wait
        }
    }

    /// Hands everything that is queued to the writer, and frees its room.
    pub fn take_batch(&mut self) -> (batch: Batch)
        requires
            old(self).well_formed(),
        ensures
            final(self).well_formed(),
            final(self).entries() == Seq::<EntryModel>::empty(),
            final(self).same_but_contents(*old(self)),
            final(self).skip_until_newline == old(self).skip_until_newline,
            batch.well_formed(),
            batch.entries.deep_view() == old(self).entries(),
            batch.delivered() == 0,
    {
        let mut entries: Vec<OutputEntry> = Vec::new();
        std::mem::swap(&mut entries, &mut self.queue);
        self.bytes = 0;
        assert(self.entries() =~= Seq::<EntryModel>::empty());
        let batch = Batch { entries, next: 0, confirmed: 0 };
        assert(batch.entries.deep_view().take(0) =~= Seq::<EntryModel>::empty());
        batch
    }

    /// Records how the writer ended: with a failure, or because it was told
    /// to.
    pub fn finish_writer(&mut self, failure: Option<String>)
        ensures
            *final(self) == match failure {
                Some(cause) => ConsoleQueue {
                    error: Some(cause),
                    stopping: true,
                    worker_done: true,
                    ..*old(self)
                },
                None => ConsoleQueue { worker_done: true, ..*old(self) },
            },
    {
        match failure {
            Some(cause) => {
                self.error = Some(cause);
                self.stopping = true;
            },
            None => {},
        }
        self.worker_done = true;
    }

    /// Takes no more output; the writer finishes what is queued.
    pub fn stop(&mut self)
        ensures
            *final(self) == (ConsoleQueue { stopping: true, ..*old(self) }),
    {
        self.stopping = true;
    }
}

#[derive(Debug, Clone, Copy, PartialEq, Eq, Structural)]
pub enum WriterTurn {
    /// Take the batch and write it.
    Write,
    /// Nothing is left and nothing will come.
    Exit,
    /// Wait until something is queued, or until it is stopped.
    Wait,
}

fn find_newline(bytes: &[u8]) -> (k: usize)
    ensures
        k == first_index(bytes@, 10u8),
        k <= bytes@.len(),
{
    let mut i: usize = 0;
    while i < bytes.len() && bytes[i] != 10
        invariant
            i <= bytes@.len(),
            forall|j: int| 0 <= j < i ==> bytes@[j] != 10,
        decreases bytes@.len() - i,
    {
        i += 1;
    }
    proof {
        crate::text::lemma_first_index(bytes@, 10u8, i as int);
    }
    i
}

fn joined_bytes(entries: &Vec<OutputEntry>) -> (out: Vec<u8>)
    ensures
        out@ == all_bytes(entries.deep_view()),
{
    let ghost all = entries.deep_view();
    let mut out: Vec<u8> = Vec::new();
    let mut i: usize = 0;
    assert(out@ =~= all_bytes(all.take(0)));
    while i < entries.len()
        invariant
            i <= entries@.len(),
            all == entries.deep_view(),
            out@ == all_bytes(all.take(i as int)),
        decreases entries@.len() - i,
    {
        append_bytes(&mut out, entries[i].bytes.as_slice());
        proof {
            assert(all.take(i + 1).drop_last() =~= all.take(i as int));
            assert(all.take(i + 1).last().bytes == entries@[i as int].bytes@);
        }
        i += 1;
    }
    assert(all.take(i as int) =~= all);
    out
}

/// The packets with the kept bytes in place of their own: each takes as many
/// as it held, as long as there are any.
pub open spec fn refill(entries: Seq<EntryModel>, kept: Seq<u8>) -> Seq<EntryModel>
    decreases entries.len(),
{
    if entries.len() == 0 {
        Seq::empty()
    } else {
        let earlier = refill(entries.drop_last(), kept);
        let start = total_bytes(entries.drop_last());
        let end = total_bytes(entries);
        if start >= kept.len() || entries.last().bytes.len() == 0 {
            earlier
        } else {
            let stop = if end < kept.len() {
                end
            } else {
                kept.len()
            };
            earlier.push(
                EntryModel {
                    bytes: kept.subrange(start as int, stop as int),
                    tracker: entries.last().tracker,
                },
            )
        }
    }
}

// Delivery. A buffered sink must flush before a completed packet can affect
// terminal cleanup or cursor-report accounting.

/// Packets that the writer owns, and how much of them was delivered.
#[derive(Debug)]
pub struct Batch {
    pub entries: Vec<OutputEntry>,
    /// How many packets were delivered completely.
    pub next: usize,
    /// How many bytes behind those were delivered.
    pub confirmed: usize,
}

impl Batch {
    /// How many bytes were delivered.
    pub open spec fn delivered(self) -> nat {
        total_bytes(self.entries.deep_view().take(self.next as int)) + self.confirmed as nat
    }

    /// A packet that counts as not delivered has something left.
    pub open spec fn well_formed(self) -> bool {
        &&& self.next <= self.entries@.len()
        &&& self.delivered() <= total_bytes(self.entries.deep_view())
    }

    /// How many packets are complete after so many bytes.
    pub open spec fn complete_after(self, count: nat, k: int) -> bool {
        let all = self.entries.deep_view();
        &&& 0 <= k <= all.len()
        &&& total_bytes(all.take(k)) <= count
        &&& k < all.len() ==> total_bytes(all.take(k + 1)) > count
    }

    /// All the bytes to write, in order.
    pub fn bytes(&self) -> (out: Vec<u8>)
        ensures
            out@ == all_bytes(self.entries.deep_view()),
    {
        joined_bytes(&self.entries)
    }

    /// Takes note that `count` more bytes were delivered. The packets that
    /// this completes are those from the old `next` up to the new one; the
    /// result says how many of them ask for a cursor report.
    pub fn deliver(&mut self, count: usize) -> (reports: usize)
        requires
            old(self).well_formed(),
            old(self).delivered() + count <= total_bytes(old(self).entries.deep_view()),
            total_bytes(old(self).entries.deep_view()) <= usize::MAX,
        ensures
            final(self).well_formed(),
            final(self).entries == old(self).entries,
            final(self).delivered() == old(self).delivered() + count,
            old(self).next <= final(self).next,
            final(self).complete_after(final(self).delivered(), final(self).next as int),
            reports == requests_between(
                old(self).entries.deep_view(),
                old(self).next as int,
                final(self).next as int,
            ),
    {
        let ghost all = self.entries.deep_view();
        let ghost target = self.delivered() + count;
        self.confirmed = self.confirmed + count;
        let mut reports: usize = 0;
        while self.next < self.entries.len() && self.entries[self.next].bytes.len()
            <= self.confirmed
            invariant
                all == self.entries.deep_view(),
                self.entries == old(self).entries,
                old(self).next <= self.next <= self.entries@.len(),
                self.delivered() == target,
                reports <= self.next - old(self).next,
                reports == requests_between(all, old(self).next as int, self.next as int),
            decreases self.entries@.len() - self.next,
        {
            proof {
                assert(all.take(self.next + 1).drop_last() =~= all.take(self.next as int));
                assert(all.take(self.next + 1).last().bytes
                    == self.entries@[self.next as int].bytes@);
            }
            self.confirmed = self.confirmed - self.entries[self.next].bytes.len();
            if contains_cursor_report_request(self.entries[self.next].bytes.as_slice()) {
                reports = reports + 1;
            }
            self.next = self.next + 1;
        }
        proof {
            if self.next < all.len() {
                assert(all.take(self.next + 1).drop_last() =~= all.take(self.next as int));
                assert(all.take(self.next + 1).last().bytes
                    == self.entries@[self.next as int].bytes@);
            }
        }
        reports
    }
}

/// How many packets from `from` up to `to` ask for a cursor report. A packet
/// counts once, and a request that two packets share does not count.
pub open spec fn requests_between(entries: Seq<EntryModel>, from: int, to: int) -> nat
    decreases to - from,
{
    if to <= from {
        0
    } else {
        requests_between(entries, from, to - 1) + if asks_cursor_report(entries[to - 1].bytes) {
            1nat
        } else {
            0
        }
    }
}

/// Whether the packets from `k` on are what is left when others make way:
/// with any more of the older ones there would be no room.
pub open spec fn first_fitting_end(entries: Seq<EntryModel>, length: nat, k: int) -> bool {
    &&& 0 <= k <= entries.len()
    &&& make_room(entries, length) == entries.skip(k)
    &&& forall|j: int| 0 <= j < k ==> !has_room(#[trigger] entries.skip(j), length)
}

/// Packets that make way for a new one are the oldest ones, and no more of
/// them go than have to.
pub proof fn only_the_oldest_make_way(entries: Seq<EntryModel>, length: nat)
    ensures
        exists|k: int| first_fitting_end(entries, length, k),
    decreases entries.len(),
{
    if has_room(entries, length) || entries.len() == 0 {
        assert(entries.skip(0) =~= entries);
        assert(first_fitting_end(entries, length, 0));
    } else {
        let rest = entries.skip(1);
        only_the_oldest_make_way(rest, length);
        let k = choose|k: int| first_fitting_end(rest, length, k);
        assert(rest.skip(k) =~= entries.skip(k + 1));
        assert forall|j: int| 0 <= j < k + 1 implies !has_room(
            #[trigger] entries.skip(j),
            length,
        ) by {
            if j == 0 {
                assert(entries.skip(0) =~= entries);
            } else {
                assert(entries.skip(j) =~= rest.skip(j - 1));
            }
        }
        assert(first_fitting_end(entries, length, k + 1));
    }
}

// Writing.

/// Why a sink took no more bytes.
#[derive(Debug)]
pub enum WriteFault {
    /// It accepts nothing, without saying why.
    Zero,
    /// The system's description.
    Sink(String),
}

/// What one write to a sink, or one flush of it, gave.
#[derive(Debug)]
pub enum SinkEvent {
    /// So many bytes were accepted; a flush accepts none.
    Accepted(usize),
    Interrupted,
    Failed(String),
}

/// What the writer does next.
#[derive(Debug)]
pub enum SinkStep {
    /// Report progress and flush: these bytes count as delivered then.
    Flush(usize),
    /// The bytes that were flushed are delivered.
    Delivered,
    Retry,
    Fail(WriteFault),
}

/// Decides what follows a write.
pub fn after_write(event: SinkEvent) -> (step: SinkStep)
    ensures
        step == match event {
            SinkEvent::Accepted(count) => if count == 0 {
                SinkStep::Fail(WriteFault::Zero)
            } else {
                SinkStep::Flush(count)
            },
            SinkEvent::Interrupted => SinkStep::Retry,
            SinkEvent::Failed(cause) => SinkStep::Fail(WriteFault::Sink(cause)),
        },
{
    match event {
        SinkEvent::Accepted(count) => {
            if count == 0 {
                SinkStep::Fail(WriteFault::Zero)
            } else {
                SinkStep::Flush(count)
            }
        },
        SinkEvent::Interrupted => SinkStep::Retry,
        SinkEvent::Failed(cause) => SinkStep::Fail(WriteFault::Sink(cause)),
    }
}

/// Decides what follows a flush. Bytes that were accepted are never written
/// again, and a failed flush delivers nothing.
pub fn after_flush(event: SinkEvent) -> (step: SinkStep)
    ensures
        step == match event {
            SinkEvent::Accepted(_) => SinkStep::Delivered,
            SinkEvent::Interrupted => SinkStep::Retry,
            SinkEvent::Failed(cause) => SinkStep::Fail(WriteFault::Sink(cause)),
        },
{
    match event {
        SinkEvent::Accepted(_) => SinkStep::Delivered,
        SinkEvent::Interrupted => SinkStep::Retry,
        SinkEvent::Failed(cause) => SinkStep::Fail(WriteFault::Sink(cause)),
    }
}

impl WriteFault {
    pub open spec fn text(self) -> Seq<char> {
        match self {
            WriteFault::Zero => "write zero"@,
            WriteFault::Sink(cause) => cause@,
        }
    }

    pub fn message(self) -> (out: String)
        ensures
            out@ == self.text(),
    {
        match self {
            WriteFault::Zero => "write zero".to_owned(),
            WriteFault::Sink(cause) => cause,
        }
    }
}

/// Where the writer stands.
#[derive(Debug, Clone, Copy, PartialEq, Eq, Structural)]
pub enum WriterPhase {
    /// It looks at the queue.
    Look,
    /// It offers the rest of its batch to the sink.
    Write,
    /// The sink accepted so many bytes, which it has to flush.
    Flush(usize),
    Gone,
}

/// What happened to the writer.
#[derive(Debug)]
pub enum WriterEvent {
    /// It has the queue before it.
    Woken,
    /// What the sink did.
    Sink(SinkEvent),
    /// The queue is no longer there.
    Lost,
}

/// Whom the writer wakes.
#[derive(Debug, Clone, Copy, PartialEq, Eq, Structural)]
pub struct WriterSignals {
    /// The queue has room, or a cursor report is owed.
    pub capacity: bool,
    /// The writer failed.
    pub status: bool,
}

/// The writer of the console: it takes what is queued, batch by batch, and
/// gets it out.
#[derive(Debug)]
pub struct Writer {
    pub batch: Batch,
    /// How many bytes of the batch the sink accepted and flushed.
    pub written: usize,
    pub phase: WriterPhase,
}

impl Writer {
    /// Only the bytes behind what was delivered are offered to the sink, and
    /// what it accepted is a part of them.
    pub open spec fn well_formed(self) -> bool {
        let total = total_bytes(self.batch.entries.deep_view());
        &&& self.batch.well_formed()
        &&& self.written == self.batch.delivered()
        &&& self.batch.entries@.len() <= OUTPUT_PACKETS
        &&& total <= OUTPUT_BYTES
        &&& self.phase is Write ==> self.written < total
        &&& self.phase matches WriterPhase::Flush(count) ==> 0 < count && self.written + count
            <= total
    }

    /// What is offered to the sink.
    pub open spec fn offered(self) -> Seq<u8> {
        all_bytes(self.batch.entries.deep_view()).skip(self.written as int)
    }

    pub fn new() -> (writer: Self)
        ensures
            writer.well_formed(),
            writer.phase == WriterPhase::Look,
            writer.batch.entries@.len() == 0,
    {
        let writer = Writer {
            batch: Batch { entries: Vec::new(), next: 0, confirmed: 0 },
            written: 0,
            phase: WriterPhase::Look,
        };
        assert(writer.batch.entries.deep_view() =~= Seq::<EntryModel>::empty());
        assert(writer.batch.entries.deep_view().take(0) =~= Seq::<EntryModel>::empty());
        writer
    }

    /// What is to be written.
    pub fn rest(&self) -> (bytes: Vec<u8>)
        requires
            self.well_formed(),
        ensures
            bytes@ == self.offered(),
    {
        proof {
            lemma_total_is_length(self.batch.entries.deep_view());
        }
        let all = self.batch.bytes();
        let rest = bytes_of(slice_subrange(all.as_slice(), self.written, all.len()));
        assert(rest@ =~= self.offered());
        rest
    }

    /// Whether an event can come to the writer as it stands: a sink accepts
    /// no more than it is offered.
    pub open spec fn can_see(self, event: WriterEvent) -> bool {
        self.phase is Write && (event matches WriterEvent::Sink(SinkEvent::Accepted(count)))
            ==> event->Sink_0->Accepted_0 <= self.offered().len()
    }

    /// Whether the writer ended with a failure, and the queue knows.
    pub open spec fn failed(
        before: Self,
        queue_before: ConsoleQueue,
        after: Self,
        queue: ConsoleQueue,
        cause: Seq<char>,
    ) -> bool {
        &&& after == (Writer { phase: WriterPhase::Gone, ..before })
        &&& queue.error matches Some(words)
        &&& words@ == cause
        &&& queue == (ConsoleQueue {
            error: queue.error,
            stopping: true,
            worker_done: true,
            ..queue_before
        })
    }

    /// Whether a look at the queue did what it has to.
    pub open spec fn looked(
        before: Self,
        queue_before: ConsoleQueue,
        after: Self,
        queue: ConsoleQueue,
        signals: WriterSignals,
    ) -> bool {
        match queue_before.writer_turn() {
            WriterTurn::Wait => after == before && queue == queue_before && !signals.capacity,
            WriterTurn::Exit => {
                &&& after == (Writer { phase: WriterPhase::Gone, ..before })
                &&& queue == (ConsoleQueue { worker_done: true, ..queue_before })
                &&& !signals.capacity
            },
            WriterTurn::Write => {
                &&& after.batch.entries.deep_view() == queue_before.entries()
                &&& after.written == 0
                &&& after.phase == if queue_before.bytes == 0 {
                    WriterPhase::Look
                } else {
                    WriterPhase::Write
                }
                &&& queue.entries() == Seq::<EntryModel>::empty()
                &&& queue.same_but_contents(queue_before)
                &&& queue.skip_until_newline == queue_before.skip_until_newline
                &&& signals.capacity
            },
        }
    }

    /// Whether `count` flushed bytes were taken note of: the packets that
    /// they complete, and the cursor reports that these ask for.
    pub open spec fn noted(
        before: Self,
        queue_before: ConsoleQueue,
        after: Self,
        queue: ConsoleQueue,
        count: usize,
        signals: WriterSignals,
    ) -> bool {
        let all = before.batch.entries.deep_view();
        let reports = requests_between(all, before.batch.next as int, after.batch.next as int);
        &&& after.batch.entries == before.batch.entries
        &&& after.written == before.written + count
        &&& after.batch.complete_after(after.written as nat, after.batch.next as int)
        &&& before.batch.next <= after.batch.next
        &&& after.phase == if after.written == total_bytes(all) {
            WriterPhase::Look
        } else {
            WriterPhase::Write
        }
        &&& queue == (ConsoleQueue {
            cursor_reports: (queue_before.cursor_reports + reports) as usize,
            ..queue_before
        })
        &&& signals.capacity == (reports > 0)
    }

    /// Takes in what happened. An event that the writer does not wait for
    /// changes nothing.
    pub fn advance(&mut self, queue: &mut ConsoleQueue, event: WriterEvent) -> (signals:
        WriterSignals)
        requires
            old(self).well_formed(),
            old(queue).well_formed(),
            old(self).can_see(event),
            old(queue).cursor_reports + OUTPUT_PACKETS <= usize::MAX,
        ensures
            final(self).well_formed(),
            final(queue).well_formed(),
            signals.status == (old(self).phase != WriterPhase::Gone && final(self).phase
                == WriterPhase::Gone && final(queue).error is Some && event is Sink),
            match (old(self).phase, event) {
                (WriterPhase::Look, WriterEvent::Woken) => Self::looked(
                    *old(self),
                    *old(queue),
                    *final(self),
                    *final(queue),
                    signals,
                ),
                (WriterPhase::Write, WriterEvent::Sink(SinkEvent::Accepted(count))) => {
                    &&& !signals.capacity
                    &&& if count == 0 {
                        Self::failed(
                            *old(self),
                            *old(queue),
                            *final(self),
                            *final(queue),
                            WriteFault::Zero.text(),
                        )
                    } else {
                        &&& *final(self) == (Writer {
                            phase: WriterPhase::Flush(count),
                            ..*old(self)
                        })
                        &&& *final(queue) == (ConsoleQueue {
                            worker_progress: if old(queue).worker_progress == usize::MAX {
                                0
                            } else {
                                (old(queue).worker_progress + 1) as usize
                            },
                            ..*old(queue)
                        })
                    }
                },
                (WriterPhase::Flush(count), WriterEvent::Sink(SinkEvent::Accepted(_))) =>
                    Self::noted(
                        *old(self),
                        *old(queue),
                        *final(self),
                        *final(queue),
                        count,
                        signals,
                    ),
                (WriterPhase::Write, WriterEvent::Sink(SinkEvent::Failed(cause)))
                | (WriterPhase::Flush(_), WriterEvent::Sink(SinkEvent::Failed(cause))) => {
                    &&& Self::failed(
                        *old(self),
                        *old(queue),
                        *final(self),
                        *final(queue),
                        cause@,
                    )
                    &&& !signals.capacity
                },
                (_, WriterEvent::Lost) => {
                    &&& *final(self) == (Writer { phase: WriterPhase::Gone, ..*old(self) })
                    &&& *final(queue) == *old(queue)
                    &&& !signals.capacity
                },
                _ => *final(self) == *old(self) && *final(queue) == *old(queue)
                    && !signals.capacity,
            },
    {
        match (self.phase, event) {
            (WriterPhase::Look, WriterEvent::Woken) => self.look(queue),
            (WriterPhase::Write, WriterEvent::Sink(event)) => match after_write(event) {
                SinkStep::Flush(count) => {
                    proof {
                        lemma_total_is_length(self.batch.entries.deep_view());
                    }
                    queue.report_worker_progress();
                    self.phase = WriterPhase::Flush(count);
                    WriterSignals { capacity: false, status: false }
                },
                SinkStep::Fail(fault) => self.fail(queue, fault),
                _ => WriterSignals { capacity: false, status: false },
            },
            (WriterPhase::Flush(count), WriterEvent::Sink(event)) => match after_flush(event) {
                SinkStep::Delivered => self.note(queue, count),
                SinkStep::Fail(fault) => self.fail(queue, fault),
                _ => WriterSignals { capacity: false, status: false },
            },
            (_, WriterEvent::Lost) => {
                self.phase = WriterPhase::Gone;
                WriterSignals { capacity: false, status: false }
            },
            _ => WriterSignals { capacity: false, status: false },
        }
    }

    fn look(&mut self, queue: &mut ConsoleQueue) -> (signals: WriterSignals)
        requires
            old(self).well_formed(),
            old(queue).well_formed(),
        ensures
            final(self).well_formed(),
            final(queue).well_formed(),
            Self::looked(*old(self), *old(queue), *final(self), *final(queue), signals),
            !signals.status,
    {
        match queue.next_turn() {
            WriterTurn::Wait => WriterSignals { capacity: false, status: false },
            WriterTurn::Exit => {
                queue.finish_writer(None);
                self.phase = WriterPhase::Gone;
                WriterSignals { capacity: false, status: false }
            },
            WriterTurn::Write => {
                let total: usize = queue.bytes;
                self.batch = queue.take_batch();
                self.written = 0;
                self.phase = if total == 0 {
                    WriterPhase::Look
                } else {
                    WriterPhase::Write
                };
                WriterSignals { capacity: true, status: false }
            },
        }
    }

    fn note(&mut self, queue: &mut ConsoleQueue, count: usize) -> (signals: WriterSignals)
        requires
            old(self).well_formed(),
            old(self).phase == WriterPhase::Flush(count),
            old(queue).well_formed(),
            old(queue).cursor_reports + OUTPUT_PACKETS <= usize::MAX,
        ensures
            final(self).well_formed(),
            final(queue).well_formed(),
            Self::noted(*old(self), *old(queue), *final(self), *final(queue), count, signals),
            !signals.status,
    {
        let ghost all = self.batch.entries.deep_view();
        let ghost from = self.batch.next as int;
        let reports = self.batch.deliver(count);
        proof {
            lemma_requests_bounded(all, from, self.batch.next as int);
            lemma_total_is_length(all);
        }
        self.written = self.written + count;
        let total: usize = self.batch.bytes().len();
        self.phase = if self.written == total {
            WriterPhase::Look
        } else {
            WriterPhase::Write
        };
        queue.owe_cursor_reports(reports);
        WriterSignals { capacity: reports > 0, status: false }
    }

    fn fail(&mut self, queue: &mut ConsoleQueue, fault: WriteFault) -> (signals: WriterSignals)
        requires
            old(self).well_formed(),
            old(queue).well_formed(),
        ensures
            final(self).well_formed(),
            final(queue).well_formed(),
            Self::failed(*old(self), *old(queue), *final(self), *final(queue), fault.text()),
            signals == (WriterSignals { capacity: false, status: true }),
    {
        queue.finish_writer(Some(fault.message()));
        self.phase = WriterPhase::Gone;
        WriterSignals { capacity: false, status: true }
    }
}

proof fn lemma_requests_bounded(entries: Seq<EntryModel>, from: int, to: int)
    ensures
        requests_between(entries, from, to) <= if to <= from {
            0
        } else {
            to - from
        },
    decreases to - from,
{
    if to > from {
        lemma_requests_bounded(entries, from, to - 1);
    }
}

/// Every byte goes out once and in order: what a writer still offers after
/// `count` bytes were delivered is what it offered before, without them.
pub proof fn bytes_go_out_once_and_in_order(before: Writer, after: Writer, count: usize)
    requires
        before.well_formed(),
        after.batch.entries == before.batch.entries,
        after.written == before.written + count,
        after.written <= total_bytes(before.batch.entries.deep_view()),
    ensures
        after.offered() == before.offered().skip(count as int),
        before.offered() == before.offered().take(count as int) + after.offered(),
{
    let all = all_bytes(before.batch.entries.deep_view());
    lemma_total_is_length(before.batch.entries.deep_view());
    assert(after.offered() =~= before.offered().skip(count as int));
    assert(before.offered() =~= before.offered().take(count as int) + after.offered());
}

/// What a poll of the console and of its cancellation said.
#[derive(Debug, Clone, Copy, PartialEq, Eq, Structural)]
pub struct StdoutReady {
    pub cancelled: bool,
    /// The output is closed or broken.
    pub unavailable: bool,
    pub writable: bool,
}

/// How many bytes are handed to the console at a time.
pub const CONSOLE_CHUNK: usize = 4096;

#[derive(Debug, Clone, Copy, PartialEq, Eq, Structural)]
pub enum StdoutStep {
    /// Write so many bytes.
    Write(usize),
    PollAgain,
    Cancelled,
    Unavailable,
}

/// Decides what a cancellable write to the console does after a poll: a
/// cancellation counts before a broken output, and that before room.
pub fn stdout_step(ready: StdoutReady, length: usize) -> (step: StdoutStep)
    ensures
        step == (if ready.cancelled {
            StdoutStep::Cancelled
        } else if ready.unavailable {
            StdoutStep::Unavailable
        } else if ready.writable {
            StdoutStep::Write(
                if length < CONSOLE_CHUNK {
                    length
                } else {
                    CONSOLE_CHUNK
                },
            )
        } else {
            StdoutStep::PollAgain
        }),
{
    if ready.cancelled {
        StdoutStep::Cancelled
    } else if ready.unavailable {
        StdoutStep::Unavailable
    } else if ready.writable {
        if length < CONSOLE_CHUNK {
            StdoutStep::Write(length)
        } else {
            StdoutStep::Write(CONSOLE_CHUNK)
        }
    } else {
        StdoutStep::PollAgain
    }
}

// The end of a session.

/// How a wait for the writer goes on.
#[derive(Debug, Clone, Copy, PartialEq, Eq, Structural)]
pub enum DrainStep {
    Drained,
    Stalled,
    /// Wait for the whole stall timeout again.
    Restart,
    Continue,
}

/// What a look at the writer, between two waits for it, shows.
#[derive(Debug, Clone, Copy, PartialEq, Eq, Structural)]
pub struct DrainLook {
    pub worker_done: bool,
    /// It got something out during the last wait.
    pub progressed: bool,
    /// The last wait ran its time.
    pub timed_out: bool,
    /// The deadline has passed.
    pub expired: bool,
}

/// Decides how a wait for the writer goes on. Progress starts the time anew,
/// and a wait that ran its time without any is a stall.
pub fn drain_step(look: DrainLook) -> (step: DrainStep)
    ensures
        step == (if look.progressed {
            if look.worker_done {
                DrainStep::Drained
            } else {
                DrainStep::Restart
            }
        } else if look.timed_out {
            DrainStep::Stalled
        } else if look.worker_done {
            DrainStep::Drained
        } else if look.expired {
            DrainStep::Stalled
        } else {
            DrainStep::Continue
        }),
{
    if look.progressed {
        if look.worker_done {
            DrainStep::Drained
        } else {
            DrainStep::Restart
        }
    } else if look.timed_out {
        DrainStep::Stalled
    } else if look.worker_done {
        DrainStep::Drained
    } else if look.expired {
        DrainStep::Stalled
    } else {
        DrainStep::Continue
    }
}

/// Why the console output ends.
#[derive(Debug, Clone, Copy, PartialEq, Eq, Structural)]
pub enum ConsoleCompletion {
    RemoteSessionEnded,
    LocalInputClosed,
}

/// How the writer is wound up.
#[derive(Debug, Clone, Copy, PartialEq, Eq, Structural)]
pub struct FinishPlan {
    /// Wait for the queue to drain first.
    pub drain: bool,
    /// Cancel the write that is under way.
    pub cancel: bool,
    /// Wait for the writer to exit. Without this it is left behind: a bounded
    /// drain never becomes an unbounded wait.
    pub join: bool,
    /// Tell of the writer's failure or, where there is none, let the sink
    /// finish.
    pub conclude: bool,
}

/// How the writer is wound up after a completion. `already_stalled` says that
/// the caller waited for it in vain, `stalled` that the first wait for it ran
/// out, and `still_running` that a wait did so after the cancellation.
pub fn finish_plan(
    completion: ConsoleCompletion,
    already_stalled: bool,
    stalled: bool,
    still_running: bool,
) -> (plan: FinishPlan)
    ensures
        match completion {
            ConsoleCompletion::RemoteSessionEnded => {
                let cancel = already_stalled || stalled;
                let join = !cancel || !still_running;
                plan == (FinishPlan { drain: !already_stalled, cancel, join, conclude: join })
            },
            ConsoleCompletion::LocalInputClosed => plan == (FinishPlan {
                drain: false,
                cancel: true,
                join: !still_running,
                conclude: false,
            }),
        },
{
    match completion {
        ConsoleCompletion::RemoteSessionEnded => {
            let cancel = already_stalled || stalled;
            let join = !cancel || !still_running;
            FinishPlan { drain: !already_stalled, cancel, join, conclude: join }
        },
        ConsoleCompletion::LocalInputClosed => FinishPlan {
            drain: false,
            cancel: true,
            join: !still_running,
            conclude: false,
        },
    }
}

// The console helper process: packets go to it behind their length, and it
// acknowledges what it delivered. Four little-endian bytes each.

/// A packet for the helper.
pub open spec fn helper_frame(bytes: Seq<u8>) -> Seq<u8> {
    vstd::bytes::spec_u32_to_le_bytes(bytes.len() as u32) + bytes
}

/// Frames a packet for the helper, unless it is too long for a length field.
pub fn frame_for_helper(bytes: &[u8]) -> (r: Option<Vec<u8>>)
    ensures
        match r {
            Some(frame) => bytes@.len() <= u32::MAX && frame@ == helper_frame(bytes@),
            None => bytes@.len() > u32::MAX,
        },
{
    if bytes.len() as u64 > u32::MAX as u64 {
        return None;
    }
    let mut frame = vstd::bytes::u32_to_le_bytes(bytes.len() as u32);
    append_bytes(&mut frame, bytes);
    Some(frame)
}

/// What an acknowledgement of the helper means.
#[derive(Debug, Clone, Copy, PartialEq, Eq, Structural)]
pub enum AckStep {
    /// So many more bytes were delivered.
    Delivered(usize),
    /// The whole packet was.
    Done,
    /// It says that it is done, and is not.
    Incomplete,
    /// It acknowledges more than there is.
    Invalid,
}

/// Reads an acknowledgement, when `acknowledged` of `total` bytes were
/// acknowledged before.
pub fn read_acknowledgement(acknowledged: usize, total: usize, count: u32) -> (step: AckStep)
    requires
        acknowledged <= total,
    ensures
        step == (if count == 0 {
            if acknowledged == total {
                AckStep::Done
            } else {
                AckStep::Incomplete
            }
        } else if count > total - acknowledged {
            AckStep::Invalid
        } else {
            AckStep::Delivered(count as usize)
        }),
        step matches AckStep::Delivered(count) ==> acknowledged + count <= total,
{
    if count == 0 {
        if acknowledged == total {
            AckStep::Done
        } else {
            AckStep::Incomplete
        }
    } else if count as u64 > (total - acknowledged) as u64 {
        AckStep::Invalid
    } else {
        AckStep::Delivered(count as usize)
    }
}

/// Where the helper process stands.
#[derive(Debug, Clone, Copy, PartialEq, Eq, Structural)]
pub enum HelperPhase {
    /// It waits for the length of a packet.
    Length,
    /// It waits for so many bytes.
    Body(usize),
    /// So many bytes of the packet are left to write.
    Write(usize),
    /// So many bytes were written and have to be flushed; so many are left.
    Flush(usize, usize),
    /// So many bytes were delivered and are to be acknowledged; so many are
    /// left.
    Acknowledge(usize, usize),
    /// The packet is delivered; the end of its acknowledgements is due.
    Conclude,
    /// It exits with this status.
    Exit(i32),
}

/// What happened to the helper.
#[derive(Debug, Clone, Copy, PartialEq, Eq, Structural)]
pub enum HelperEvent {
    /// What it waited for was read, written or flushed. A number is the
    /// length that was read, or how many bytes were accepted.
    Done(u32),
    /// Its input ended.
    Eof,
    Interrupted,
    Failed,
}

/// How the helper goes on. It acknowledges bytes only behind a flush.
pub open spec fn helper_next(phase: HelperPhase, event: HelperEvent) -> HelperPhase {
    match (phase, event) {
        (HelperPhase::Exit(status), _) => HelperPhase::Exit(status),
        (HelperPhase::Length, HelperEvent::Done(length)) => if length == 0 {
            HelperPhase::Exit(1)
        } else {
            HelperPhase::Body(length as usize)
        },
        (HelperPhase::Length, HelperEvent::Eof) => HelperPhase::Exit(0),
        (HelperPhase::Body(length), HelperEvent::Done(_)) => HelperPhase::Write(length),
        (HelperPhase::Write(left), HelperEvent::Done(count)) => if count == 0 || count > left {
            HelperPhase::Exit(1)
        } else {
            HelperPhase::Flush(count as usize, (left - count) as usize)
        },
        (HelperPhase::Write(left), HelperEvent::Interrupted) => HelperPhase::Write(left),
        (HelperPhase::Flush(count, left), HelperEvent::Done(_)) => HelperPhase::Acknowledge(
            count,
            left,
        ),
        (HelperPhase::Acknowledge(_, left), HelperEvent::Done(_)) => if left == 0 {
            HelperPhase::Conclude
        } else {
            HelperPhase::Write(left)
        },
        (HelperPhase::Conclude, HelperEvent::Done(_)) => HelperPhase::Length,
        _ => HelperPhase::Exit(1),
    }
}

pub fn copy_windows_helper_output(phase: HelperPhase, event: HelperEvent) -> (next: HelperPhase)
    ensures
        next == helper_next(phase, event),
{
    match (phase, event) {
        (HelperPhase::Exit(status), _) => HelperPhase::Exit(status),
        (HelperPhase::Length, HelperEvent::Done(length)) => {
            if length == 0 {
                HelperPhase::Exit(1)
            } else {
                HelperPhase::Body(length as usize)
            }
        },
        (HelperPhase::Length, HelperEvent::Eof) => HelperPhase::Exit(0),
        (HelperPhase::Body(length), HelperEvent::Done(_)) => HelperPhase::Write(length),
        (HelperPhase::Write(left), HelperEvent::Done(count)) => {
            if count == 0 || count as u64 > left as u64 {
                HelperPhase::Exit(1)
            } else {
                HelperPhase::Flush(count as usize, left - count as usize)
            }
        },
        (HelperPhase::Write(left), HelperEvent::Interrupted) => HelperPhase::Write(left),
        (HelperPhase::Flush(count, left), HelperEvent::Done(_)) => HelperPhase::Acknowledge(
            count,
            left,
        ),
        (HelperPhase::Acknowledge(_, left), HelperEvent::Done(_)) => {
            if left == 0 {
                HelperPhase::Conclude
            } else {
                HelperPhase::Write(left)
            }
        },
        (HelperPhase::Conclude, HelperEvent::Done(_)) => HelperPhase::Length,
        _ => HelperPhase::Exit(1),
    }
}

// What the queue is for.

/// Packets go out one behind the other: the bytes of two lists are those of
/// the first and then those of the second, and a packet's are its own.
pub proof fn packets_follow_each_other(first: Seq<EntryModel>, second: Seq<EntryModel>)
    ensures
        all_bytes(first + second) == all_bytes(first) + all_bytes(second),
        first.len() == 1 ==> all_bytes(first) == first[0].bytes,
        total_bytes(first) == all_bytes(first).len(),
    decreases second.len(),
{
    lemma_total_is_length(first);
    if first.len() == 1 {
        assert(first.drop_last() =~= Seq::<EntryModel>::empty());
        assert(all_bytes(first.drop_last()) == Seq::<u8>::empty());
        assert(all_bytes(first) =~= first[0].bytes);
    }
    if second.len() == 0 {
        assert(first + second =~= first);
        assert(all_bytes(first) + all_bytes(second) =~= all_bytes(first));
    } else {
        packets_follow_each_other(first, second.drop_last());
        assert((first + second).drop_last() =~= first + second.drop_last());
        assert(all_bytes(first + second) =~= all_bytes(first) + all_bytes(second));
    }
}

proof fn lemma_make_room_keeps_the_end(entries: Seq<EntryModel>, length: nat)
    ensures
        exists|dropped: Seq<u8>| all_bytes(entries) == dropped + #[trigger] all_bytes(
            make_room(entries, length),
        ),
{
    only_the_oldest_make_way(entries, length);
    let k = choose|k: int| first_fitting_end(entries, length, k);
    packets_follow_each_other(entries.take(k), entries.skip(k));
    assert(entries.take(k) + entries.skip(k) =~= entries);
    assert(all_bytes(entries) == all_bytes(entries.take(k)) + all_bytes(
        make_room(entries, length),
    ));
}

/// Whether a running console takes packets: nothing failed, nobody stops it
/// and no line is being dropped.
pub open spec fn takes_packets(queue: ConsoleQueue) -> bool {
    queue.well_formed() && queue.error is None && !queue.stopping && !queue.skip_until_newline
}

/// A packet that is admitted stands whole behind everything that is queued.
/// Where packets are held back, none of them is lost: one for which there is
/// no room stays with the caller, and the queue stays as it is. Where they
/// are discarded, every packet is admitted, and only the beginning of what
/// was queued goes.
pub proof fn admitted_packets_are_queued_in_order()
    ensures
        forall|queue: &mut ConsoleQueue, mode: FlowControlMode, bytes: &[u8], tracker: u64, r: Result<
            bool,
            ConsoleError,
        >|
            takes_packets(*queue) && bytes@.len() <= 65_536 && mode != FlowControlMode::Discard
                && #[trigger] call_ensures(
                ConsoleQueue::try_write,
                (queue, mode, bytes, tracker),
                r,
            ) ==> (if all_bytes(queue.entries()).len() + bytes@.len() <= 65_536
                && queue.entries().len() < 4096 {
                r == Ok::<bool, ConsoleError>(true) && all_bytes(final(queue).entries())
                    == all_bytes(queue.entries()) + bytes@ && final(queue).entries().last().tracker
                    == tracker
            } else {
                r == Ok::<bool, ConsoleError>(false) && final(queue).entries() == queue.entries()
            }),
        forall|queue: &mut ConsoleQueue, bytes: &[u8], tracker: u64, r: Result<bool, ConsoleError>|
            takes_packets(*queue) && bytes@.len() <= 65_536 && #[trigger] call_ensures(
                ConsoleQueue::try_write,
                (queue, FlowControlMode::Discard, bytes, tracker),
                r,
            ) ==> r == Ok::<bool, ConsoleError>(true) && (exists|dropped: Seq<u8>|
                #![trigger dropped + all_bytes(final(queue).entries())]
                all_bytes(queue.entries()) + bytes@ == dropped + all_bytes(
                    final(queue).entries(),
                )) && all_bytes(final(queue).entries()).len() <= 65_536
                && final(queue).entries().last() == (EntryModel { bytes: bytes@, tracker }),
{
    assert forall|
        queue: &mut ConsoleQueue,
        mode: FlowControlMode,
        bytes: &[u8],
        tracker: u64,
        r: Result<bool, ConsoleError>,
    |
        takes_packets(*queue) && bytes@.len() <= 65_536 && mode != FlowControlMode::Discard
            && #[trigger] call_ensures(
            ConsoleQueue::try_write,
            (queue, mode, bytes, tracker),
            r,
        ) implies (if all_bytes(queue.entries()).len() + bytes@.len() <= 65_536
        && queue.entries().len() < 4096 {
        r == Ok::<bool, ConsoleError>(true) && all_bytes(final(queue).entries()) == all_bytes(
            queue.entries(),
        ) + bytes@ && final(queue).entries().last().tracker == tracker
    } else {
        r == Ok::<bool, ConsoleError>(false) && final(queue).entries() == queue.entries()
    }) by {
        let entries = queue.entries();
        lemma_total_is_length(entries);
        assert(has_room(entries, bytes@.len()) ==> make_room(entries, bytes@.len()) == entries);
        let entry = EntryModel { bytes: bytes@, tracker };
        assert(entries.push(entry).drop_last() =~= entries);
    }
    assert forall|
        queue: &mut ConsoleQueue,
        bytes: &[u8],
        tracker: u64,
        r: Result<bool, ConsoleError>,
    |
        takes_packets(*queue) && bytes@.len() <= 65_536 && #[trigger] call_ensures(
            ConsoleQueue::try_write,
            (queue, FlowControlMode::Discard, bytes, tracker),
            r,
        ) implies r == Ok::<bool, ConsoleError>(true) && (exists|dropped: Seq<u8>|
        #![trigger dropped + all_bytes(final(queue).entries())]
        all_bytes(queue.entries()) + bytes@ == dropped + all_bytes(final(queue).entries()))
        && all_bytes(final(queue).entries()).len() <= 65_536 && final(queue).entries().last() == (
    EntryModel { bytes: bytes@, tracker }) by {
        let entries = queue.entries();
        let entry = EntryModel { bytes: bytes@, tracker };
        let kept = make_room(entries, bytes@.len());
        lemma_make_room_keeps_the_end(entries, bytes@.len());
        let dropped = choose|dropped: Seq<u8>| all_bytes(entries) == dropped + #[trigger] all_bytes(
            kept,
        );
        assert(kept.push(entry).drop_last() =~= kept);
        assert(all_bytes(final(queue).entries()) == all_bytes(kept) + bytes@);
        assert(all_bytes(entries) + bytes@ =~= dropped + all_bytes(final(queue).entries()));
        lemma_total_is_length(final(queue).entries());
    }
}

/// What is still to go out: what the writer holds, and what is queued behind
/// it.
pub open spec fn outstanding(writer: Writer, queue: ConsoleQueue) -> Seq<u8> {
    writer.offered() + all_bytes(queue.entries())
}

/// Whether a writer looks for more only when it has nothing left.
pub open spec fn looks_when_done(writer: Writer) -> bool {
    writer.phase == WriterPhase::Look ==> writer.offered().len() == 0
}

/// Everything that is queued reaches the console once and in order. Only what
/// the console accepted and flushed leaves, from the front; taking a batch,
/// an interrupted write, a failure or a lost queue takes nothing away.
pub proof fn queued_output_goes_out_once_and_in_order()
    ensures
        forall|writer: &mut Writer, queue: &mut ConsoleQueue, event: WriterEvent, signals: WriterSignals|
            writer.well_formed() && queue.well_formed() && looks_when_done(*writer)
                && #[trigger] call_ensures(Writer::advance, (writer, queue, event), signals)
                ==> looks_when_done(*final(writer)) && match (writer.phase, event) {
                (WriterPhase::Flush(count), WriterEvent::Sink(SinkEvent::Accepted(_))) => {
                    outstanding(*writer, *queue) == writer.offered().take(count as int)
                        + outstanding(*final(writer), *final(queue))
                },
                _ => outstanding(*final(writer), *final(queue)) == outstanding(*writer, *queue),
            },
        forall|writer: &mut Writer, queue: &mut ConsoleQueue, count: usize, signals: WriterSignals|
            writer.well_formed() && queue.well_formed() && writer.phase == WriterPhase::Write
                && count > 0 && #[trigger] call_ensures(
                Writer::advance,
                (writer, queue, WriterEvent::Sink(SinkEvent::Accepted(count))),
                signals,
            ) ==> final(writer).phase == WriterPhase::Flush(count),
{
    assert forall|
        writer: &mut Writer,
        queue: &mut ConsoleQueue,
        event: WriterEvent,
        signals: WriterSignals,
    |
        writer.well_formed() && queue.well_formed() && looks_when_done(*writer)
            && #[trigger] call_ensures(Writer::advance, (writer, queue, event), signals)
            implies looks_when_done(*final(writer)) && match (writer.phase, event) {
        (WriterPhase::Flush(count), WriterEvent::Sink(SinkEvent::Accepted(_))) => {
            outstanding(*writer, *queue) == writer.offered().take(count as int) + outstanding(
                *final(writer),
                *final(queue),
            )
        },
        _ => outstanding(*final(writer), *final(queue)) == outstanding(*writer, *queue),
    } by {
        lemma_total_is_length(writer.batch.entries.deep_view());
        lemma_total_is_length(final(writer).batch.entries.deep_view());
        lemma_total_is_length(queue.entries());
        match (writer.phase, event) {
            (WriterPhase::Flush(count), WriterEvent::Sink(SinkEvent::Accepted(_))) => {
                bytes_go_out_once_and_in_order(*writer, *final(writer), count);
                assert(outstanding(*writer, *queue) =~= writer.offered().take(count as int)
                    + outstanding(*final(writer), *final(queue)));
            },
            _ => {
                if writer.phase == WriterPhase::Look && event == WriterEvent::Woken {
                    let all = all_bytes(queue.entries());
                    assert(all.skip(0) =~= all);
                    assert(outstanding(*final(writer), *final(queue)) =~= outstanding(
                        *writer,
                        *queue,
                    ));
                }
            },
        }
    }
}

/// A cursor report is owed once for every packet that asks for one and whose
/// last byte was flushed, and what is owed can be taken once.
pub proof fn flushed_requests_are_owed()
    ensures
        forall|writer: &mut Writer, queue: &mut ConsoleQueue, event: SinkEvent, signals: WriterSignals|
            writer.well_formed() && queue.well_formed() && event is Accepted && writer.phase
                == WriterPhase::Flush(writer.offered().len() as usize) && queue.cursor_reports + 4096 <= usize::MAX
                && writer.batch.next == 0 && writer.written == 0 && writer.batch.entries@.len() == 1
                && #[trigger] call_ensures(
                Writer::advance,
                (writer, queue, WriterEvent::Sink(event)),
                signals,
            ) ==> final(queue).cursor_reports == queue.cursor_reports + (if asks_cursor_report(
                writer.offered(),
            ) {
                1int
            } else {
                0int
            }),
        forall|queue: &mut ConsoleQueue, count: usize|
            #[trigger] call_ensures(ConsoleQueue::take_cursor_reports, (queue,), count) ==> count
                == queue.cursor_reports && final(queue).cursor_reports == 0
                && final(queue).entries() == queue.entries(),
{
    assert forall|
        writer: &mut Writer,
        queue: &mut ConsoleQueue,
        event: SinkEvent,
        signals: WriterSignals,
    |
        writer.well_formed() && queue.well_formed() && event is Accepted && writer.phase
            == WriterPhase::Flush(writer.offered().len() as usize) && queue.cursor_reports + 4096 <= usize::MAX
            && writer.batch.next == 0 && writer.written == 0 && writer.batch.entries@.len() == 1
            && #[trigger] call_ensures(
            Writer::advance,
            (writer, queue, WriterEvent::Sink(event)),
            signals,
        ) implies final(queue).cursor_reports == queue.cursor_reports + (if asks_cursor_report(
        writer.offered(),
    ) {
        1int
    } else {
        0int
    }) by {
        let all = writer.batch.entries.deep_view();
        packets_follow_each_other(all, Seq::empty());
        lemma_total_is_length(all);
        let bytes = all_bytes(all);
        assert(bytes.skip(0) =~= bytes);
        reveal_with_fuel(requests_between, 3);
        let next = final(writer).batch.next as int;
        assert(all.take(1) =~= all);
        assert(all.take(0) =~= Seq::<EntryModel>::empty());
        assert(next == 1);
    }
}

/// A frame for the helper holds its packet, and says how long it is.
pub proof fn helper_frames_read_back(bytes: &[u8], r: Option<Vec<u8>>)
    requires
        call_ensures(frame_for_helper, (bytes,), r),
    ensures
        r is Some <==> bytes@.len() <= u32::MAX,
        r matches Some(frame) ==> frame@.len() == 4 + bytes@.len()
            && vstd::bytes::spec_u32_from_le_bytes(frame@.take(4)) == bytes@.len() && frame@.skip(4)
            == bytes@,
{
    vstd::bytes::lemma_auto_spec_u32_to_from_le_bytes();
    if let Some(frame) = r {
        let length = vstd::bytes::spec_u32_to_le_bytes(bytes@.len() as u32);
        assert(frame@.take(4) =~= length);
        assert(frame@.skip(4) =~= bytes@);
    }
}

/// How many bytes of a packet the helper has not acknowledged.
pub open spec fn unacknowledged(phase: HelperPhase) -> nat {
    match phase {
        HelperPhase::Body(length) => length as nat,
        HelperPhase::Write(left) => left as nat,
        HelperPhase::Flush(count, left) => (count + left) as nat,
        HelperPhase::Acknowledge(count, left) => (count + left) as nat,
        _ => 0,
    }
}

/// The helper acknowledges what it delivered, byte by byte: a packet counts
/// down by what is acknowledged alone, to the acknowledgement that ends it. A
/// helper that is told nothing more leaves well, and one that cannot go on
/// does not.
pub proof fn helpers_acknowledge_what_they_delivered(
    phase: HelperPhase,
    event: HelperEvent,
    next: HelperPhase,
)
    requires
        call_ensures(copy_windows_helper_output, (phase, event), next),
    ensures
        phase == HelperPhase::Length && event is Done && event->Done_0 > 0 ==> next == HelperPhase::Body(event->Done_0 as usize),
        phase == HelperPhase::Length && event == HelperEvent::Eof ==> next == HelperPhase::Exit(0),
        next == HelperPhase::Exit(0) ==> phase == HelperPhase::Exit(0) || (phase
            == HelperPhase::Length && event == HelperEvent::Eof),
        !(next is Exit) && (phase is Body || phase is Write || phase is Flush) ==> unacknowledged(
            next,
        ) == unacknowledged(phase),
        phase is Acknowledge && event is Done ==> unacknowledged(
            phase,
        ) == phase->Acknowledge_0 + unacknowledged(next) && (next == HelperPhase::Conclude
            <==> unacknowledged(next) == 0),
        phase is Write && event is Done && 0 < event->Done_0 <= phase->Write_0 ==> (next matches HelperPhase::Flush(taken, _) && taken == event->Done_0),
        (phase is Flush && event is Done) ==> (next matches HelperPhase::Acknowledge(taken, _)
            && taken == phase->Flush_0),
        phase == HelperPhase::Conclude && event is Done ==> next == HelperPhase::Length,
        event == HelperEvent::Failed && !(phase is Exit) ==> next == HelperPhase::Exit(1),
        phase is Write && event == HelperEvent::Interrupted ==> next == phase,
{
}

/// Acknowledgements add up to their packet: none goes beyond it, and the end
/// is accepted with its last byte and not before.
pub proof fn acknowledgements_add_up(acknowledged: usize, total: usize, count: u32, step: AckStep)
    requires
        acknowledged <= total,
        call_ensures(read_acknowledgement, (acknowledged, total, count), step),
    ensures
        step == AckStep::Done <==> count == 0 && acknowledged == total,
        count > 0 && acknowledged + count <= total ==> step == AckStep::Delivered(count as usize),
        count > 0 && acknowledged + count > total ==> step == AckStep::Invalid,
        count == 0 && acknowledged < total ==> step == AckStep::Incomplete,
{
}

/// A cancellation stops a write whatever the console says. Otherwise a
/// console with room gets something, of at most so many bytes at once and no
/// more than there is.
pub proof fn cancellations_come_first(ready: StdoutReady, length: usize, step: StdoutStep)
    requires
        call_ensures(stdout_step, (ready, length), step),
    ensures
        ready.cancelled <==> step == StdoutStep::Cancelled,
        !ready.cancelled && ready.unavailable ==> step == StdoutStep::Unavailable,
        step is Write <==> ready.writable && !ready.cancelled && !ready.unavailable,
        step matches StdoutStep::Write(count) ==> count <= length && count <= 4096 && (count
            == length || count == 4096),
{
}

/// A writer that gets something out is waited for, again and again, until it
/// is done; one that got nothing out while a wait ran its time is not.
pub proof fn progress_is_waited_for(look: DrainLook, step: DrainStep)
    requires
        call_ensures(drain_step, (look,), step),
    ensures
        step == DrainStep::Stalled ==> !look.progressed && (look.timed_out || look.expired),
        look.progressed ==> step == (if look.worker_done {
            DrainStep::Drained
        } else {
            DrainStep::Restart
        }),
        step == DrainStep::Drained ==> look.worker_done,
        !look.progressed && look.timed_out ==> step == DrainStep::Stalled,
        !look.progressed && !look.timed_out && !look.worker_done && look.expired ==> step
            == DrainStep::Stalled,
{
}

/// The output of a session that ended is waited for unless it already
/// stalled; where the user left, nothing is. A writer that still runs after
/// its cancellation is left behind, and nobody waits without a bound.
pub proof fn ended_sessions_drain(
    completion: ConsoleCompletion,
    already_stalled: bool,
    stalled: bool,
    still_running: bool,
    plan: FinishPlan,
)
    requires
        call_ensures(finish_plan, (completion, already_stalled, stalled, still_running), plan),
    ensures
        plan.drain <==> completion == ConsoleCompletion::RemoteSessionEnded && !already_stalled,
        completion == ConsoleCompletion::LocalInputClosed ==> plan.cancel && !plan.conclude,
        completion == ConsoleCompletion::RemoteSessionEnded ==> (plan.cancel <==> already_stalled
            || stalled) && plan.conclude == plan.join,
        plan.cancel ==> plan.join == !still_running,
        !plan.cancel ==> plan.join,
{
}

/// An interrupt leaves what it keeps and drops the rest, and only of a queue
/// that is full.
pub proof fn interrupts_keep_what_they_say()
    ensures
        forall|queue: &mut ConsoleQueue, kept: &[u8], skip: bool, r: ()|
            queue.well_formed() && kept@.len() <= queue.bytes && #[trigger] call_ensures(
                ConsoleQueue::interrupt,
                (queue, kept, skip),
                r,
            ) ==> all_bytes(final(queue).entries()) == kept@ && (skip
                ==> final(queue).skip_until_newline) && final(queue).cursor_reports
                == queue.cursor_reports,
        forall|queue: &ConsoleQueue, r: Option<Vec<u8>>|
            queue.well_formed() && #[trigger] call_ensures(
                ConsoleQueue::interruptible,
                (queue,),
                r,
            ) ==> (r is Some <==> all_bytes(queue.entries()).len() >= 65_536) && (
            r matches Some(bytes) ==> bytes@ == all_bytes(queue.entries())),
{
    assert forall|queue: &ConsoleQueue, r: Option<Vec<u8>>|
        queue.well_formed() && #[trigger] call_ensures(
            ConsoleQueue::interruptible,
            (queue,),
            r,
        ) implies (r is Some <==> all_bytes(queue.entries()).len() >= 65_536) && (
    r matches Some(bytes) ==> bytes@ == all_bytes(queue.entries())) by {
        lemma_total_is_length(queue.entries());
    }
}

/// The rest of a line whose beginning was dropped goes too, up to its end and
/// no further.
pub proof fn dropped_lines_end_with_their_newline(bytes: Seq<u8>, line: Seq<u8>, rest: Seq<u8>)
    requires
        bytes == line + (seq![10u8] + rest),
        !line.contains(10u8),
    ensures
        after_dropped_line(bytes, true) == Some(rest),
        after_dropped_line(bytes, false) == Some(bytes),
        after_dropped_line(line, true) is None,
{
    let k = line.len() as int;
    assert forall|i: int| 0 <= i < k implies bytes[i] != 10u8 by {
        assert(bytes[i] == line[i]);
        assert(line.contains(line[i]));
    }
    assert(bytes[k] == 10u8);
    lemma_first_index(bytes, 10u8, k);
    assert(bytes.skip(k + 1) =~= rest);
    assert forall|i: int| 0 <= i < k implies line[i] != 10u8 by {
        assert(line.contains(line[i]));
    }
    lemma_first_index(line, 10u8, k);
}

/// A sink that takes nothing has failed; what it takes has to be flushed
/// before it counts, and an interruption is tried again.
pub proof fn accepted_bytes_are_flushed(event: SinkEvent, written: SinkStep, flushed: SinkStep)
    requires
        call_ensures(after_write, (event,), written),
        call_ensures(after_flush, (event,), flushed),
    ensures
        (event matches SinkEvent::Accepted(count) && count > 0) ==> written == SinkStep::Flush(
            event->Accepted_0,
        ),
        event == SinkEvent::Accepted(0) ==> written is Fail,
        event is Accepted ==> flushed == SinkStep::Delivered,
        event == SinkEvent::Interrupted ==> written == SinkStep::Retry && flushed
            == SinkStep::Retry,
        event is Failed ==> written is Fail && flushed is Fail,
{
}

/// A writer that failed stops the queue and leaves its reason there, once;
/// one that is done leaves none. A queue that is to stop is still written out.
pub proof fn failed_writers_are_noticed()
    ensures
        forall|queue: &mut ConsoleQueue, cause: String, r: ()|
            #[trigger] call_ensures(ConsoleQueue::finish_writer, (queue, Some(cause)), r)
                ==> final(queue).error == Some(cause) && final(queue).stopping
                && final(queue).worker_done,
        forall|queue: &mut ConsoleQueue, r: ()|
            #[trigger] call_ensures(ConsoleQueue::finish_writer, (queue, None), r)
                ==> final(queue).error == queue.error && final(queue).worker_done
                && final(queue).stopping == queue.stopping,
        forall|queue: &mut ConsoleQueue, r: Result<(), ConsoleError>|
            #[trigger] call_ensures(ConsoleQueue::check_error, (queue,), r) ==> (r is Err
                <==> queue.error is Some) && final(queue).error is None,
        forall|queue: &mut ConsoleQueue, r: ()|
            #[trigger] call_ensures(ConsoleQueue::stop, (queue,), r) ==> final(queue).stopping
                && final(queue).entries() == queue.entries(),
        forall|queue: &ConsoleQueue, turn: WriterTurn|
            #[trigger] call_ensures(ConsoleQueue::next_turn, (queue,), turn) ==> (turn
                == WriterTurn::Write <==> queue.entries().len() > 0) && (turn == WriterTurn::Exit
                <==> queue.entries().len() == 0 && queue.stopping),
{
}

/// What is delivered in one part asks for as many cursor reports as in two.
pub proof fn delivered_requests_add_up(
    entries: Seq<EntryModel>,
    from: int,
    middle: int,
    to: int,
)
    requires
        0 <= from <= middle <= to <= entries.len(),
    ensures
        requests_between(entries, from, to) == requests_between(entries, from, middle)
            + requests_between(entries, middle, to),
        from < to ==> requests_between(entries, from, from + 1) == (if asks_cursor_report(
            entries[from].bytes,
        ) {
            1nat
        } else {
            0nat
        }),
    decreases to - middle,
{
    if middle < to {
        delivered_requests_add_up(entries, from, middle, to - 1);
    }
    if from < to {
        assert(requests_between(entries, from, from) == 0);
    }
}

/// A writer takes everything that is queued, and the queue is otherwise left
/// as it was. A delivery counts its bytes, and a packet is done as soon as its
/// last byte is delivered.
pub proof fn batches_take_the_queue()
    ensures
        forall|queue: &mut ConsoleQueue, batch: Batch|
            #[trigger] call_ensures(ConsoleQueue::take_batch, (queue,), batch)
                ==> batch.entries.deep_view() == queue.entries() && batch.delivered() == 0
                && final(queue).entries().len() == 0 && final(queue).stopping == queue.stopping
                && final(queue).error == queue.error && final(queue).cursor_reports
                == queue.cursor_reports && final(queue).worker_done == queue.worker_done,
        forall|batch: &mut Batch, count: usize, reports: usize|
            #[trigger] call_ensures(Batch::deliver, (batch, count), reports)
                ==> final(batch).delivered() == batch.delivered() + count && final(batch).entries
                == batch.entries && total_bytes(
                final(batch).entries.deep_view().take(final(batch).next as int),
            ) <= final(batch).delivered() && (final(batch).next < final(batch).entries@.len()
                ==> final(batch).delivered() < total_bytes(
                final(batch).entries.deep_view().take(final(batch).next + 1),
            )),
        forall|queue: &mut ConsoleQueue, r: ()|
            #[trigger] call_ensures(ConsoleQueue::report_worker_progress, (queue,), r)
                ==> final(queue).worker_progress != queue.worker_progress && final(queue).entries()
                == queue.entries(),
{
}

/// An interrupt that keeps everything changes no packet.
pub proof fn kept_packets_stay(entries: Seq<EntryModel>, rest: Seq<EntryModel>)
    requires
        forall|i: int| 0 <= i < entries.len() ==> (#[trigger] entries[i]).bytes.len() > 0,
    ensures
        refill(entries, all_bytes(entries + rest)) == entries,
    decreases entries.len(),
{
    if entries.len() > 0 {
        let head = entries.drop_last();
        let last = entries.last();
        let kept = all_bytes(entries + rest);
        assert(head + (seq![last] + rest) =~= entries + rest);
        assert forall|i: int| 0 <= i < head.len() implies (#[trigger] head[i]).bytes.len() > 0 by {
            assert(head[i] == entries[i]);
        }
        kept_packets_stay(head, seq![last] + rest);
        assert(entries[entries.len() - 1].bytes.len() > 0);
        lemma_total_is_length(head);
        lemma_total_is_length(entries);
        lemma_all_bytes_of_both(entries, rest);
        assert(all_bytes(entries) == all_bytes(head) + last.bytes);
        assert(kept.subrange(all_bytes(head).len() as int, all_bytes(entries).len() as int)
            =~= last.bytes);
        assert(refill(entries, kept) =~= head.push(last));
        assert(head.push(last) =~= entries);
    }
}

proof fn lemma_all_bytes_of_both(entries: Seq<EntryModel>, rest: Seq<EntryModel>)
    ensures
        all_bytes(entries + rest) == all_bytes(entries) + all_bytes(rest),
    decreases rest.len(),
{
    if rest.len() == 0 {
        assert(entries + rest =~= entries);
        assert(all_bytes(entries) + all_bytes(rest) =~= all_bytes(entries));
    } else {
        assert((entries + rest).drop_last() =~= entries + rest.drop_last());
        lemma_all_bytes_of_both(entries, rest.drop_last());
        assert(all_bytes(entries + rest) =~= all_bytes(entries) + all_bytes(rest));
    }
}

/// A writer that fails is gone, and its queue says why and takes no more. One
/// that finds nothing goes only when it is told to stop; whatever it finds it
/// takes, and says that there is room.
pub proof fn writers_leave_word(
    before: Writer,
    queue_before: ConsoleQueue,
    after: Writer,
    queue: ConsoleQueue,
    cause: Seq<char>,
    signals: WriterSignals,
)
    ensures
        Writer::failed(before, queue_before, after, queue, cause) ==> after.phase == WriterPhase::Gone
            && queue.stopping && queue.worker_done && queue.error is Some && queue.error->0@
            == cause && queue.entries() == queue_before.entries(),
        Writer::looked(before, queue_before, after, queue, signals) ==> ({
            &&& queue_before.entries().len() > 0 ==> after.batch.entries.deep_view()
                == queue_before.entries() && queue.entries().len() == 0 && signals.capacity
                && queue.worker_done == queue_before.worker_done
            &&& queue_before.entries().len() == 0 && queue_before.stopping ==> after.phase
                == WriterPhase::Gone && queue.worker_done && !signals.capacity
            &&& queue_before.entries().len() == 0 && !queue_before.stopping ==> after == before
                && queue == queue_before && !signals.capacity
        }),
{
}

} // verus!
