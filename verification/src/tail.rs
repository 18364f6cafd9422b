use vstd::prelude::*;

use crate::events::{lemma_views_of_push, views_of, EventKind, RawEvent, RawEventView};
use crate::ident::IdentityMap;
use crate::parse::{parse_line, spec_parse_line};
use crate::text::{bytes_eq, clone_bytes};
use crate::ts::{lemma_ts_order, ts_le, ts_lt, Timestamp};

verus! {

// The line-reassembly engine.  Bytes arrive in arbitrary chunks; the engine
// carries the text after the last line feed from one read into the next, so
// that every line is parsed exactly once, however the reads split it.
/// Ghost state of the engine: the partial line carried between reads, the
/// correlation table, and every event emitted so far.
pub struct TailModel {
    pub buf: Seq<u8>,
    pub ids: Map<Seq<u8>, Seq<u8>>,
    pub out: Seq<RawEventView>,
}

/// A complete line, with any trailing carriage return removed.
pub open spec fn chomp_cr(line: Seq<u8>) -> Seq<u8> {
    if line.len() > 0 && line.last() == 13 {
        line.drop_last()
    } else {
        line
    }
}

/// What one complete line does to the correlation table, and the event it
/// emits, if any.  A line whose timestamp is not strictly after the process
/// start instant is discarded whole.  An avatar switch resolves the name
/// through the table and is dropped silently when the name is unknown.
pub open spec fn step_line(
    ids: Map<Seq<u8>, Seq<u8>>,
    start: Timestamp,
    line: Seq<u8>,
) -> (Map<Seq<u8>, Seq<u8>>, Option<RawEventView>) {
    match spec_parse_line(line) {
        None => (ids, None),
        Some(li) => {
            if !ts_lt(start, li.ts) {
                (ids, None)
            } else {
                match li.kind {
                    EventKind::Joined => match li.id {
                        Some(idv) => (
                            ids.insert(li.name, idv),
                            Some(RawEventView { kind: EventKind::Joined, user_id: idv }),
                        ),
                        None => (ids, None),
                    },
                    EventKind::Left => match li.id {
                        Some(idv) => (
                            ids.remove(li.name),
                            Some(RawEventView { kind: EventKind::Left, user_id: idv }),
                        ),
                        None => (ids, None),
                    },
                    EventKind::AvatarChanged => if ids.contains_key(li.name) {
                        (
                            ids,
                            Some(
                                RawEventView {
                                    kind: EventKind::AvatarChanged,
                                    user_id: ids[li.name],
                                },
                            ),
                        )
                    } else {
                        (ids, None)
                    },
                }
            }
        },
    }
}

/// An emitted event as a sequence: one element, or none.
pub open spec fn opt_seq(ev: Option<RawEventView>) -> Seq<RawEventView> {
    match ev {
        Some(e) => seq![e],
        None => Seq::empty(),
    }
}

/// One byte of input: a line feed closes the carried line and steps it; any
/// other byte is appended to the carried line.
pub open spec fn feed_byte(start: Timestamp, m: TailModel, b: u8) -> TailModel {
    if b == 10 {
        let r = step_line(m.ids, start, chomp_cr(m.buf));
        TailModel { buf: Seq::empty(), ids: r.0, out: m.out + opt_seq(r.1) }
    } else {
        TailModel { buf: m.buf.push(b), ids: m.ids, out: m.out }
    }
}

/// A whole read, byte by byte.
pub open spec fn feed_bytes(start: Timestamp, m: TailModel, s: Seq<u8>) -> TailModel
    decreases s.len(),
{
    if s.len() == 0 {
        m
    } else {
        feed_bytes(start, feed_byte(start, m, s.first()), s.drop_first())
    }
}

/// Reassembly is split-independent: feeding the bytes in two consecutive
/// reads leaves the engine exactly where feeding them in one read does, and
/// emits exactly the same events in the same order.  In particular a line
/// split across any number of reads yields its one event exactly once.
pub proof fn lemma_reads_compose(start: Timestamp, m: TailModel, a: Seq<u8>, b: Seq<u8>)
    ensures
        feed_bytes(start, m, a + b) == feed_bytes(start, feed_bytes(start, m, a), b),
    decreases a.len(),
{
    if a.len() == 0 {
        assert(a + b =~= b);
    } else {
        assert((a + b).first() == a.first());
        assert((a + b).drop_first() =~= a.drop_first() + b);
        lemma_reads_compose(start, feed_byte(start, m, a.first()), a.drop_first(), b);
    }
}

/// Replay filtering, one line: a line whose timestamp is at or before the
/// process start instant emits no event and leaves the table unchanged.
pub proof fn lemma_replay_filtered_line(
    ids: Map<Seq<u8>, Seq<u8>>,
    start: Timestamp,
    line: Seq<u8>,
)
    requires
        spec_parse_line(line) is Some,
        ts_le(spec_parse_line(line).unwrap().ts, start),
    ensures
        step_line(ids, start, line) == (ids, None::<RawEventView>),
{
    lemma_ts_order(spec_parse_line(line).unwrap().ts, start);
}

/// Replay filtering, whole stream: when every line the grammar accepts is
/// timestamped at or before the process start instant, no bytes whatsoever
/// make the engine emit an event or touch the table.
pub proof fn lemma_replay_filtered_stream(start: Timestamp, m: TailModel, s: Seq<u8>)
    requires
        forall|line: Seq<u8>|
            #[trigger] spec_parse_line(line) matches Some(li) ==> ts_le(li.ts, start),
    ensures
        feed_bytes(start, m, s).ids == m.ids,
        feed_bytes(start, m, s).out == m.out,
    decreases s.len(),
{
    if s.len() > 0 {
        let b = s.first();
        if b == 10 {
            let line = chomp_cr(m.buf);
            if spec_parse_line(line) is Some {
                lemma_replay_filtered_line(m.ids, start, line);
            }
            assert(feed_byte(start, m, b).out =~= m.out);
        }
        lemma_replay_filtered_stream(start, feed_byte(start, m, b), s.drop_first());
    }
}

/// The line-reassembly engine: the open log file's unconsumed tail text,
/// the name-to-identifier table, and the process start instant used for
/// replay filtering.
pub struct Tailer {
    pub buf: Vec<u8>,
    pub ids: IdentityMap,
    pub start: Timestamp,
}

impl Tailer {
    pub open spec fn wf(&self) -> bool {
        self.ids.wf()
    }

    /// The engine's state as the byte-feed model sees it, with no events
    /// emitted yet.
    pub open spec fn model(&self) -> TailModel {
        TailModel { buf: self.buf@, ids: self.ids@, out: Seq::empty() }
    }

    pub fn new(start: Timestamp) -> (r: Tailer)
        ensures
            r.wf(),
            r.buf@ == Seq::<u8>::empty(),
            r.ids@ == Map::<Seq<u8>, Seq<u8>>::empty(),
            r.start == start,
    {
        Tailer { buf: Vec::new(), ids: IdentityMap::new(), start: start }
    }

    /// Drops the carried partial line.  Called when the tailer adopts a
    /// rotated file: the new file is read from its end, so text carried
    /// from the old file must not leak into the first new line.
    pub fn reset_partial(&mut self)
        requires
            old(self).wf(),
        ensures
            final(self).wf(),
            final(self).buf@ == Seq::<u8>::empty(),
            final(self).ids@ == old(self).ids@,
            final(self).start == old(self).start,
    {
        self.buf.clear();
    }

    /// Feeds one read's bytes through the engine: reassembles complete
    /// lines, parses each exactly once, updates the correlation table, and
    /// returns the emitted events in file order.
    pub fn process_chunk(&mut self, chunk: &Vec<u8>) -> (evs: Vec<RawEvent>)
        requires
            old(self).wf(),
        ensures
            final(self).wf(),
            final(self).start == old(self).start,
            final(self).buf@ == feed_bytes(old(self).start, old(self).model(), chunk@).buf,
            final(self).ids@ == feed_bytes(old(self).start, old(self).model(), chunk@).ids,
            views_of(evs@) == feed_bytes(old(self).start, old(self).model(), chunk@).out,
    {
        let ghost start_ts = self.start;
        let ghost m0 = self.model();
        let mut evs: Vec<RawEvent> = Vec::new();
        let mut i: usize = 0;
        while i < chunk.len()
            invariant
                0 <= i <= chunk@.len(),
                self.start == start_ts,
                self.ids.wf(),
                self.buf@ == feed_bytes(start_ts, m0, chunk@.take(i as int)).buf,
                self.ids@ == feed_bytes(start_ts, m0, chunk@.take(i as int)).ids,
                views_of(evs@) == feed_bytes(start_ts, m0, chunk@.take(i as int)).out,
            decreases chunk@.len() - i,
        {
            let ghost pre = feed_bytes(start_ts, m0, chunk@.take(i as int));
            let b = chunk[i];
            proof {
                assert(chunk@.take((i + 1) as int) =~= chunk@.take(i as int) + seq![b]);
                lemma_reads_compose(start_ts, m0, chunk@.take(i as int), seq![b]);
                assert(seq![b].first() == b);
                assert(seq![b].drop_first() =~= Seq::<u8>::empty());
                assert(feed_bytes(start_ts, feed_byte(start_ts, pre, b), seq![b].drop_first())
                    == feed_byte(start_ts, pre, b));
                assert(feed_bytes(start_ts, pre, seq![b]) == feed_byte(start_ts, pre, b));
            }
            if b == 10 {
                if self.buf.len() > 0 && self.buf[self.buf.len() - 1] == 13 {
                    self.buf.pop();
                }
                assert(self.buf@ == chomp_cr(pre.buf));
                let ghost stepped = step_line(pre.ids, start_ts, chomp_cr(pre.buf));
                let parsed = parse_line(&self.buf);
                match parsed {
                    Some(p) => {
                        if self.start.before(&p.ts) {
                            match p.kind {
                                EventKind::Joined => {
                                    match p.id {
                                        Some(idv) => {
                                            let idc = clone_bytes(&idv);
                                            self.ids.insert(p.name, idv);
                                            proof {
                                                lemma_views_of_push(
                                                    evs@,
                                                    RawEvent {
                                                        kind: EventKind::Joined,
                                                        user_id: idc,
                                                    },
                                                );
                                            }
                                            evs.push(
                                                RawEvent { kind: EventKind::Joined, user_id: idc },
                                            );
                                        },
                                        None => {
                                            // The grammar gives every join
                                            // and leave line an identifier.
                                            assert(false);
                                        },
                                    }
                                },
                                EventKind::Left => {
                                    match p.id {
                                        Some(idv) => {
                                            self.ids.remove(&p.name);
                                            proof {
                                                lemma_views_of_push(
                                                    evs@,
                                                    RawEvent {
                                                        kind: EventKind::Left,
                                                        user_id: idv,
                                                    },
                                                );
                                            }
                                            evs.push(
                                                RawEvent { kind: EventKind::Left, user_id: idv },
                                            );
                                        },
                                        None => {
                                            // The grammar gives every join
                                            // and leave line an identifier.
                                            assert(false);
                                        },
                                    }
                                },
                                EventKind::AvatarChanged => {
                                    let looked = self.ids.get(&p.name);
                                    match looked {
                                        Some(known) => {
                                            let idc = clone_bytes(known);
                                            proof {
                                                lemma_views_of_push(
                                                    evs@,
                                                    RawEvent {
                                                        kind: EventKind::AvatarChanged,
                                                        user_id: idc,
                                                    },
                                                );
                                            }
                                            evs.push(
                                                RawEvent {
                                                    kind: EventKind::AvatarChanged,
                                                    user_id: idc,
                                                },
                                            );
                                        },
                                        None => {},
                                    }
                                },
                            }
                        }
                    },
                    None => {},
                }
                self.buf.clear();
                proof {
                    assert(views_of(evs@) =~= pre.out + opt_seq(stepped.1));
                }
            } else {
                self.buf.push(b);
            }
            i = i + 1;
        }
        proof {
            assert(chunk@.take(chunk@.len() as int) =~= chunk@);
        }
        evs
    }
}

/// How much of the grown file to read: from the stored offset up to the
/// current length, exactly once.
#[derive(Clone, Copy, PartialEq, Eq, Structural, Debug)]
pub struct ReadPlan {
    pub from: u64,
    pub len: u64,
}

/// Decides what to read when the watched file reports length `current_len`
/// and `offset` bytes were already consumed.  A file that did not grow is
/// left alone, so no byte is ever read twice.
pub fn plan_read(offset: u64, current_len: u64) -> (r: Option<ReadPlan>)
    ensures
        match r {
            Some(p) => current_len > offset && p.from == offset && p.len == current_len - offset,
            None => current_len <= offset,
        },
{
    if current_len > offset {
        Some(ReadPlan { from: offset, len: current_len - offset })
    } else {
        None
    }
}

/// The offset after reacting to a modification notice.
pub open spec fn next_offset(offset: u64, current_len: u64) -> u64 {
    if current_len > offset {
        current_len
    } else {
        offset
    }
}

/// Advances the consumed-bytes offset after a read was planned.  While the
/// same file stays current, the offset never decreases.
pub fn advance_offset(offset: u64, current_len: u64) -> (r: u64)
    ensures
        r == next_offset(offset, current_len),
        r >= offset,
{
    if current_len > offset {
        current_len
    } else {
        offset
    }
}

/// Decides whether a directory-create notice means the log rotated: the
/// tailer switches exactly when the freshest candidate is another path.
pub fn should_switch(current: &Vec<u8>, newest: &Vec<u8>) -> (r: bool)
    ensures
        r == (current@ != newest@),
{
    !bytes_eq(current, newest)
}

} // verus!
