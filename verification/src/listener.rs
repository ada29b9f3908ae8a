//! Listener-loop logic: the cancellable read → reassemble → parse →
//! publish cycle, with its retry policy on transient faults.
//!
//! The service owns the listening flag, the connection slot and the line
//! buffer. One call of `poll_step` is one loop iteration; the surrounding
//! application spawns the thread, performs the returned backoff sleep and
//! delivers the returned events and notices to its sink.

use vstd::prelude::*;
use crate::connection::{ConnectionManager, ReadOutcome};
use crate::events::{CallerEvent, CallerIdError, ErrorNotice, NoticeKind};
use crate::parser::{parse_caller_id, parse_spec};
use crate::reassembler::{carry, emitted, LineBuffer};

verus! {

/// How long the loop should pause before its next iteration.
#[derive(Debug, Clone, Copy, PartialEq, Eq, Structural)]
pub enum Backoff {
    /// Data arrived: poll again at once.
    NoDelay,
    /// Nothing to read: the ~20 ms idle-poll pause.
    IdlePoll,
    /// No device: the ~500 ms wait for a future connect.
    Reconnect,
    /// A transient I/O fault: the ~100 ms retry pause.
    ReadFault,
}

/// The backoff pauses, in milliseconds.
pub fn backoff_ms(b: Backoff) -> (r: u64)
    ensures
        b is NoDelay ==> r == 0,
        b is IdlePoll ==> r == 20,
        b is Reconnect ==> r == 500,
        b is ReadFault ==> r == 100,
{
    match b {
        Backoff::NoDelay => 0,
        Backoff::IdlePoll => 20,
        Backoff::Reconnect => 500,
        Backoff::ReadFault => 100,
    }
}

/// What one loop iteration produced, for the application to act on.
pub struct StepResult {
    /// The loop was cancelled: terminate the unit of concurrency.
    pub exit: bool,
    /// The caller events parsed from this iteration's bytes, in line order.
    pub events: Vec<CallerEvent>,
    /// The advisory notice of a transient fault, if one occurred.
    pub notice: Option<ErrorNotice>,
    /// The pause before the next iteration.
    pub backoff: Backoff,
}

/// Name for what `String::from_utf8_lossy` decodes a byte chunk to.
pub uninterp spec fn decoded_of(bytes: Seq<u8>) -> Seq<char>;

pub open spec fn all_ascii(bs: Seq<u8>) -> bool {
    forall|i: int| 0 <= i < bs.len() ==> bs[i] < 128
}

pub open spec fn ascii_chars(bs: Seq<u8>) -> Seq<char> {
    bs.map_values(|b: u8| b as char)
}

/// Relies on `String::from_utf8_lossy`: the decoding is a function of the
/// bytes alone, invalid sequences becoming replacement characters, and a
/// purely ASCII chunk decodes to exactly its own characters.
#[verifier::external_body]
fn decode_chunk(bytes: &Vec<u8>) -> (r: String)
    ensures
        r@ == decoded_of(bytes@),
        all_ascii(bytes@) ==> r@ == ascii_chars(bytes@),
{
    String::from_utf8_lossy(bytes.as_slice()).into_owned()
}

/// Relies on chrono's `From<SystemTime>` conversion and `to_rfc3339`: the
/// RFC 3339 rendering of the current instant. The conversion, unlike
/// `Utc::now`, handles a system clock set before the Unix epoch without
/// panicking.
#[verifier::external_body]
fn now_rfc3339() -> (r: String) {
    chrono::DateTime::<chrono::Utc>::from(std::time::SystemTime::now()).to_rfc3339()
}

/// The events a batch of completed lines yields: each line that parses as a
/// caller-ID record becomes one `(phone number, timestamp)` pair, in line
/// order.
pub open spec fn events_of(lines: Seq<Seq<char>>, now: Seq<char>) -> Seq<(Seq<char>, Seq<char>)>
    decreases lines.len(),
{
    if lines.len() == 0 {
        Seq::empty()
    } else {
        let rest = events_of(lines.drop_first(), now);
        match parse_spec(lines[0]) {
            Option::Some(num) => seq![(num, now)] + rest,
            Option::None => rest,
        }
    }
}

proof fn lemma_events_concat(l1: Seq<Seq<char>>, l2: Seq<Seq<char>>, now: Seq<char>)
    ensures
        events_of(l1 + l2, now) == events_of(l1, now) + events_of(l2, now),
    decreases l1.len(),
{
    if l1.len() == 0 {
        assert(l1 + l2 =~= l2);
        assert(events_of(l1, now) + events_of(l2, now) =~= events_of(l2, now));
    } else {
        assert((l1 + l2).drop_first() =~= l1.drop_first() + l2);
        lemma_events_concat(l1.drop_first(), l2, now);
        match parse_spec(l1[0]) {
            Option::Some(num) => {
                assert((seq![(num, now)] + events_of(l1.drop_first(), now)) + events_of(l2, now)
                    =~= seq![(num, now)] + (events_of(l1.drop_first(), now) + events_of(l2, now)));
            },
            Option::None => {},
        }
    }
}

/// The view of an event vector: the `(phone number, timestamp)` pairs.
pub open spec fn events_view(evs: Seq<CallerEvent>) -> Seq<(Seq<char>, Seq<char>)> {
    evs.map_values(|e: CallerEvent| (e.phone_number@, e.timestamp@))
}

/// The relation that digesting one read outcome establishes between the
/// service state before, the state after, the outcome, the timestamp in
/// force and the returned step: data is decoded, reassembled and parsed
/// into events in line order; a timeout asks for the idle poll; a missing
/// device and a read fault each raise exactly their advisory notice and
/// their backoff; nothing ever exits or touches the flag or the handle.
pub open spec fn digested(
    pre: CallerIdService,
    post: CallerIdService,
    outcome: ReadOutcome,
    now: Seq<char>,
    r: StepResult,
) -> bool {
    &&& !r.exit
    &&& post.listening() == pre.listening()
    &&& post.connected() == pre.connected()
    &&& match outcome {
        ReadOutcome::Data(bytes) => {
            &&& events_view(r.events@) == events_of(
                emitted(pre.pending(), decoded_of(bytes@)),
                now,
            )
            &&& post.pending() == carry(pre.pending(), decoded_of(bytes@))
            &&& r.notice is None
            &&& r.backoff == (if bytes@.len() == 0 {
                Backoff::IdlePoll
            } else {
                Backoff::NoDelay
            })
            &&& bytes@.len() == 0 ==> r.events@.len() == 0 && post.pending() == pre.pending()
        },
        ReadOutcome::TimedOut => {
            &&& r.events@.len() == 0
            &&& r.notice is None
            &&& r.backoff is IdlePoll
            &&& post.pending() == pre.pending()
        },
        ReadOutcome::Disconnected => {
            &&& r.events@.len() == 0
            &&& r.notice matches Some(n) && n.kind is NotConnected
            &&& r.backoff is Reconnect
            &&& post.pending() == pre.pending()
        },
        ReadOutcome::Failed(msg) => {
            &&& r.events@.len() == 0
            &&& r.notice matches Some(n) && n.kind is ReadFailure && n.message@ == msg@
            &&& r.backoff is ReadFault
            &&& post.pending() == pre.pending()
        },
    }
}

/// The whole caller-ID monitor: the single connection slot, the listening
/// flag and the line buffer, owned together and passed into every
/// operation.
pub struct CallerIdService {
    conn: ConnectionManager,
    listening: bool,
    lines: LineBuffer,
}

impl CallerIdService {
    /// Whether the listener loop is (to be) running.
    pub closed spec fn listening(self) -> bool {
        self.listening
    }

    /// Whether a device handle is open.
    pub closed spec fn connected(self) -> bool {
        self.conn.connected()
    }

    /// The buffered text of the pending, unterminated line.
    pub closed spec fn pending(self) -> Seq<char> {
        self.lines.pending()
    }

    /// Invariant: the pending text holds no completed line.
    pub closed spec fn wf(self) -> bool {
        self.lines.wf()
    }

    pub fn new() -> (r: CallerIdService)
        ensures
            !r.listening(),
            !r.connected(),
            r.pending() == Seq::<char>::empty(),
            r.wf(),
    {
        CallerIdService { conn: ConnectionManager::new(), listening: false, lines: LineBuffer::new() }
    }

    pub fn is_listening(&self) -> (r: bool)
        ensures
            r == self.listening(),
    {
        self.listening
    }

    pub fn is_connected(&self) -> (r: bool)
        ensures
            r == self.connected(),
    {
        self.conn.is_connected()
    }

    /// Open the named device, closing any prior handle first. The flag and
    /// the buffered text are untouched: a running loop simply resumes
    /// reading from the new device. `Ok` reports whether the best-effort
    /// enable command was sent.
    pub fn connect(&mut self, name: &str) -> (r: Result<bool, CallerIdError>)
        ensures
            final(self).connected() == r is Ok,
            r matches Err(e) ==> e is ConnectionError,
            final(self).listening() == old(self).listening(),
            final(self).pending() == old(self).pending(),
            old(self).wf() ==> final(self).wf(),
    {
        self.conn.connect(name)
    }

    /// Release the device handle; a no-op success when nothing is open.
    /// The listening flag is untouched — only `start`, `stop` and the
    /// loop's own exit mutate it — so a running loop keeps polling,
    /// raising `NotConnected` notices while it awaits a future connect.
    /// The pending text stays buffered for that reconnection.
    pub fn disconnect(&mut self)
        ensures
            !final(self).connected(),
            final(self).listening() == old(self).listening(),
            final(self).pending() == old(self).pending(),
            old(self).wf() ==> final(self).wf(),
    {
        self.conn.close();
    }

    /// Set the listening flag, rejecting a second listener: with the flag
    /// already set nothing changes and `AlreadyListening` is returned. On
    /// `Ok` the application must spawn the loop that calls `poll_step`.
    pub fn start(&mut self) -> (r: Result<(), CallerIdError>)
        ensures
            old(self).listening() ==> (r matches Err(e) && e is AlreadyListening && *final(self)
                == *old(self)),
            !old(self).listening() ==> r is Ok && final(self).listening(),
            final(self).connected() == old(self).connected(),
            final(self).pending() == old(self).pending(),
            old(self).wf() ==> final(self).wf(),
    {
        if self.listening {
            Result::Err(CallerIdError::AlreadyListening)
        } else {
            self.listening = true;
            Result::Ok(())
        }
    }

    /// Clear the listening flag; the running iteration finishes and the
    /// loop exits at its next flag check.
    pub fn stop(&mut self)
        ensures
            !final(self).listening(),
            final(self).connected() == old(self).connected(),
            final(self).pending() == old(self).pending(),
            old(self).wf() ==> final(self).wf(),
    {
        self.listening = false;
    }

    /// Feed one decoded chunk of device text through the reassembler and
    /// the parser: every line it completes that parses as a caller-ID
    /// record becomes one event stamped `now`.
    pub fn handle_chunk(&mut self, text: &str, now: &str) -> (evs: Vec<CallerEvent>)
        requires
            old(self).wf(),
        ensures
            events_view(evs@) == events_of(emitted(old(self).pending(), text@), now@),
            final(self).pending() == carry(old(self).pending(), text@),
            final(self).listening() == old(self).listening(),
            final(self).connected() == old(self).connected(),
            final(self).wf(),
    {
        let lines = self.lines.feed(text);
        let ghost lv = lines@.map_values(|l: String| l@);
        let mut evs: Vec<CallerEvent> = Vec::new();
        let mut j: usize = 0;
        proof {
            assert(lv.take(0) =~= Seq::<Seq<char>>::empty());
            assert(events_of(lv.take(0), now@) =~= Seq::<(Seq<char>, Seq<char>)>::empty());
            assert(events_view(evs@) =~= Seq::<(Seq<char>, Seq<char>)>::empty());
        }
        while j < lines.len()
            invariant
                j <= lines.len(),
                lv == lines@.map_values(|l: String| l@),
                events_view(evs@) == events_of(lv.take(j as int), now@),
            decreases lines.len() - j,
        {
            proof {
                lemma_events_concat(lv.take(j as int), seq![lv[j as int]], now@);
                assert(lv.take(j as int) + seq![lv[j as int]] =~= lv.take(j + 1 as int));
                assert(seq![lv[j as int]].drop_first() =~= Seq::<Seq<char>>::empty());
                assert(events_of(Seq::<Seq<char>>::empty(), now@) == Seq::<(
                    Seq<char>,
                    Seq<char>,
                )>::empty());
            }
            match parse_caller_id(lines[j].as_str()) {
                Option::Some(num) => {
                    let ghost pre = evs@;
                    let ev = CallerEvent { phone_number: num, timestamp: now.to_owned() };
                    evs.push(ev);
                    proof {
                        assert(events_view(evs@) =~= events_view(pre).push(
                            (ev.phone_number@, ev.timestamp@),
                        ));
                        assert(events_view(pre).push((ev.phone_number@, ev.timestamp@))
                            =~= events_view(pre) + seq![(ev.phone_number@, ev.timestamp@)]);
                        assert(events_of(seq![lv[j as int]], now@) =~= seq![
                            (ev.phone_number@, ev.timestamp@),
                        ]);
                    }
                },
                Option::None => {
                    proof {
                        assert(events_of(seq![lv[j as int]], now@) =~= Seq::<(
                            Seq<char>,
                            Seq<char>,
                        )>::empty());
                        assert(events_of(lv.take(j as int), now@) + Seq::<(
                            Seq<char>,
                            Seq<char>,
                        )>::empty() =~= events_of(lv.take(j as int), now@));
                    }
                },
            }
            j += 1;
        }
        proof {
            assert(lv.take(lv.len() as int) =~= lv);
        }
        evs
    }

    /// Digest one read outcome, exactly as the loop body does: data is
    /// decoded and fed through `handle_chunk`; a timeout asks for the idle
    /// poll; a missing device and a read fault each raise their advisory
    /// notice and their backoff. Never an exit: only the flag ends the
    /// loop.
    pub fn handle_outcome(&mut self, outcome: ReadOutcome, now: &str) -> (r: StepResult)
        requires
            old(self).wf(),
        ensures
            digested(*old(self), *final(self), outcome, now@, r),
            final(self).wf(),
    {
        match outcome {
            ReadOutcome::Data(bytes) => {
                let text = decode_chunk(&bytes);
                proof {
                    if bytes@.len() == 0 {
                        assert(ascii_chars(bytes@) =~= Seq::<char>::empty());
                        assert(emitted(old(self).pending(), text@) =~= Seq::<Seq<char>>::empty());
                        assert(events_of(Seq::<Seq<char>>::empty(), now@) =~= Seq::<(
                            Seq<char>,
                            Seq<char>,
                        )>::empty());
                    }
                }
                let now_own = now.to_owned();
                let events = self.handle_chunk(text.as_str(), now_own.as_str());
                proof {
                    assert(events@.len() == events_view(events@).len());
                }
                let backoff = if bytes.len() == 0 {
                    Backoff::IdlePoll
                } else {
                    Backoff::NoDelay
                };
                StepResult { exit: false, events, notice: Option::None, backoff }
            },
            ReadOutcome::TimedOut => {
                StepResult {
                    exit: false,
                    events: Vec::new(),
                    notice: Option::None,
                    backoff: Backoff::IdlePoll,
                }
            },
            ReadOutcome::Disconnected => {
                let message = "serial device is not connected".to_owned();
                StepResult {
                    exit: false,
                    events: Vec::new(),
                    notice: Option::Some(ErrorNotice { kind: NoticeKind::NotConnected, message }),
                    backoff: Backoff::Reconnect,
                }
            },
            ReadOutcome::Failed(msg) => {
                StepResult {
                    exit: false,
                    events: Vec::new(),
                    notice: Option::Some(ErrorNotice { kind: NoticeKind::ReadFailure, message: msg }),
                    backoff: Backoff::ReadFault,
                }
            },
        }
    }

    /// One iteration of the listener loop: check the flag, then read,
    /// reassemble, parse and report. With the flag cleared the iteration
    /// does nothing and asks the loop to exit; no fault ever does. A live
    /// iteration returns exactly the digestion of the one read outcome the
    /// device gave, stamped with the instant of the iteration.
    pub fn poll_step(&mut self) -> (r: StepResult)
        requires
            old(self).wf(),
        ensures
            r.exit == !old(self).listening(),
            final(self).listening() == old(self).listening(),
            final(self).connected() == old(self).connected(),
            final(self).wf(),
            r.exit ==> *final(self) == *old(self) && r.events@.len() == 0 && r.notice is None,
            !r.exit ==> exists|o: ReadOutcome, ts: Seq<char>|
                {
                    &&& #[trigger] digested(*old(self), *final(self), o, ts, r)
                    &&& (!old(self).connected() ==> o is Disconnected)
                    &&& (o matches ReadOutcome::Data(bytes) ==> bytes@.len() <= 1024)
                },
            !r.exit && !old(self).connected() ==> {
                &&& r.events@.len() == 0
                &&& r.notice matches Some(n) && n.kind is NotConnected
                &&& r.backoff is Reconnect
                &&& final(self).pending() == old(self).pending()
            },
    {
        if !self.listening {
            return StepResult {
                exit: true,
                events: Vec::new(),
                notice: Option::None,
                backoff: Backoff::NoDelay,
            };
        }
        let outcome = self.conn.read_step();
        let ghost o = outcome;
        let now = now_rfc3339();
        let r = self.handle_outcome(outcome, now.as_str());
        proof {
            assert(digested(*old(self), *self, o, now@, r));
        }
        r
    }
}

} // verus!
