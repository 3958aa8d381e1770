//! The pacing transmitter: how the encoded table is cut into chunks, how long
//! the pause after each chunk is, and in which order the transmission loop
//! encodes, sends and pauses.
//!
//! The transmitter decides and keeps the books; the caller encodes the table,
//! hands the chunks to the sink and sleeps.

use vstd::prelude::*;

verus! {

/// The size of one transport packet, in bytes.
pub const PACKET_SIZE: usize = 188;

/// The largest chunk that is sent at once, in bytes: seven transport packets.
pub const CHUNK_SIZE: usize = 1316;

/// The time in which the whole table is sent once, in nanoseconds.
pub const CYCLE_NANOS: u64 = 1_000_000_000;

/// The number of whole transport packets in `len` bytes.
pub open spec fn packets_in(len: nat) -> nat {
    len / 188
}

/// The number of pauses that share one cycle, for a table of `packets` packets.
pub open spec fn pauses_per_cycle(packets: nat) -> nat {
    (6 + packets) / 7
}

/// The pause after each chunk of a table of `packets` packets, in nanoseconds.
pub open spec fn chunk_delay_nanos(packets: nat) -> nat
    recommends
        packets >= 1,
{
    1_000_000_000nat / pauses_per_cycle(packets)
}

/// Where the chunk that starts at `start` ends, in a stream of `len` bytes.
pub open spec fn chunk_end(len: nat, start: nat) -> nat {
    if len - start < 1316 {
        len
    } else {
        start + 1316
    }
}

/// The number of chunks in a stream of `len` bytes.
pub open spec fn chunk_count(len: nat) -> nat {
    (len + 1315) / 1316
}

/// The continuity counter after `packets` more packets: it counts modulo 16.
pub open spec fn advance(continuity: u8, packets: nat) -> u8 {
    ((continuity + packets) % 16) as u8
}

/// The pause after each chunk of an encoded stream of `len` bytes, which
/// holds at least one packet.
pub fn chunk_delay(len: usize) -> (nanos: u64)
    requires
        len >= PACKET_SIZE,
    ensures
        nanos == chunk_delay_nanos(packets_in(len as nat)),
{
    let packets = len / PACKET_SIZE;
    let pauses = (6 + packets) / 7;
    CYCLE_NANOS / (pauses as u64)
}

/// The end of the chunk that starts at `skip`, in an encoded stream of `len`
/// bytes: at most `CHUNK_SIZE` bytes further, and never beyond the stream.
pub fn next_chunk(len: usize, skip: usize) -> (end: usize)
    requires
        skip <= len,
    ensures
        end == chunk_end(len as nat, skip as nat),
        skip <= end <= len,
        end - skip <= CHUNK_SIZE,
{
    let rest = len - skip;
    if rest < CHUNK_SIZE {
        len
    } else {
        skip + CHUNK_SIZE
    }
}

/// The continuity counter after an encoded stream of `len` bytes has been
/// written from the counter `continuity`.
pub fn advance_continuity(continuity: u8, len: usize) -> (next: u8)
    ensures
        next == advance(continuity, packets_in(len as nat)),
        next < 16,
{
    let packets = len / PACKET_SIZE;
    (((continuity % 16) as usize + packets % 16) % 16) as u8
}

/// What the transmission loop waits for.
#[derive(Debug, Clone, Copy, PartialEq, Eq, Structural)]
pub enum Phase {
    /// The table has to be encoded.
    Encode,
    /// A chunk has to leave.
    Send,
    /// The pause after a chunk has to pass.
    Pause,
}

/// What the caller has to do next.
#[derive(Debug, Clone, Copy, PartialEq, Eq, Structural)]
pub enum Action {
    /// Encode the table for the packet identifier `pid`, the first packet
    /// under the continuity counter `continuity`, into an empty buffer.
    Encode { pid: u16, continuity: u8 },
    /// Hand the bytes from `start` up to `end` of the encoded stream to the
    /// sink, in one piece.
    Send { start: usize, end: usize },
    /// Sleep for `nanos` nanoseconds.
    Sleep { nanos: u64 },
}

/// What the caller has done.
#[derive(Debug, Clone, Copy, PartialEq, Eq, Structural)]
pub enum Event {
    /// The table was encoded into `len` bytes.
    Encoded { len: usize },
    /// The chunk has left.
    Sent,
    /// The pause has passed.
    Slept,
}

/// The books of the transmission loop.
#[derive(Debug, Clone, Copy, PartialEq, Eq, Structural)]
pub struct State {
    /// The packet identifier that carries the table.
    pub pid: u16,
    /// The continuity counter from which the next encoding starts.
    pub continuity: u8,
    /// The length of the encoded stream of this cycle.
    pub len: usize,
    /// Where the chunk in hand starts: what stands before it has left.
    pub skip: usize,
    /// Where the chunk in hand ends.
    pub end: usize,
    /// The pause after each chunk of this cycle, in nanoseconds.
    pub delay: u64,
    pub phase: Phase,
}

impl State {
    /// The books before the first cycle. The counter counts modulo 16.
    pub open spec fn initial(pid: u16, continuity: u8) -> State {
        State {
            pid,
            continuity: continuity % 16,
            len: 0,
            skip: 0,
            end: 0,
            delay: 0,
            phase: Phase::Encode,
        }
    }

    /// Whether the chunk in hand lies within the encoded stream.
    pub open spec fn wf(self) -> bool {
        &&& self.continuity < 16
        &&& self.skip <= self.end <= self.len
    }

    /// What the caller has to do in this state.
    pub open spec fn pending(self) -> Action {
        match self.phase {
            Phase::Encode => Action::Encode { pid: self.pid, continuity: self.continuity },
            Phase::Send => Action::Send { start: self.skip, end: self.end },
            Phase::Pause => Action::Sleep { nanos: self.delay },
        }
    }

    /// The state after `event`. An event that does not answer what was
    /// pending changes nothing.
    ///
    /// After the encoding the counter has advanced by the packets of the
    /// stream, and the first chunk is in hand. After a chunk has left comes its
    /// pause. After the pause the next chunk is in hand or, where none is
    /// left, the stream is dropped and the table has to be encoded again.
    pub open spec fn after(self, event: Event) -> State {
        match (self.phase, event) {
            (Phase::Encode, Event::Encoded { len }) => State {
                continuity: advance(self.continuity, packets_in(len as nat)),
                len,
                skip: 0,
                end: chunk_end(len as nat, 0) as usize,
                delay: chunk_delay_nanos(packets_in(len as nat)) as u64,
                phase: Phase::Send,
                ..self
            },
            (Phase::Send, Event::Sent) => State { phase: Phase::Pause, ..self },
            (Phase::Pause, Event::Slept) => if self.end < self.len {
                State {
                    skip: self.end,
                    end: chunk_end(self.len as nat, self.end as nat) as usize,
                    phase: Phase::Send,
                    ..self
                }
            } else {
                State { len: 0, skip: 0, end: 0, phase: Phase::Encode, ..self }
            },
            _ => self,
        }
    }

    /// The state after `rounds` more chunks have left, each with its pause.
    pub open spec fn after_chunks(self, rounds: nat) -> State
        decreases rounds,
    {
        if rounds == 0 {
            self
        } else {
            self.after_chunks((rounds - 1) as nat).after(Event::Sent).after(Event::Slept)
        }
    }
}

/// Nothing but an encoding moves the counter, and nothing resets it: an
/// encoding advances it by the packets of the stream, any other event leaves
/// it where it stood. The packet identifier never changes, and the chunk in
/// hand stays within the stream.
pub proof fn lemma_counter_is_kept(state: State, event: Event)
    requires
        state.wf(),
    ensures
        state.after(event).wf(),
        state.after(event).pid == state.pid,
        state.after(event).continuity == if state.phase == Phase::Encode && event is Encoded {
            advance(state.continuity, packets_in(event->len as nat))
        } else {
            state.continuity
        },
{
}

/// One cycle of the loop. After a table of `len` bytes was encoded, its
/// chunks leave in the order of the stream, each `CHUNK_SIZE` bytes long but
/// for the last, each followed by the same pause. After the last pause the
/// stream is dropped and the table has to be encoded again, from the counter
/// at which this encoding ended: the counter it began with, advanced by its
/// packets, modulo 16.
pub proof fn lemma_cycle(start: State, len: usize, rounds: nat)
    requires
        start.phase == Phase::Encode,
        len >= PACKET_SIZE,
        rounds <= chunk_count(len as nat),
    ensures
        ({
            let state = start.after(Event::Encoded { len }).after_chunks(rounds);
            let counter = advance(start.continuity, packets_in(len as nat));
            let delay = chunk_delay_nanos(packets_in(len as nat)) as u64;
            &&& rounds < chunk_count(len as nat) ==> {
                &&& state == (State {
                    continuity: counter,
                    len,
                    skip: (rounds * CHUNK_SIZE) as usize,
                    end: chunk_end(len as nat, rounds * CHUNK_SIZE as nat) as usize,
                    delay,
                    phase: Phase::Send,
                    ..start
                })
                &&& state.pending() == (Action::Send { start: state.skip, end: state.end })
                &&& state.after(Event::Sent).pending() == (Action::Sleep { nanos: delay })
            }
            &&& rounds == chunk_count(len as nat) ==> {
                &&& state == (State {
                    continuity: counter,
                    len: 0,
                    skip: 0,
                    end: 0,
                    delay,
                    phase: Phase::Encode,
                    ..start
                })
                &&& state.pending() == (Action::Encode { pid: start.pid, continuity: counter })
            }
        }),
    decreases rounds,
{
    if rounds > 0 {
        lemma_cycle(start, len, (rounds - 1) as nat);
    }
}

/// The counter goes on where it stood: two tables in a row advance it as
/// one stream of all their packets would.
pub proof fn lemma_continuity_continues(continuity: u8, first: nat, second: nat)
    ensures
        advance(advance(continuity, first), second) == advance(continuity, first + second),
        advance(continuity, 0) == continuity % 16,
{
}

/// The pauses of one cycle add up to the cycle time, but for what the whole
/// division into nanoseconds drops: less than one nanosecond for each pause.
/// A table of `packets` whole packets has one pause for every seven packets
/// or part of seven, which is the number of its chunks.
pub proof fn lemma_cycle_time(packets: nat)
    requires
        packets >= 1,
    ensures
        chunk_count(packets * PACKET_SIZE as nat) == pauses_per_cycle(packets),
        packets_in(packets * PACKET_SIZE as nat) == packets,
        pauses_per_cycle(packets) * chunk_delay_nanos(packets) <= CYCLE_NANOS,
        CYCLE_NANOS < pauses_per_cycle(packets) * (chunk_delay_nanos(packets) + 1),
        packets <= 7 ==> chunk_delay_nanos(packets) == CYCLE_NANOS,
{
    let pauses = pauses_per_cycle(packets);
    let delay = chunk_delay_nanos(packets);
    if packets <= 7 {
        assert(pauses == 1);
        assert(1_000_000_000nat / 1 == 1_000_000_000);
    }
    assert(pauses * delay <= 1_000_000_000 < pauses * (delay + 1)) by (nonlinear_arith)
        requires
            pauses >= 1,
            delay == 1_000_000_000nat / pauses,
    ;
}

/// The transmission loop as a machine: it is told what was done and says
/// what to do next. It owns the continuity counter of the table's packet
/// identifier, which nothing resets.
#[derive(Debug)]
pub struct Transmitter {
    state: State,
}

impl View for Transmitter {
    type V = State;

    closed spec fn view(&self) -> State {
        self.state
    }
}

impl Transmitter {
    #[verifier::type_invariant]
    spec fn well_formed(self) -> bool {
        self.state.wf()
    }

    /// A transmitter for the packet identifier `pid` whose first packet goes
    /// out under the continuity counter `continuity`, taken modulo 16.
    pub fn new(pid: u16, continuity: u8) -> (transmitter: Transmitter)
        ensures
            transmitter@ == State::initial(pid, continuity),
    {
        Transmitter {
            state: State {
                pid,
                continuity: continuity % 16,
                len: 0,
                skip: 0,
                end: 0,
                delay: 0,
                phase: Phase::Encode,
            },
        }
    }

    /// The books as they stand.
    pub fn state(&self) -> (state: State)
        ensures
            state == self@,
            state.wf(),
    {
        proof {
            use_type_invariant(self);
        }
        self.state
    }

    /// What the caller has to do now.
    pub fn pending(&self) -> (action: Action)
        ensures
            action == self@.pending(),
    {
        match self.state.phase {
            Phase::Encode => Action::Encode {
                pid: self.state.pid,
                continuity: self.state.continuity,
            },
            Phase::Send => Action::Send { start: self.state.skip, end: self.state.end },
            Phase::Pause => Action::Sleep { nanos: self.state.delay },
        }
    }

    /// Whether a cycle is complete and the next has not begun: the one point
    /// at which the loop may be left without cutting a table short.
    pub fn between_cycles(&self) -> (between: bool)
        ensures
            between == (self@.phase == Phase::Encode),
    {
        match self.state.phase {
            Phase::Encode => true,
            _ => false,
        }
    }

    /// Takes note of what the caller has done and says what to do next.
    ///
    /// An encoded stream holds at least one transport packet.
    pub fn step(&mut self, event: Event) -> (action: Action)
        requires
            old(self)@.phase == Phase::Encode ==> (event matches Event::Encoded { len } ==> len
                >= PACKET_SIZE),
        ensures
            final(self)@ == old(self)@.after(event),
            action == final(self)@.pending(),
    {
        proof {
            use_type_invariant(&*self);
        }
        let state = self.state;
        match (state.phase, event) {
            (Phase::Encode, Event::Encoded { len }) => {
                self.state = State {
                    continuity: advance_continuity(state.continuity, len),
                    len,
                    skip: 0,
                    end: next_chunk(len, 0),
                    delay: chunk_delay(len),
                    phase: Phase::Send,
                    ..state
                };
            },
            (Phase::Send, Event::Sent) => {
                self.state = State { phase: Phase::Pause, ..state };
            },
            (Phase::Pause, Event::Slept) => {
                if state.end < state.len {
                    self.state = State {
                        skip: state.end,
                        end: next_chunk(state.len, state.end),
                        phase: Phase::Send,
                        ..state
                    };
                } else {
                    self.state = State { len: 0, skip: 0, end: 0, phase: Phase::Encode, ..state };
                }
            },
            _ => {},
        }
        self.pending()
    }
}

} // verus!
