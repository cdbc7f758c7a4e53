//! The relay loop's decisions, as a state machine.
//!
//! The caller runs the loop: it performs the action that the machine hands
//! out (accept a peer, poll the descriptors, read a channel, write a buffer)
//! and reports how it went with [`Relay::step`], which hands out the next
//! action. A pass accepts on each TCP server channel, polls both channels'
//! descriptors with a bounded wait, reads the input channel before the
//! output channel, then writes what the input gave to the output before what
//! the output gave to the input.

use vstd::prelude::*;
use crate::outcome::{AcceptOutcome, ReadOutcome, Side, WriteOutcome, read_count, bytes_read};

verus! {

/// Why a relay stops.
#[derive(PartialEq, Eq, Structural, Clone, Copy, Debug)]
pub enum Fault {
    AcceptFailed(Side),
    PollFailed,
    ReadFailed(Side),
    /// A read reported more bytes than the buffer holds.
    Overlong(Side),
    WriteFailed(Side),
    /// The event reported does not answer the pending action.
    OutOfOrder,
}

/// What the caller is to do next.
#[derive(PartialEq, Eq, Structural, Clone, Copy, Debug)]
pub enum Action {
    /// Accept one pending connection on this side's TCP listener, without blocking.
    Accept(Side),
    /// Wait for read readiness on the descriptors of both channels, for at
    /// most `timeout_ms` milliseconds.
    Poll { timeout_ms: i32 },
    /// Read this side's channel into this side's buffer.
    Read(Side),
    /// Write the first `len` bytes of the other side's buffer to side `to`.
    Write { to: Side, len: usize },
    /// Stop the relay.
    Abort(Fault),
}

/// How the pending action went.
#[derive(PartialEq, Eq, Structural, Clone, Copy, Debug)]
pub enum Event {
    Accepted(AcceptOutcome),
    /// `ret` is what the poll returned: negative on error, zero on timeout,
    /// else the number of ready descriptors; each flag says whether one of
    /// that channel's descriptors is ready (see [`any_ready`]).
    Polled { ret: i32, input_ready: bool, output_ready: bool },
    Read(ReadOutcome),
    Wrote(WriteOutcome),
}

/// The state of a relay between two channels.
pub struct Relay {
    input_server: bool,
    output_server: bool,
    wait_ms: i32,
    capacity: usize,
    pending: Action,
    input_ready: bool,
    output_ready: bool,
    input_len: usize,
    output_len: usize,
}

pub ghost struct RelayView {
    /// Whether the input channel is a TCP server, which accepts each pass.
    pub input_server: bool,
    pub output_server: bool,
    /// The bound on each wait for readiness, in milliseconds.
    pub wait_ms: i32,
    /// The size of each side's read buffer.
    pub capacity: usize,
    /// The action handed out last.
    pub pending: Action,
    /// Readiness of each channel in the current pass.
    pub input_ready: bool,
    pub output_ready: bool,
    /// Bytes read from each channel in the current pass.
    pub input_len: usize,
    pub output_len: usize,
}

impl View for Relay {
    type V = RelayView;

    closed spec fn view(&self) -> RelayView {
        RelayView {
            input_server: self.input_server,
            output_server: self.output_server,
            wait_ms: self.wait_ms,
            capacity: self.capacity,
            pending: self.pending,
            input_ready: self.input_ready,
            output_ready: self.output_ready,
            input_len: self.input_len,
            output_len: self.output_len,
        }
    }
}

impl RelayView {
    pub open spec fn wf(self) -> bool {
        &&& self.wait_ms > 0
        &&& self.input_len <= self.capacity
        &&& self.output_len <= self.capacity
    }

    pub open spec fn with_pending(self, a: Action) -> RelayView {
        RelayView { pending: a, ..self }
    }
}

/// The first action of a pass: accept on each server side, input first, then poll.
pub open spec fn pass_start(v: RelayView) -> Action {
    if v.input_server {
        Action::Accept(Side::Input)
    } else {
        after_accept(v, Side::Input)
    }
}

pub open spec fn after_accept(v: RelayView, side: Side) -> Action {
    if side == Side::Input && v.output_server {
        Action::Accept(Side::Output)
    } else {
        Action::Poll { timeout_ms: v.wait_ms }
    }
}

/// The writes of a pass, output first; a side that read nothing gets no write.
pub open spec fn first_write(v: RelayView) -> Action {
    if v.input_len > 0 {
        Action::Write { to: Side::Output, len: v.input_len }
    } else {
        second_write(v)
    }
}

pub open spec fn second_write(v: RelayView) -> Action {
    if v.output_len > 0 {
        Action::Write { to: Side::Input, len: v.output_len }
    } else {
        pass_start(v)
    }
}

pub open spec fn go(v: RelayView) -> (RelayView, Action) {
    (v, v.pending)
}

/// The state and the action that follow state `v` on event `e`.
pub open spec fn next(v: RelayView, e: Event) -> (RelayView, Action) {
    let stop = |f: Fault| go(v.with_pending(Action::Abort(f)));
    match (v.pending, e) {
        (Action::Abort(f), _) => go(v),
        (Action::Accept(side), Event::Accepted(o)) => {
            if o == AcceptOutcome::Failed {
                stop(Fault::AcceptFailed(side))
            } else {
                go(v.with_pending(after_accept(v, side)))
            }
        },
        (Action::Poll { .. }, Event::Polled { ret, input_ready, output_ready }) => {
            if ret < 0 {
                stop(Fault::PollFailed)
            } else if ret == 0 {
                go(v.with_pending(pass_start(v)))
            } else {
                let w = RelayView { input_ready, output_ready, input_len: 0, output_len: 0, ..v };
                go(w.with_pending(
                    if input_ready {
                        Action::Read(Side::Input)
                    } else if output_ready {
                        Action::Read(Side::Output)
                    } else {
                        pass_start(w)
                    },
                ))
            }
        },
        (Action::Read(side), Event::Read(o)) => {
            match read_count(o) {
                None => stop(Fault::ReadFailed(side)),
                Some(n) => {
                    if n > v.capacity {
                        stop(Fault::Overlong(side))
                    } else if side == Side::Input {
                        let w = RelayView { input_len: n, ..v };
                        go(w.with_pending(
                            if v.output_ready {
                                Action::Read(Side::Output)
                            } else {
                                first_write(w)
                            },
                        ))
                    } else {
                        let w = RelayView { output_len: n, ..v };
                        go(w.with_pending(first_write(w)))
                    }
                },
            }
        },
        (Action::Write { to, len }, Event::Wrote(o)) => {
            if o == WriteOutcome::Failed {
                stop(Fault::WriteFailed(to))
            } else if to == Side::Output {
                go(v.with_pending(second_write(v)))
            } else {
                go(v.with_pending(pass_start(v)))
            }
        },
        _ => stop(Fault::OutOfOrder),
    }
}

/// Whether any descriptor of a channel reports one of the `interest` events.
pub open spec fn spec_any_ready(revents: Seq<i16>, interest: i16) -> bool {
    exists|i: int| 0 <= i < revents.len() && #[trigger] revents[i] & interest != 0
}

/// Whether any of a channel's descriptors reports one of the `interest`
/// events, as `poll` left them in `revents`: the bitwise or of all of them,
/// masked with `interest`, is not zero.
pub fn any_ready(revents: &[i16], interest: i16) -> (r: bool)
    ensures
        r == spec_any_ready(revents@, interest),
{
    let mut i: usize = 0;
    while i < revents.len()
        invariant
            i <= revents@.len(),
            forall|j: int| 0 <= j < i ==> #[trigger] revents@[j] & interest == 0,
        decreases revents@.len() - i,
    {
        if revents[i] & interest != 0 {
            return true;
        }
        i = i + 1;
    }
    false
}


/// The event that a quiet relay reports for its pending action: no peer
/// waits to connect, no descriptor becomes ready before the wait ends.
pub open spec fn quiet(v: RelayView) -> Event {
    match v.pending {
        Action::Poll { .. } => Event::Polled { ret: 0, input_ready: false, output_ready: false },
        _ => Event::Accepted(AcceptOutcome::WouldBlock),
    }
}

/// The state after `k` quiet steps.
pub open spec fn idle_run(v: RelayView, k: nat) -> RelayView
    decreases k,
{
    if k == 0 {
        v
    } else {
        idle_run(next(v, quiet(v)).0, (k - 1) as nat)
    }
}

/// The number of actions in a pass that finds nothing to do: one accept per
/// server side and one poll.
pub open spec fn idle_pass_length(v: RelayView) -> nat {
    1 + (if v.input_server { 1nat } else { 0nat }) + (if v.output_server { 1nat } else { 0nat })
}

pub open spec fn is_idle_action(v: RelayView, a: Action) -> bool {
    ||| a == Action::Accept(Side::Input) && v.input_server
    ||| a == Action::Accept(Side::Output) && v.output_server
    ||| a == Action::Poll { timeout_ms: v.wait_ms }
}

proof fn lemma_idle_run_split(v: RelayView, a: nat, b: nat)
    ensures
        idle_run(v, a + b) == idle_run(idle_run(v, a), b),
    decreases a,
{
    if a > 0 {
        lemma_idle_run_split(next(v, quiet(v)).0, (a - 1) as nat, b);
        assert((a + b - 1) as nat == (a - 1) as nat + b);
    }
}

/// A pass in which nothing happens comes back to the state it started from,
/// and on the way it hands out one accept per server side and then one poll
/// that waits for the configured time; it never stops the relay.
pub proof fn lemma_idle_pass(v: RelayView)
    requires
        v.wf(),
        v.pending == pass_start(v),
    ensures
        idle_run(v, idle_pass_length(v)) == v,
        idle_run(v, (idle_pass_length(v) - 1) as nat).pending == (Action::Poll { timeout_ms: v.wait_ms }),
        forall|k: nat| k < idle_pass_length(v) ==> is_idle_action(v, (#[trigger] idle_run(v, k)).pending),
{
    reveal_with_fuel(idle_run, 4);
    let v1 = next(v, quiet(v)).0;
    let v2 = next(v1, quiet(v1)).0;
    assert forall|k: nat| k < idle_pass_length(v) implies is_idle_action(v, (#[trigger] idle_run(v, k)).pending) by {
        if k == 1 {
            assert(idle_run(v, 1) == idle_run(v1, 0));
        } else if k == 2 {
            assert(idle_run(v, 2) == idle_run(v2, 0));
        }
    }
}

/// With nothing to relay, the relay runs on for ever: after any number of
/// quiet steps it still waits to accept or to poll, with the configured
/// bound on the wait, and it has not stopped.
pub proof fn lemma_idle_forever(v: RelayView, k: nat)
    requires
        v.wf(),
        v.pending == pass_start(v),
    ensures
        is_idle_action(v, idle_run(v, k).pending),
        !(idle_run(v, k).pending is Abort),
        v.wait_ms > 0,
    decreases k,
{
    let n = idle_pass_length(v);
    lemma_idle_pass(v);
    if k >= n {
        lemma_idle_run_split(v, n, (k - n) as nat);
        assert(k == n + (k - n) as nat);
        lemma_idle_forever(v, (k - n) as nat);
    } else {
        assert(is_idle_action(v, idle_run(v, k).pending));
    }
}

/// A read that would block counts as a read of no bytes: the relay goes on
/// exactly as after an empty read, and does not stop.
pub proof fn lemma_would_block_reads_nothing(v: RelayView, side: Side)
    requires
        v.wf(),
        v.pending == Action::Read(side),
    ensures
        next(v, Event::Read(ReadOutcome::WouldBlock)) == next(v, Event::Read(ReadOutcome::Bytes(0))),
        !(next(v, Event::Read(ReadOutcome::WouldBlock)).1 is Abort),
{
}

/// A pass that reads `n` bytes from the input channel and `m` from the output
/// channel (each zero where that channel was not ready) reads the input
/// first, then writes exactly the `n` input bytes to the output channel, then
/// exactly the `m` output bytes to the input channel, skipping an empty
/// write, and then starts the next pass.
pub proof fn lemma_pass_forwards(
    v: RelayView,
    ret: i32,
    input_ready: bool,
    output_ready: bool,
    n: usize,
    m: usize,
)
    requires
        v.wf(),
        v.pending is Poll,
        ret > 0,
        input_ready || output_ready,
        n <= v.capacity,
        m <= v.capacity,
        !input_ready ==> n == 0,
        !output_ready ==> m == 0,
    ensures
        ({
            let (v1, a1) = next(v, Event::Polled { ret, input_ready, output_ready });
            let (v2, a2) = if input_ready { next(v1, Event::Read(ReadOutcome::Bytes(n))) } else { (v1, a1) };
            let (v3, a3) = if output_ready { next(v2, Event::Read(ReadOutcome::Bytes(m))) } else { (v2, a2) };
            let (v4, a4) = if n > 0 { next(v3, Event::Wrote(WriteOutcome::Done)) } else { (v3, a3) };
            &&& a1 == (if input_ready { Action::Read(Side::Input) } else { Action::Read(Side::Output) })
            &&& input_ready && output_ready ==> a2 == Action::Read(Side::Output)
            &&& a3 == (if n > 0 { Action::Write { to: Side::Output, len: n } } else { a4 })
            &&& a4 == (if m > 0 { Action::Write { to: Side::Input, len: m } } else { pass_start(v) })
            &&& m > 0 ==> next(v4, Event::Wrote(WriteOutcome::Done)).1 == pass_start(v)
        }),
{
}

impl Relay {
    /// A relay whose input and output channels are TCP servers as the flags
    /// say, which waits at most `wait_ms` milliseconds for readiness and
    /// reads into buffers of `capacity` bytes.
    pub fn new(input_server: bool, output_server: bool, wait_ms: i32, capacity: usize) -> (r: Relay)
        requires
            wait_ms > 0,
        ensures
            r@.wf(),
            r@.input_server == input_server,
            r@.output_server == output_server,
            r@.wait_ms == wait_ms,
            r@.capacity == capacity,
            r@.input_len == 0,
            r@.output_len == 0,
            r@.input_ready == false,
            r@.output_ready == false,
            r@.pending == pass_start(r@),
    {
        let pending = if input_server {
            Action::Accept(Side::Input)
        } else if output_server {
            Action::Accept(Side::Output)
        } else {
            Action::Poll { timeout_ms: wait_ms }
        };
        Relay {
            input_server,
            output_server,
            wait_ms,
            capacity,
            pending,
            input_ready: false,
            output_ready: false,
            input_len: 0,
            output_len: 0,
        }
    }

    /// The action handed out last, which the caller is to perform.
    pub fn pending(&self) -> (r: Action)
        ensures
            r == self@.pending,
    {
        self.pending
    }

    fn start_pass(&self) -> (r: Action)
        ensures
            r == pass_start(self@),
    {
        if self.input_server {
            Action::Accept(Side::Input)
        } else {
            self.accepted_from(Side::Input)
        }
    }

    fn accepted_from(&self, side: Side) -> (r: Action)
        ensures
            r == after_accept(self@, side),
    {
        if side == Side::Input && self.output_server {
            Action::Accept(Side::Output)
        } else {
            Action::Poll { timeout_ms: self.wait_ms }
        }
    }

    fn write_second(&self) -> (r: Action)
        ensures
            r == second_write(self@),
    {
        if self.output_len > 0 {
            Action::Write { to: Side::Input, len: self.output_len }
        } else {
            self.start_pass()
        }
    }

    fn write_first(&self) -> (r: Action)
        ensures
            r == first_write(self@),
    {
        if self.input_len > 0 {
            Action::Write { to: Side::Output, len: self.input_len }
        } else {
            self.write_second()
        }
    }

    /// Takes the outcome of the pending action and hands out the next one.
    pub fn step(&mut self, e: Event) -> (r: Action)
        requires
            old(self)@.wf(),
        ensures
            (final(self)@, r) == next(old(self)@, e),
            final(self)@.wf(),
    {
        let next_action = match (self.pending, e) {
            (Action::Abort(f), _) => Action::Abort(f),
            (Action::Accept(side), Event::Accepted(o)) => {
                if o == AcceptOutcome::Failed {
                    Action::Abort(Fault::AcceptFailed(side))
                } else {
                    self.accepted_from(side)
                }
            },
            (Action::Poll { .. }, Event::Polled { ret, input_ready, output_ready }) => {
                if ret < 0 {
                    Action::Abort(Fault::PollFailed)
                } else if ret == 0 {
                    self.start_pass()
                } else {
                    self.input_ready = input_ready;
                    self.output_ready = output_ready;
                    self.input_len = 0;
                    self.output_len = 0;
                    if input_ready {
                        Action::Read(Side::Input)
                    } else if output_ready {
                        Action::Read(Side::Output)
                    } else {
                        self.start_pass()
                    }
                }
            },
            (Action::Read(side), Event::Read(o)) => {
                match bytes_read(o) {
                    None => Action::Abort(Fault::ReadFailed(side)),
                    Some(n) => {
                        if n > self.capacity {
                            Action::Abort(Fault::Overlong(side))
                        } else if side == Side::Input {
                            self.input_len = n;
                            if self.output_ready {
                                Action::Read(Side::Output)
                            } else {
                                self.write_first()
                            }
                        } else {
                            self.output_len = n;
                            self.write_first()
                        }
                    },
                }
            },
            (Action::Write { to, len }, Event::Wrote(o)) => {
                if o == WriteOutcome::Failed {
                    Action::Abort(Fault::WriteFailed(to))
                } else if to == Side::Output {
                    self.write_second()
                } else {
                    self.start_pass()
                }
            },
            _ => Action::Abort(Fault::OutOfOrder),
        };
        self.pending = next_action;
        next_action
    }
}

} // verus!
