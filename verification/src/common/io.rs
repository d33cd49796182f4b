//! The bidirectional relay between two streams, as a state machine.
//!
//! The machine owns the two scratch buffers and decides what to do next; the
//! caller owns the streams, performs each action on them and hands back what
//! came of it.

use vstd::prelude::*;
use vstd::slice::slice_subrange;

verus! {

/// What a non-blocking operation on a stream came to.
pub enum Polled<T, E> {
    /// It completed with this value.
    Ready(T),
    /// It failed with this error.
    Failed(E),
    /// The stream is not ready; nothing happened.
    Pending,
}

/// Why a relay ended early.
pub enum CopyError<E> {
    /// A stream took zero bytes of a non-empty buffer.
    WriteZero,
    /// A stream reported this error.
    Io(E),
}

/// One of the two streams.
#[derive(Clone, Copy, Debug, PartialEq, Eq, Structural)]
pub enum Side {
    A,
    B,
}

/// The mathematical state of one direction of a relay.
pub struct Transfer {
    /// Length of the scratch buffer.
    pub buffer_size: nat,
    /// Bytes read from the source and not yet written to the sink.
    pub pending: Seq<u8>,
    /// Every byte read from the source so far.
    pub received: Seq<u8>,
    /// Every byte written to the sink so far.
    pub delivered: Seq<u8>,
    /// The source has reported its end.
    pub read_done: bool,
    /// The sink has been shut down.
    pub shutdown_done: bool,
}

impl Transfer {
    /// The sink has received exactly what the source gave, less what is still
    /// in the buffer; a direction is shut down only once all of it is through.
    pub open spec fn wf(self) -> bool {
        &&& self.received == self.delivered + self.pending
        &&& self.pending.len() <= self.buffer_size
        &&& self.shutdown_done ==> self.read_done && self.pending.len() == 0
    }

    pub open spec fn fresh(buffer_size: nat) -> Transfer {
        Transfer {
            buffer_size,
            pending: Seq::empty(),
            received: Seq::empty(),
            delivered: Seq::empty(),
            read_done: false,
            shutdown_done: false,
        }
    }

    /// Buffered bytes wait for the sink.
    pub open spec fn wants_write(self) -> bool {
        !self.shutdown_done && self.pending.len() > 0
    }

    /// The buffer is empty and the source may have more.
    pub open spec fn wants_read(self) -> bool {
        !self.shutdown_done && self.pending.len() == 0 && !self.read_done
    }

    /// The source has ended and everything is through: the sink is to be shut
    /// down.
    pub open spec fn wants_shutdown(self) -> bool {
        !self.shutdown_done && self.pending.len() == 0 && self.read_done
    }

    /// The byte count reported for this direction.
    pub open spec fn amount(self) -> u64 {
        if self.delivered.len() <= u64::MAX {
            self.delivered.len() as u64
        } else {
            u64::MAX
        }
    }

    /// After the sink took the first `n` buffered bytes.
    pub open spec fn wrote(self, n: nat) -> Transfer {
        Transfer {
            pending: self.pending.skip(n as int),
            delivered: self.delivered + self.pending.take(n as int),
            ..self
        }
    }

    /// After the source gave `data`; an empty read is the end of the source.
    pub open spec fn filled(self, data: Seq<u8>) -> Transfer {
        Transfer {
            pending: data,
            received: self.received + data,
            read_done: data.len() == 0,
            ..self
        }
    }

    /// After the sink was shut down.
    pub open spec fn shut(self) -> Transfer {
        Transfer { shutdown_done: true, ..self }
    }
}

/// One direction of a relay: a scratch buffer, the window of it that waits to
/// be written, and the byte count.
pub struct TransferState {
    buf: Vec<u8>,
    pos: usize,
    cap: usize,
    amt: u64,
    read_done: bool,
    shutdown_done: bool,
    received: Ghost<Seq<u8>>,
    delivered: Ghost<Seq<u8>>,
}

impl View for TransferState {
    type V = Transfer;

    closed spec fn view(&self) -> Transfer {
        Transfer {
            buffer_size: self.buf@.len(),
            pending: self.buf@.subrange(self.pos as int, self.cap as int),
            received: self.received@,
            delivered: self.delivered@,
            read_done: self.read_done,
            shutdown_done: self.shutdown_done,
        }
    }
}

impl TransferState {
    /// The window lies inside the buffer, the count is that of the bytes
    /// delivered, and the mathematical state is well formed.
    pub closed spec fn wf(&self) -> bool {
        &&& self.pos <= self.cap <= self.buf@.len()
        &&& self.amt == self@.amount()
        &&& self@.wf()
    }

    pub fn new(buffer_size: usize) -> (state: TransferState)
        ensures
            state.wf(),
            state@ == Transfer::fresh(buffer_size as nat),
    {
        let state = TransferState {
            buf: vec![0u8; buffer_size],
            pos: 0,
            cap: 0,
            amt: 0,
            read_done: false,
            shutdown_done: false,
            received: Ghost(Seq::empty()),
            delivered: Ghost(Seq::empty()),
        };
        assert(state@.pending =~= Seq::<u8>::empty());
        assert(state@.delivered + state@.pending =~= state@.received);
        state
    }

    /// Facts that every well-formed state offers.
    pub proof fn lemma_wf(&self)
        requires
            self.wf(),
        ensures
            self@.wf(),
    {
    }

    pub fn wants_write(&self) -> (wanted: bool)
        requires
            self.wf(),
        ensures
            wanted == self@.wants_write(),
    {
        !self.shutdown_done && self.pos < self.cap
    }

    pub fn wants_read(&self) -> (wanted: bool)
        requires
            self.wf(),
        ensures
            wanted == self@.wants_read(),
    {
        !self.shutdown_done && self.pos == self.cap && !self.read_done
    }

    pub fn wants_shutdown(&self) -> (wanted: bool)
        requires
            self.wf(),
        ensures
            wanted == self@.wants_shutdown(),
    {
        !self.shutdown_done && self.pos == self.cap && self.read_done
    }

    /// Whether the sink has been shut down.
    pub fn is_shutdown(&self) -> (done: bool)
        ensures
            done == self@.shutdown_done,
    {
        self.shutdown_done
    }

    /// Length of the scratch buffer: the most that one read may hand in.
    pub fn buffer_size(&self) -> (size: usize)
        ensures
            size == self@.buffer_size,
    {
        self.buf.len()
    }

    /// Bytes written to the sink so far, saturating.
    pub fn amount(&self) -> (amt: u64)
        requires
            self.wf(),
        ensures
            amt == self@.amount(),
    {
        self.amt
    }

    /// The bytes that wait to be written.
    pub fn pending(&self) -> (bytes: &[u8])
        requires
            self.wf(),
        ensures
            bytes@ == self@.pending,
    {
        slice_subrange(self.buf.as_slice(), self.pos, self.cap)
    }

    /// The sink took the first `n` of the pending bytes.
    pub fn on_write(&mut self, n: usize)
        requires
            old(self).wf(),
            0 < n <= old(self)@.pending.len(),
        ensures
            final(self).wf(),
            final(self)@ == old(self)@.wrote(n as nat),
    {
        proof {
            let p = self@.pending;
            assert(self.buf@.subrange(self.pos + n, self.cap as int) =~= p.skip(n as int));
            assert(self.delivered@ + p.take(n as int) + p.skip(n as int) =~= self.delivered@ + p);
        }
        self.delivered = Ghost(self.delivered@ + self@.pending.take(n as int));
        self.pos = self.pos + n;
        self.amt = self.amt.saturating_add(n as u64);
    }

    /// The source gave `data`; an empty `data` is its end.
    pub fn on_read(&mut self, data: &[u8])
        requires
            old(self).wf(),
            old(self)@.wants_read(),
            data@.len() <= old(self)@.buffer_size,
        ensures
            final(self).wf(),
            final(self)@ == old(self)@.filled(data@),
    {
        let n: usize = data.len();
        self.pos = 0;
        self.cap = 0;
        let mut i: usize = 0;
        while i < n
            invariant
                i <= n,
                n == data@.len(),
                n <= self.buf@.len(),
                self.buf@.len() == old(self).buf@.len(),
                self.pos == 0,
                self.cap == 0,
                self.amt == old(self).amt,
                self.read_done == old(self).read_done,
                self.shutdown_done == old(self).shutdown_done,
                self.received == old(self).received,
                self.delivered == old(self).delivered,
                forall|j: int| 0 <= j < i ==> self.buf@[j] == data@[j],
            decreases n - i,
        {
            self.buf.set(i, data[i]);
            i = i + 1;
        }
        proof {
            assert(old(self)@.pending =~= Seq::<u8>::empty());
            assert(old(self).received@ =~= old(self).delivered@);
            assert(self.buf@.subrange(0, n as int) =~= data@);
        }
        self.received = Ghost(self.received@ + data@);
        if n == 0 {
            self.read_done = true;
        } else {
            self.cap = n;
        }
    }

    /// The sink was shut down.
    pub fn on_shutdown(&mut self)
        requires
            old(self).wf(),
            old(self)@.wants_shutdown(),
        ensures
            final(self).wf(),
            final(self)@ == old(self)@.shut(),
    {
        self.shutdown_done = true;
    }
}

/// The steps of one pass over the two directions, in the order in which a
/// pass takes them.
#[derive(Clone, Copy, Debug, PartialEq, Eq, Structural)]
pub enum Step {
    /// Write what came from A to B.
    WriteB,
    /// Read from A.
    ReadA,
    /// Shut down B, since A has ended.
    ShutdownB,
    /// Write what came from B to A.
    WriteA,
    /// Read from B.
    ReadB,
    /// Shut down A, since B has ended.
    ShutdownA,
}

impl Step {
    /// Place of the step in a pass.
    pub open spec fn index(self) -> int {
        match self {
            Step::WriteB => 0,
            Step::ReadA => 1,
            Step::ShutdownB => 2,
            Step::WriteA => 3,
            Step::ReadB => 4,
            Step::ShutdownA => 5,
        }
    }

    /// The step at place `k` of a pass.
    pub open spec fn at(k: int) -> Step {
        if k == 0 {
            Step::WriteB
        } else if k == 1 {
            Step::ReadA
        } else if k == 2 {
            Step::ShutdownB
        } else if k == 3 {
            Step::WriteA
        } else if k == 4 {
            Step::ReadB
        } else {
            Step::ShutdownA
        }
    }

    /// What the caller is to do for this step.
    pub open spec fn action<E>(self) -> Action<E> {
        match self {
            Step::WriteB => Action::Write(Side::B),
            Step::ReadA => Action::Read(Side::A),
            Step::ShutdownB => Action::Shutdown(Side::B),
            Step::WriteA => Action::Write(Side::A),
            Step::ReadB => Action::Read(Side::B),
            Step::ShutdownA => Action::Shutdown(Side::A),
        }
    }
}

/// What the caller of the relay is to do next.
pub enum Action<E> {
    /// Write the bytes pending for this side to it, then report with
    /// `resume_write`.
    Write(Side),
    /// Read from this side, no more than the buffer size, then report with
    /// `resume_read`.
    Read(Side),
    /// Shut down the write half of this side, then report with
    /// `resume_shutdown`.
    Shutdown(Side),
    /// The poll is over: the relay is complete with the two byte counts (A to
    /// B, B to A), has failed, or waits for the streams.
    Return(Polled<(u64, u64), CopyError<E>>),
}

/// The mathematical state of a relay.
pub struct Relay {
    pub a_to_b: Transfer,
    pub b_to_a: Transfer,
    /// The step whose outcome the relay waits for, inside a poll.
    pub awaiting: Option<Step>,
    /// Whether anything has moved since the current pass began.
    pub progress: bool,
}

impl Relay {
    /// Both directions are well formed, and a step that the relay waits for
    /// had something to do.
    pub open spec fn wf(self) -> bool {
        &&& self.a_to_b.wf()
        &&& self.b_to_a.wf()
        &&& self.awaiting matches Some(step) ==> self.wanted(step.index())
    }

    pub open spec fn fresh(buffer_size: nat) -> Relay {
        Relay {
            a_to_b: Transfer::fresh(buffer_size),
            b_to_a: Transfer::fresh(buffer_size),
            awaiting: None,
            progress: false,
        }
    }

    /// Both directions are shut down.
    pub open spec fn complete(self) -> bool {
        self.a_to_b.shutdown_done && self.b_to_a.shutdown_done
    }

    /// Whether the step at place `k` has anything to do.
    pub open spec fn wanted(self, k: int) -> bool {
        if k == 0 {
            self.a_to_b.wants_write()
        } else if k == 1 {
            self.a_to_b.wants_read()
        } else if k == 2 {
            self.a_to_b.wants_shutdown()
        } else if k == 3 {
            self.b_to_a.wants_write()
        } else if k == 4 {
            self.b_to_a.wants_read()
        } else if k == 5 {
            self.b_to_a.wants_shutdown()
        } else {
            false
        }
    }

    /// The first place at or after `from` whose step has something to do; 6
    /// where there is none.
    pub open spec fn next_step(self, from: int) -> int {
        if from <= 0 && self.wanted(0) {
            0
        } else if from <= 1 && self.wanted(1) {
            1
        } else if from <= 2 && self.wanted(2) {
            2
        } else if from <= 3 && self.wanted(3) {
            3
        } else if from <= 4 && self.wanted(4) {
            4
        } else if from <= 5 && self.wanted(5) {
            5
        } else {
            6
        }
    }

    /// Goes on with the pass from place `from`: the next step that has
    /// something to do is handed out. At the end of a pass the relay returns
    /// the byte counts if both directions are shut down, waits if nothing has
    /// moved, and starts another pass otherwise.
    pub open spec fn settle<E>(self, from: int) -> (Relay, Action<E>) {
        let k = self.next_step(from);
        if k < 6 {
            (Relay { awaiting: Some(Step::at(k)), ..self }, Step::at(k).action())
        } else if self.complete() {
            (
                Relay { awaiting: None, ..self },
                Action::Return(Polled::Ready((self.a_to_b.amount(), self.b_to_a.amount()))),
            )
        } else if !self.progress {
            (Relay { awaiting: None, ..self }, Action::Return(Polled::Pending))
        } else {
            let k2 = self.next_step(0);
            (
                Relay { awaiting: Some(Step::at(k2)), progress: false, ..self },
                Step::at(k2).action(),
            )
        }
    }

    /// The start of a poll: a pass begins with nothing moved yet.
    pub open spec fn begin<E>(self) -> (Relay, Action<E>) {
        Relay { progress: false, ..self }.settle(0)
    }

    /// The direction that a step belongs to.
    pub open spec fn transfer(self, step: Step) -> Transfer {
        if step.index() < 3 {
            self.a_to_b
        } else {
            self.b_to_a
        }
    }

    /// This relay with the direction of `step` replaced, and marked as having
    /// moved.
    pub open spec fn moved(self, step: Step, t: Transfer) -> Relay {
        if step.index() < 3 {
            Relay { a_to_b: t, progress: true, ..self }
        } else {
            Relay { b_to_a: t, progress: true, ..self }
        }
    }

    /// With the poll ended by a failure.
    pub open spec fn failed<E>(self, error: CopyError<E>) -> (Relay, Action<E>) {
        (Relay { awaiting: None, ..self }, Action::Return(Polled::Failed(error)))
    }

    /// After the outcome of a write: bytes taken move on and the pass goes on;
    /// a stream that takes nothing of a non-empty buffer ends the relay.
    pub open spec fn after_write<E>(self, step: Step, res: Polled<usize, E>) -> (Relay, Action<E>) {
        match res {
            Polled::Ready(n) => if n == 0 {
                self.failed(CopyError::WriteZero)
            } else {
                self.moved(step, self.transfer(step).wrote(n as nat)).settle(step.index() + 1)
            },
            Polled::Failed(e) => self.failed(CopyError::Io(e)),
            Polled::Pending => self.settle(step.index() + 1),
        }
    }

    /// After the outcome of a read.
    pub open spec fn after_read<E>(self, step: Step, res: Polled<Seq<u8>, E>) -> (
        Relay,
        Action<E>,
    ) {
        match res {
            Polled::Ready(data) => self.moved(step, self.transfer(step).filled(data)).settle(
                step.index() + 1,
            ),
            Polled::Failed(e) => self.failed(CopyError::Io(e)),
            Polled::Pending => self.settle(step.index() + 1),
        }
    }

    /// After the outcome of a shutdown.
    pub open spec fn after_shutdown<E>(self, step: Step, res: Polled<(), E>) -> (
        Relay,
        Action<E>,
    ) {
        match res {
            Polled::Ready(_) => self.moved(step, self.transfer(step).shut()).settle(
                step.index() + 1,
            ),
            Polled::Failed(e) => self.failed(CopyError::Io(e)),
            Polled::Pending => self.settle(step.index() + 1),
        }
    }
}

/// Whatever was read in a direction is what was written, in order, with only
/// the buffered bytes outstanding; once a relay is complete, each side has been
/// given exactly the bytes that the other side sent.
pub proof fn lemma_relay_delivers_input(r: Relay)
    requires
        r.wf(),
    ensures
        r.a_to_b.delivered.is_prefix_of(r.a_to_b.received),
        r.b_to_a.delivered.is_prefix_of(r.b_to_a.received),
        r.complete() ==> r.a_to_b.delivered == r.a_to_b.received && r.b_to_a.delivered
            == r.b_to_a.received,
{
    assert(r.a_to_b.received.subrange(0, r.a_to_b.delivered.len() as int)
        =~= r.a_to_b.delivered);
    assert(r.b_to_a.received.subrange(0, r.b_to_a.delivered.len() as int)
        =~= r.b_to_a.delivered);
    if r.complete() {
        assert(r.a_to_b.delivered + r.a_to_b.pending =~= r.a_to_b.delivered);
        assert(r.b_to_a.delivered + r.b_to_a.pending =~= r.b_to_a.delivered);
    }
}

/// A relay returns its byte counts only when it is complete, and a relay that
/// is not complete always has a step to take: a poll that waits has tried
/// every step and found the streams not ready.
pub proof fn lemma_settle_returns<E>(r: Relay, from: int)
    requires
        r.a_to_b.wf(),
        r.b_to_a.wf(),
        0 <= from <= 6,
    ensures
        r.settle::<E>(from).0.wf(),
        r.settle::<E>(from).1 matches Action::Return(Polled::Ready(amounts)) ==> r.complete()
            && amounts == (r.a_to_b.amount(), r.b_to_a.amount()),
        !(r.settle::<E>(from).1 matches Action::Return(Polled::Failed(_))),
        !r.complete() ==> r.next_step(0) < 6,
        r.settle::<E>(from).0.awaiting matches Some(step) ==> r.wanted(step.index())
            && r.settle::<E>(from).1 == step.action::<E>(),
        r.settle::<E>(from).0.awaiting is None <==> r.settle::<E>(from).1 is Return,
{
}

/// A relay between two streams A and B.
pub struct CopyBidirectional {
    a_to_b: TransferState,
    b_to_a: TransferState,
    awaiting: Option<Step>,
    made_progress: bool,
}

impl View for CopyBidirectional {
    type V = Relay;

    closed spec fn view(&self) -> Relay {
        Relay {
            a_to_b: self.a_to_b@,
            b_to_a: self.b_to_a@,
            awaiting: self.awaiting,
            progress: self.made_progress,
        }
    }
}

/// A relay between two streams, with a scratch buffer of `buffer_size` bytes
/// for each direction.
pub fn copy_bidirectional_with_buffer(buffer_size: usize) -> (relay: CopyBidirectional)
    ensures
        relay.wf(),
        relay@ == Relay::fresh(buffer_size as nat),
{
    CopyBidirectional {
        a_to_b: TransferState::new(buffer_size),
        b_to_a: TransferState::new(buffer_size),
        awaiting: None,
        made_progress: false,
    }
}

impl CopyBidirectional {
    pub closed spec fn wf(&self) -> bool {
        self.parts_wf() && self@.wf()
    }

    spec fn parts_wf(&self) -> bool {
        self.a_to_b.wf() && self.b_to_a.wf()
    }

    /// Facts that every well-formed relay offers.
    pub proof fn lemma_wf(&self)
        requires
            self.wf(),
        ensures
            self@.wf(),
    {
    }

    /// The state of the direction from A to B.
    pub fn a_to_b(&self) -> (state: &TransferState)
        requires
            self.wf(),
        ensures
            state.wf(),
            state@ == self@.a_to_b,
    {
        &self.a_to_b
    }

    /// The state of the direction from B to A.
    pub fn b_to_a(&self) -> (state: &TransferState)
        requires
            self.wf(),
        ensures
            state.wf(),
            state@ == self@.b_to_a,
    {
        &self.b_to_a
    }

    /// The step whose outcome the relay waits for, if a poll is under way.
    pub fn awaiting(&self) -> (step: Option<Step>)
        ensures
            step == self@.awaiting,
    {
        self.awaiting
    }

    /// The bytes to write to `side`: what came from the other side and has not
    /// been written yet.
    pub fn pending_for(&self, side: Side) -> (bytes: &[u8])
        requires
            self.wf(),
        ensures
            bytes@ == match side {
                Side::B => self@.a_to_b.pending,
                Side::A => self@.b_to_a.pending,
            },
    {
        match side {
            Side::B => self.a_to_b.pending(),
            Side::A => self.b_to_a.pending(),
        }
    }

    fn next_step(&self, from: u8) -> (k: u8)
        requires
            self.parts_wf(),
        ensures
            k == self@.next_step(from as int),
            k <= 6,
    {
        if from <= 0 && self.a_to_b.wants_write() {
            0
        } else if from <= 1 && self.a_to_b.wants_read() {
            1
        } else if from <= 2 && self.a_to_b.wants_shutdown() {
            2
        } else if from <= 3 && self.b_to_a.wants_write() {
            3
        } else if from <= 4 && self.b_to_a.wants_read() {
            4
        } else if from <= 5 && self.b_to_a.wants_shutdown() {
            5
        } else {
            6
        }
    }

    fn step_at(k: u8) -> (step: Step)
        ensures
            step == Step::at(k as int),
    {
        if k == 0 {
            Step::WriteB
        } else if k == 1 {
            Step::ReadA
        } else if k == 2 {
            Step::ShutdownB
        } else if k == 3 {
            Step::WriteA
        } else if k == 4 {
            Step::ReadB
        } else {
            Step::ShutdownA
        }
    }

    fn index_of(step: Step) -> (k: u8)
        ensures
            k == step.index(),
    {
        match step {
            Step::WriteB => 0,
            Step::ReadA => 1,
            Step::ShutdownB => 2,
            Step::WriteA => 3,
            Step::ReadB => 4,
            Step::ShutdownA => 5,
        }
    }

    fn action_of<E>(step: Step) -> (action: Action<E>)
        ensures
            action == step.action::<E>(),
    {
        match step {
            Step::WriteB => Action::Write(Side::B),
            Step::ReadA => Action::Read(Side::A),
            Step::ShutdownB => Action::Shutdown(Side::B),
            Step::WriteA => Action::Write(Side::A),
            Step::ReadB => Action::Read(Side::B),
            Step::ShutdownA => Action::Shutdown(Side::A),
        }
    }

    fn settle<E>(&mut self, from: u8) -> (action: Action<E>)
        requires
            old(self).parts_wf(),
            from <= 6,
        ensures
            final(self).wf(),
            (final(self)@, action) == old(self)@.settle::<E>(from as int),
    {
        let k: u8 = self.next_step(from);
        if k < 6 {
            let step = Self::step_at(k);
            self.awaiting = Some(step);
            Self::action_of(step)
        } else if self.a_to_b.is_shutdown() && self.b_to_a.is_shutdown() {
            self.awaiting = None;
            Action::Return(Polled::Ready((self.a_to_b.amount(), self.b_to_a.amount())))
        } else if !self.made_progress {
            self.awaiting = None;
            Action::Return(Polled::Pending)
        } else {
            let k2: u8 = self.next_step(0);
            let step = Self::step_at(k2);
            self.awaiting = Some(step);
            self.made_progress = false;
            Self::action_of(step)
        }
    }

    /// Begins a poll and says what to do first.
    pub fn poll<E>(&mut self) -> (action: Action<E>)
        requires
            old(self).wf(),
        ensures
            final(self).wf(),
            (final(self)@, action) == old(self)@.begin::<E>(),
    {
        self.made_progress = false;
        self.settle(0)
    }

    /// Takes the outcome of the write that the relay asked for, and says what
    /// to do next. A stream cannot take more than it was offered.
    pub fn resume_write<E>(&mut self, res: Polled<usize, E>) -> (action: Action<E>)
        requires
            old(self).wf(),
            old(self)@.awaiting matches Some(step) && (step == Step::WriteB || step == Step::WriteA)
                && (res matches Polled::Ready(n) ==> n <= old(self)@.transfer(step).pending.len()),
        ensures
            final(self).wf(),
            (final(self)@, action) == old(self)@.after_write(old(self)@.awaiting->0, res),
    {
        let step = match self.awaiting {
            Some(step) => step,
            None => Step::WriteB,
        };
        let next: u8 = Self::index_of(step) + 1;
        match res {
            Polled::Ready(n) => {
                if n == 0 {
                    self.awaiting = None;
                    Action::Return(Polled::Failed(CopyError::WriteZero))
                } else {
                    match step {
                        Step::WriteB => self.a_to_b.on_write(n),
                        _ => self.b_to_a.on_write(n),
                    }
                    self.made_progress = true;
                    self.settle(next)
                }
            },
            Polled::Failed(e) => {
                self.awaiting = None;
                Action::Return(Polled::Failed(CopyError::Io(e)))
            },
            Polled::Pending => self.settle(next),
        }
    }

    /// Takes the outcome of the read that the relay asked for, and says what to
    /// do next. A read hands in no more than the buffer size.
    pub fn resume_read<E>(&mut self, res: Polled<&[u8], E>) -> (action: Action<E>)
        requires
            old(self).wf(),
            old(self)@.awaiting matches Some(step) && (step == Step::ReadA || step == Step::ReadB)
                && (res matches Polled::Ready(data) ==> data@.len() <= old(self)@.transfer(
                step,
            ).buffer_size),
        ensures
            final(self).wf(),
            (final(self)@, action) == old(self)@.after_read(
                old(self)@.awaiting->0,
                match res {
                    Polled::Ready(data) => Polled::Ready(data@),
                    Polled::Failed(e) => Polled::Failed(e),
                    Polled::Pending => Polled::Pending,
                },
            ),
    {
        let step = match self.awaiting {
            Some(step) => step,
            None => Step::ReadA,
        };
        let next: u8 = Self::index_of(step) + 1;
        match res {
            Polled::Ready(data) => {
                match step {
                    Step::ReadA => self.a_to_b.on_read(data),
                    _ => self.b_to_a.on_read(data),
                }
                self.made_progress = true;
                self.settle(next)
            },
            Polled::Failed(e) => {
                self.awaiting = None;
                Action::Return(Polled::Failed(CopyError::Io(e)))
            },
            Polled::Pending => self.settle(next),
        }
    }

    /// Takes the outcome of the shutdown that the relay asked for, and says
    /// what to do next.
    pub fn resume_shutdown<E>(&mut self, res: Polled<(), E>) -> (action: Action<E>)
        requires
            old(self).wf(),
            old(self)@.awaiting matches Some(step) && (step == Step::ShutdownB || step
                == Step::ShutdownA),
        ensures
            final(self).wf(),
            (final(self)@, action) == old(self)@.after_shutdown(old(self)@.awaiting->0, res),
    {
        let step = match self.awaiting {
            Some(step) => step,
            None => Step::ShutdownB,
        };
        let next: u8 = Self::index_of(step) + 1;
        match res {
            Polled::Ready(_) => {
                match step {
                    Step::ShutdownB => self.a_to_b.on_shutdown(),
                    _ => self.b_to_a.on_shutdown(),
                }
                self.made_progress = true;
                self.settle(next)
            },
            Polled::Failed(e) => {
                self.awaiting = None;
                Action::Return(Polled::Failed(CopyError::Io(e)))
            },
            Polled::Pending => self.settle(next),
        }
    }
}

} // verus!
