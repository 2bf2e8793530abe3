//! The state of one session as the call surface sees it: output that has
//! arrived but not yet been handed out, whether the end of the output has been
//! seen, whether the child has exited, whether reading has finished, its pid
//! and exit code, and the bytes handed on to its input.
//!
//! Reading is a poll. Output is handed out in the order it arrived, at most
//! `cap` bytes at a time, and what does not fit waits for the next call.
//! While bytes wait, the caller need not drain the session's workers: `poll`
//! hands out the waiting bytes first and queues any messages it is given
//! behind them. Once the end of the output has been seen, or the child has
//! been killed, and nothing is left to hand out, `poll` answers `Settle`: the
//! caller waits the settle window, drains once more and calls `settle`, which
//! hands out what came late or else finishes reading. A kill does not cut
//! reading short: output that arrived before the end is still handed out.

use vstd::prelude::*;
use crate::{CHILD_EXITED, ERROR, SUCCESS};

verus! {

/// A message from a session's workers: a chunk of output, or the end of it.
pub enum Msg {
    Data(Vec<u8>),
    End,
}

/// The output carried by the messages, in order; ends carry none.
pub open spec fn data_of(msgs: Seq<Msg>) -> Seq<u8>
    decreases msgs.len(),
{
    if msgs.len() == 0 {
        Seq::empty()
    } else {
        data_of(msgs.drop_last()) + match msgs.last() {
            Msg::Data(d) => d@,
            Msg::End => Seq::empty(),
        }
    }
}

/// Some message is an end.
pub open spec fn has_end(msgs: Seq<Msg>) -> bool {
    exists|i: int| 0 <= i < msgs.len() && #[trigger] msgs[i] is End
}

/// The part of `p` that a read of capacity `cap` hands out.
pub open spec fn chunk(p: Seq<u8>, cap: nat) -> Seq<u8> {
    if p.len() <= cap {
        p
    } else {
        p.take(cap as int)
    }
}

/// The part of `p` that a read of capacity `cap` leaves for later.
pub open spec fn rest(p: Seq<u8>, cap: nat) -> Seq<u8> {
    if p.len() <= cap {
        Seq::empty()
    } else {
        p.skip(cap as int)
    }
}

/// The answer of a poll.
pub enum Poll {
    /// Output to hand to the caller, possibly none.
    Bytes(Vec<u8>),
    /// Nothing is pending and no more output is expected: wait, drain, then `settle`.
    Settle,
    /// Reading has finished: all output has been handed out.
    Exited,
}

pub enum PollView {
    Bytes(Seq<u8>),
    Settle,
    Exited,
}

impl View for Poll {
    type V = PollView;

    open spec fn view(&self) -> PollView {
        match self {
            Poll::Bytes(b) => PollView::Bytes(b@),
            Poll::Settle => PollView::Settle,
            Poll::Exited => PollView::Exited,
        }
    }
}

/// The answer of a write.
pub enum WriteStep {
    /// The bytes to send to the child's input, exactly as submitted.
    Submit(Vec<u8>),
    /// The session has exited: nothing is to be sent.
    Exited,
}

pub struct Session {
    pending: Vec<u8>,
    end_seen: bool,
    exited: bool,
    finished: bool,
    exit_code: i32,
    pid: i32,
    settle_window_ms: u64,
    received: Ghost<Seq<u8>>,
    delivered: Ghost<Seq<u8>>,
    input: Ghost<Seq<u8>>,
}

/// The mathematical value of a session. `received` is all output that has
/// arrived, `delivered` all output handed out, and `input` all bytes sent to
/// the child's input, each in order. `exited` is set by a kill or when
/// reading finishes; `finished` only when reading finishes.
pub struct SessionView {
    pub pending: Seq<u8>,
    pub end_seen: bool,
    pub exited: bool,
    pub finished: bool,
    pub exit_code: i32,
    pub pid: i32,
    pub settle_window_ms: u64,
    pub received: Seq<u8>,
    pub delivered: Seq<u8>,
    pub input: Seq<u8>,
}

impl View for Session {
    type V = SessionView;

    closed spec fn view(&self) -> SessionView {
        SessionView {
            pending: self.pending@,
            end_seen: self.end_seen,
            exited: self.exited,
            finished: self.finished,
            exit_code: self.exit_code,
            pid: self.pid,
            settle_window_ms: self.settle_window_ms,
            received: self.received@,
            delivered: self.delivered@,
            input: self.input@,
        }
    }
}

/// Well formed: what arrived is what was handed out followed by what waits,
/// and a session whose reading has finished has exited.
pub open spec fn session_wf(s: SessionView) -> bool {
    &&& s.received == s.delivered + s.pending
    &&& s.finished ==> s.exited
}

/// The session after taking in `msgs`: their output waits behind what
/// already waits.
pub open spec fn absorb(s: SessionView, msgs: Seq<Msg>) -> SessionView {
    SessionView {
        pending: s.pending + data_of(msgs),
        end_seen: s.end_seen || has_end(msgs),
        received: s.received + data_of(msgs),
        ..s
    }
}

/// The session after handing out one read of capacity `cap`.
pub open spec fn hand_out(s: SessionView, cap: nat) -> SessionView {
    SessionView {
        pending: rest(s.pending, cap),
        delivered: s.delivered + chunk(s.pending, cap),
        ..s
    }
}

/// A poll of capacity `cap` given the messages `msgs`: the next state and the
/// answer. Waiting bytes go out first and the messages queue behind them;
/// with none waiting, the messages' output goes out; with no output at all,
/// the answer is `Settle` once the end was seen or the child was killed.
pub open spec fn poll_next(s: SessionView, cap: nat, msgs: Seq<Msg>) -> (SessionView, PollView) {
    if s.finished {
        (s, PollView::Exited)
    } else if s.pending.len() > 0 {
        (absorb(hand_out(s, cap), msgs), PollView::Bytes(chunk(s.pending, cap)))
    } else {
        let a = absorb(s, msgs);
        if a.pending.len() > 0 {
            (hand_out(a, cap), PollView::Bytes(chunk(a.pending, cap)))
        } else if a.end_seen || a.exited {
            (a, PollView::Settle)
        } else {
            (a, PollView::Bytes(Seq::empty()))
        }
    }
}

/// The drain after the wait that `Settle` asks for: late output is handed out,
/// ends are dropped, and with nothing left reading finishes and the session
/// has exited.
pub open spec fn settle_next(s: SessionView, cap: nat, msgs: Seq<Msg>) -> (SessionView, PollView) {
    if s.finished {
        (s, PollView::Exited)
    } else {
        let a = absorb(s, msgs);
        if a.pending.len() > 0 {
            (hand_out(a, cap), PollView::Bytes(chunk(a.pending, cap)))
        } else {
            (SessionView { exited: true, finished: true, ..a }, PollView::Exited)
        }
    }
}

/// A write of `w` whose send, if one is made, succeeds when `sent`: the next
/// state and the status code. Only bytes that were sent join the input.
pub open spec fn write_next(s: SessionView, w: Seq<u8>, sent: bool) -> (SessionView, i32) {
    if s.exited {
        (s, CHILD_EXITED)
    } else if sent {
        (SessionView { input: s.input + w, ..s }, SUCCESS)
    } else {
        (s, ERROR)
    }
}

/// A kill whose signal, if one is sent, succeeds when `signal_ok`: the next
/// state and the status code. An exited session needs no signal.
pub open spec fn kill_next(s: SessionView, signal_ok: bool) -> (SessionView, i32) {
    if s.exited {
        (s, SUCCESS)
    } else if signal_ok {
        (SessionView { exited: true, ..s }, SUCCESS)
    } else {
        (s, ERROR)
    }
}

/// The code of an operation that needs a live child: `SUCCESS` while it
/// runs, `CHILD_EXITED` after.
pub open spec fn live_code(s: SessionView) -> i32 {
    if s.exited {
        CHILD_EXITED
    } else {
        SUCCESS
    }
}

/// Appends the output that `msgs` carry to `out`.
fn collect_data(msgs: &Vec<Msg>, out: &mut Vec<u8>)
    ensures
        final(out)@ == old(out)@ + data_of(msgs@),
{
    let ghost start = out@;
    let mut i: usize = 0;
    while i < msgs.len()
        invariant
            i <= msgs.len(),
            out@ == start + data_of(msgs@.take(i as int)),
        decreases msgs.len() - i,
    {
        let ghost before = out@;
        match &msgs[i] {
            Msg::Data(d) => {
                let mut j: usize = 0;
                while j < d.len()
                    invariant
                        j <= d.len(),
                        out@ == before + d@.take(j as int),
                    decreases d.len() - j,
                {
                    out.push(d[j]);
                    assert(d@.take(j as int + 1) =~= d@.take(j as int).push(d@[j as int]));
                    assert(out@ =~= before + d@.take(j as int + 1));
                    j = j + 1;
                }
                assert(d@.take(d.len() as int) =~= d@);
            },
            Msg::End => {},
        }
        assert(msgs@.take(i as int + 1).drop_last() =~= msgs@.take(i as int));
        assert(out@ =~= start + data_of(msgs@.take(i as int + 1)));
        i = i + 1;
    }
    assert(msgs@.take(msgs.len() as int) =~= msgs@);
}

/// Whether some message is an end.
fn any_end(msgs: &Vec<Msg>) -> (r: bool)
    ensures
        r == has_end(msgs@),
{
    let mut i: usize = 0;
    while i < msgs.len()
        invariant
            i <= msgs.len(),
            forall|j: int| 0 <= j < i ==> !(#[trigger] msgs@[j] is End),
        decreases msgs.len() - i,
    {
        if let Msg::End = &msgs[i] {
            return true;
        }
        i = i + 1;
    }
    false
}

impl Session {
    /// A new session for the child `pid`, with no output yet, the exit code
    /// not yet known (-1), and a settle window of `settle_window_ms`.
    pub fn new(pid: i32, settle_window_ms: u64) -> (r: Session)
        ensures
            session_wf(r@),
            r@.pending == Seq::<u8>::empty(),
            r@.received == Seq::<u8>::empty(),
            r@.delivered == Seq::<u8>::empty(),
            r@.input == Seq::<u8>::empty(),
            !r@.end_seen,
            !r@.exited,
            !r@.finished,
            r@.exit_code == -1,
            r@.pid == pid,
            r@.settle_window_ms == settle_window_ms,
    {
        Session {
            pending: Vec::new(),
            end_seen: false,
            exited: false,
            finished: false,
            exit_code: -1,
            pid,
            settle_window_ms,
            received: Ghost(Seq::empty()),
            delivered: Ghost(Seq::empty()),
            input: Ghost(Seq::empty()),
        }
    }

    pub fn pid(&self) -> (r: i32)
        ensures
            r == self@.pid,
    {
        self.pid
    }

    /// The last exit code that the waiter recorded, or -1 before it has.
    pub fn exit_code(&self) -> (r: i32)
        ensures
            r == self@.exit_code,
    {
        self.exit_code
    }

    pub fn is_exited(&self) -> (r: bool)
        ensures
            r == self@.exited,
    {
        self.exited
    }

    /// Whether reading has finished: every read from now on answers `Exited`.
    pub fn is_finished(&self) -> (r: bool)
        ensures
            r == self@.finished,
    {
        self.finished
    }

    /// Whether output waits to be handed out; while it does, a poll needs no
    /// new messages.
    pub fn has_pending(&self) -> (r: bool)
        ensures
            r == (self@.pending.len() > 0),
    {
        self.pending.len() > 0
    }

    /// How long, in milliseconds, to wait after `Settle` before draining again.
    pub fn settle_window_ms(&self) -> (r: u64)
        ensures
            r == self@.settle_window_ms,
    {
        self.settle_window_ms
    }

    /// Records the child's exit code.
    pub fn record_exit_code(&mut self, code: i32)
        ensures
            final(self)@ == (SessionView { exit_code: code, ..old(self)@ }),
    {
        self.exit_code = code;
    }

    /// Hands out the first `cap` bytes of the pending output, or all of it.
    fn take_chunk(&mut self, cap: usize) -> (r: Vec<u8>)
        requires
            session_wf(old(self)@),
            cap > 0,
        ensures
            final(self)@ == hand_out(old(self)@, cap as nat),
            r@ == chunk(old(self)@.pending, cap as nat),
            session_wf(final(self)@),
    {
        let n: usize = if self.pending.len() <= cap { self.pending.len() } else { cap };
        let mut out = self.pending.split_off(n);
        std::mem::swap(&mut self.pending, &mut out);
        proof {
            let p = old(self)@.pending;
            self.delivered = Ghost(self.delivered@ + out@);
            if p.len() <= cap {
                assert(out@ =~= p);
                assert(self.pending@ =~= Seq::<u8>::empty());
            } else {
                assert(out@ =~= p.take(cap as int));
                assert(self.pending@ =~= p.skip(cap as int));
            }
            assert(p =~= out@ + self.pending@);
            assert(self.received@ =~= self.delivered@ + self.pending@);
        }
        out
    }

    /// Takes in the drained messages.
    fn absorb(&mut self, msgs: &Vec<Msg>)
        requires
            session_wf(old(self)@),
        ensures
            final(self)@ == absorb(old(self)@, msgs@),
            session_wf(final(self)@),
    {
        let seen = any_end(msgs);
        collect_data(msgs, &mut self.pending);
        self.end_seen = self.end_seen || seen;
        proof {
            self.received = Ghost(self.received@ + data_of(msgs@));
            assert(self.received@ =~= self.delivered@ + self.pending@);
            assert(self@ == absorb(old(self)@, msgs@));
        }
    }

    /// One poll of capacity `cap`, given the messages drained since the last
    /// one (none need be drained while `has_pending`).
    pub fn poll(&mut self, cap: usize, msgs: Vec<Msg>) -> (r: Poll)
        requires
            session_wf(old(self)@),
            cap > 0,
        ensures
            session_wf(final(self)@),
            (final(self)@, r@) == poll_next(old(self)@, cap as nat, msgs@),
    {
        if self.finished {
            return Poll::Exited;
        }
        if self.pending.len() > 0 {
            let out = self.take_chunk(cap);
            self.absorb(&msgs);
            return Poll::Bytes(out);
        }
        self.absorb(&msgs);
        if self.pending.len() > 0 {
            let out = self.take_chunk(cap);
            Poll::Bytes(out)
        } else if self.end_seen || self.exited {
            Poll::Settle
        } else {
            Poll::Bytes(Vec::new())
        }
    }

    /// The poll's second half after `Settle`, on the messages drained after
    /// the wait.
    pub fn settle(&mut self, cap: usize, msgs: Vec<Msg>) -> (r: Poll)
        requires
            session_wf(old(self)@),
            cap > 0,
        ensures
            session_wf(final(self)@),
            (final(self)@, r@) == settle_next(old(self)@, cap as nat, msgs@),
    {
        if self.finished {
            return Poll::Exited;
        }
        self.absorb(&msgs);
        if self.pending.len() > 0 {
            let out = self.take_chunk(cap);
            Poll::Bytes(out)
        } else {
            self.exited = true;
            self.finished = true;
            Poll::Exited
        }
    }

    /// The first half of a write of `data`: what to send to the child's
    /// input while it runs, nothing after. The state changes only once the
    /// send is known, in `finish_write`.
    pub fn write(&self, data: Vec<u8>) -> (r: WriteStep)
        ensures
            !self@.exited ==> (r matches WriteStep::Submit(b) && b@ == data@),
            self@.exited ==> r is Exited,
    {
        if self.exited {
            WriteStep::Exited
        } else {
            WriteStep::Submit(data)
        }
    }

    /// The end of a write: `step` is what `write` answered in this state, and
    /// `sent` whether its bytes reached the writer. The bytes join the input
    /// only when they did; the result is the write's status code.
    pub fn finish_write(&mut self, step: WriteStep, sent: bool) -> (r: i32)
        requires
            session_wf(old(self)@),
            step is Submit <==> !old(self)@.exited,
        ensures
            session_wf(final(self)@),
            step is Exited ==> final(self)@ == old(self)@ && r == CHILD_EXITED,
            step matches WriteStep::Submit(b) ==> (final(self)@, r) == write_next(old(self)@, b@, sent),
    {
        match step {
            WriteStep::Exited => CHILD_EXITED,
            WriteStep::Submit(b) => {
                if sent {
                    proof {
                        self.input = Ghost(self.input@ + b@);
                    }
                    SUCCESS
                } else {
                    ERROR
                }
            },
        }
    }

    /// Whether a kill must signal the child: not once it has exited.
    pub fn needs_signal(&self) -> (r: bool)
        ensures
            r == !self@.exited,
    {
        !self.exited
    }

    /// The end of a kill: records the outcome of the signal, if one was
    /// sent, and gives the status code. Output that waits stays readable.
    pub fn record_kill(&mut self, signal_ok: bool) -> (r: i32)
        requires
            session_wf(old(self)@),
        ensures
            session_wf(final(self)@),
            (final(self)@, r) == kill_next(old(self)@, signal_ok),
    {
        if self.exited {
            SUCCESS
        } else if signal_ok {
            self.exited = true;
            SUCCESS
        } else {
            ERROR
        }
    }

    /// The status of an operation that needs a live child (a resize).
    pub fn live_status(&self) -> (r: i32)
        ensures
            r == live_code(self@),
    {
        if self.exited {
            CHILD_EXITED
        } else {
            SUCCESS
        }
    }
}

/// All of `ws`, one after another.
pub open spec fn concat_all(ws: Seq<Seq<u8>>) -> Seq<u8>
    decreases ws.len(),
{
    if ws.len() == 0 {
        Seq::empty()
    } else {
        ws[0] + concat_all(ws.skip(1))
    }
}

/// The session after the writes `ws`, in order, each of them sent.
pub open spec fn writes_next(s: SessionView, ws: Seq<Seq<u8>>) -> SessionView
    decreases ws.len(),
{
    if ws.len() == 0 {
        s
    } else {
        writes_next(write_next(s, ws[0], true).0, ws.skip(1))
    }
}

/// The pieces that polls of capacity `k` hand out while no new message
/// arrives, until nothing is pending.
pub open spec fn quiet_reads(s: SessionView, k: nat) -> Seq<Seq<u8>>
    decreases s.pending.len(),
{
    if s.finished || s.pending.len() == 0 || k == 0 {
        Seq::empty()
    } else {
        let (t, r) = poll_next(s, k, Seq::empty());
        if t.pending.len() < s.pending.len() {
            match r {
                PollView::Bytes(b) => seq![b] + quiet_reads(t, k),
                _ => Seq::empty(),
            }
        } else {
            Seq::empty()
        }
    }
}

/// The session after the polls of `quiet_reads`.
pub open spec fn quiet_after(s: SessionView, k: nat) -> SessionView
    decreases s.pending.len(),
{
    if s.finished || s.pending.len() == 0 || k == 0 {
        s
    } else {
        let (t, r) = poll_next(s, k, Seq::empty());
        if t.pending.len() < s.pending.len() {
            quiet_after(t, k)
        } else {
            s
        }
    }
}

/// Writes that were sent while the child runs reach its input whole and in
/// order: the input is that of the writes, one after another.
pub proof fn lemma_writes_in_order(s: SessionView, ws: Seq<Seq<u8>>)
    requires
        !s.exited,
    ensures
        writes_next(s, ws).input == s.input + concat_all(ws),
        !writes_next(s, ws).exited,
    decreases ws.len(),
{
    if ws.len() > 0 {
        let t = write_next(s, ws[0], true).0;
        lemma_writes_in_order(t, ws.skip(1));
        assert(s.input + concat_all(ws) =~= (s.input + ws[0]) + concat_all(ws.skip(1)));
    }
}

proof fn lemma_absorb_nothing(s: SessionView)
    ensures
        absorb(s, Seq::empty()) == s,
{
    assert(data_of(Seq::<Msg>::empty()) == Seq::<u8>::empty());
    assert(!has_end(Seq::<Msg>::empty()));
    assert(s.pending + Seq::<u8>::empty() =~= s.pending);
    assert(s.received + Seq::<u8>::empty() =~= s.received);
}

proof fn lemma_quiet_reads(s: SessionView, k: nat)
    requires
        !s.finished,
        k > 0,
    ensures
        ({
            let q = quiet_reads(s, k);
            let m = q.len();
            &&& concat_all(q) == s.pending
            &&& m == (s.pending.len() + k - 1) / (k as int)
            &&& forall|i: int| 0 <= i < m - 1 ==> (#[trigger] q[i]).len() == k
            &&& m > 0 ==> 0 < q[m - 1].len() <= k
            &&& quiet_after(s, k).pending.len() == 0
            &&& quiet_after(s, k).delivered == s.delivered + s.pending
        }),
    decreases s.pending.len(),
{
    let p = s.pending;
    let n = p.len() as int;
    let kk = k as int;
    if n == 0 {
        assert((n + kk - 1) / kk == 0) by (nonlinear_arith)
            requires n == 0, kk > 0;
        assert(s.delivered + p =~= s.delivered);
    } else {
        let t = hand_out(s, k);
        lemma_absorb_nothing(t);
        assert(poll_next(s, k, Seq::empty()) == (t, PollView::Bytes(chunk(p, k))));
        if n <= kk {
            assert(t.pending.len() == 0);
            assert(quiet_reads(t, k) == Seq::<Seq<u8>>::empty());
            assert(quiet_reads(s, k) =~= seq![p]);
            assert(concat_all(seq![p].skip(1)) == Seq::<u8>::empty()) by {
                assert(seq![p].skip(1) =~= Seq::<Seq<u8>>::empty());
            }
            assert(concat_all(seq![p]) =~= p);
            assert((n + kk - 1) / kk == 1) by (nonlinear_arith)
                requires 0 < n <= kk;
            assert(quiet_after(t, k) == t);
            assert(quiet_after(s, k) == t);
        } else {
            assert(t.pending =~= p.skip(kk));
            lemma_quiet_reads(t, k);
            let q = quiet_reads(t, k);
            let m = q.len() as int;
            assert(quiet_reads(s, k) == seq![p.take(kk)] + q);
            assert((seq![p.take(kk)] + q).skip(1) =~= q);
            assert(p =~= p.take(kk) + p.skip(kk));
            assert((n - kk + kk - 1) / kk + 1 == (n + kk - 1) / kk) by (nonlinear_arith)
                requires n > kk, kk > 0;
            assert((n - kk + kk - 1) / kk >= 1) by (nonlinear_arith)
                requires n > kk, kk > 0;
            let qs = quiet_reads(s, k);
            assert forall|i: int| 0 <= i < qs.len() - 1 implies (#[trigger] qs[i]).len() == k by {
                if i > 0 {
                    assert(qs[i] == q[i - 1]);
                }
            }
            assert(qs[qs.len() - 1] == q[m - 1]);
            assert(s.delivered + p =~= t.delivered + t.pending);
        }
    }
}

/// Reading a chunk of output with a capacity `k` smaller than it: the first
/// poll and the polls after it, while nothing else arrives, hand out the
/// chunk in as many pieces as `k` goes into it rounded up, each of `k` bytes
/// but the last, which has between 1 and `k`. The pieces join back into
/// exactly the chunk, and nothing is left pending.
pub proof fn lemma_reads_round_trip(s: SessionView, k: nat, msgs: Seq<Msg>)
    requires
        session_wf(s),
        !s.finished,
        s.pending.len() == 0,
        0 < k < data_of(msgs).len(),
    ensures
        ({
            let (t, r) = poll_next(s, k, msgs);
            let c = data_of(msgs);
            let pieces = seq![r->Bytes_0] + quiet_reads(t, k);
            let m = pieces.len();
            &&& r is Bytes
            &&& concat_all(pieces) == c
            &&& m == (c.len() + k - 1) / (k as int)
            &&& forall|i: int| 0 <= i < m - 1 ==> (#[trigger] pieces[i]).len() == k
            &&& 0 < pieces[m - 1].len() <= k
            &&& quiet_after(t, k).pending.len() == 0
            &&& quiet_after(t, k).delivered == s.delivered + c
        }),
{
    let c = data_of(msgs);
    let a = absorb(s, msgs);
    assert(a.pending =~= c);
    let (t, r) = poll_next(s, k, msgs);
    assert(t == hand_out(a, k));
    lemma_absorb_nothing(t);
    assert(poll_next(a, k, Seq::empty()) == (t, r));
    assert(quiet_reads(a, k) == seq![r->Bytes_0] + quiet_reads(t, k));
    assert(quiet_after(a, k) == quiet_after(t, k));
    lemma_quiet_reads(a, k);
}

/// No output is lost at exit, also after a kill: until reading finishes a
/// poll never answers `Exited`, output that arrived is handed out, and the
/// settle step finishes reading only once every byte that arrived,
/// including what it drained, has been handed out.
pub proof fn lemma_exit_after_all_output(s: SessionView, cap: nat, msgs: Seq<Msg>)
    requires
        session_wf(s),
        !s.finished,
        cap > 0,
    ensures
        ({
            let (t, r) = poll_next(s, cap, msgs);
            &&& r != PollView::Exited
            &&& !t.finished
            &&& (s.pending + data_of(msgs)).len() > 0 ==> r is Bytes && r->Bytes_0.len() > 0
        }),
        ({
            let (t, r) = settle_next(s, cap, msgs);
            &&& (s.pending + data_of(msgs)).len() > 0 ==> r is Bytes && !t.finished
            &&& r is Exited ==> t.finished && t.pending.len() == 0 && t.delivered == t.received
                && t.received == s.received + data_of(msgs)
        }),
{
    let (t, r) = settle_next(s, cap, msgs);
    if r is Exited {
        assert(t.delivered =~= t.delivered + t.pending);
    }
    if s.pending.len() == 0 {
        assert(s.pending + data_of(msgs) =~= data_of(msgs));
    }
}

/// Exit is final: once reading has finished, polls and settles answer
/// `Exited`, writes and operations that need a live child get
/// `CHILD_EXITED`, kills succeed, and none of them changes the session.
pub proof fn lemma_exit_is_final(
    s: SessionView,
    cap: nat,
    msgs: Seq<Msg>,
    w: Seq<u8>,
    sent: bool,
    signal_ok: bool,
)
    requires
        session_wf(s),
        s.finished,
    ensures
        poll_next(s, cap, msgs) == (s, PollView::Exited),
        settle_next(s, cap, msgs) == (s, PollView::Exited),
        write_next(s, w, sent) == (s, CHILD_EXITED),
        live_code(s) == CHILD_EXITED,
        kill_next(s, signal_ok) == (s, SUCCESS),
{
}

/// Once set, `exited` and `finished` stay set through every operation.
pub proof fn lemma_exit_flags_stay(
    s: SessionView,
    cap: nat,
    msgs: Seq<Msg>,
    w: Seq<u8>,
    sent: bool,
    signal_ok: bool,
)
    ensures
        s.exited ==> poll_next(s, cap, msgs).0.exited && settle_next(s, cap, msgs).0.exited
            && write_next(s, w, sent).0.exited && kill_next(s, signal_ok).0.exited,
        s.finished ==> poll_next(s, cap, msgs).0.finished && settle_next(s, cap, msgs).0.finished
            && write_next(s, w, sent).0.finished && kill_next(s, signal_ok).0.finished,
{
}

/// Kill is idempotent: after a kill that succeeded, another kill succeeds
/// whatever its signal would do, and leaves the session as it was.
pub proof fn lemma_kill_idempotent(s: SessionView, first_ok: bool, second_ok: bool)
    requires
        kill_next(s, first_ok).1 == SUCCESS,
    ensures
        ({
            let t = kill_next(s, first_ok).0;
            &&& t.exited
            &&& kill_next(t, second_ok) == (t, SUCCESS)
        }),
{
}

} // verus!
