use crate::config::Address;
use vstd::prelude::*;

verus! {

/// A retransmission schedule: the delays, in milliseconds, that follow each
/// send of the same payload. An empty schedule sends nothing.
#[derive(Debug)]
pub struct Timers {
    pub delays: Vec<u64>,
}

/// Why a retransmission ended.
#[derive(Clone, Copy, Debug, PartialEq, Eq)]
pub enum StopReason {
    /// Every delay of the schedule was used.
    Done,
    /// The cancellation flag was seen set after at least one send.
    Cancelled,
}

/// What the retransmission task does next, in terms of values.
pub ghost enum Emission {
    Send { to: Address, payload: Seq<u8>, delay_ms: u64 },
    Stop(StopReason),
}

/// What the retransmission task does next: send `payload` to `to` and then
/// sleep `delay_ms` milliseconds, or stop for good.
#[derive(Debug, PartialEq, Eq)]
pub enum RetransmitAction {
    Send { to: Address, payload: Vec<u8>, delay_ms: u64 },
    Stop(StopReason),
}

impl View for RetransmitAction {
    type V = Emission;

    open spec fn view(&self) -> Emission {
        match self {
            RetransmitAction::Send { to, payload, delay_ms } => Emission::Send {
                to: *to,
                payload: payload@,
                delay_ms: *delay_ms,
            },
            RetransmitAction::Stop(reason) => Emission::Stop(*reason),
        }
    }
}

/// The state of one retransmission, as values.
pub ghost struct RetransmissionView {
    /// The destination captured when the retransmission started.
    pub target: Address,
    pub payload: Seq<u8>,
    pub delays: Seq<u64>,
    /// How many sends have been made, which is also the index of the next delay.
    pub next: nat,
    /// Set once the retransmission has ended.
    pub outcome: Option<StopReason>,
}

/// A retransmission that has not sent anything yet.
pub open spec fn fresh_retransmission(target: Address, payload: Seq<u8>, delays: Seq<u64>) -> RetransmissionView {
    RetransmissionView { target, payload, delays, next: 0, outcome: None }
}

/// One step of the retransmission task, given whether the cancellation flag
/// was seen set. The flag is only honoured after the first send, so that a
/// retransmission always transmits at least once.
pub open spec fn step_spec(s: RetransmissionView, cancelled: bool) -> (RetransmissionView, Emission) {
    match s.outcome {
        Some(reason) => (s, Emission::Stop(reason)),
        None => if cancelled && s.next > 0 {
            (RetransmissionView { outcome: Some(StopReason::Cancelled), ..s }, Emission::Stop(StopReason::Cancelled))
        } else if s.next >= s.delays.len() {
            (RetransmissionView { outcome: Some(StopReason::Done), ..s }, Emission::Stop(StopReason::Done))
        } else {
            (
                RetransmissionView { next: s.next + 1, ..s },
                Emission::Send { to: s.target, payload: s.payload, delay_ms: s.delays[s.next as int] },
            )
        },
    }
}

/// What the task emits over successive steps, the flag being seen as `flags`.
pub open spec fn run(s: RetransmissionView, flags: Seq<bool>) -> Seq<Emission>
    decreases flags.len(),
{
    if flags.len() == 0 {
        Seq::empty()
    } else {
        let (t, e) = step_spec(s, flags[0]);
        seq![e] + run(t, flags.drop_first())
    }
}

/// The delays of the sends among `es`, in order; one per datagram sent.
pub open spec fn sent_delays(es: Seq<Emission>) -> Seq<u64>
    decreases es.len(),
{
    if es.len() == 0 {
        Seq::empty()
    } else {
        match es[0] {
            Emission::Send { delay_ms, .. } => seq![delay_ms] + sent_delays(es.drop_first()),
            Emission::Stop(_) => sent_delays(es.drop_first()),
        }
    }
}

/// One emission per step.
pub proof fn lemma_run_len(s: RetransmissionView, flags: Seq<bool>)
    ensures
        run(s, flags).len() == flags.len(),
    decreases flags.len(),
{
    if flags.len() > 0 {
        lemma_run_len(step_spec(s, flags[0]).0, flags.drop_first());
    }
}

/// Once a retransmission has ended, further steps send nothing.
pub proof fn lemma_stopped_sends_nothing(s: RetransmissionView, flags: Seq<bool>)
    requires
        s.outcome is Some,
    ensures
        sent_delays(run(s, flags)) == Seq::<u64>::empty(),
        forall|i: int| 0 <= i < flags.len() ==> #[trigger] run(s, flags)[i] == Emission::Stop(s.outcome->0),
    decreases flags.len(),
{
    if flags.len() > 0 {
        lemma_stopped_sends_nothing(s, flags.drop_first());
        lemma_run_len(s, flags);
        let es = run(s, flags);
        assert(es.drop_first() =~= run(s, flags.drop_first()));
        assert forall|i: int| 0 <= i < flags.len() implies #[trigger] es[i] == Emission::Stop(s.outcome->0) by {
            if i > 0 {
                assert(es[i] == es.drop_first()[i - 1]);
            }
        }
    }
}

/// Every datagram a retransmission sends carries its payload to the
/// destination captured when it started, whatever happens to the
/// transport's destination meanwhile.
pub proof fn lemma_sends_use_snapshot(s: RetransmissionView, flags: Seq<bool>)
    ensures
        forall|i: int|
            0 <= i < flags.len() && (#[trigger] run(s, flags)[i]) is Send ==> run(s, flags)[i]->to
                == s.target && run(s, flags)[i]->payload == s.payload,
    decreases flags.len(),
{
    if flags.len() > 0 {
        let (t, e) = step_spec(s, flags[0]);
        lemma_sends_use_snapshot(t, flags.drop_first());
        lemma_run_len(s, flags);
        let es = run(s, flags);
        assert(es.drop_first() =~= run(t, flags.drop_first()));
        assert forall|i: int| 0 <= i < flags.len() && (#[trigger] es[i]) is Send implies es[i]->to == s.target
            && es[i]->payload == s.payload by {
            if i > 0 {
                assert(es[i] == es.drop_first()[i - 1]);
            }
        }
    }
}

/// Without cancellation, from a state that has made `s.next` sends, the
/// remaining delays are used in order and the task then ends as done.
proof fn lemma_uncancelled_rest(s: RetransmissionView, flags: Seq<bool>)
    requires
        s.outcome is None,
        s.next <= s.delays.len(),
        flags.len() > s.delays.len() - s.next,
        forall|i: int| 0 <= i < flags.len() ==> !#[trigger] flags[i],
    ensures
        sent_delays(run(s, flags)) == s.delays.subrange(s.next as int, s.delays.len() as int),
        run(s, flags)[s.delays.len() - s.next] == Emission::Stop(StopReason::Done),
    decreases s.delays.len() - s.next,
{
    let (t, e) = step_spec(s, flags[0]);
    lemma_run_len(s, flags);
    let es = run(s, flags);
    assert(es.drop_first() =~= run(t, flags.drop_first()));
    if s.next == s.delays.len() {
        lemma_stopped_sends_nothing(t, flags.drop_first());
        assert(s.delays.subrange(s.next as int, s.delays.len() as int) =~= Seq::<u64>::empty());
    } else {
        lemma_uncancelled_rest(t, flags.drop_first());
        assert(s.delays.subrange(s.next as int, s.delays.len() as int) =~= seq![s.delays[s.next as int]]
            + t.delays.subrange(t.next as int, t.delays.len() as int));
        assert(es[s.delays.len() - s.next] == es.drop_first()[s.delays.len() - s.next - 1]);
    }
}

/// With no cancellation, a retransmission sends exactly once per delay of its
/// schedule, waiting each delay in order after its send, and then ends as
/// done.
pub proof fn lemma_uncancelled_sends_whole_schedule(
    target: Address,
    payload: Seq<u8>,
    delays: Seq<u64>,
    flags: Seq<bool>,
)
    requires
        flags.len() > delays.len(),
        forall|i: int| 0 <= i < flags.len() ==> !#[trigger] flags[i],
    ensures
        sent_delays(run(fresh_retransmission(target, payload, delays), flags)) == delays,
        run(fresh_retransmission(target, payload, delays), flags)[delays.len() as int] == Emission::Stop(
            StopReason::Done,
        ),
{
    let s = fresh_retransmission(target, payload, delays);
    lemma_uncancelled_rest(s, flags);
    assert(delays.subrange(0, delays.len() as int) =~= delays);
}

/// Once a retransmission has sent at least once, seeing the cancellation
/// flag set ends it: nothing more is sent, whatever the flag says later.
pub proof fn lemma_no_send_after_cancel(s: RetransmissionView, flags: Seq<bool>)
    requires
        s.next > 0 || s.outcome is Some,
        flags.len() > 0,
        flags[0],
    ensures
        sent_delays(run(s, flags)) == Seq::<u64>::empty(),
        run(s, flags)[0] is Stop,
{
    let (t, e) = step_spec(s, flags[0]);
    lemma_stopped_sends_nothing(t, flags.drop_first());
    lemma_run_len(s, flags);
    assert(run(s, flags).drop_first() =~= run(t, flags.drop_first()));
}

/// A retransmission always sends at least once, whatever the flag says at
/// the start; if the flag is set after that first send and before the
/// second, exactly one datagram is sent in all.
pub proof fn lemma_cancel_after_first_send(
    target: Address,
    payload: Seq<u8>,
    delays: Seq<u64>,
    flags: Seq<bool>,
)
    requires
        delays.len() >= 1,
        flags.len() >= 2,
        flags[1],
    ensures
        run(fresh_retransmission(target, payload, delays), flags)[0] is Send,
        sent_delays(run(fresh_retransmission(target, payload, delays), flags)) == seq![delays[0]],
        run(fresh_retransmission(target, payload, delays), flags)[1] == Emission::Stop(StopReason::Cancelled),
{
    let s = fresh_retransmission(target, payload, delays);
    let (t, e) = step_spec(s, flags[0]);
    let rest = flags.drop_first();
    lemma_no_send_after_cancel(t, rest);
    lemma_run_len(s, flags);
    assert(run(s, flags).drop_first() =~= run(t, rest));
    assert(seq![delays[0]] + Seq::<u64>::empty() =~= seq![delays[0]]);
}

/// A payload being retransmitted to a captured destination on a schedule.
#[derive(Debug)]
pub struct Retransmission {
    target: Address,
    payload: Vec<u8>,
    delays: Vec<u64>,
    next: usize,
    outcome: Option<StopReason>,
}

impl View for Retransmission {
    type V = RetransmissionView;

    closed spec fn view(&self) -> RetransmissionView {
        RetransmissionView {
            target: self.target,
            payload: self.payload@,
            delays: self.delays@,
            next: self.next as nat,
            outcome: self.outcome,
        }
    }
}

impl Retransmission {
    #[verifier::type_invariant]
    spec fn next_in_schedule(&self) -> bool {
        self.next <= self.delays.len()
    }

    /// Starts a retransmission of `payload` to `target` on `timers`.
    pub fn new(target: Address, payload: Vec<u8>, timers: Timers) -> (r: Retransmission)
        ensures
            r@ == fresh_retransmission(target, payload@, timers.delays@),
    {
        Retransmission { target, payload, delays: timers.delays, next: 0, outcome: None }
    }

    /// The destination captured when the retransmission started.
    pub fn target(&self) -> (r: Address)
        ensures
            r == self@.target,
    {
        self.target
    }

    /// Decides the next action, given whether the cancellation flag is set now.
    pub fn step(&mut self, cancelled: bool) -> (r: RetransmitAction)
        ensures
            (final(self)@, r@) == step_spec(old(self)@, cancelled),
    {
        proof {
            use_type_invariant(&*self);
        }
        match self.outcome {
            Some(reason) => RetransmitAction::Stop(reason),
            None => {
                if cancelled && self.next > 0 {
                    self.outcome = Some(StopReason::Cancelled);
                    RetransmitAction::Stop(StopReason::Cancelled)
                } else if self.next >= self.delays.len() {
                    self.outcome = Some(StopReason::Done);
                    RetransmitAction::Stop(StopReason::Done)
                } else {
                    let delay_ms = self.delays[self.next];
                    let payload = self.payload.clone();
                    self.next = self.next + 1;
                    RetransmitAction::Send { to: self.target, payload, delay_ms }
                }
            }
        }
    }
}

} // verus!
