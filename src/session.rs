use vstd::prelude::*;

use crate::config::SessionConfig;
use crate::error::SessionError;
use crate::plan::SessionPlan;
use crate::registry::{
    lemma_local_handles_are_local_positions, slots_match, spec_local_handles, Locality,
};

verus! {

/// The frame submitted before any input has been sampled: every control clear,
/// for each local handle.
pub open spec fn zeros(width: nat) -> Seq<u8> {
    Seq::new(width, |i: int| 0u8)
}

/// The views of a list of frames.
pub open spec fn frames_view(v: Seq<Vec<u8>>) -> Seq<Seq<u8>> {
    v.map_values(|f: Vec<u8>| f@)
}

/// `delay` default frames followed by the sampled frames: the frame submitted on
/// tick `n` is element `n` of this sequence.
pub open spec fn padded(delay: nat, width: nat, samples: Seq<Seq<u8>>) -> Seq<Seq<u8>> {
    Seq::new(delay, |i: int| zeros(width)) + samples
}

/// Whether a session that has advanced `frames` frames, with remote input
/// confirmed for the first `confirmed` of them, must stall instead of advancing.
pub open spec fn spec_stalls(frames: nat, confirmed: nat, max_prediction_window: nat) -> bool {
    frames >= confirmed + max_prediction_window
}

/// For each of `ticks` ticks with no remote confirmation, whether that tick stalls.
pub open spec fn withheld_stalls(
    frames: nat,
    confirmed: nat,
    max_prediction_window: nat,
    ticks: nat,
) -> Seq<bool>
    decreases ticks,
{
    if ticks == 0 {
        Seq::empty()
    } else {
        let st = spec_stalls(frames, confirmed, max_prediction_window);
        seq![st] + withheld_stalls(
            if st {
                frames
            } else {
                frames + 1
            },
            confirmed,
            max_prediction_window,
            (ticks - 1) as nat,
        )
    }
}

proof fn lemma_withheld_stalls(j: nat, confirmed: nat, max: nat, ticks: nat, i: int)
    requires
        j <= max,
        0 <= i < ticks,
    ensures
        withheld_stalls(confirmed + j, confirmed, max, ticks).len() == ticks,
        withheld_stalls(confirmed + j, confirmed, max, ticks)[i] == (j + i >= max),
    decreases ticks,
{
    let st = spec_stalls(confirmed + j, confirmed, max);
    lemma_withheld_len(confirmed + j, confirmed, max, ticks);
    if ticks > 1 {
        lemma_withheld_len(
            if st { confirmed + j } else { confirmed + j + 1 },
            confirmed,
            max,
            (ticks - 1) as nat,
        );
    }
    if j == max {
        lemma_stalled_forever(confirmed + j, confirmed, max, ticks, i);
    } else {
        assert(!st);
        if i > 0 {
            lemma_withheld_stalls(j + 1, confirmed, max, (ticks - 1) as nat, i - 1);
        } else if ticks > 1 {
            lemma_withheld_stalls(j + 1, confirmed, max, (ticks - 1) as nat, 0);
        }
    }
}

proof fn lemma_withheld_len(frames: nat, confirmed: nat, max: nat, ticks: nat)
    ensures
        withheld_stalls(frames, confirmed, max, ticks).len() == ticks,
    decreases ticks,
{
    if ticks > 0 {
        let st = spec_stalls(frames, confirmed, max);
        lemma_withheld_len(if st { frames } else { frames + 1 }, confirmed, max, (ticks - 1) as nat);
    }
}

proof fn lemma_stalled_forever(frames: nat, confirmed: nat, max: nat, ticks: nat, i: int)
    requires
        spec_stalls(frames, confirmed, max),
        0 <= i < ticks,
    ensures
        withheld_stalls(frames, confirmed, max, ticks)[i],
    decreases ticks,
{
    lemma_withheld_len(frames, confirmed, max, ticks);
    if i > 0 {
        lemma_stalled_forever(frames, confirmed, max, (ticks - 1) as nat, i - 1);
    }
}

/// When remote confirmation is withheld for `max_prediction_window + 1` ticks
/// from a session caught up with its peers, the first `max_prediction_window`
/// ticks advance and the last one, tick `max_prediction_window + 1`, stalls.
pub proof fn lemma_prediction_boundary(confirmed: nat, max_prediction_window: nat)
    requires
        max_prediction_window > 0,
    ensures
        ({
            let st = withheld_stalls(
                confirmed,
                confirmed,
                max_prediction_window,
                max_prediction_window + 1,
            );
            &&& st.len() == max_prediction_window + 1
            &&& forall|i: int| 0 <= i < max_prediction_window ==> !#[trigger] st[i]
            &&& st[max_prediction_window as int]
        }),
{
    let st = withheld_stalls(confirmed, confirmed, max_prediction_window, max_prediction_window + 1);
    assert forall|i: int| 0 <= i < max_prediction_window implies !#[trigger] st[i] by {
        lemma_withheld_stalls(0, confirmed, max_prediction_window, max_prediction_window + 1, i);
    }
    lemma_withheld_stalls(
        0,
        confirmed,
        max_prediction_window,
        max_prediction_window + 1,
        max_prediction_window as int,
    );
}

/// A copy of a frame.
fn copy_frame(f: &Vec<u8>) -> (r: Vec<u8>)
    ensures
        r@ == f@,
{
    let mut r: Vec<u8> = Vec::new();
    let mut i: usize = 0;
    while i < f.len()
        invariant
            i <= f@.len(),
            r@ == f@.subrange(0, i as int),
        decreases f@.len() - i,
    {
        r.push(f[i]);
        i = i + 1;
        proof {
            assert(r@ =~= f@.subrange(0, i as int));
        }
    }
    proof {
        assert(f@.subrange(0, f@.len() as int) =~= f@);
    }
    r
}

/// A frame of `width` zero bytes.
fn zero_frame(width: usize) -> (r: Vec<u8>)
    ensures
        r@ == zeros(width as nat),
{
    let mut r: Vec<u8> = Vec::new();
    let mut i: usize = 0;
    while i < width
        invariant
            i <= width,
            r@ == zeros(i as nat),
        decreases width - i,
    {
        r.push(0u8);
        i = i + 1;
        proof {
            assert(r@ =~= zeros(i as nat));
        }
    }
    r
}

/// A fixed-length queue of frames: each pushed frame comes out `delay` pushes
/// later, and the first `delay` pushes return the frames it was filled with.
pub struct DelayLine {
    pending: Vec<Vec<u8>>,
}

impl View for DelayLine {
    type V = Seq<Seq<u8>>;

    closed spec fn view(&self) -> Seq<Seq<u8>> {
        frames_view(self.pending@)
    }
}

impl DelayLine {
    /// A line of `delay` frames of `width` zero bytes.
    pub fn new(delay: usize, width: usize) -> (r: DelayLine)
        ensures
            r@ == Seq::new(delay as nat, |i: int| zeros(width as nat)),
    {
        let mut pending: Vec<Vec<u8>> = Vec::new();
        let mut i: usize = 0;
        while i < delay
            invariant
                i <= delay,
                frames_view(pending@) == Seq::new(i as nat, |k: int| zeros(width as nat)),
            decreases delay - i,
        {
            let z = zero_frame(width);
            let ghost prev = pending@;
            pending.push(z);
            i = i + 1;
            proof {
                assert(frames_view(pending@) =~= frames_view(prev).push(zeros(width as nat)));
                assert(frames_view(pending@) =~= Seq::new(i as nat, |k: int| zeros(width as nat)));
            }
        }
        DelayLine { pending }
    }

    /// Appends a frame and takes out the oldest one.
    pub fn push(&mut self, frame: Vec<u8>) -> (r: Vec<u8>)
        ensures
            r@ == old(self)@.push(frame@)[0],
            final(self)@ == old(self)@.push(frame@).drop_first(),
    {
        let ghost f = frame@;
        let ghost before = self.pending@;
        self.pending.push(frame);
        proof {
            assert(frames_view(self.pending@) =~= frames_view(before).push(f));
        }
        let ghost mid = self.pending@;
        let r = self.pending.remove(0);
        proof {
            assert(frames_view(self.pending@) =~= frames_view(mid).drop_first());
            assert(r@ == frames_view(mid)[0]);
        }
        r
    }
}

/// What one tick of the session did.
#[derive(Debug, PartialEq, Eq)]
pub enum TickOutcome {
    /// The simulation advances to `frame`, with these inputs for the local
    /// handles, in handle order.
    Advanced { frame: usize, inputs: Vec<u8> },
    /// The simulation is as far ahead of confirmed remote input as the
    /// prediction window allows: nothing advanced and nothing was sampled.
    PredictionLimitReached,
}

/// The live state of a synchronized session on this peer: local input goes
/// through a delay line, every submitted frame is kept so that resimulation
/// reads it back, and the prediction window holds the simulation back.
pub struct RollbackSession {
    config: SessionConfig,
    local: Vec<usize>,
    remote: Vec<bool>,
    active: Vec<bool>,
    line: DelayLine,
    submitted: Vec<Vec<u8>>,
    confirmed: usize,
    samples: Ghost<Seq<Seq<u8>>>,
}

impl RollbackSession {
    pub closed spec fn config(&self) -> SessionConfig {
        self.config
    }

    /// The local handles, in slot order.
    pub closed spec fn local(&self) -> Seq<usize> {
        self.local@
    }

    /// For each slot, whether it is remote.
    pub closed spec fn remote(&self) -> Seq<bool> {
        self.remote@
    }

    /// For each slot, whether it is still connected.
    pub closed spec fn active(&self) -> Seq<bool> {
        self.active@
    }

    /// The inputs submitted so far, one frame per tick that advanced.
    pub closed spec fn frames(&self) -> Seq<Seq<u8>> {
        frames_view(self.submitted@)
    }

    /// The local inputs sampled so far, one frame per tick that advanced.
    pub closed spec fn samples(&self) -> Seq<Seq<u8>> {
        self.samples@
    }

    /// The number of leading frames whose remote input is confirmed.
    pub closed spec fn confirmed(&self) -> nat {
        self.confirmed as nat
    }

    pub open spec fn width(&self) -> nat {
        self.local().len()
    }

    pub closed spec fn wf(&self) -> bool {
        let d = self.config.input_delay as nat;
        let w = self.local@.len();
        let n = self.samples@.len();
        let p = padded(d, w, self.samples@);
        &&& self.config.wf()
        &&& self.remote@.len() == self.config.participant_count
        &&& self.active@.len() == self.config.participant_count
        &&& forall|i: int|
            0 <= i < w ==> #[trigger] self.local@[i] < self.config.participant_count
                && !self.remote@[self.local@[i] as int]
        &&& self.line@ == p.subrange(n as int, (n + d) as int)
        &&& frames_view(self.submitted@) == p.take(n as int)
    }

    /// Starts a session from its plan: every slot connected, nothing sampled or
    /// submitted, no remote input confirmed.
    pub fn start(plan: &SessionPlan) -> (r: RollbackSession)
        requires
            plan.config.wf(),
            plan.slots@.len() == plan.config.participant_count,
            forall|i: int| 0 <= i < plan.slots@.len() ==> (#[trigger] plan.slots@[i]).handle == i,
            plan.local.handles@ == spec_local_handles(plan.slots@),
        ensures
            r.wf(),
            r.config() == plan.config,
            r.local() == plan.local.handles@,
            r.remote().len() == plan.slots@.len(),
            forall|i: int|
                0 <= i < plan.slots@.len() ==> r.remote()[i] == !(
                #[trigger] plan.slots@[i]).locality.is_local(),
            r.active() == Seq::new(plan.slots@.len(), |i: int| true),
            r.frames() == Seq::<Seq<u8>>::empty(),
            r.samples() == Seq::<Seq<u8>>::empty(),
            r.confirmed() == 0,
    {
        let ghost participants = Seq::new(plan.slots@.len(), |i: int| plan.slots@[i].locality);
        proof {
            assert(slots_match(plan.slots@, participants));
            lemma_local_handles_are_local_positions(plan.slots@, participants);
        }
        let mut remote: Vec<bool> = Vec::new();
        let mut active: Vec<bool> = Vec::new();
        let mut i: usize = 0;
        while i < plan.slots.len()
            invariant
                i <= plan.slots@.len(),
                remote@.len() == i,
                forall|k: int|
                    0 <= k < i ==> remote@[k] == !(#[trigger] plan.slots@[k]).locality.is_local(),
                active@ == Seq::new(i as nat, |k: int| true),
            decreases plan.slots@.len() - i,
        {
            let is_remote = match plan.slots[i].locality {
                Locality::Local => false,
                Locality::Remote(_) => true,
            };
            remote.push(is_remote);
            active.push(true);
            i = i + 1;
            proof {
                assert(active@ =~= Seq::new(i as nat, |k: int| true));
            }
        }
        let mut local: Vec<usize> = Vec::new();
        let mut j: usize = 0;
        while j < plan.local.handles.len()
            invariant
                j <= plan.local.handles@.len(),
                local@ == plan.local.handles@.subrange(0, j as int),
            decreases plan.local.handles@.len() - j,
        {
            local.push(plan.local.handles[j]);
            j = j + 1;
            proof {
                assert(local@ =~= plan.local.handles@.subrange(0, j as int));
            }
        }
        proof {
            assert(local@ =~= plan.local.handles@);
        }
        let line = DelayLine::new(plan.config.input_delay, local.len());
        let r = RollbackSession {
            config: plan.config,
            local,
            remote,
            active,
            line,
            submitted: Vec::new(),
            confirmed: 0,
            samples: Ghost(Seq::empty()),
        };
        proof {
            let d = plan.config.input_delay as nat;
            let p = padded(d, local@.len(), Seq::empty());
            assert(r.line@ =~= p.subrange(0, d as int));
            assert(frames_view(r.submitted@) =~= p.take(0));
            assert forall|k: int| 0 <= k < local@.len() implies #[trigger] local@[k]
                < plan.config.participant_count && !remote@[local@[k] as int] by {
                let h = local@[k];
                assert(plan.local.handles@[k] == h);
                assert(participants[h as int].is_local());
            }
        }
        r
    }

    /// One tick. With `sampled` holding the current input of each local handle,
    /// in handle order: when the simulation is a full prediction window ahead of
    /// confirmed remote input, the tick stalls and nothing changes; otherwise the
    /// sample enters the delay line and the frame that leaves it is recorded and
    /// returned for submission. A sample of the wrong width is refused.
    pub fn tick(&mut self, sampled: Vec<u8>) -> (r: Result<TickOutcome, SessionError>)
        requires
            old(self).wf(),
        ensures
            final(self).wf(),
            final(self).config() == old(self).config(),
            final(self).local() == old(self).local(),
            final(self).remote() == old(self).remote(),
            final(self).active() == old(self).active(),
            final(self).confirmed() == old(self).confirmed(),
            old(self).frames().is_prefix_of(final(self).frames()),
            sampled@.len() != old(self).width() ==> r == Err::<TickOutcome, SessionError>(
                SessionError::LocalInputCountMismatch {
                    expected: old(self).width() as usize,
                    found: sampled.len(),
                },
            ),
            sampled@.len() == old(self).width() ==> r is Ok,
            (sampled@.len() != old(self).width() || spec_stalls(
                old(self).frames().len(),
                old(self).confirmed(),
                old(self).config().max_prediction_window as nat,
            )) ==> final(self).frames() == old(self).frames() && final(self).samples() == old(
                self,
            ).samples(),
            sampled@.len() == old(self).width() && spec_stalls(
                old(self).frames().len(),
                old(self).confirmed(),
                old(self).config().max_prediction_window as nat,
            ) ==> r == Ok::<TickOutcome, SessionError>(TickOutcome::PredictionLimitReached),
            sampled@.len() == old(self).width() && !spec_stalls(
                old(self).frames().len(),
                old(self).confirmed(),
                old(self).config().max_prediction_window as nat,
            ) ==> {
                &&& r is Ok
                &&& r->Ok_0 is Advanced
                &&& r->Ok_0->frame == old(self).frames().len()
                &&& final(self).samples() == old(self).samples().push(sampled@)
                &&& final(self).frames() == old(self).frames().push(r->Ok_0->inputs@)
            },
    {
        if sampled.len() != self.local.len() {
            return Err(
                SessionError::LocalInputCountMismatch {
                    expected: self.local.len(),
                    found: sampled.len(),
                },
            );
        }
        let n = self.submitted.len();
        proof {
            assert(frames_view(self.submitted@).len() == n);
        }
        if n >= self.confirmed && n - self.confirmed >= self.config.max_prediction_window {
            return Ok(TickOutcome::PredictionLimitReached);
        }
        let ghost d = self.config.input_delay as nat;
        let ghost w = self.local@.len();
        let ghost old_samples = self.samples@;
        let ghost old_sub = self.submitted@;
        let ghost s = sampled@;
        let out = self.line.push(sampled);
        let kept = copy_frame(&out);
        self.submitted.push(out);
        self.samples = Ghost(old_samples.push(s));
        proof {
            let p = padded(d, w, old_samples);
            let p2 = padded(d, w, old_samples.push(s));
            assert(p2 =~= p.push(s));
            assert(p.subrange(n as int, (n + d) as int).push(s) =~= p2.subrange(n as int, (n + d + 1) as int));
            assert(self.line@ =~= p2.subrange(n + 1, (n + 1 + d) as int));
            assert(kept@ == p2[n as int]);
            assert(frames_view(self.submitted@) =~= frames_view(old_sub).push(kept@));
            assert(frames_view(self.submitted@) =~= p2.take(n + 1));
            assert(frames_view(old_sub).is_prefix_of(frames_view(self.submitted@)));
        }
        Ok(TickOutcome::Advanced { frame: n, inputs: kept })
    }

    /// The local inputs submitted for `frame`, as resimulation replays them;
    /// `None` for a frame that has not been submitted.
    pub fn input_for_frame(&self, frame: usize) -> (r: Option<Vec<u8>>)
        requires
            self.wf(),
        ensures
            r is Some <==> frame < self.frames().len(),
            r is Some ==> r->Some_0@ == self.frames()[frame as int],
    {
        if frame < self.submitted.len() {
            Some(copy_frame(&self.submitted[frame]))
        } else {
            None
        }
    }

    /// Records that remote input is confirmed for the first `frames` frames;
    /// confirmation never moves back.
    pub fn confirm_remote(&mut self, frames: usize)
        requires
            old(self).wf(),
        ensures
            final(self).wf(),
            final(self).confirmed() == if frames > old(self).confirmed() {
                frames as nat
            } else {
                old(self).confirmed()
            },
            final(self).config() == old(self).config(),
            final(self).local() == old(self).local(),
            final(self).remote() == old(self).remote(),
            final(self).active() == old(self).active(),
            final(self).frames() == old(self).frames(),
            final(self).samples() == old(self).samples(),
    {
        if frames > self.confirmed {
            self.confirmed = frames;
        }
    }

    /// Whether the slot is still connected; `false` for a slot out of range.
    pub fn is_active(&self, slot: usize) -> (r: bool)
        requires
            self.wf(),
        ensures
            r == (slot < self.active().len() && self.active()[slot as int]),
    {
        slot < self.active.len() && self.active[slot]
    }

    /// Marks a remote slot whose connection failed as inert. A slot that is out
    /// of range or local is refused with `InvalidSlot`.
    pub fn disconnect(&mut self, slot: usize) -> (r: Result<(), SessionError>)
        requires
            old(self).wf(),
        ensures
            final(self).wf(),
            (slot >= old(self).remote().len() || !old(self).remote()[slot as int]) <==> r == Err::<
                (),
                SessionError,
            >(SessionError::InvalidSlot(slot)),
            r is Ok ==> final(self).active() == old(self).active().update(slot as int, false),
            r is Err ==> final(self).active() == old(self).active(),
            final(self).config() == old(self).config(),
            final(self).local() == old(self).local(),
            final(self).remote() == old(self).remote(),
            final(self).confirmed() == old(self).confirmed(),
            final(self).frames() == old(self).frames(),
            final(self).samples() == old(self).samples(),
    {
        if slot >= self.remote.len() || !self.remote[slot] {
            return Err(SessionError::InvalidSlot(slot));
        }
        self.active.set(slot, false);
        Ok(())
    }
}

/// The frame submitted on tick `n` is the sample of tick `n - input_delay`, and
/// a frame of zero bytes for the first `input_delay` ticks.
pub proof fn lemma_input_delay(s: &RollbackSession, n: int)
    requires
        s.wf(),
        0 <= n < s.frames().len(),
    ensures
        s.frames().len() == s.samples().len(),
        n < s.config().input_delay ==> s.frames()[n] == zeros(s.width()),
        n >= s.config().input_delay ==> s.frames()[n] == s.samples()[n
            - s.config().input_delay],
{
}

/// Two sessions with the same input delay and number of local handles that have
/// taken the same samples have submitted the same frames: what a frame's input
/// is depends on the samples alone, never on when remote input arrived.
pub proof fn lemma_same_samples_same_frames(a: &RollbackSession, b: &RollbackSession)
    requires
        a.wf(),
        b.wf(),
        a.config().input_delay == b.config().input_delay,
        a.width() == b.width(),
        a.samples() == b.samples(),
    ensures
        a.frames() == b.frames(),
{
}

} // verus!
