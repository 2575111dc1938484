use vstd::prelude::*;

use crate::config::create_session_builder;
use crate::error::SessionError;
use crate::plan::{has_local, plan_matches, plan_session, reference_config, SessionPlan};
use crate::registry::Locality;

verus! {

/// Where peer discovery stands.
#[derive(Clone, Copy, Debug, PartialEq, Eq, Structural)]
pub enum Phase {
    /// Fewer peers than needed have been announced.
    AwaitingPeers,
    /// Every participant has been announced; the list has not been handed off.
    Ready,
    /// The participant list has been handed off to start a session.
    Started,
}

/// What a poll of the rendezvous service led to.
#[derive(Debug, PartialEq, Eq)]
pub enum WaitOutcome {
    /// The session was already started by an earlier poll.
    AlreadyStarted,
    /// Still waiting for peers.
    Waiting,
    /// Every participant is present: start a session from this plan.
    Start(SessionPlan),
}

/// One announcement: it is recorded in the next free slot while peers are
/// missing. Once the list is full there is no slot for it, and it is not recorded.
pub open spec fn spec_announce(count: nat, peers: Seq<Locality>, p: Locality) -> Seq<Locality> {
    if peers.len() < count {
        peers.push(p)
    } else {
        peers
    }
}

/// The announcements of `ps`, in order.
pub open spec fn spec_announce_all(count: nat, peers: Seq<Locality>, ps: Seq<Locality>) -> Seq<
    Locality,
>
    decreases ps.len(),
{
    if ps.len() == 0 {
        peers
    } else {
        spec_announce(count, spec_announce_all(count, peers, ps.drop_last()), ps.last())
    }
}

/// The peers a report of `players` holds beyond the `known` ones.
pub open spec fn new_arrivals(known: nat, players: Seq<Locality>) -> Seq<Locality> {
    if known < players.len() {
        players.skip(known as int)
    } else {
        Seq::empty()
    }
}

/// The peers known after one poll whose report is `players`.
pub open spec fn spec_poll(count: nat, peers: Seq<Locality>, players: Seq<Locality>) -> Seq<
    Locality,
> {
    spec_announce_all(count, peers, new_arrivals(peers.len(), players))
}

/// The peers known after a run of polls, from no peer, with these reports in order.
pub open spec fn spec_polls(count: nat, reports: Seq<Seq<Locality>>) -> Seq<Locality>
    decreases reports.len(),
{
    if reports.len() == 0 {
        Seq::empty()
    } else {
        spec_poll(count, spec_polls(count, reports.drop_last()), reports.last())
    }
}

proof fn lemma_announce_all_fits(count: nat, peers: Seq<Locality>, ps: Seq<Locality>)
    requires
        peers.len() + ps.len() <= count,
    ensures
        spec_announce_all(count, peers, ps) == peers + ps,
    decreases ps.len(),
{
    if ps.len() > 0 {
        lemma_announce_all_fits(count, peers, ps.drop_last());
        assert(peers + ps =~= (peers + ps.drop_last()).push(ps.last()));
    } else {
        assert(peers + ps =~= peers);
    }
}

/// A poll whose report extends the known peers and fits the slots leaves the
/// known peers equal to the report.
proof fn lemma_poll_catches_up(count: nat, peers: Seq<Locality>, players: Seq<Locality>)
    requires
        peers.is_prefix_of(players),
        players.len() <= count,
    ensures
        spec_poll(count, peers, players) == players,
{
    if peers.len() < players.len() {
        lemma_announce_all_fits(count, peers, players.skip(peers.len() as int));
        assert(peers + players.skip(peers.len() as int) =~= players);
    } else {
        assert(peers =~= players);
    }
}

proof fn lemma_polls_last(count: nat, reports: Seq<Seq<Locality>>)
    requires
        reports.len() > 0,
        forall|j: int| 0 <= j < reports.len() ==> (#[trigger] reports[j]).len() <= count,
        forall|j: int|
            0 <= j < reports.len() - 1 ==> (#[trigger] reports[j]).is_prefix_of(reports[j + 1]),
    ensures
        spec_polls(count, reports) == reports.last(),
    decreases reports.len(),
{
    let rest = reports.drop_last();
    let last = reports.len() - 1;
    assert(spec_polls(count, reports) == spec_poll(count, spec_polls(count, rest), reports.last()));
    if rest.len() > 0 {
        assert forall|j: int| 0 <= j < rest.len() - 1 implies (#[trigger] rest[j]).is_prefix_of(
            rest[j + 1],
        ) by {
            assert(rest[j] == reports[j] && rest[j + 1] == reports[j + 1]);
        }
        lemma_polls_last(count, rest);
        assert(rest.last() == reports[last - 1]);
        assert(reports[last - 1].is_prefix_of(reports[last]));
        lemma_poll_catches_up(count, rest.last(), reports.last());
    } else {
        assert(Seq::<Locality>::empty().is_prefix_of(reports.last())) by {
            assert(reports.last().subrange(0, 0) =~= Seq::<Locality>::empty());
        }
        assert(reports[last].len() <= count);
        assert(spec_polls(count, rest) == Seq::<Locality>::empty());
        lemma_poll_catches_up(count, Seq::empty(), reports.last());
    }
}

/// Over a run of polls whose reports only grow (each extends the one before)
/// and never hold more peers than slots, the known peers after poll `k` are
/// exactly report `k`. So the negotiator completes on the first poll whose
/// report holds `count` peers, and on no earlier one.
pub proof fn lemma_polls_complete(count: nat, reports: Seq<Seq<Locality>>)
    requires
        count > 0,
        forall|j: int| 0 <= j < reports.len() ==> (#[trigger] reports[j]).len() <= count,
        forall|j: int|
            0 <= j < reports.len() - 1 ==> (#[trigger] reports[j]).is_prefix_of(reports[j + 1]),
    ensures
        forall|k: int|
            0 <= k < reports.len() ==> #[trigger] spec_polls(count, reports.take(k + 1))
                == reports[k],
        forall|k: int|
            0 <= k < reports.len() ==> ((#[trigger] spec_polls(count, reports.take(k + 1))).len()
                == count <==> reports[k].len() == count),
{
    assert forall|k: int| 0 <= k < reports.len() implies #[trigger] spec_polls(
        count,
        reports.take(k + 1),
    ) == reports[k] by {
        let pre = reports.take(k + 1);
        assert forall|j: int| 0 <= j < pre.len() implies (#[trigger] pre[j]).len() <= count by {
            assert(pre[j] == reports[j]);
        }
        assert forall|j: int| 0 <= j < pre.len() - 1 implies (#[trigger] pre[j]).is_prefix_of(
            pre[j + 1],
        ) by {
            assert(pre[j] == reports[j] && pre[j + 1] == reports[j + 1]);
        }
        lemma_polls_last(count, pre);
    }
}

/// Starting from no peer, announcing `ps` one at a time records the first
/// `participant_count` of them in order, so the negotiator is ready exactly when
/// the number of announcements reaches `participant_count`: never before, and
/// with no count skipped.
pub proof fn lemma_negotiation_completion(count: nat, ps: Seq<Locality>)
    requires
        count > 0,
    ensures
        spec_announce_all(count, Seq::empty(), ps) == ps.take(
            if ps.len() < count {
                ps.len() as int
            } else {
                count as int
            },
        ),
        (spec_announce_all(count, Seq::empty(), ps).len() == count) <==> ps.len() >= count,
    decreases ps.len(),
{
    if ps.len() > 0 {
        let rest = ps.drop_last();
        lemma_negotiation_completion(count, rest);
        if rest.len() < count {
            assert(ps.take(rest.len() as int) =~= rest.take(rest.len() as int));
            assert(rest.take(rest.len() as int).push(ps.last()) =~= ps.take(ps.len() as int));
        } else {
            assert(rest.take(count as int) =~= ps.take(count as int));
        }
    } else {
        assert(ps.take(0) =~= Seq::<Locality>::empty());
    }
}

/// Peer discovery for a fixed number of participants.
pub struct Negotiator {
    participant_count: usize,
    peers: Vec<Locality>,
    started: bool,
}

impl Negotiator {
    pub closed spec fn count(&self) -> nat {
        self.participant_count as nat
    }

    /// The peers announced so far, in announcement order.
    pub closed spec fn peers(&self) -> Seq<Locality> {
        self.peers@
    }

    pub closed spec fn started(&self) -> bool {
        self.started
    }

    pub open spec fn spec_phase(&self) -> Phase {
        if self.started() {
            Phase::Started
        } else if self.peers().len() == self.count() {
            Phase::Ready
        } else {
            Phase::AwaitingPeers
        }
    }

    pub closed spec fn wf(&self) -> bool {
        &&& self.participant_count > 0
        &&& self.peers@.len() <= self.participant_count
        &&& self.started ==> self.peers@.len() == self.participant_count
    }

    /// A negotiator waiting for `participant_count` peers, none announced yet.
    pub fn new(participant_count: usize) -> (r: Negotiator)
        requires
            participant_count > 0,
        ensures
            r.wf(),
            r.count() == participant_count,
            r.peers() == Seq::<Locality>::empty(),
            !r.started(),
    {
        Negotiator { participant_count, peers: Vec::new(), started: false }
    }

    /// The current phase.
    pub fn phase(&self) -> (r: Phase)
        requires
            self.wf(),
        ensures
            r == self.spec_phase(),
    {
        if self.started {
            Phase::Started
        } else if self.peers.len() == self.participant_count {
            Phase::Ready
        } else {
            Phase::AwaitingPeers
        }
    }

    /// Records an announced peer in the next free slot; returns whether every
    /// slot is taken afterwards.
    pub fn announce(&mut self, peer: Locality) -> (r: bool)
        requires
            old(self).wf(),
            old(self).peers().len() < old(self).count(),
        ensures
            final(self).wf(),
            final(self).count() == old(self).count(),
            final(self).started() == old(self).started(),
            final(self).peers() == old(self).peers().push(peer),
            final(self).peers() == spec_announce(old(self).count(), old(self).peers(), peer),
            r == (final(self).peers().len() == final(self).count()),
    {
        self.peers.push(peer);
        self.peers.len() == self.participant_count
    }

    /// One poll of the rendezvous service, which reports every peer it has
    /// announced so far, in its own order. The peers beyond those already known
    /// are announced in that order. When that fills every slot for the first
    /// time, the negotiator is started and hands out the plan of the session
    /// (or `NoLocalParticipant` when no peer is local). A report with more peers
    /// than slots is refused with `ParticipantCountMismatch` and changes nothing.
    pub fn wait_for_players(&mut self, players: &Vec<Locality>) -> (r: Result<
        WaitOutcome,
        SessionError,
    >)
        requires
            old(self).wf(),
        ensures
            final(self).wf(),
            final(self).count() == old(self).count(),
            old(self).started() ==> final(self).peers() == old(self).peers() && final(self).started()
                && r == Ok::<WaitOutcome, SessionError>(WaitOutcome::AlreadyStarted),
            !old(self).started() && players@.len() > old(self).count() ==> r == Err::<
                WaitOutcome,
                SessionError,
            >(
                SessionError::ParticipantCountMismatch {
                    expected: old(self).count() as usize,
                    found: players.len(),
                },
            ) && final(self).peers() == old(self).peers() && !final(self).started(),
            !old(self).started() && players@.len() <= old(self).count() ==> final(self).peers()
                == spec_poll(old(self).count(), old(self).peers(), players@),
            !old(self).started() && players@.len() <= old(self).count() ==> (final(self).started()
                <==> final(self).peers().len() == final(self).count()),
            !old(self).started() && players@.len() <= old(self).count() && !final(self).started()
                ==> r == Ok::<WaitOutcome, SessionError>(WaitOutcome::Waiting),
            !old(self).started() && players@.len() <= old(self).count() && final(self).started()
                && !has_local(final(self).peers()) ==> r == Err::<WaitOutcome, SessionError>(
                SessionError::NoLocalParticipant,
            ),
            !old(self).started() && players@.len() <= old(self).count() && final(self).started()
                && has_local(final(self).peers()) ==> r is Ok && r->Ok_0 is Start && plan_matches(
                r->Ok_0->Start_0,
                reference_config(old(self).count() as usize),
                final(self).peers(),
            ),
    {
        if self.started {
            return Ok(WaitOutcome::AlreadyStarted);
        }
        if players.len() > self.participant_count {
            return Err(
                SessionError::ParticipantCountMismatch {
                    expected: self.participant_count,
                    found: players.len(),
                },
            );
        }
        let start = self.peers.len();
        let ghost old_peers = self.peers@;
        let ghost count = self.participant_count as nat;
        let lo: usize = if start < players.len() {
            start
        } else {
            players.len()
        };
        let mut i: usize = lo;
        proof {
            assert(players@.subrange(lo as int, lo as int) =~= Seq::<Locality>::empty());
        }
        while i < players.len()
            invariant
                self.wf(),
                !self.started,
                self.participant_count == count,
                start == old_peers.len(),
                lo == (if start < players@.len() { start as int } else { players@.len() as int }),
                lo <= i <= players@.len(),
                players@.len() <= count,
                lo < players@.len() ==> self.peers@.len() == i,
                self.peers@ == spec_announce_all(
                    count,
                    old_peers,
                    players@.subrange(lo as int, i as int),
                ),
            decreases players@.len() - i,
        {
            proof {
                assert(players@.subrange(lo as int, i + 1).drop_last() =~= players@.subrange(
                    lo as int,
                    i as int,
                ));
            }
            self.announce(players[i].duplicate());
            i = i + 1;
        }
        proof {
            if start < players@.len() {
                assert(players@.subrange(start as int, players@.len() as int) =~= players@.skip(
                    start as int,
                ));
            } else {
                assert(players@.subrange(lo as int, i as int) =~= Seq::<Locality>::empty());
            }
        }
        if self.peers.len() < self.participant_count {
            return Ok(WaitOutcome::Waiting);
        }
        self.started = true;
        let config = match create_session_builder(self.participant_count) {
            Ok(c) => c,
            Err(e) => {
                return Err(e);
            },
        };
        match plan_session(config, &self.peers) {
            Ok(p) => Ok(WaitOutcome::Start(p)),
            Err(e) => Err(e),
        }
    }
}

} // verus!
