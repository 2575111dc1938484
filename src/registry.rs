use vstd::prelude::*;

use crate::error::SessionError;

verus! {

/// Where a participant runs, seen from this peer.
#[derive(Debug, PartialEq, Eq)]
pub enum Locality {
    /// On this peer: its input is sampled here.
    Local,
    /// On another peer, reached at the given address.
    Remote(String),
}

impl Locality {
    pub open spec fn is_local(&self) -> bool {
        self is Local
    }

    /// A copy of this locality.
    pub fn duplicate(&self) -> (r: Locality)
        ensures
            r == *self,
    {
        match self {
            Locality::Local => Locality::Local,
            Locality::Remote(a) => Locality::Remote(a.clone()),
        }
    }
}

/// A participant's session-wide position and where it runs.
#[derive(Debug, PartialEq, Eq)]
pub struct PlayerSlot {
    pub handle: usize,
    pub locality: Locality,
}

/// The handles of the participants that are local to this peer, in slot order.
#[derive(Debug, PartialEq, Eq)]
pub struct LocalHandles {
    pub handles: Vec<usize>,
}

/// The descriptor that marks a local slot.
pub open spec fn local_descriptor() -> Seq<char> {
    seq!['l', 'o', 'c', 'a', 'l', 'h', 'o', 's', 't']
}

/// The locality a direct-addressing descriptor stands for.
pub open spec fn spec_locality_of(d: String) -> Locality {
    if d@ == local_descriptor() {
        Locality::Local
    } else {
        Locality::Remote(d)
    }
}

/// Classifies a direct-addressing descriptor: `localhost` is a local slot, any
/// other text is the address of a remote one.
pub fn descriptor_locality(d: &String) -> (r: Locality)
    ensures
        r == spec_locality_of(*d),
{
    let local = "localhost".to_owned();
    proof {
        reveal_strlit("localhost");
        assert(local@ =~= local_descriptor());
    }
    if *d == local {
        Locality::Local
    } else {
        Locality::Remote(d.clone())
    }
}

/// The localities of an ordered list of descriptors, position for position.
pub fn direct_participants(players: &Vec<String>) -> (r: Vec<Locality>)
    ensures
        r@.len() == players@.len(),
        forall|i: int| 0 <= i < r@.len() ==> r@[i] == spec_locality_of(players@[i]),
{
    let mut r: Vec<Locality> = Vec::new();
    let mut i: usize = 0;
    while i < players.len()
        invariant
            i <= players@.len(),
            r@.len() == i,
            forall|j: int| 0 <= j < i ==> r@[j] == spec_locality_of(players@[j]),
        decreases players@.len() - i,
    {
        r.push(descriptor_locality(&players[i]));
        i = i + 1;
    }
    r
}

/// Slot `i` holds handle `i` and the locality of participant `i`.
pub open spec fn slots_match(slots: Seq<PlayerSlot>, participants: Seq<Locality>) -> bool {
    &&& slots.len() == participants.len()
    &&& forall|i: int|
        0 <= i < slots.len() ==> (#[trigger] slots[i]).handle == i && slots[i].locality == participants[i]
}

/// Assigns each participant the slot of its position in the list; fails with
/// `ParticipantCountMismatch` unless the list has exactly `participant_count`
/// entries.
pub fn build_slots(participants: &Vec<Locality>, participant_count: usize) -> (r: Result<
    Vec<PlayerSlot>,
    SessionError,
>)
    ensures
        participants@.len() != participant_count <==> r == Err::<Vec<PlayerSlot>, SessionError>(
            SessionError::ParticipantCountMismatch {
                expected: participant_count,
                found: participants.len(),
            },
        ),
        participants@.len() == participant_count ==> r is Ok,
        r is Ok ==> slots_match(r->Ok_0@, participants@),
{
    if participants.len() != participant_count {
        return Err(
            SessionError::ParticipantCountMismatch {
                expected: participant_count,
                found: participants.len(),
            },
        );
    }
    let mut slots: Vec<PlayerSlot> = Vec::new();
    let mut i: usize = 0;
    while i < participants.len()
        invariant
            i <= participants@.len(),
            slots@.len() == i,
            forall|j: int|
                0 <= j < i ==> slots@[j].handle == j && slots@[j].locality == participants@[j],
        decreases participants@.len() - i,
    {
        slots.push(PlayerSlot { handle: i, locality: participants[i].duplicate() });
        i = i + 1;
    }
    Ok(slots)
}

/// The handles of the local slots, in slot order.
pub open spec fn spec_local_handles(slots: Seq<PlayerSlot>) -> Seq<usize>
    decreases slots.len(),
{
    if slots.len() == 0 {
        Seq::empty()
    } else {
        let rest = spec_local_handles(slots.drop_last());
        if slots.last().locality.is_local() {
            rest.push(slots.last().handle)
        } else {
            rest
        }
    }
}

/// Picks out the handles of the local slots, in slot order; fails with
/// `NoLocalParticipant` when there is none.
pub fn local_handles(slots: &Vec<PlayerSlot>) -> (r: Result<LocalHandles, SessionError>)
    ensures
        spec_local_handles(slots@).len() == 0 <==> r == Err::<LocalHandles, SessionError>(
            SessionError::NoLocalParticipant,
        ),
        spec_local_handles(slots@).len() > 0 ==> r is Ok,
        r is Ok ==> r->Ok_0.handles@ == spec_local_handles(slots@),
{
    let mut handles: Vec<usize> = Vec::new();
    let mut i: usize = 0;
    while i < slots.len()
        invariant
            i <= slots@.len(),
            handles@ == spec_local_handles(slots@.subrange(0, i as int)),
        decreases slots@.len() - i,
    {
        proof {
            assert(slots@.subrange(0, i + 1).drop_last() =~= slots@.subrange(0, i as int));
        }
        if let Locality::Local = slots[i].locality {
            handles.push(slots[i].handle);
        }
        i = i + 1;
    }
    proof {
        assert(slots@.subrange(0, slots@.len() as int) =~= slots@);
    }
    if handles.len() == 0 {
        return Err(SessionError::NoLocalParticipant);
    }
    Ok(LocalHandles { handles })
}

/// Handles of slots built from a participant list are exactly the positions of
/// the local participants: a position is listed if and only if that participant
/// is local, and the list is strictly increasing.
pub proof fn lemma_local_handles_are_local_positions(
    slots: Seq<PlayerSlot>,
    participants: Seq<Locality>,
)
    requires
        slots_match(slots, participants),
    ensures
        forall|k: int|
            0 <= k < spec_local_handles(slots).len() ==> {
                let h = #[trigger] spec_local_handles(slots)[k];
                h < participants.len() && participants[h as int].is_local()
            },
        forall|h: int|
            0 <= h < participants.len() && participants[h].is_local() ==> spec_local_handles(
                slots,
            ).contains(h as usize),
        forall|a: int, b: int|
            0 <= a < b < spec_local_handles(slots).len() ==> spec_local_handles(slots)[a]
                < spec_local_handles(slots)[b],
    decreases slots.len(),
{
    if slots.len() > 0 {
        let s2 = slots.drop_last();
        let p2 = participants.drop_last();
        assert(slots_match(s2, p2));
        lemma_local_handles_are_local_positions(s2, p2);
        let rest = spec_local_handles(s2);
        let all = spec_local_handles(slots);
        let last = (slots.len() - 1) as int;
        assert(slots[last].handle == last);
        assert(slots.last() == slots[last]);
        assert forall|k: int| 0 <= k < rest.len() implies #[trigger] rest[k] < last by {
            assert(rest[k] < p2.len());
        }
        if slots.last().locality.is_local() {
            assert(all == rest.push(slots.last().handle));
            assert forall|k: int| 0 <= k < all.len() implies ({
                let h = #[trigger] all[k];
                h < participants.len() && participants[h as int].is_local()
            }) by {
                if k < rest.len() {
                    assert(all[k] == rest[k]);
                    assert(p2[rest[k] as int] == participants[rest[k] as int]);
                }
            }
        } else {
            assert(all == rest);
            assert forall|k: int| 0 <= k < all.len() implies ({
                let h = #[trigger] all[k];
                h < participants.len() && participants[h as int].is_local()
            }) by {
                assert(p2[rest[k] as int] == participants[rest[k] as int]);
            }
        }
        assert forall|h: int|
            0 <= h < participants.len() && participants[h].is_local() implies all.contains(
            h as usize,
        ) by {
            if h < last {
                assert(p2[h] == participants[h]);
                let k = choose|k: int| 0 <= k < rest.len() && rest[k] == h as usize;
                if slots.last().locality.is_local() {
                    assert(all[k] == h as usize);
                }
            } else {
                assert(all == rest.push(slots.last().handle));
                assert(all[rest.len() as int] == h as usize);
            }
        }
    }
}

} // verus!
