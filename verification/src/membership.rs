//! The membership law of a room over a whole run.
//!
//! A room's membership changes only when a session joins on
//! registration ([`crate::room::Room::add_player`], one entry added) or
//! leaves on teardown ([`crate::room::Room::remove_player_by_addr`], one
//! entry removed). This module states the law that follows for any run:
//! at every point, the number of players equals the number of sessions
//! that joined and have not left.

use vstd::prelude::*;

verus! {

/// One membership event of a room's run; a session is named by its inbox
/// handle.
#[derive(PartialEq, Eq, Structural, Clone, Copy, Debug)]
pub enum RoomEvent {
    Join { session: u64 },
    Leave { session: u64 },
}

/// The sessions that are live — joined and not yet left — after a run of
/// events.
pub open spec fn live_sessions(tr: Seq<RoomEvent>) -> Set<u64>
    decreases tr.len(),
{
    if tr.len() == 0 {
        Set::empty()
    } else {
        match tr.last() {
            RoomEvent::Join { session } => live_sessions(tr.drop_last()).insert(session),
            RoomEvent::Leave { session } => live_sessions(tr.drop_last()).remove(session),
        }
    }
}

/// A run a room can actually see: a session joins only while it is not
/// live (each address registers once), and leaves only while it is.
pub open spec fn wf_trace(tr: Seq<RoomEvent>) -> bool
    decreases tr.len(),
{
    if tr.len() == 0 {
        true
    } else {
        &&& wf_trace(tr.drop_last())
        &&& match tr.last() {
            RoomEvent::Join { session } => !live_sessions(tr.drop_last()).contains(session),
            RoomEvent::Leave { session } => live_sessions(tr.drop_last()).contains(session),
        }
    }
}

/// How many sessions joined over the run.
pub open spec fn join_count(tr: Seq<RoomEvent>) -> int
    decreases tr.len(),
{
    if tr.len() == 0 {
        0
    } else {
        join_count(tr.drop_last()) + match tr.last() {
            RoomEvent::Join { .. } => 1int,
            RoomEvent::Leave { .. } => 0int,
        }
    }
}

/// How many sessions left over the run.
pub open spec fn leave_count(tr: Seq<RoomEvent>) -> int
    decreases tr.len(),
{
    if tr.len() == 0 {
        0
    } else {
        leave_count(tr.drop_last()) + match tr.last() {
            RoomEvent::Join { .. } => 0int,
            RoomEvent::Leave { .. } => 1int,
        }
    }
}

/// For any run of join and leave events, at every point the number of
/// live sessions equals the number of joins minus the number of leaves —
/// and since a join adds exactly one player entry and a leave removes
/// exactly one, that is the size of the room's membership.
pub proof fn lemma_membership_size(tr: Seq<RoomEvent>)
    requires
        wf_trace(tr),
    ensures
        live_sessions(tr).finite(),
        live_sessions(tr).len() == join_count(tr) - leave_count(tr),
    decreases tr.len(),
{
    if tr.len() > 0 {
        let front = tr.drop_last();
        lemma_membership_size(front);
        match tr.last() {
            RoomEvent::Join { session } => {
                assert(!live_sessions(front).contains(session));
                vstd::set::axiom_set_insert_len(live_sessions(front), session);
            },
            RoomEvent::Leave { session } => {
                assert(live_sessions(front).contains(session));
                vstd::set::axiom_set_remove_len(live_sessions(front), session);
            },
        }
    }
}

} // verus!
