//! What is passed on between those who take part in a project.

use vstd::prelude::*;

use crate::collab::error::HandlerError;
use crate::collab::ids::{contains_connection, ConnectionId};
use crate::collab::plan::{broadcast, forwards, law_broadcast_keeps_the_order, others};
use crate::collab::plan::{push_forwards, OnFailure, Step};
use crate::collab::response::Response;
use crate::sequences::{lemma_filter_at_rank, lemma_rank_ends, rank};

verus! {

/// A message to a project, to everyone but the sender.
pub open spec fn relay_steps(sender_id: ConnectionId, receiver_ids: Seq<ConnectionId>) -> Seq<Step> {
    forwards(sender_id, others(sender_id, receiver_ids), OnFailure::Log)
}

/// What to do with a message to a project: send it on to everyone but the sender.
pub fn relay(sender_id: ConnectionId, receiver_ids: &[ConnectionId]) -> (plan: Vec<Step>)
    ensures
        plan@ == relay_steps(sender_id, receiver_ids@),
{
    let receivers: Vec<ConnectionId> = broadcast(sender_id, receiver_ids);
    let mut plan: Vec<Step> = Vec::new();
    push_forwards(&mut plan, sender_id, receivers.as_slice(), OnFailure::Log);
    assert(plan@ =~= relay_steps(sender_id, receiver_ids@));
    plan
}

/// What to do with a request that only has to reach the others in a project: send it on to
/// everyone but the sender, and answer.
pub fn relay_and_respond(sender_id: ConnectionId, receiver_ids: &[ConnectionId]) -> (plan: Vec<Step>)
    ensures
        plan@ == relay_steps(sender_id, receiver_ids@).push(
            Step::Respond { response: Response::Ack },
        ),
        plan@.len() == others(sender_id, receiver_ids@).len() + 1,
        plan@.last() == (Step::Respond { response: Response::Ack }),
{
    let mut plan: Vec<Step> = relay(sender_id, receiver_ids);
    plan.push(Step::Respond { response: Response::Ack });
    plan
}

/// A message to a project reaches everyone in it but the sender, in order, once for each time that
/// they are named, in the name of the sender; it reaches no one else.
pub proof fn law_a_relay_reaches_all_others(
    sender_id: ConnectionId,
    receiver_ids: Seq<ConnectionId>,
)
    ensures
        relay_steps(sender_id, receiver_ids).len() == receiver_ids.filter(
            |id: ConnectionId| id != sender_id,
        ).len(),
        forall|index: int|
            #![trigger receiver_ids[index]]
            0 <= index < receiver_ids.len() && receiver_ids[index] != sender_id ==> {
                let place = rank(receiver_ids, |id: ConnectionId| id != sender_id, index);
                &&& place < relay_steps(sender_id, receiver_ids).len()
                &&& relay_steps(sender_id, receiver_ids)[place as int] == (Step::Forward {
                    from: sender_id,
                    to: receiver_ids[index],
                    on_failure: OnFailure::Log,
                })
            },
{
    law_broadcast_keeps_the_order(sender_id, receiver_ids);
}

/// The host's reply, to each of some connections, in the host's name.
pub open spec fn reply_forwards(host: ConnectionId, to: Seq<ConnectionId>) -> Seq<Step> {
    Seq::new(
        to.len(),
        |index: int|
            Step::ForwardReply { from: host, to: to[index], on_failure: OnFailure::Log },
    )
}

/// What is done once the host has saved a buffer.
pub open spec fn save_steps(
    sender_id: ConnectionId,
    host: ConnectionId,
    connection_ids: Seq<ConnectionId>,
) -> Seq<Step> {
    reply_forwards(host, others(host, others(sender_id, connection_ids))).push(
        Step::Respond { response: Response::HostReply },
    )
}

/// What to do once the host has saved a buffer: everyone but the host and the one who asked
/// for it hears of it from the host, and the one who asked gets the host's reply.
pub fn save_buffer(
    sender_id: ConnectionId,
    host: ConnectionId,
    connection_ids: &[ConnectionId],
) -> (plan: Vec<Step>)
    ensures
        plan@ == save_steps(sender_id, host, connection_ids@),
{
    let guests: Vec<ConnectionId> = broadcast(sender_id, connection_ids);
    let receivers: Vec<ConnectionId> = broadcast(host, guests.as_slice());
    let ghost steps = reply_forwards(host, receivers@);
    let mut plan: Vec<Step> = Vec::new();
    let mut index: usize = 0;
    assert(plan@ =~= steps.take(0));
    while index < receivers.len()
        invariant
            index <= receivers@.len(),
            steps == reply_forwards(host, receivers@),
            plan@ == steps.take(index as int),
        decreases receivers@.len() - index,
    {
        plan.push(
            Step::ForwardReply { from: host, to: receivers[index], on_failure: OnFailure::Log },
        );
        index += 1;
        assert(plan@ =~= steps.take(index as int));
    }
    assert(steps.take(index as int) =~= steps);
    plan.push(Step::Respond { response: Response::HostReply });
    plan
}

/// Leaving out one and then another leaves out both.
proof fn lemma_others_twice(
    first: ConnectionId,
    second: ConnectionId,
    ids: Seq<ConnectionId>,
)
    ensures
        others(second, others(first, ids)) == ids.filter(
            |id: ConnectionId| id != first && id != second,
        ),
    decreases ids.len(),
{
    reveal(Seq::filter);
    if ids.len() > 0 {
        lemma_others_twice(first, second, ids.drop_last());
        let kept = others(first, ids);
        if ids.last() != first {
            assert(kept.drop_last() =~= others(first, ids.drop_last()));
        }
    }
}

/// That a buffer was saved reaches everyone in the project but the host and the one who asked for
/// it, in order and in the host's name, and the one who asked gets the host's reply last.
pub proof fn law_a_save_reaches_all_others(
    sender_id: ConnectionId,
    host: ConnectionId,
    connection_ids: Seq<ConnectionId>,
)
    ensures
        save_steps(sender_id, host, connection_ids).len() == connection_ids.filter(
            |id: ConnectionId| id != sender_id && id != host,
        ).len() + 1,
        save_steps(sender_id, host, connection_ids).last() == (Step::Respond {
            response: Response::HostReply,
        }),
        forall|index: int|
            #![trigger connection_ids[index]]
            0 <= index < connection_ids.len() && connection_ids[index] != sender_id
                && connection_ids[index] != host ==> {
                let place = rank(
                    connection_ids,
                    |id: ConnectionId| id != sender_id && id != host,
                    index,
                );
                &&& place + 1 < save_steps(sender_id, host, connection_ids).len()
                &&& save_steps(sender_id, host, connection_ids)[place as int]
                    == (Step::ForwardReply {
                    from: host,
                    to: connection_ids[index],
                    on_failure: OnFailure::Log,
                })
            },
{
    let wanted = |id: ConnectionId| id != sender_id && id != host;
    lemma_others_twice(sender_id, host, connection_ids);
    assert forall|index: int|
        #![trigger connection_ids[index]]
        0 <= index < connection_ids.len() && connection_ids[index] != sender_id
            && connection_ids[index] != host implies {
        let place = rank(connection_ids, wanted, index);
        &&& place + 1 < save_steps(sender_id, host, connection_ids).len()
        &&& save_steps(sender_id, host, connection_ids)[place as int] == (Step::ForwardReply {
            from: host,
            to: connection_ids[index],
            on_failure: OnFailure::Log,
        })
    } by {
        lemma_filter_at_rank(connection_ids, wanted, index);
    }
}

/// What to do with a buffer that is meant for one peer: send it on to that peer.
pub fn create_buffer_for_peer(sender_id: ConnectionId, peer_id: u32) -> (plan: Vec<Step>)
    ensures
        plan@ == seq![
            Step::Forward {
                from: sender_id,
                to: ConnectionId(peer_id),
                on_failure: OnFailure::Abort,
            },
        ],
{
    let mut plan: Vec<Step> = Vec::new();
    plan.push(
        Step::Forward {
            from: sender_id,
            to: ConnectionId(peer_id),
            on_failure: OnFailure::Abort,
        },
    );
    plan
}

/// Whom to follow: the leader has to take part in the project.
pub fn leader_to_follow(leader_id: u32, connection_ids: &[ConnectionId]) -> (outcome: Result<
    ConnectionId,
    HandlerError,
>)
    ensures
        outcome == (if connection_ids@.contains(ConnectionId(leader_id)) {
            Ok(ConnectionId(leader_id))
        } else {
            Err(HandlerError::NoSuchPeer)
        }),
{
    let leader = ConnectionId(leader_id);
    if contains_connection(connection_ids, leader) {
        Ok(leader)
    } else {
        Err(HandlerError::NoSuchPeer)
    }
}

/// A view that a leader shows, and whose view it follows in turn.
#[derive(Clone, Copy, Debug, PartialEq, Eq, Structural)]
pub struct FollowedView {
    pub id: u64,
    pub leader_id: Option<u32>,
}

/// The views that a follower is shown: all but those that follow the follower.
pub open spec fn views_for(follower_id: ConnectionId, views: Seq<FollowedView>) -> Seq<
    FollowedView,
> {
    views.filter(|view: FollowedView| view.leader_id != Some(follower_id.0))
}

/// The views that a follower is shown.
pub fn follow(follower_id: ConnectionId, views: &[FollowedView]) -> (shown: Vec<FollowedView>)
    ensures
        shown@ == views_for(follower_id, views@),
{
    let mut shown: Vec<FollowedView> = Vec::new();
    let mut index: usize = 0;
    proof {
        reveal(Seq::filter);
        assert(views@.take(0) =~= Seq::<FollowedView>::empty());
    }
    while index < views.len()
        invariant
            index <= views@.len(),
            shown@ == views_for(follower_id, views@.take(index as int)),
        decreases views@.len() - index,
    {
        proof {
            reveal(Seq::filter);
            assert(views@.take(index + 1).drop_last() =~= views@.take(index as int));
        }
        let follows_follower: bool = match views[index].leader_id {
            Some(leader_id) => leader_id == follower_id.0,
            None => false,
        };
        if !follows_follower {
            shown.push(views[index]);
        }
        index += 1;
    }
    assert(views@.take(index as int) =~= views@);
    shown
}

/// A follower is shown every view of the leader that does not follow the follower, in order and
/// unchanged, and no other.
pub proof fn law_every_view_of_others_is_shown(
    follower_id: ConnectionId,
    views: Seq<FollowedView>,
)
    ensures
        views_for(follower_id, views).len() == views.filter(
            |view: FollowedView| view.leader_id is None || view.leader_id != Some(follower_id.0),
        ).len(),
        forall|index: int|
            #![trigger views[index]]
            0 <= index < views.len() && (views[index].leader_id is None
                || views[index].leader_id->0 != follower_id.0) ==> {
                let place = rank(
                    views,
                    |view: FollowedView|
                        view.leader_id is None || view.leader_id != Some(follower_id.0),
                    index,
                );
                &&& place < views_for(follower_id, views).len()
                &&& views_for(follower_id, views)[place as int] == views[index]
            },
        forall|index: int|
            0 <= index < views_for(follower_id, views).len() ==> (#[trigger] views_for(
                follower_id,
                views,
            )[index]).leader_id != Some(follower_id.0),
{
    let wanted = |view: FollowedView|
        view.leader_id is None || view.leader_id != Some(follower_id.0);
    let kept = |view: FollowedView| view.leader_id != Some(follower_id.0);
    assert(wanted =~= kept);
    assert(views_for(follower_id, views) == views.filter(kept));
    assert forall|index: int|
        #![trigger views[index]]
        0 <= index < views.len() && (views[index].leader_id is None || views[index].leader_id->0
            != follower_id.0) implies {
        let place = rank(views, wanted, index);
        &&& place < views_for(follower_id, views).len()
        &&& views_for(follower_id, views)[place as int] == views[index]
    } by {
        lemma_filter_at_rank(views, wanted, index);
    }
    let shown = views_for(follower_id, views);
    assert forall|index: int| 0 <= index < shown.len() implies (#[trigger] shown[index]).leader_id
        != Some(follower_id.0) by {
        views.lemma_filter_pred(kept, index);
    }
}

/// What to do when someone no longer follows a leader: tell the leader.
pub fn unfollow(sender_id: ConnectionId, leader_id: ConnectionId) -> (plan: Vec<Step>)
    ensures
        plan@ == seq![
            Step::Forward { from: sender_id, to: leader_id, on_failure: OnFailure::Abort },
        ],
{
    let mut plan: Vec<Step> = Vec::new();
    plan.push(Step::Forward { from: sender_id, to: leader_id, on_failure: OnFailure::Abort });
    plan
}

/// What changed in a leader's views. Each change may stem from someone whom the leader follows
/// in turn.
#[derive(Clone, Copy, Debug, PartialEq, Eq, Structural)]
pub enum FollowersUpdate {
    CreateView { leader_id: Option<u32> },
    UpdateView { leader_id: Option<u32> },
    UpdateActiveView { leader_id: Option<u32> },
}

/// From whom a change stems.
pub open spec fn origin(update: Option<FollowersUpdate>) -> Option<u32> {
    match update {
        Some(FollowersUpdate::CreateView { leader_id }) => leader_id,
        Some(FollowersUpdate::UpdateView { leader_id }) => leader_id,
        Some(FollowersUpdate::UpdateActiveView { leader_id }) => leader_id,
        None => None,
    }
}

/// The followers who hear of a change: those who take part in the project, but for the one
/// from whom it stems.
pub open spec fn followers_to_tell(
    update: Option<FollowersUpdate>,
    follower_ids: Seq<u32>,
    connection_ids: Seq<ConnectionId>,
) -> Seq<ConnectionId>
    decreases follower_ids.len(),
{
    if follower_ids.len() == 0 {
        Seq::empty()
    } else {
        let rest = followers_to_tell(update, follower_ids.drop_last(), connection_ids);
        let follower = ConnectionId(follower_ids.last());
        if connection_ids.contains(follower) && origin(update) != Some(follower.0) {
            rest.push(follower)
        } else {
            rest
        }
    }
}

/// What is done when the views of a leader changed.
pub open spec fn follower_steps(
    sender_id: ConnectionId,
    update: Option<FollowersUpdate>,
    follower_ids: Seq<u32>,
    connection_ids: Seq<ConnectionId>,
) -> Seq<Step> {
    forwards(
        sender_id,
        followers_to_tell(update, follower_ids, connection_ids),
        OnFailure::Abort,
    )
}

/// What to do when the views of a leader changed: send the change on to the followers.
pub fn update_followers(
    sender_id: ConnectionId,
    update: Option<FollowersUpdate>,
    follower_ids: &[u32],
    connection_ids: &[ConnectionId],
) -> (plan: Vec<Step>)
    ensures
        plan@ == follower_steps(sender_id, update, follower_ids@, connection_ids@),
{
    let leader_id: Option<u32> = match update {
        Some(FollowersUpdate::CreateView { leader_id }) => leader_id,
        Some(FollowersUpdate::UpdateView { leader_id }) => leader_id,
        Some(FollowersUpdate::UpdateActiveView { leader_id }) => leader_id,
        None => None,
    };
    let mut receivers: Vec<ConnectionId> = Vec::new();
    let mut index: usize = 0;
    assert(follower_ids@.take(0) =~= Seq::<u32>::empty());
    while index < follower_ids.len()
        invariant
            index <= follower_ids@.len(),
            leader_id == origin(update),
            receivers@ == followers_to_tell(
                update,
                follower_ids@.take(index as int),
                connection_ids@,
            ),
        decreases follower_ids@.len() - index,
    {
        assert(follower_ids@.take(index + 1).drop_last() =~= follower_ids@.take(index as int));
        let follower_id = ConnectionId(follower_ids[index]);
        let is_origin: bool = match leader_id {
            Some(leader_id) => leader_id == follower_id.0,
            None => false,
        };
        if contains_connection(connection_ids, follower_id) && !is_origin {
            receivers.push(follower_id);
        }
        index += 1;
    }
    assert(follower_ids@.take(index as int) =~= follower_ids@);
    let mut plan: Vec<Step> = Vec::new();
    push_forwards(&mut plan, sender_id, receivers.as_slice(), OnFailure::Abort);
    assert(plan@ =~= forwards(sender_id, receivers@, OnFailure::Abort));
    plan
}

/// A change is sent only to those who take part in the project, and never back to the one
/// from whom it stems.
pub proof fn law_changes_do_not_come_back(
    update: Option<FollowersUpdate>,
    follower_ids: Seq<u32>,
    connection_ids: Seq<ConnectionId>,
)
    ensures
        forall|index: int|
            0 <= index < followers_to_tell(update, follower_ids, connection_ids).len() ==> {
                let follower = #[trigger] followers_to_tell(
                    update,
                    follower_ids,
                    connection_ids,
                )[index];
                connection_ids.contains(follower) && origin(update) != Some(follower.0)
            },
    decreases follower_ids.len(),
{
    if follower_ids.len() > 0 {
        law_changes_do_not_come_back(update, follower_ids.drop_last(), connection_ids);
        let rest = followers_to_tell(update, follower_ids.drop_last(), connection_ids);
        let all = followers_to_tell(update, follower_ids, connection_ids);
        assert forall|index: int| 0 <= index < all.len() implies connection_ids.contains(
            #[trigger] all[index],
        ) && origin(update) != Some(all[index].0) by {
            if index < rest.len() {
                assert(all[index] == rest[index]);
            }
        }
    }
}

/// Whether `follower_id` takes part in the project, and a change does not stem from them.
pub open spec fn hears_of(
    update: Option<FollowersUpdate>,
    connection_ids: Seq<ConnectionId>,
    follower_id: u32,
) -> bool {
    &&& connection_ids.contains(ConnectionId(follower_id))
    &&& update != Some(FollowersUpdate::CreateView { leader_id: Some(follower_id) })
    &&& update != Some(FollowersUpdate::UpdateView { leader_id: Some(follower_id) })
    &&& update != Some(FollowersUpdate::UpdateActiveView { leader_id: Some(follower_id) })
}

/// Whatever the change, every follower named with it who takes part in the project, and from whom it
/// does not stem, is sent it, in order and in the name of the sender; no one else is.
pub proof fn law_every_other_follower_is_told(
    sender_id: ConnectionId,
    update: Option<FollowersUpdate>,
    follower_ids: Seq<u32>,
    connection_ids: Seq<ConnectionId>,
)
    ensures
        follower_steps(sender_id, update, follower_ids, connection_ids).len()
            == follower_ids.filter(|id: u32| hears_of(update, connection_ids, id)).len(),
        forall|index: int|
            #![trigger follower_ids[index]]
            0 <= index < follower_ids.len() && hears_of(
                update,
                connection_ids,
                follower_ids[index],
            ) ==> {
                let plan = follower_steps(sender_id, update, follower_ids, connection_ids);
                let place = rank(
                    follower_ids,
                    |id: u32| hears_of(update, connection_ids, id),
                    index,
                );
                &&& place < plan.len()
                &&& plan[place as int] == (Step::Forward {
                    from: sender_id,
                    to: ConnectionId(follower_ids[index]),
                    on_failure: OnFailure::Abort,
                })
            },
    decreases follower_ids.len(),
{
    reveal(Seq::filter);
    let wanted = |id: u32| hears_of(update, connection_ids, id);
    if follower_ids.len() > 0 {
        let rest = follower_ids.drop_last();
        law_every_other_follower_is_told(sender_id, update, rest, connection_ids);
        let plan = follower_steps(sender_id, update, follower_ids, connection_ids);
        let earlier = follower_steps(sender_id, update, rest, connection_ids);
        assert(forall|at: int| 0 <= at < earlier.len() ==> plan[at] == earlier[at]);
        lemma_rank_ends(rest, wanted);
        assert forall|index: int|
            #![trigger follower_ids[index]]
            0 <= index < follower_ids.len() && hears_of(
                update,
                connection_ids,
                follower_ids[index],
            ) implies {
            let place = rank(follower_ids, wanted, index);
            &&& place < plan.len()
            &&& plan[place as int] == (Step::Forward {
                from: sender_id,
                to: ConnectionId(follower_ids[index]),
                on_failure: OnFailure::Abort,
            })
        } by {
            if index < rest.len() {
                assert(rest.take(index) =~= follower_ids.take(index));
                assert(rest[index] == follower_ids[index]);
            } else {
                assert(follower_ids.take(index) =~= rest);
                assert(rest.take(index) =~= rest);
            }
        }
    }
}

} // verus!
