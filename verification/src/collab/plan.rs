//! Plans: what the server does in answer to something, step by step.

use vstd::prelude::*;

use crate::collab::error::HandlerError;
use crate::collab::ids::{ConnectionId, ProjectId, UserId};
use crate::collab::message::Message;
use crate::collab::response::Response;
use crate::sequences::{lemma_filter_at_rank, rank};

verus! {

/// What to do when a step fails.
#[derive(Clone, Copy, Debug, PartialEq, Eq, Structural)]
pub enum OnFailure {
    /// Take no further step, and fail with the same error.
    Abort,
    /// Write the error to the log, and go on.
    Log,
}

/// One thing to do.
#[derive(Debug, PartialEq, Eq)]
pub enum Step {
    /// Send a message of the server's own.
    Send { to: ConnectionId, message: Message, on_failure: OnFailure },
    /// Send on what was received, in the name of who sent it.
    Forward { from: ConnectionId, to: ConnectionId, on_failure: OnFailure },
    /// Send on the reply that came to a request, in the name of who replied.
    ForwardReply { from: ConnectionId, to: ConnectionId, on_failure: OnFailure },
    /// Ask a client something and do not wait for the reply.
    Request { to: ConnectionId, message: Message },
    /// Answer the request.
    Respond { response: Response },
    /// Tell the contacts of a user what changed with that user.
    UpdateUserContacts { user_id: UserId, on_failure: OnFailure },
    /// Tell the caller of the server who the new connection is.
    AnnounceConnection { connection_id: ConnectionId },
    /// Remember that a user has been connected.
    SetConnectedOnce { user_id: UserId },
    /// Remove someone from a video room and then, if told so, the room.
    LeaveVideoRoom { room: String, identity: String, delete_room: bool },
    /// Remove a project that is no longer shared from the records.
    UnregisterProject { project_id: ProjectId },
}

impl Step {
    /// What to do when this step fails.
    pub open spec fn policy(self) -> OnFailure {
        match self {
            Step::Send { on_failure, .. } => on_failure,
            Step::Forward { on_failure, .. } => on_failure,
            Step::ForwardReply { on_failure, .. } => on_failure,
            Step::Request { .. } => OnFailure::Log,
            Step::Respond { .. } => OnFailure::Abort,
            Step::UpdateUserContacts { on_failure, .. } => on_failure,
            Step::AnnounceConnection { .. } => OnFailure::Log,
            Step::SetConnectedOnce { .. } => OnFailure::Abort,
            Step::LeaveVideoRoom { .. } => OnFailure::Log,
            Step::UnregisterProject { .. } => OnFailure::Log,
        }
    }

    /// What to do when this step fails.
    pub fn on_failure(&self) -> (on_failure: OnFailure)
        ensures
            on_failure == self.policy(),
    {
        match self {
            Step::Send { on_failure, .. } => *on_failure,
            Step::Forward { on_failure, .. } => *on_failure,
            Step::ForwardReply { on_failure, .. } => *on_failure,
            Step::Request { .. } => OnFailure::Log,
            Step::Respond { .. } => OnFailure::Abort,
            Step::UpdateUserContacts { on_failure, .. } => *on_failure,
            Step::AnnounceConnection { .. } => OnFailure::Log,
            Step::SetConnectedOnce { .. } => OnFailure::Abort,
            Step::LeaveVideoRoom { .. } => OnFailure::Log,
            Step::UnregisterProject { .. } => OnFailure::Log,
        }
    }
}

/// The same message to each of some connections, in order.
pub open spec fn sends(
    to: Seq<ConnectionId>,
    message: Message,
    on_failure: OnFailure,
) -> Seq<Step> {
    Seq::new(to.len(), |index: int| Step::Send { to: to[index], message, on_failure })
}

/// What was received, sent on to each of some connections, in order.
pub open spec fn forwards(
    from: ConnectionId,
    to: Seq<ConnectionId>,
    on_failure: OnFailure,
) -> Seq<Step> {
    Seq::new(to.len(), |index: int| Step::Forward { from, to: to[index], on_failure })
}

/// The contacts of each of some users, in order.
pub open spec fn contact_updates(users: Seq<UserId>, on_failure: OnFailure) -> Seq<Step> {
    Seq::new(
        users.len(),
        |index: int| Step::UpdateUserContacts { user_id: users[index], on_failure },
    )
}

/// Adds the same message to each of some connections, in order.
pub fn push_sends(
    plan: &mut Vec<Step>,
    to: &[ConnectionId],
    message: &Message,
    on_failure: OnFailure,
)
    ensures
        final(plan)@ == old(plan)@ + sends(to@, *message, on_failure),
{
    let mut index: usize = 0;
    assert(plan@ =~= old(plan)@ + sends(to@, *message, on_failure).take(0));
    while index < to.len()
        invariant
            index <= to@.len(),
            plan@ == old(plan)@ + sends(to@, *message, on_failure).take(index as int),
        decreases to@.len() - index,
    {
        plan.push(Step::Send { to: to[index], message: message.clone(), on_failure });
        index += 1;
        assert(plan@ =~= old(plan)@ + sends(to@, *message, on_failure).take(index as int));
    }
    assert(sends(to@, *message, on_failure).take(to@.len() as int) =~= sends(
        to@,
        *message,
        on_failure,
    ));
}

/// Adds what was received to each of some connections, in order.
pub fn push_forwards(
    plan: &mut Vec<Step>,
    from: ConnectionId,
    to: &[ConnectionId],
    on_failure: OnFailure,
)
    ensures
        final(plan)@ == old(plan)@ + forwards(from, to@, on_failure),
{
    let mut index: usize = 0;
    assert(plan@ =~= old(plan)@ + forwards(from, to@, on_failure).take(0));
    while index < to.len()
        invariant
            index <= to@.len(),
            plan@ == old(plan)@ + forwards(from, to@, on_failure).take(index as int),
        decreases to@.len() - index,
    {
        plan.push(Step::Forward { from, to: to[index], on_failure });
        index += 1;
        assert(plan@ =~= old(plan)@ + forwards(from, to@, on_failure).take(index as int));
    }
    assert(forwards(from, to@, on_failure).take(to@.len() as int) =~= forwards(
        from,
        to@,
        on_failure,
    ));
}

/// Adds the contacts of each of some users, in order.
pub fn push_contact_updates(plan: &mut Vec<Step>, users: &[UserId], on_failure: OnFailure)
    ensures
        final(plan)@ == old(plan)@ + contact_updates(users@, on_failure),
{
    let mut index: usize = 0;
    assert(plan@ =~= old(plan)@ + contact_updates(users@, on_failure).take(0));
    while index < users.len()
        invariant
            index <= users@.len(),
            plan@ == old(plan)@ + contact_updates(users@, on_failure).take(index as int),
        decreases users@.len() - index,
    {
        plan.push(Step::UpdateUserContacts { user_id: users[index], on_failure });
        index += 1;
        assert(plan@ =~= old(plan)@ + contact_updates(users@, on_failure).take(index as int));
    }
    assert(contact_updates(users@, on_failure).take(users@.len() as int) =~= contact_updates(
        users@,
        on_failure,
    ));
}

/// All receivers but the sender, in order.
pub open spec fn others(sender_id: ConnectionId, receiver_ids: Seq<ConnectionId>) -> Seq<
    ConnectionId,
> {
    receiver_ids.filter(|receiver_id: ConnectionId| receiver_id != sender_id)
}

/// All receivers but the sender, in order.
pub fn broadcast(sender_id: ConnectionId, receiver_ids: &[ConnectionId]) -> (receivers: Vec<
    ConnectionId,
>)
    ensures
        receivers@ == others(sender_id, receiver_ids@),
{
    let mut receivers: Vec<ConnectionId> = Vec::new();
    let mut index: usize = 0;
    proof {
        reveal(Seq::filter);
        assert(receiver_ids@.take(0) =~= Seq::<ConnectionId>::empty());
    }
    while index < receiver_ids.len()
        invariant
            index <= receiver_ids@.len(),
            receivers@ == others(sender_id, receiver_ids@.take(index as int)),
        decreases receiver_ids@.len() - index,
    {
        proof {
            reveal(Seq::filter);
            assert(receiver_ids@.take(index + 1).drop_last() =~= receiver_ids@.take(index as int));
        }
        if receiver_ids[index] != sender_id {
            receivers.push(receiver_ids[index]);
        }
        index += 1;
    }
    assert(receiver_ids@.take(receiver_ids@.len() as int) =~= receiver_ids@);
    receivers
}

/// No one gets what they sent themselves, and everyone else who should get it does.
pub proof fn law_broadcast_spares_the_sender(
    sender_id: ConnectionId,
    receiver_ids: Seq<ConnectionId>,
)
    ensures
        !others(sender_id, receiver_ids).contains(sender_id),
        forall|id: ConnectionId|
            id != sender_id ==> (#[trigger] others(sender_id, receiver_ids).contains(id)
                <==> receiver_ids.contains(id)),
    decreases receiver_ids.len(),
{
    reveal(Seq::filter);
    if receiver_ids.len() > 0 {
        let rest = receiver_ids.drop_last();
        law_broadcast_spares_the_sender(sender_id, rest);
        let kept = others(sender_id, rest);
        let all = others(sender_id, receiver_ids);
        assert(receiver_ids == rest.push(receiver_ids.last()));
        assert forall|id: ConnectionId| id != sender_id implies (#[trigger] all.contains(id)
            <==> receiver_ids.contains(id)) by {
            assert(kept.contains(id) <==> rest.contains(id));
            if all.contains(id) {
                let at = choose|at: int| 0 <= at < all.len() && all[at] == id;
                if at < kept.len() {
                    assert(kept[at] == id);
                    let from = choose|from: int| 0 <= from < rest.len() && rest[from] == id;
                    assert(receiver_ids[from] == id);
                } else {
                    assert(receiver_ids[receiver_ids.len() - 1] == id);
                }
            }
            if receiver_ids.contains(id) {
                let from = choose|from: int|
                    0 <= from < receiver_ids.len() && receiver_ids[from] == id;
                if from < rest.len() {
                    assert(rest[from] == id);
                    let at = choose|at: int| 0 <= at < kept.len() && kept[at] == id;
                    assert(all[at] == id);
                } else {
                    assert(all[all.len() - 1] == id);
                }
            }
        }
        if all.contains(sender_id) {
            let at = choose|at: int| 0 <= at < all.len() && all[at] == sender_id;
            if at < kept.len() {
                assert(kept[at] == sender_id);
            }
        }
    }
}

/// A message to some connections is sent to each of them, in order, as often as it is named.
pub proof fn law_sends_reach_everyone(
    to: Seq<ConnectionId>,
    message: Message,
    on_failure: OnFailure,
)
    ensures
        sends(to, message, on_failure).len() == to.len(),
        forall|index: int|
            0 <= index < to.len() ==> #[trigger] sends(to, message, on_failure)[index]
                == (Step::Send { to: to[index], message, on_failure }),
{
}

/// What was received is sent on to each of some connections, in order, in the name of its sender.
pub proof fn law_forwards_reach_everyone(
    from: ConnectionId,
    to: Seq<ConnectionId>,
    on_failure: OnFailure,
)
    ensures
        forwards(from, to, on_failure).len() == to.len(),
        forall|index: int|
            0 <= index < to.len() ==> #[trigger] forwards(from, to, on_failure)[index]
                == (Step::Forward { from, to: to[index], on_failure }),
{
}

/// The contacts of each of some users are told, in order.
pub proof fn law_contact_updates_reach_everyone(users: Seq<UserId>, on_failure: OnFailure)
    ensures
        contact_updates(users, on_failure).len() == users.len(),
        forall|index: int|
            0 <= index < users.len() ==> #[trigger] contact_updates(users, on_failure)[index]
                == (Step::UpdateUserContacts { user_id: users[index], on_failure }),
{
}

/// Those who differ from the sender are all receivers but the sender.
proof fn lemma_others_is_a_filter(sender_id: ConnectionId, receiver_ids: Seq<ConnectionId>)
    ensures
        others(sender_id, receiver_ids) == receiver_ids.filter(|id: ConnectionId| id != sender_id),
    decreases receiver_ids.len(),
{
    reveal(Seq::filter);
    if receiver_ids.len() > 0 {
        lemma_others_is_a_filter(sender_id, receiver_ids.drop_last());
    }
}

/// Everyone but the sender keeps their place: whoever comes earlier among the receivers comes
/// earlier among those who get a message, and each as often as they are named.
pub proof fn law_broadcast_keeps_the_order(
    sender_id: ConnectionId,
    receiver_ids: Seq<ConnectionId>,
)
    ensures
        others(sender_id, receiver_ids).len() == receiver_ids.filter(
            |id: ConnectionId| id != sender_id,
        ).len(),
        forall|index: int|
            #![trigger receiver_ids[index]]
            0 <= index < receiver_ids.len() && receiver_ids[index] != sender_id ==> {
                let place = rank(receiver_ids, |id: ConnectionId| id != sender_id, index);
                &&& place < others(sender_id, receiver_ids).len()
                &&& others(sender_id, receiver_ids)[place as int] == receiver_ids[index]
            },
{
    let wanted = |id: ConnectionId| id != sender_id;
    lemma_others_is_a_filter(sender_id, receiver_ids);
    assert forall|index: int|
        #![trigger receiver_ids[index]]
        0 <= index < receiver_ids.len() && receiver_ids[index] != sender_id implies {
        let place = rank(receiver_ids, wanted, index);
        &&& place < others(sender_id, receiver_ids).len()
        &&& others(sender_id, receiver_ids)[place as int] == receiver_ids[index]
    } by {
        lemma_filter_at_rank(receiver_ids, wanted, index);
    }
}

/// A plan ends early exactly if an answer cannot be given, if it cannot be put on record that a user
/// was connected, or if a step fails that says so of itself.
pub proof fn law_which_failures_end_a_plan(step: Step)
    ensures
        step.policy() == OnFailure::Abort <==> {
            ||| step is Respond
            ||| step is SetConnectedOnce
            ||| step matches Step::Send { on_failure, .. } && on_failure is Abort
            ||| step matches Step::Forward { on_failure, .. } && on_failure is Abort
            ||| step matches Step::ForwardReply { on_failure, .. } && on_failure is Abort
            ||| step matches Step::UpdateUserContacts { on_failure, .. } && on_failure is Abort
        },
{
}

/// The error with which a plan ends early because of what became of a step.
pub open spec fn failure_of(step: Step, outcome: Result<(), HandlerError>) -> Option<HandlerError> {
    match outcome {
        Err(error) if step.policy() == OnFailure::Abort => Some(error),
        _ => None,
    }
}

/// A plan ends early with the error of the step that failed, never where the step went well, and never
/// where its failure is only written to the log; an answer that cannot be given always ends it.
pub proof fn law_a_plan_ends_with_the_error_of_a_step(step: Step, error: HandlerError)
    ensures
        failure_of(step, Ok(())) is None,
        step is Respond ==> failure_of(step, Err(error)) == Some(error),
        step matches Step::Send { on_failure, .. } ==> failure_of(step, Err(error)) == (
        if on_failure is Abort {
            Some(error)
        } else {
            None
        }),
        step matches Step::Forward { on_failure, .. } ==> failure_of(step, Err(error)) == (
        if on_failure is Abort {
            Some(error)
        } else {
            None
        }),
        step is Request || step is LeaveVideoRoom || step is UnregisterProject ==> failure_of(
            step,
            Err(error),
        ) is None,
{
}

/// A plan that is being carried out.
#[derive(Debug)]
pub struct Runner {
    steps: Vec<Step>,
    next: usize,
    failure: Option<HandlerError>,
}

impl Runner {
    /// All steps.
    pub closed spec fn plan(self) -> Seq<Step> {
        self.steps@
    }

    /// The number of steps taken.
    pub closed spec fn taken(self) -> int {
        self.next as int
    }

    /// The error that ended the plan early.
    pub closed spec fn error(self) -> Option<HandlerError> {
        self.failure
    }

    /// No more steps were taken than there are.
    pub open spec fn wf(self) -> bool {
        0 <= self.taken() <= self.plan().len()
    }

    /// Whether there is nothing left to do.
    pub open spec fn is_over(self) -> bool {
        self.error() is Some || self.taken() == self.plan().len()
    }

    /// Begins to carry out a plan.
    pub fn new(steps: Vec<Step>) -> (runner: Runner)
        ensures
            runner.wf(),
            runner.plan() == steps@,
            runner.taken() == 0,
            runner.error() is None,
    {
        Runner { steps, next: 0, failure: None }
    }

    /// The step to take, or nothing where the plan is over.
    pub fn current(&self) -> (step: Option<&Step>)
        requires
            self.wf(),
        ensures
            match step {
                Some(step) => !self.is_over() && *step == self.plan()[self.taken()],
                None => self.is_over(),
            },
    {
        if self.failure.is_none() && self.next < self.steps.len() {
            Some(&self.steps[self.next])
        } else {
            None
        }
    }

    /// Takes note of what became of the current step.
    pub fn record(&mut self, outcome: Result<(), HandlerError>)
        requires
            old(self).wf(),
            !old(self).is_over(),
        ensures
            final(self).wf(),
            final(self).plan() == old(self).plan(),
            final(self).taken() == old(self).taken() + 1,
            final(self).error() == failure_of(old(self).plan()[old(self).taken()], outcome),
    {
        let count: usize = self.steps.len();
        assert(self.next < count);
        let policy: OnFailure = self.steps[self.next].on_failure();
        self.next = self.next + 1;
        if let Err(error) = outcome {
            match policy {
                OnFailure::Abort => {
                    self.failure = Some(error);
                },
                OnFailure::Log => {},
            }
        }
    }

    /// What the plan as a whole came to.
    pub fn finish(self) -> (outcome: Result<(), HandlerError>)
        requires
            self.wf(),
        ensures
            outcome == (match self.error() {
                Some(error) => Err(error),
                None => Ok(()),
            }),
    {
        match self.failure {
            Some(error) => Err(error),
            None => Ok(()),
        }
    }
}

} // verus!
