//! Calls, with which people are asked into rooms.

use vstd::prelude::*;

use crate::collab::error::HandlerError;
use crate::collab::ids::{ConnectionId, UserId};
use crate::collab::message::{Message, PayloadId};
use crate::collab::plan::{push_sends, sends, OnFailure, Step};
use crate::collab::response::Response;
use crate::collab::rooms::{room_news, room_updated, Room};

verus! {

/// Whether someone may be called: only contacts may.
pub fn may_call(has_contact: bool) -> (outcome: Result<(), HandlerError>)
    ensures
        outcome == (if has_contact {
            Ok(())
        } else {
            Err(HandlerError::NotAContact)
        }),
{
    if has_contact {
        Ok(())
    } else {
        Err(HandlerError::NotAContact)
    }
}

/// A call, to each connection of the one who is called.
pub open spec fn rings(
    incoming_call: PayloadId,
    recipient_connection_ids: Seq<ConnectionId>,
) -> Seq<Step> {
    Seq::new(
        recipient_connection_ids.len(),
        |index: int|
            Step::Request {
                to: recipient_connection_ids[index],
                message: Message::IncomingCall { call: incoming_call },
            },
    )
}

/// What is done when someone is called.
pub open spec fn call_steps(
    room: Room,
    recipient_user_id: UserId,
    incoming_call: PayloadId,
    recipient_connection_ids: Seq<ConnectionId>,
) -> Seq<Step> {
    room_news(room) + rings(incoming_call, recipient_connection_ids) + seq![
        Step::UpdateUserContacts { user_id: recipient_user_id, on_failure: OnFailure::Abort },
    ]
}

/// Every connection of the one who is called is asked to take that very call, once for each time
/// that it is named and in order; before that everyone in the room is told of the room, and at the
/// end the contacts of the one who is called are told. Nothing else is done.
pub proof fn law_every_connection_is_rung(
    room: Room,
    recipient_user_id: UserId,
    incoming_call: PayloadId,
    recipient_connection_ids: Seq<ConnectionId>,
)
    ensures
        ({
            let plan = call_steps(
                room,
                recipient_user_id,
                incoming_call,
                recipient_connection_ids,
            );
            let everyone = room.participants@;
            &&& plan.len() == everyone.len() + recipient_connection_ids.len() + 1
            &&& forall|index: int|
                #![trigger everyone[index]]
                0 <= index < everyone.len() ==> plan[index] == (Step::Send {
                    to: everyone[index],
                    message: Message::RoomUpdated { room_id: room.id, state: room.state },
                    on_failure: OnFailure::Log,
                })
            &&& forall|index: int|
                #![trigger recipient_connection_ids[index]]
                0 <= index < recipient_connection_ids.len() ==> plan[everyone.len() + index]
                    == (Step::Request {
                    to: recipient_connection_ids[index],
                    message: Message::IncomingCall { call: incoming_call },
                })
            &&& plan.last() == (Step::UpdateUserContacts {
                user_id: recipient_user_id,
                on_failure: OnFailure::Abort,
            })
        }),
{
}

/// What to do when someone is called: everyone in the room hears of it, each of their
/// connections is rung, and their contacts hear of it.
pub fn call(
    room: &Room,
    recipient_user_id: UserId,
    incoming_call: PayloadId,
    recipient_connection_ids: &[ConnectionId],
) -> (plan: Vec<Step>)
    ensures
        plan@ == call_steps(*room, recipient_user_id, incoming_call, recipient_connection_ids@),
{
    let mut plan: Vec<Step> = Vec::new();
    room_updated(&mut plan, room);
    assert(plan@ =~= room_news(*room));
    let mut index: usize = 0;
    assert(plan@ =~= room_news(*room) + rings(incoming_call, recipient_connection_ids@).take(0));
    while index < recipient_connection_ids.len()
        invariant
            index <= recipient_connection_ids@.len(),
            plan@ == room_news(*room) + rings(incoming_call, recipient_connection_ids@).take(index as int),
        decreases recipient_connection_ids@.len() - index,
    {
        plan.push(
            Step::Request {
                to: recipient_connection_ids[index],
                message: Message::IncomingCall { call: incoming_call },
            },
        );
        index += 1;
        assert(plan@ =~= room_news(*room) + rings(incoming_call, recipient_connection_ids@).take(index as int));
    }
    plan.push(
        Step::UpdateUserContacts { user_id: recipient_user_id, on_failure: OnFailure::Abort },
    );
    assert(rings(incoming_call, recipient_connection_ids@).take(index as int) =~= rings(
        incoming_call,
        recipient_connection_ids@,
    ));
    assert(plan@ =~= call_steps(
        *room,
        recipient_user_id,
        incoming_call,
        recipient_connection_ids@,
    ));
    plan
}

/// How far handling a call has come.
#[derive(Debug, PartialEq, Eq)]
pub enum CallProgress {
    /// It has to be found out who calls.
    FindCaller,
    /// It has to be found out whether the one who is called is a contact of the caller.
    CheckContact { caller: UserId },
    /// The call has to be put on record.
    PlaceCall,
    /// The plan for placing a call to some connections has to be carried out.
    CarryOutCall { recipients: usize },
    /// The replies of those who are rung have to be waited for.
    AwaitReply { pending: usize },
    /// The request has to be answered.
    Respond,
    /// It has to be put on record that no one could be rung.
    RecordFailure,
    /// The plan for a failed call has to be carried out.
    CarryOutFailure,
    /// The request was answered.
    Answered,
    /// The request failed.
    Failed { error: HandlerError },
}

/// What handling a call waits for.
#[derive(Debug, PartialEq, Eq)]
pub enum CallEvent {
    /// It was found out who calls.
    Caller { user_id: UserId },
    /// It was found out whether the one who is called is a contact.
    Contact { is_contact: bool },
    /// The call is on record, and reaches some connections.
    Placed { recipients: usize },
    /// What was to be done is done.
    Done,
    /// A connection replied, or failed to.
    Reply { answered: bool },
    /// What was to be done failed.
    Error { error: HandlerError },
}

/// What handling a call waits for while some connections are rung.
pub open spec fn await_replies(pending: int) -> CallProgress {
    if pending <= 0 {
        CallProgress::RecordFailure
    } else {
        CallProgress::AwaitReply { pending: pending as usize }
    }
}

/// How handling a call goes on after an event. One that it does not wait for changes nothing.
pub open spec fn call_next(state: CallProgress, event: CallEvent) -> CallProgress {
    match (state, event) {
        (CallProgress::Answered, _) => state,
        (CallProgress::Failed { .. }, _) => state,
        (CallProgress::AwaitReply { .. }, CallEvent::Error { .. }) => state,
        (_, CallEvent::Error { error }) => CallProgress::Failed { error },
        (CallProgress::FindCaller, CallEvent::Caller { user_id }) => CallProgress::CheckContact {
            caller: user_id,
        },
        (CallProgress::CheckContact { .. }, CallEvent::Contact { is_contact }) => if is_contact {
            CallProgress::PlaceCall
        } else {
            CallProgress::Failed { error: HandlerError::NotAContact }
        },
        (CallProgress::PlaceCall, CallEvent::Placed { recipients }) => CallProgress::CarryOutCall {
            recipients,
        },
        (CallProgress::CarryOutCall { recipients }, CallEvent::Done) => await_replies(
            recipients as int,
        ),
        (CallProgress::AwaitReply { pending }, CallEvent::Reply { answered }) => if answered {
            CallProgress::Respond
        } else {
            await_replies(pending - 1)
        },
        (CallProgress::Respond, CallEvent::Done) => CallProgress::Answered,
        (CallProgress::RecordFailure, CallEvent::Done) => CallProgress::CarryOutFailure,
        (CallProgress::CarryOutFailure, CallEvent::Done) => CallProgress::Failed {
            error: HandlerError::RingingFailed,
        },
        _ => state,
    }
}

/// How handling a call goes on after an event.
pub fn advance_call(state: CallProgress, event: CallEvent) -> (next: CallProgress)
    ensures
        next == call_next(state, event),
{
    match (state, event) {
        (CallProgress::Answered, _) => CallProgress::Answered,
        (CallProgress::Failed { error }, _) => CallProgress::Failed { error },
        (CallProgress::AwaitReply { pending }, CallEvent::Reply { answered }) => if answered {
            CallProgress::Respond
        } else if pending <= 1 {
            CallProgress::RecordFailure
        } else {
            CallProgress::AwaitReply { pending: pending - 1 }
        },
        (CallProgress::AwaitReply { pending }, _) => CallProgress::AwaitReply { pending },
        (_, CallEvent::Error { error }) => CallProgress::Failed { error },
        (CallProgress::FindCaller, CallEvent::Caller { user_id }) => CallProgress::CheckContact {
            caller: user_id,
        },
        (CallProgress::CheckContact { caller: _ }, CallEvent::Contact { is_contact }) => {
            match may_call(is_contact) {
                Ok(()) => CallProgress::PlaceCall,
                Err(error) => CallProgress::Failed { error },
            }
        },
        (CallProgress::PlaceCall, CallEvent::Placed { recipients }) => CallProgress::CarryOutCall {
            recipients,
        },
        (CallProgress::CarryOutCall { recipients }, CallEvent::Done) => if recipients == 0 {
            CallProgress::RecordFailure
        } else {
            CallProgress::AwaitReply { pending: recipients }
        },
        (CallProgress::Respond, CallEvent::Done) => CallProgress::Answered,
        (CallProgress::RecordFailure, CallEvent::Done) => CallProgress::CarryOutFailure,
        (CallProgress::CarryOutFailure, CallEvent::Done) => CallProgress::Failed {
            error: HandlerError::RingingFailed,
        },
        (state, _) => state,
    }
}

/// How far handling a call has come after some events.
pub open spec fn call_after(events: Seq<CallEvent>) -> CallProgress
    decreases events.len(),
{
    if events.len() == 0 {
        CallProgress::FindCaller
    } else {
        call_next(call_after(events.drop_last()), events.last())
    }
}

/// Whether a call has come so far that it was put on record.
pub open spec fn was_placed(state: CallProgress) -> bool {
    state is CarryOutCall || state is AwaitReply || state is Respond || state is RecordFailure
        || state is CarryOutFailure || state is Answered
}

/// No one is ever rung who was not found to be a contact.
pub proof fn law_only_contacts_are_rung(events: Seq<CallEvent>)
    requires
        was_placed(call_after(events)) || call_after(events) is PlaceCall,
    ensures
        events.contains(CallEvent::Contact { is_contact: true }),
    decreases events.len(),
{
    let rest = events.drop_last();
    let before = call_after(rest);
    if was_placed(before) || before is PlaceCall {
        law_only_contacts_are_rung(rest);
        let at = choose|at: int|
            0 <= at < rest.len() && rest[at] == (CallEvent::Contact { is_contact: true });
        assert(events[at] == (CallEvent::Contact { is_contact: true }));
    } else {
        assert(events[events.len() - 1] == (CallEvent::Contact { is_contact: true }));
    }
}

/// A call is answered to the caller only after a connection has answered.
pub proof fn law_answer_needs_a_reply(events: Seq<CallEvent>)
    requires
        call_after(events) is Respond || call_after(events) is Answered,
    ensures
        events.contains(CallEvent::Reply { answered: true }),
    decreases events.len(),
{
    let rest = events.drop_last();
    let before = call_after(rest);
    if before is Respond || before is Answered {
        law_answer_needs_a_reply(rest);
        let at = choose|at: int|
            0 <= at < rest.len() && rest[at] == (CallEvent::Reply { answered: true });
        assert(events[at] == (CallEvent::Reply { answered: true }));
    } else {
        assert(events[events.len() - 1] == (CallEvent::Reply { answered: true }));
    }
}

/// How far handling a call to `count` connections has come after some replies.
pub open spec fn after_replies(count: int, replies: Seq<bool>) -> CallProgress
    decreases replies.len(),
{
    if replies.len() == 0 {
        await_replies(count)
    } else {
        call_next(
            after_replies(count, replies.drop_last()),
            CallEvent::Reply { answered: replies.last() },
        )
    }
}

/// A call is answered as soon as one connection answers; it fails only when every connection
/// has failed, and rings until then.
pub proof fn law_ringing(count: int, replies: Seq<bool>)
    requires
        0 <= count <= usize::MAX,
        replies.len() <= count,
    ensures
        after_replies(count, replies) == (if replies.contains(true) {
            CallProgress::Respond
        } else if replies.len() == count {
            CallProgress::RecordFailure
        } else {
            CallProgress::AwaitReply { pending: (count - replies.len()) as usize }
        }),
    decreases replies.len(),
{
    if replies.len() > 0 {
        let rest = replies.drop_last();
        law_ringing(count, rest);
        assert(replies == rest.push(replies.last()));
        assert(replies.contains(true) == (rest.contains(true) || replies.last())) by {
            if rest.contains(true) {
                let at = choose|at: int| 0 <= at < rest.len() && rest[at] == true;
                assert(replies[at] == true);
            }
            if replies.last() {
                assert(replies[replies.len() - 1] == true);
            }
        }
    }
}

/// What to do when a call was answered.
pub fn call_answered() -> (plan: Vec<Step>)
    ensures
        plan@ == seq![Step::Respond { response: Response::Ack }],
{
    let mut plan: Vec<Step> = Vec::new();
    plan.push(Step::Respond { response: Response::Ack });
    plan
}

/// What is done when no one could be rung.
pub open spec fn call_failure_steps(room: Room, recipient_user_id: UserId) -> Seq<Step> {
    room_news(room) + seq![
        Step::UpdateUserContacts { user_id: recipient_user_id, on_failure: OnFailure::Abort },
    ]
}

/// When no one could be rung, everyone in the room is told of the room, in order, then the contacts
/// of the one who was called are told, and nothing else is done.
pub proof fn law_a_failed_call_is_told(room: Room, recipient_user_id: UserId)
    ensures
        ({
            let plan = call_failure_steps(room, recipient_user_id);
            let everyone = room.participants@;
            &&& plan.len() == everyone.len() + 1
            &&& forall|index: int|
                #![trigger everyone[index]]
                0 <= index < everyone.len() ==> plan[index] == (Step::Send {
                    to: everyone[index],
                    message: Message::RoomUpdated { room_id: room.id, state: room.state },
                    on_failure: OnFailure::Log,
                })
            &&& plan.last() == (Step::UpdateUserContacts {
                user_id: recipient_user_id,
                on_failure: OnFailure::Abort,
            })
        }),
{
}

/// What to do when no one could be rung: everyone in the room hears of it, and so do the
/// contacts of the one who was called; the request fails with the error that is returned.
pub fn call_failed(room: &Room, recipient_user_id: UserId) -> (outcome: (Vec<Step>, HandlerError))
    ensures
        outcome.0@ == call_failure_steps(*room, recipient_user_id),
        outcome.1 == HandlerError::RingingFailed,
{
    let mut plan: Vec<Step> = Vec::new();
    room_updated(&mut plan, room);
    plan.push(
        Step::UpdateUserContacts { user_id: recipient_user_id, on_failure: OnFailure::Abort },
    );
    assert(plan@ =~= call_failure_steps(*room, recipient_user_id));
    (plan, HandlerError::RingingFailed)
}

/// What is done once a call was canceled.
pub open spec fn cancel_steps(
    room: Room,
    recipient_user_id: UserId,
    recipient_connection_ids: Seq<ConnectionId>,
) -> Seq<Step> {
    sends(recipient_connection_ids, Message::CallCanceled, OnFailure::Log) + room_news(room)
        + seq![
        Step::Respond { response: Response::Ack },
        Step::UpdateUserContacts { user_id: recipient_user_id, on_failure: OnFailure::Abort },
    ]
}

/// What to do once a call was canceled: the one who was called is no longer called, everyone
/// in the room hears of it, the caller gets an answer, and the contacts of the one who was
/// called hear of it.
pub fn cancel_call(
    room: &Room,
    recipient_user_id: UserId,
    recipient_connection_ids: &[ConnectionId],
) -> (plan: Vec<Step>)
    ensures
        plan@ == cancel_steps(*room, recipient_user_id, recipient_connection_ids@),
{
    let mut plan: Vec<Step> = Vec::new();
    push_sends(&mut plan, recipient_connection_ids, &Message::CallCanceled, OnFailure::Log);
    room_updated(&mut plan, room);
    plan.push(Step::Respond { response: Response::Ack });
    plan.push(
        Step::UpdateUserContacts { user_id: recipient_user_id, on_failure: OnFailure::Abort },
    );
    assert(plan@ =~= cancel_steps(*room, recipient_user_id, recipient_connection_ids@));
    plan
}

/// What is done once a call was declined.
pub open spec fn decline_steps(
    room: Room,
    recipient_user_id: UserId,
    recipient_connection_ids: Seq<ConnectionId>,
) -> Seq<Step> {
    sends(recipient_connection_ids, Message::CallCanceled, OnFailure::Log) + room_news(room)
        + seq![
        Step::UpdateUserContacts { user_id: recipient_user_id, on_failure: OnFailure::Abort },
    ]
}

/// What to do once a call was declined: the other connections of the one who declined are no
/// longer called, everyone in the room hears of it, and so do the contacts of the one who
/// declined.
pub fn decline_call(
    room: &Room,
    recipient_user_id: UserId,
    recipient_connection_ids: &[ConnectionId],
) -> (plan: Vec<Step>)
    ensures
        plan@ == decline_steps(*room, recipient_user_id, recipient_connection_ids@),
{
    let mut plan: Vec<Step> = Vec::new();
    push_sends(&mut plan, recipient_connection_ids, &Message::CallCanceled, OnFailure::Log);
    room_updated(&mut plan, room);
    plan.push(
        Step::UpdateUserContacts { user_id: recipient_user_id, on_failure: OnFailure::Abort },
    );
    assert(plan@ =~= decline_steps(*room, recipient_user_id, recipient_connection_ids@));
    plan
}

/// When a call is canceled, every connection of the one who was called stops ringing, everyone in
/// the room is told of the room, the caller is answered, and the contacts of the one who was called
/// are told, in this order; nothing else is done.
pub proof fn law_a_canceled_call_stops_ringing(
    room: Room,
    recipient_user_id: UserId,
    recipient_connection_ids: Seq<ConnectionId>,
)
    ensures
        ({
            let plan = cancel_steps(room, recipient_user_id, recipient_connection_ids);
            let everyone = room.participants@;
            let rung = recipient_connection_ids.len() as int;
            &&& plan.len() == rung + everyone.len() + 2
            &&& forall|index: int|
                #![trigger recipient_connection_ids[index]]
                0 <= index < rung ==> plan[index] == (Step::Send {
                    to: recipient_connection_ids[index],
                    message: Message::CallCanceled,
                    on_failure: OnFailure::Log,
                })
            &&& forall|index: int|
                #![trigger everyone[index]]
                0 <= index < everyone.len() ==> plan[rung + index] == (Step::Send {
                    to: everyone[index],
                    message: Message::RoomUpdated { room_id: room.id, state: room.state },
                    on_failure: OnFailure::Log,
                })
            &&& plan[rung + everyone.len()] == (Step::Respond { response: Response::Ack })
            &&& plan.last() == (Step::UpdateUserContacts {
                user_id: recipient_user_id,
                on_failure: OnFailure::Abort,
            })
        }),
{
}

/// When a call is declined, the same is done as when it is canceled, but that no one is answered.
pub proof fn law_a_declined_call_stops_ringing(
    room: Room,
    recipient_user_id: UserId,
    recipient_connection_ids: Seq<ConnectionId>,
)
    ensures
        ({
            let plan = decline_steps(room, recipient_user_id, recipient_connection_ids);
            let everyone = room.participants@;
            let rung = recipient_connection_ids.len() as int;
            &&& plan.len() == rung + everyone.len() + 1
            &&& forall|index: int|
                #![trigger recipient_connection_ids[index]]
                0 <= index < rung ==> plan[index] == (Step::Send {
                    to: recipient_connection_ids[index],
                    message: Message::CallCanceled,
                    on_failure: OnFailure::Log,
                })
            &&& forall|index: int|
                #![trigger everyone[index]]
                0 <= index < everyone.len() ==> plan[rung + index] == (Step::Send {
                    to: everyone[index],
                    message: Message::RoomUpdated { room_id: room.id, state: room.state },
                    on_failure: OnFailure::Log,
                })
            &&& plan.last() == (Step::UpdateUserContacts {
                user_id: recipient_user_id,
                on_failure: OnFailure::Abort,
            })
            &&& plan == cancel_steps(
                room,
                recipient_user_id,
                recipient_connection_ids,
            ).remove(rung + everyone.len())
        }),
{
    let plan = decline_steps(room, recipient_user_id, recipient_connection_ids);
    let canceled = cancel_steps(room, recipient_user_id, recipient_connection_ids);
    assert(plan =~= canceled.remove(
        recipient_connection_ids.len() as int + room.participants@.len(),
    ));
}

/// Handling a call goes forward only: it never comes back to where it was, unless nothing changed.
pub proof fn law_calls_go_forward(state: CallProgress, event: CallEvent)
    ensures
        call_next(state, event) == state || call_depth(call_next(state, event)) < call_depth(state),
{
}

/// A bound on how often handling a call can still change.
pub open spec fn call_depth(state: CallProgress) -> int {
    match state {
        CallProgress::FindCaller => usize::MAX + 8,
        CallProgress::CheckContact { .. } => usize::MAX + 7,
        CallProgress::PlaceCall => usize::MAX + 6,
        CallProgress::CarryOutCall { .. } => usize::MAX + 5,
        CallProgress::AwaitReply { pending } => 4 + pending,
        CallProgress::Respond => 3,
        CallProgress::RecordFailure => 3,
        CallProgress::CarryOutFailure => 2,
        CallProgress::Answered => 1,
        CallProgress::Failed { .. } => 1,
    }
}

/// A call to a contact is answered if one of the connections that it reaches answers, however many
/// failed before, and whoever calls.
pub proof fn law_a_call_that_is_answered(caller: UserId, recipients: usize, failures: nat)
    requires
        failures < recipients,
    ensures
        call_after(
            seq![
                CallEvent::Caller { user_id: caller },
                CallEvent::Contact { is_contact: true },
                CallEvent::Placed { recipients },
                CallEvent::Done,
            ] + Seq::new(failures, |index: int| CallEvent::Reply { answered: false }) + seq![
                CallEvent::Reply { answered: true },
                CallEvent::Done,
            ],
        ) == CallProgress::Answered,
{
    let start = seq![
        CallEvent::Caller { user_id: caller },
        CallEvent::Contact { is_contact: true },
        CallEvent::Placed { recipients },
        CallEvent::Done,
    ];
    let failed = Seq::new(failures, |index: int| CallEvent::Reply { answered: false });
    lemma_failed_replies(caller, recipients, failures);
    let events = start + failed + seq![
        CallEvent::Reply { answered: true },
        CallEvent::Done,
    ];
    assert(events.drop_last().drop_last() =~= start + failed);
    assert(call_after(events.drop_last()) == CallProgress::Respond);
}

/// A call to a contact all of whose connections fail is put on record as failed, and fails because
/// no one could be rung.
pub proof fn law_a_call_that_no_one_answers(caller: UserId, recipients: usize)
    ensures
        call_after(
            seq![
                CallEvent::Caller { user_id: caller },
                CallEvent::Contact { is_contact: true },
                CallEvent::Placed { recipients },
                CallEvent::Done,
            ] + Seq::new(recipients as nat, |index: int| CallEvent::Reply { answered: false })
                + seq![CallEvent::Done, CallEvent::Done],
        ) == (CallProgress::Failed { error: HandlerError::RingingFailed }),
{
    let start = seq![
        CallEvent::Caller { user_id: caller },
        CallEvent::Contact { is_contact: true },
        CallEvent::Placed { recipients },
        CallEvent::Done,
    ];
    let failed = Seq::new(recipients as nat, |index: int| CallEvent::Reply { answered: false });
    lemma_failed_replies(caller, recipients, recipients as nat);
    let events = start + failed + seq![CallEvent::Done, CallEvent::Done];
    assert(events.drop_last().drop_last() =~= start + failed);
    assert(call_after(events.drop_last()) == CallProgress::CarryOutFailure);
}

/// How far handling a call has come when the first connections failed.
proof fn lemma_failed_replies(caller: UserId, recipients: usize, failures: nat)
    requires
        failures <= recipients,
    ensures
        call_after(
            seq![
                CallEvent::Caller { user_id: caller },
                CallEvent::Contact { is_contact: true },
                CallEvent::Placed { recipients },
                CallEvent::Done,
            ] + Seq::new(failures, |index: int| CallEvent::Reply { answered: false }),
        ) == (if failures == recipients {
            CallProgress::RecordFailure
        } else {
            CallProgress::AwaitReply { pending: (recipients - failures) as usize }
        }),
    decreases failures,
{
    let start = seq![
        CallEvent::Caller { user_id: caller },
        CallEvent::Contact { is_contact: true },
        CallEvent::Placed { recipients },
        CallEvent::Done,
    ];
    let failed = Seq::new(failures, |index: int| CallEvent::Reply { answered: false });
    let events = start + failed;
    if failures == 0 {
        reveal_with_fuel(call_after, 5);
        assert(events =~= start);
        assert(start.drop_last() =~= seq![
            CallEvent::Caller { user_id: caller },
            CallEvent::Contact { is_contact: true },
            CallEvent::Placed { recipients },
        ]);
        assert(start.drop_last().drop_last() =~= seq![
            CallEvent::Caller { user_id: caller },
            CallEvent::Contact { is_contact: true },
        ]);
        assert(start.drop_last().drop_last().drop_last() =~= seq![
            CallEvent::Caller { user_id: caller },
        ]);
        assert(start.drop_last().drop_last().drop_last().drop_last() =~= Seq::empty());
    } else {
        lemma_failed_replies(caller, recipients, (failures - 1) as nat);
        assert(events.drop_last() =~= start + Seq::new(
            (failures - 1) as nat,
            |index: int| CallEvent::Reply { answered: false },
        ));
        assert(events.last() == (CallEvent::Reply { answered: false }));
    }
}

/// Whatever goes wrong while a call is handled ends it with that very error, but for what goes wrong
/// while it rings, which changes nothing; a call to someone who is no contact is refused.
pub proof fn law_what_ends_a_call(state: CallProgress, error: HandlerError, caller: UserId)
    ensures
        state !is AwaitReply && state !is Answered && state !is Failed ==> call_next(
            state,
            CallEvent::Error { error },
        ) == (CallProgress::Failed { error }),
        state is AwaitReply || state is Answered || state is Failed ==> call_next(
            state,
            CallEvent::Error { error },
        ) == state,
        call_next(CallProgress::CheckContact { caller }, CallEvent::Contact { is_contact: false })
            == (CallProgress::Failed { error: HandlerError::NotAContact }),
        call_next(CallProgress::FindCaller, CallEvent::Caller { user_id: caller })
            == (CallProgress::CheckContact { caller }),
{
}

/// Handling a call changes only by what it waits for.
pub proof fn law_calls_wait_their_turn(state: CallProgress, event: CallEvent)
    requires
        call_next(state, event) != state,
        event !is Error,
    ensures
        event is Caller ==> state is FindCaller,
        event is Contact ==> state is CheckContact,
        event is Placed ==> state is PlaceCall,
        event is Reply ==> state is AwaitReply,
        event is Done ==> state is CarryOutCall || state is Respond || state is RecordFailure
            || state is CarryOutFailure,
{
}

} // verus!
