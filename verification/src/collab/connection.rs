//! The life of a connection: how it opens, what it waits for, and what its end brings.

use vstd::prelude::*;
use vstd::string::*;

use crate::collab::error::HandlerError;
use crate::collab::ids::{ConnectionId, UserId};
use crate::collab::message::{ContactOf, ContactsUpdate, Message, PayloadId};
use crate::collab::message::no_update;
use crate::collab::plan::{broadcast, contact_updates, law_broadcast_keeps_the_order, others};
use crate::collab::plan::{push_contact_updates, push_sends, sends, OnFailure, Step};
use crate::collab::rooms::{canceled_news, is_video_farewell, push_canceled_news, room_left};
use crate::collab::rooms::{room_news, room_updated, with_canceled_users, CanceledCall};
use crate::collab::rooms::{law_users_of_canceled_calls_are_added, ProjectPeers, Room};
use crate::sequences::{joins, lemma_joined_at, lemma_joined_len, piece_len, rank, total};
use crate::strings::decimal;

verus! {

/// The address with which a user invites others.
pub fn invite_url(invite_link_prefix: &str, code: &str) -> (url: String)
    ensures
        url@ == invite_link_prefix@ + code@,
{
    let mut url: String = invite_link_prefix.to_string();
    url.append(code);
    url
}

/// The first things that a client is told, before anything is asked of the records.
pub open spec fn opening_steps(
    connection_id: ConnectionId,
    user_id: UserId,
    connected_once: bool,
    announce: bool,
) -> Seq<Step> {
    seq![
        Step::Send {
            to: connection_id,
            message: Message::Hello { peer_id: connection_id.0 },
            on_failure: OnFailure::Abort,
        },
    ] + (if announce {
        seq![Step::AnnounceConnection { connection_id }]
    } else {
        Seq::empty()
    }) + (if connected_once {
        Seq::empty()
    } else {
        seq![
            Step::Send {
                to: connection_id,
                message: Message::ShowContacts,
                on_failure: OnFailure::Abort,
            },
            Step::SetConnectedOnce { user_id },
        ]
    })
}

/// What to do when a connection opens: say hello, tell whoever wants to know which connection
/// it is, and, if this is the first connection of the user ever, show the contacts.
pub fn open_connection(
    connection_id: ConnectionId,
    user_id: UserId,
    connected_once: bool,
    announce: bool,
) -> (plan: Vec<Step>)
    ensures
        plan@ == opening_steps(connection_id, user_id, connected_once, announce),
{
    let mut plan: Vec<Step> = Vec::new();
    plan.push(
        Step::Send {
            to: connection_id,
            message: Message::Hello { peer_id: connection_id.0 },
            on_failure: OnFailure::Abort,
        },
    );
    if announce {
        plan.push(Step::AnnounceConnection { connection_id });
    }
    if !connected_once {
        plan.push(
            Step::Send {
                to: connection_id,
                message: Message::ShowContacts,
                on_failure: OnFailure::Abort,
            },
        );
        plan.push(Step::SetConnectedOnce { user_id });
    }
    assert(plan@ =~= opening_steps(connection_id, user_id, connected_once, announce));
    plan
}

/// Whether `plan` is what to do once a connection has been added: the client hears of a call
/// that waits for the user, of all contacts, and of the invitations that are left, and then
/// the contacts hear of the user.
pub open spec fn is_welcome(
    plan: Seq<Step>,
    connection_id: ConnectionId,
    user_id: UserId,
    incoming_call: Option<PayloadId>,
    contacts: PayloadId,
    invite_link_prefix: Seq<char>,
    invite_code: Option<(Seq<char>, u32)>,
) -> bool {
    let head = (if let Some(call) = incoming_call {
        seq![
            Step::Send {
                to: connection_id,
                message: Message::IncomingCall { call },
                on_failure: OnFailure::Abort,
            },
        ]
    } else {
        Seq::empty()
    }) + seq![
        Step::Send {
            to: connection_id,
            message: Message::InitialContacts { contacts },
            on_failure: OnFailure::Abort,
        },
    ];
    let last = Step::UpdateUserContacts { user_id, on_failure: OnFailure::Abort };
    match invite_code {
        Some(invite) => {
            &&& plan.len() == head.len() + 2
            &&& plan.take(head.len() as int) == head
            &&& is_invite_info(
                plan[head.len() as int],
                connection_id,
                invite_link_prefix + invite.0,
                invite.1,
            )
            &&& plan.last() == last
        },
        None => plan == head.push(last),
    }
}

/// Whether `step` tells a client with what the user can invite others, and how many.
pub open spec fn is_invite_info(
    step: Step,
    connection_id: ConnectionId,
    address: Seq<char>,
    invites: u32,
) -> bool {
    match step {
        Step::Send { to, message: Message::UpdateInviteInfo { url, count }, on_failure } => {
            &&& to == connection_id
            &&& url@ == address
            &&& count == invites
            &&& on_failure == OnFailure::Abort
        },
        _ => false,
    }
}

/// What to do once a connection has been added.
pub fn welcome(
    connection_id: ConnectionId,
    user_id: UserId,
    incoming_call: Option<PayloadId>,
    contacts: PayloadId,
    invite_link_prefix: &str,
    invite_code: Option<(&str, u32)>,
) -> (plan: Vec<Step>)
    ensures
        is_welcome(
            plan@,
            connection_id,
            user_id,
            incoming_call,
            contacts,
            invite_link_prefix@,
            match invite_code {
                Some(invite) => Some((invite.0@, invite.1)),
                None => None,
            },
        ),
{
    let mut plan: Vec<Step> = Vec::new();
    if let Some(call) = incoming_call {
        plan.push(
            Step::Send {
                to: connection_id,
                message: Message::IncomingCall { call },
                on_failure: OnFailure::Abort,
            },
        );
    }
    plan.push(
        Step::Send {
            to: connection_id,
            message: Message::InitialContacts { contacts },
            on_failure: OnFailure::Abort,
        },
    );
    let ghost head = plan@;
    if let Some((code, count)) = invite_code {
        plan.push(
            Step::Send {
                to: connection_id,
                message: Message::UpdateInviteInfo {
                    url: invite_url(invite_link_prefix, code),
                    count,
                },
                on_failure: OnFailure::Abort,
            },
        );
    }
    plan.push(Step::UpdateUserContacts { user_id, on_failure: OnFailure::Abort });
    proof {
        assert(head =~= (if let Some(call) = incoming_call {
            seq![
                Step::Send {
                    to: connection_id,
                    message: Message::IncomingCall { call },
                    on_failure: OnFailure::Abort,
                },
            ]
        } else {
            Seq::empty()
        }) + seq![
            Step::Send {
                to: connection_id,
                message: Message::InitialContacts { contacts },
                on_failure: OnFailure::Abort,
            },
        ]);
        assert(plan@.take(head.len() as int) =~= head);
    }
    plan
}

/// A message that arrived, as far as it matters to what is done with it.
#[derive(Clone, Copy, Debug, PartialEq, Eq, Structural)]
pub struct Arrival {
    /// Whether there is a handler for messages of its kind.
    pub has_handler: bool,
    /// Whether it may be handled while later messages are.
    pub is_background: bool,
}

/// What a connection waits for.
#[derive(Clone, Copy, Debug, PartialEq, Eq, Structural)]
pub enum ConnectionEvent {
    /// Reading and writing came to an end, with or without an error.
    IoEnded { failed: bool },
    /// A message was handled in the foreground.
    Handled,
    /// A message arrived.
    Arrived { arrival: Arrival },
    /// No more messages will arrive.
    Closed,
}

/// What there is to do next for a connection.
#[derive(Clone, Copy, Debug, PartialEq, Eq, Structural)]
pub enum ConnectionAction {
    /// Wait for the next event.
    Wait,
    /// Handle the message on its own, and wait for the next event.
    HandleInBackground,
    /// Handle the message together with the others in the foreground, and wait for the next
    /// event.
    HandleInForeground,
    /// Write to the log that no handler takes the message, and wait for the next event.
    LogMissingHandler,
    /// Write the error to the log, give up what is being handled, and sign out.
    LogErrorAndSignOut,
    /// Give up what is being handled, and sign out.
    SignOut,
}

/// What is at hand at some moment: the end of reading and writing with what it came to, a
/// message that was handled, a message that arrived or the end of all messages.
#[derive(Clone, Copy, Debug, PartialEq, Eq, Structural)]
pub struct Readiness {
    pub io_ended: Option<bool>,
    pub handled: bool,
    pub incoming: Option<Option<Arrival>>,
}

/// Which of the events at hand comes first: the end of reading and writing, then a message
/// that was handled, then a message that arrived.
pub open spec fn first_event(ready: Readiness) -> Option<ConnectionEvent> {
    if let Some(failed) = ready.io_ended {
        Some(ConnectionEvent::IoEnded { failed })
    } else if ready.handled {
        Some(ConnectionEvent::Handled)
    } else {
        match ready.incoming {
            Some(Some(arrival)) => Some(ConnectionEvent::Arrived { arrival }),
            Some(None) => Some(ConnectionEvent::Closed),
            None => None,
        }
    }
}

/// Which of the events at hand comes first.
pub fn select_event(ready: Readiness) -> (event: Option<ConnectionEvent>)
    ensures
        event == first_event(ready),
{
    if let Some(failed) = ready.io_ended {
        Some(ConnectionEvent::IoEnded { failed })
    } else if ready.handled {
        Some(ConnectionEvent::Handled)
    } else {
        match ready.incoming {
            Some(Some(arrival)) => Some(ConnectionEvent::Arrived { arrival }),
            Some(None) => Some(ConnectionEvent::Closed),
            None => None,
        }
    }
}

/// What follows from an event.
pub open spec fn action_for(event: ConnectionEvent) -> ConnectionAction {
    match event {
        ConnectionEvent::IoEnded { failed } => if failed {
            ConnectionAction::LogErrorAndSignOut
        } else {
            ConnectionAction::SignOut
        },
        ConnectionEvent::Handled => ConnectionAction::Wait,
        ConnectionEvent::Arrived { arrival } => if !arrival.has_handler {
            ConnectionAction::LogMissingHandler
        } else if arrival.is_background {
            ConnectionAction::HandleInBackground
        } else {
            ConnectionAction::HandleInForeground
        },
        ConnectionEvent::Closed => ConnectionAction::SignOut,
    }
}

/// What follows from an event.
pub fn handle_event(event: ConnectionEvent) -> (action: ConnectionAction)
    ensures
        action == action_for(event),
{
    match event {
        ConnectionEvent::IoEnded { failed } => if failed {
            ConnectionAction::LogErrorAndSignOut
        } else {
            ConnectionAction::SignOut
        },
        ConnectionEvent::Handled => ConnectionAction::Wait,
        ConnectionEvent::Arrived { arrival } => if !arrival.has_handler {
            ConnectionAction::LogMissingHandler
        } else if arrival.is_background {
            ConnectionAction::HandleInBackground
        } else {
            ConnectionAction::HandleInForeground
        },
        ConnectionEvent::Closed => ConnectionAction::SignOut,
    }
}

/// Whether an action ends a connection.
pub open spec fn ends_connection(action: ConnectionAction) -> bool {
    action == ConnectionAction::SignOut || action == ConnectionAction::LogErrorAndSignOut
}

/// Once reading and writing has ended, the connection ends, whatever else is at hand. A
/// message that arrives never ends a connection.
pub proof fn law_end_of_io_ends_the_connection(ready: Readiness)
    ensures
        ready.io_ended is Some ==> first_event(ready) is Some && ends_connection(
            action_for(first_event(ready)->0),
        ),
        first_event(ready) matches Some(event) ==> (event is Arrived ==> !ends_connection(
            action_for(event),
        )),
{
}

/// How far a connection has come in its life.
#[derive(Debug, PartialEq, Eq)]
pub enum ConnectionPhase {
    /// The plan for a connection that opens has to be carried out.
    Opening,
    /// The contacts and the invitations of the user have to be read.
    ReadingRecords,
    /// The connection has to be added, and the plan for a welcome carried out.
    Welcoming,
    /// Events are waited for.
    Serving,
    /// The connection has to be removed, and the plan for signing out carried out.
    SigningOut,
    /// It is over, and all went well.
    Over,
    /// It is over, and went wrong before anything was served.
    Failed { error: HandlerError },
}

/// What a connection waits for in the phases of its life.
#[derive(Debug, PartialEq, Eq)]
pub enum PhaseEvent {
    /// What was to be done is done.
    Done,
    /// What was to be done failed.
    Error { error: HandlerError },
    /// While serving, something is to be done.
    Action { action: ConnectionAction },
}

/// How the life of a connection goes on. A failure before it serves ends it; a failure to sign
/// out is only written to the log. What it does not wait for changes nothing.
pub open spec fn next_phase(phase: ConnectionPhase, event: PhaseEvent) -> ConnectionPhase {
    match (phase, event) {
        (ConnectionPhase::Opening, PhaseEvent::Done) => ConnectionPhase::ReadingRecords,
        (ConnectionPhase::Opening, PhaseEvent::Error { error }) => ConnectionPhase::Failed { error },
        (ConnectionPhase::ReadingRecords, PhaseEvent::Done) => ConnectionPhase::Welcoming,
        (ConnectionPhase::ReadingRecords, PhaseEvent::Error { error }) => ConnectionPhase::Failed {
            error,
        },
        (ConnectionPhase::Welcoming, PhaseEvent::Done) => ConnectionPhase::Serving,
        (ConnectionPhase::Welcoming, PhaseEvent::Error { error }) => ConnectionPhase::Failed {
            error,
        },
        (ConnectionPhase::Serving, PhaseEvent::Action { action }) => if ends_connection(action) {
            ConnectionPhase::SigningOut
        } else {
            ConnectionPhase::Serving
        },
        (ConnectionPhase::SigningOut, PhaseEvent::Done) => ConnectionPhase::Over,
        (ConnectionPhase::SigningOut, PhaseEvent::Error { .. }) => ConnectionPhase::Over,
        _ => phase,
    }
}

/// How the life of a connection goes on.
pub fn advance_connection(phase: ConnectionPhase, event: PhaseEvent) -> (next: ConnectionPhase)
    ensures
        next == next_phase(phase, event),
{
    match (phase, event) {
        (ConnectionPhase::Opening, PhaseEvent::Done) => ConnectionPhase::ReadingRecords,
        (ConnectionPhase::Opening, PhaseEvent::Error { error }) => ConnectionPhase::Failed { error },
        (ConnectionPhase::ReadingRecords, PhaseEvent::Done) => ConnectionPhase::Welcoming,
        (ConnectionPhase::ReadingRecords, PhaseEvent::Error { error }) => ConnectionPhase::Failed {
            error,
        },
        (ConnectionPhase::Welcoming, PhaseEvent::Done) => ConnectionPhase::Serving,
        (ConnectionPhase::Welcoming, PhaseEvent::Error { error }) => ConnectionPhase::Failed {
            error,
        },
        (ConnectionPhase::Serving, PhaseEvent::Action { action }) => match action {
            ConnectionAction::SignOut | ConnectionAction::LogErrorAndSignOut => {
                ConnectionPhase::SigningOut
            },
            _ => ConnectionPhase::Serving,
        },
        (ConnectionPhase::SigningOut, PhaseEvent::Done) => ConnectionPhase::Over,
        (ConnectionPhase::SigningOut, PhaseEvent::Error { error: _ }) => ConnectionPhase::Over,
        (phase, _) => phase,
    }
}

/// How far a connection has come after some events.
pub open spec fn phase_after(events: Seq<PhaseEvent>) -> ConnectionPhase
    decreases events.len(),
{
    if events.len() == 0 {
        ConnectionPhase::Opening
    } else {
        next_phase(phase_after(events.drop_last()), events.last())
    }
}

/// Whether a connection that served began to sign out because of the event at `at`, an action
/// that ends it.
pub open spec fn signs_out_at(events: Seq<PhaseEvent>, at: int) -> bool {
    &&& 0 <= at < events.len()
    &&& phase_after(events.take(at)) is Serving
    &&& phase_after(events.take(at + 1)) is SigningOut
    &&& events[at] matches PhaseEvent::Action { action }
    &&& ends_connection(action)
}

/// A connection that is over, or signs out, served before, and began to sign out because of an
/// action that ends it.
pub proof fn law_served_connections_sign_out(events: Seq<PhaseEvent>)
    requires
        phase_after(events) is Over || phase_after(events) is SigningOut,
    ensures
        exists|at: int| #[trigger] signs_out_at(events, at),
    decreases events.len(),
{
    let rest = events.drop_last();
    let before = phase_after(rest);
    if before is Over || before is SigningOut {
        law_served_connections_sign_out(rest);
        let at = choose|at: int| #[trigger] signs_out_at(rest, at);
        assert(events.take(at) =~= rest.take(at));
        assert(events.take(at + 1) =~= rest.take(at + 1));
        assert(signs_out_at(events, at));
    } else {
        let at = events.len() - 1;
        assert(events.take(at) =~= rest);
        assert(events.take(at + 1) =~= events);
        assert(signs_out_at(events, at));
    }
}

/// A connection that once served never ends with an error.
pub proof fn law_served_connections_do_not_fail(phase: ConnectionPhase, event: PhaseEvent)
    requires
        phase is Serving || phase is SigningOut || phase is Over,
    ensures
        !(next_phase(phase, event) is Failed),
{
}

/// A connection that was removed, and all that went with it.
#[derive(Debug)]
pub struct RemovedConnection {
    pub user_id: UserId,
    /// The projects that were shared over it, each with the connections of its guests.
    pub hosted_projects: Vec<ProjectPeers>,
    /// The projects in which it took part, each with the connections of all who do.
    pub guest_projects: Vec<ProjectPeers>,
    pub room: Option<Room>,
    pub canceled_calls: Vec<CanceledCall>,
}

/// To the guests of each project that was shared over a connection: it no longer is.
pub open spec fn hosted_news(projects: Seq<ProjectPeers>, connection_id: ConnectionId) -> Seq<Step>
    decreases projects.len(),
{
    if projects.len() == 0 {
        Seq::empty()
    } else {
        hosted_news(projects.drop_last(), connection_id) + sends(
            others(connection_id, projects.last().connection_ids@),
            Message::UnshareProject { project_id: projects.last().id },
            OnFailure::Log,
        )
    }
}

/// To all who take part in each project in which a connection took part: it no longer does.
pub open spec fn guest_news(projects: Seq<ProjectPeers>, connection_id: ConnectionId) -> Seq<Step>
    decreases projects.len(),
{
    if projects.len() == 0 {
        Seq::empty()
    } else {
        guest_news(projects.drop_last(), connection_id) + sends(
            others(connection_id, projects.last().connection_ids@),
            Message::RemoveProjectCollaborator {
                project_id: projects.last().id,
                peer_id: connection_id.0,
            },
            OnFailure::Log,
        )
    }
}

/// Each project, to be removed from the records.
pub open spec fn unregistrations(projects: Seq<ProjectPeers>) -> Seq<Step> {
    Seq::new(
        projects.len(),
        |index: int| Step::UnregisterProject { project_id: projects[index].id },
    )
}

/// Adds, to the guests of each project that was shared over a connection, that it no longer is.
fn push_hosted_news(plan: &mut Vec<Step>, projects: &[ProjectPeers], connection_id: ConnectionId)
    ensures
        final(plan)@ == old(plan)@ + hosted_news(projects@, connection_id),
{
    let mut index: usize = 0;
    assert(projects@.take(0) =~= Seq::<ProjectPeers>::empty());
    while index < projects.len()
        invariant
            index <= projects@.len(),
            plan@ == old(plan)@ + hosted_news(projects@.take(index as int), connection_id),
        decreases projects@.len() - index,
    {
        assert(projects@.take(index + 1).drop_last() =~= projects@.take(index as int));
        let receivers: Vec<ConnectionId> = broadcast(
            connection_id,
            projects[index].connection_ids.as_slice(),
        );
        push_sends(
            plan,
            receivers.as_slice(),
            &Message::UnshareProject { project_id: projects[index].id },
            OnFailure::Log,
        );
        index += 1;
        assert(plan@ =~= old(plan)@ + hosted_news(projects@.take(index as int), connection_id));
    }
    assert(projects@.take(projects@.len() as int) =~= projects@);
}

/// Adds, to all who take part in each project in which a connection took part, that it no
/// longer does.
fn push_guest_news(plan: &mut Vec<Step>, projects: &[ProjectPeers], connection_id: ConnectionId)
    ensures
        final(plan)@ == old(plan)@ + guest_news(projects@, connection_id),
{
    let mut index: usize = 0;
    assert(projects@.take(0) =~= Seq::<ProjectPeers>::empty());
    while index < projects.len()
        invariant
            index <= projects@.len(),
            plan@ == old(plan)@ + guest_news(projects@.take(index as int), connection_id),
        decreases projects@.len() - index,
    {
        assert(projects@.take(index + 1).drop_last() =~= projects@.take(index as int));
        let receivers: Vec<ConnectionId> = broadcast(
            connection_id,
            projects[index].connection_ids.as_slice(),
        );
        push_sends(
            plan,
            receivers.as_slice(),
            &Message::RemoveProjectCollaborator {
                project_id: projects[index].id,
                peer_id: connection_id.0,
            },
            OnFailure::Log,
        );
        index += 1;
        assert(plan@ =~= old(plan)@ + guest_news(projects@.take(index as int), connection_id));
    }
    assert(projects@.take(projects@.len() as int) =~= projects@);
}

/// Adds each project, to be removed from the records.
fn push_unregistrations(plan: &mut Vec<Step>, projects: &[ProjectPeers])
    ensures
        final(plan)@ == old(plan)@ + unregistrations(projects@),
{
    let mut index: usize = 0;
    assert(plan@ =~= old(plan)@ + unregistrations(projects@).take(0));
    while index < projects.len()
        invariant
            index <= projects@.len(),
            plan@ == old(plan)@ + unregistrations(projects@).take(index as int),
        decreases projects@.len() - index,
    {
        plan.push(Step::UnregisterProject { project_id: projects[index].id });
        index += 1;
        assert(plan@ =~= old(plan)@ + unregistrations(projects@).take(index as int));
    }
    assert(unregistrations(projects@).take(projects@.len() as int) =~= unregistrations(projects@));
}

/// Whether `plan` is what to do when a connection is gone.
pub open spec fn is_sign_out(
    plan: Seq<Step>,
    has_live_kit: bool,
    connection_id: ConnectionId,
    removed: RemovedConnection,
) -> bool {
    let news = hosted_news(removed.hosted_projects@, connection_id) + guest_news(
        removed.guest_projects@,
        connection_id,
    ) + (match removed.room {
        Some(room) => room_news(room),
        None => Seq::empty(),
    }) + canceled_news(removed.canceled_calls@);
    let rest = contact_updates(
        with_canceled_users(seq![removed.user_id], removed.canceled_calls@),
        OnFailure::Log,
    ) + unregistrations(removed.hosted_projects@);
    match removed.room {
        Some(room) if has_live_kit => {
            &&& plan.len() == news.len() + 1 + rest.len()
            &&& plan.take(news.len() as int) == news
            &&& is_video_farewell(plan[news.len() as int], room, connection_id)
            &&& plan.skip(news.len() as int + 1) == rest
        },
        _ => plan == news + rest,
    }
}

/// What to do when a connection is gone: what it shared is no longer shared, it takes part in
/// nothing any more, everyone left in its room hears of it, those it was calling are no longer
/// called, the contacts of all of them hear of it, and the projects that it shared are
/// removed from the records. Nothing of this stops when a step fails.
pub fn sign_out(
    has_live_kit: bool,
    connection_id: ConnectionId,
    removed: &RemovedConnection,
) -> (plan: Vec<Step>)
    ensures
        is_sign_out(plan@, has_live_kit, connection_id, *removed),
{
    let mut plan: Vec<Step> = Vec::new();
    let mut contacts_to_update: Vec<UserId> = Vec::new();
    contacts_to_update.push(removed.user_id);
    assert(contacts_to_update@ =~= seq![removed.user_id]);
    push_hosted_news(&mut plan, removed.hosted_projects.as_slice(), connection_id);
    push_guest_news(&mut plan, removed.guest_projects.as_slice(), connection_id);
    let mut farewell: Option<Step> = None;
    if let Some(room) = &removed.room {
        room_updated(&mut plan, room);
        farewell = room_left(has_live_kit, room, connection_id);
    }
    push_canceled_news(&mut plan, removed.canceled_calls.as_slice(), &mut contacts_to_update);
    let ghost news = plan@;
    assert(news =~= hosted_news(removed.hosted_projects@, connection_id) + guest_news(
        removed.guest_projects@,
        connection_id,
    ) + (match removed.room {
        Some(room) => room_news(room),
        None => Seq::empty(),
    }) + canceled_news(removed.canceled_calls@));
    if let Some(step) = farewell {
        plan.push(step);
    }
    push_contact_updates(&mut plan, contacts_to_update.as_slice(), OnFailure::Log);
    push_unregistrations(&mut plan, removed.hosted_projects.as_slice());
    proof {
        let rest = contact_updates(contacts_to_update@, OnFailure::Log) + unregistrations(
            removed.hosted_projects@,
        );
        if has_live_kit && removed.room is Some {
            assert(plan@.take(news.len() as int) =~= news);
            assert(plan@.skip(news.len() as int + 1) =~= rest);
        } else {
            assert(plan@ =~= news + rest);
        }
    }
    plan
}

/// Whether no step of a plan ends it early.
pub open spec fn never_stops(plan: Seq<Step>) -> bool {
    forall|index: int|
        0 <= index < plan.len() ==> (#[trigger] plan[index]).policy() == OnFailure::Log
}

/// Two plans that do not end early, one after the other, do not end early.
proof fn lemma_never_stops_concat(first: Seq<Step>, second: Seq<Step>)
    requires
        never_stops(first),
        never_stops(second),
    ensures
        never_stops(first + second),
{
    let both = first + second;
    assert forall|index: int| 0 <= index < both.len() implies (#[trigger] both[index]).policy()
        == OnFailure::Log by {
        if index < first.len() {
            assert(both[index] == first[index]);
        } else {
            assert(both[index] == second[index - first.len()]);
        }
    }
}

/// What is said of the projects of a connection that is gone does not end a plan early.
proof fn lemma_project_news_never_stops(
    hosted: Seq<ProjectPeers>,
    guest: Seq<ProjectPeers>,
    connection_id: ConnectionId,
)
    ensures
        never_stops(hosted_news(hosted, connection_id)),
        never_stops(guest_news(guest, connection_id)),
    decreases hosted.len() + guest.len(),
{
    if hosted.len() > 0 {
        lemma_project_news_never_stops(hosted.drop_last(), guest, connection_id);
        lemma_never_stops_concat(
            hosted_news(hosted.drop_last(), connection_id),
            sends(
                others(connection_id, hosted.last().connection_ids@),
                Message::UnshareProject { project_id: hosted.last().id },
                OnFailure::Log,
            ),
        );
    }
    if guest.len() > 0 {
        lemma_project_news_never_stops(hosted, guest.drop_last(), connection_id);
        lemma_never_stops_concat(
            guest_news(guest.drop_last(), connection_id),
            sends(
                others(connection_id, guest.last().connection_ids@),
                Message::RemoveProjectCollaborator {
                    project_id: guest.last().id,
                    peer_id: connection_id.0,
                },
                OnFailure::Log,
            ),
        );
    }
}

/// Signing out goes on to its end, whatever fails on the way.
pub proof fn law_signing_out_never_stops(
    plan: Seq<Step>,
    has_live_kit: bool,
    connection_id: ConnectionId,
    removed: RemovedConnection,
)
    requires
        is_sign_out(plan, has_live_kit, connection_id, removed),
    ensures
        never_stops(plan),
{
    let hosted = hosted_news(removed.hosted_projects@, connection_id);
    let guest = guest_news(removed.guest_projects@, connection_id);
    let room = match removed.room {
        Some(room) => room_news(room),
        None => Seq::empty(),
    };
    let canceled = canceled_news(removed.canceled_calls@);
    let news = hosted + guest + room + canceled;
    let contacts = contact_updates(
        with_canceled_users(seq![removed.user_id], removed.canceled_calls@),
        OnFailure::Log,
    );
    let rest = contacts + unregistrations(removed.hosted_projects@);
    lemma_project_news_never_stops(
        removed.hosted_projects@,
        removed.guest_projects@,
        connection_id,
    );
    lemma_never_stops_concat(hosted, guest);
    lemma_never_stops_concat(hosted + guest, room);
    lemma_never_stops_concat(hosted + guest + room, canceled);
    lemma_never_stops_concat(contacts, unregistrations(removed.hosted_projects@));
    lemma_never_stops_concat(news, rest);
    if has_live_kit && removed.room is Some {
        assert forall|index: int| 0 <= index < plan.len() implies (
        #[trigger] plan[index]).policy() == OnFailure::Log by {
            if index < news.len() {
                assert(plan[index] == plan.take(news.len() as int)[index]);
                assert(plan[index] == news[index]);
            } else if index > news.len() {
                assert(plan[index] == plan.skip(news.len() as int + 1)[index - news.len() - 1]);
                assert(plan[index] == rest[index - news.len() - 1]);
            }
        }
    }
}

/// To every connection of whoever invited someone: the new contact, and the invitations that
/// are left.
pub open spec fn redeemed_steps(
    connection_ids: Seq<ConnectionId>,
    invitee_id: UserId,
    url: String,
    invite_count: u32,
) -> Seq<Step>
    decreases connection_ids.len(),
{
    if connection_ids.len() == 0 {
        Seq::empty()
    } else {
        redeemed_steps(connection_ids.drop_last(), invitee_id, url, invite_count) + seq![
            Step::Send {
                to: connection_ids.last(),
                message: Message::UpdateContacts {
                    update: ContactsUpdate {
                        contact: Some(ContactOf { user_id: invitee_id, should_notify: true }),
                        ..no_update()
                    },
                },
                on_failure: OnFailure::Abort,
            },
            Step::Send {
                to: connection_ids.last(),
                message: Message::UpdateInviteInfo { url, count: invite_count },
                on_failure: OnFailure::Abort,
            },
        ]
    }
}

/// What to do when someone was invited: whoever invited them hears of the new contact and of
/// the invitations that are left, unless they have no code to invite anyone with.
pub fn invite_code_redeemed(
    invitee_id: UserId,
    invite_link_prefix: &str,
    invite_code: Option<&str>,
    invite_count: i32,
    connection_ids: &[ConnectionId],
) -> (plan: Vec<Step>)
    ensures
        match invite_code {
            Some(code) => exists|url: String|
                url@ == invite_link_prefix@ + code@ && plan@ == #[trigger] redeemed_steps(
                    connection_ids@,
                    invitee_id,
                    url,
                    invite_count as u32,
                ),
            None => plan@.len() == 0,
        },
{
    let mut plan: Vec<Step> = Vec::new();
    if let Some(code) = invite_code {
        let url: String = invite_url(invite_link_prefix, code);
        let count: u32 = #[verifier::truncate]
        (invite_count as u32);
        let mut index: usize = 0;
        assert(connection_ids@.take(0) =~= Seq::<ConnectionId>::empty());
        while index < connection_ids.len()
            invariant
                index <= connection_ids@.len(),
                plan@ == redeemed_steps(
                    connection_ids@.take(index as int),
                    invitee_id,
                    url,
                    count,
                ),
            decreases connection_ids@.len() - index,
        {
            assert(connection_ids@.take(index + 1).drop_last() =~= connection_ids@.take(
                index as int,
            ));
            let mut update: ContactsUpdate = ContactsUpdate::none();
            update.contact = Some(ContactOf { user_id: invitee_id, should_notify: true });
            plan.push(
                Step::Send {
                    to: connection_ids[index],
                    message: Message::UpdateContacts { update },
                    on_failure: OnFailure::Abort,
                },
            );
            plan.push(
                Step::Send {
                    to: connection_ids[index],
                    message: Message::UpdateInviteInfo { url: url.clone(), count },
                    on_failure: OnFailure::Abort,
                },
            );
            index += 1;
            assert(plan@ =~= redeemed_steps(
                connection_ids@.take(index as int),
                invitee_id,
                url,
                count,
            ));
        }
        assert(connection_ids@.take(connection_ids@.len() as int) =~= connection_ids@);
    }
    plan
}

/// The invitations that are left, to every connection of a user.
pub open spec fn invite_news(
    connection_ids: Seq<ConnectionId>,
    url: String,
    invite_count: u32,
) -> Seq<Step> {
    sends(
        connection_ids,
        Message::UpdateInviteInfo { url, count: invite_count },
        OnFailure::Abort,
    )
}

/// What to do when a user has more or fewer invitations left: their connections hear of it,
/// unless they have no code to invite anyone with.
pub fn invite_count_updated(
    invite_link_prefix: &str,
    invite_code: Option<&str>,
    invite_count: i32,
    connection_ids: &[ConnectionId],
) -> (plan: Vec<Step>)
    ensures
        match invite_code {
            Some(code) => exists|url: String|
                url@ == invite_link_prefix@ + code@ && plan@ == #[trigger] invite_news(
                    connection_ids@,
                    url,
                    invite_count as u32,
                ),
            None => plan@.len() == 0,
        },
{
    let mut plan: Vec<Step> = Vec::new();
    if let Some(code) = invite_code {
        let url: String = invite_url(invite_link_prefix, code);
        let count: u32 = #[verifier::truncate]
        (invite_count as u32);
        push_sends(
            &mut plan,
            connection_ids,
            &Message::UpdateInviteInfo { url: url.clone(), count },
            OnFailure::Abort,
        );
        assert(plan@ =~= invite_news(connection_ids@, url, count));
    }
    plan
}

/// A new connection is greeted first, with its own number. Whoever wants to know is told of it next,
/// and only a user who was never connected before is shown the contacts, which is put on record at
/// once; nothing else is done.
pub proof fn law_a_connection_is_greeted(
    connection_id: ConnectionId,
    user_id: UserId,
    connected_once: bool,
    announce: bool,
)
    ensures
        ({
            let plan = opening_steps(connection_id, user_id, connected_once, announce);
            let show = Step::Send {
                to: connection_id,
                message: Message::ShowContacts,
                on_failure: OnFailure::Abort,
            };
            &&& plan.first() == (Step::Send {
                to: connection_id,
                message: Message::Hello { peer_id: connection_id.0 },
                on_failure: OnFailure::Abort,
            })
            &&& announce ==> plan.len() >= 2 && plan[1] == (Step::AnnounceConnection {
                connection_id,
            })
            &&& !connected_once ==> plan.len() >= 3 && plan.last() == (Step::SetConnectedOnce {
                user_id,
            }) && plan[plan.len() - 2] == show
            &&& announce && !connected_once ==> plan.len() == 4
            &&& announce && connected_once ==> plan.len() == 2
            &&& !announce && !connected_once ==> plan.len() == 3
            &&& !announce && connected_once ==> plan.len() == 1
        }),
{
}

/// A connection that was added is told of the call that waits for the user, if there is one, then of
/// the contacts, and then of the invitations that are left, if the user can invite anyone; last the
/// contacts are told of the user. Nothing else is done.
pub proof fn law_a_connection_is_welcomed(
    plan: Seq<Step>,
    connection_id: ConnectionId,
    user_id: UserId,
    incoming_call: Option<PayloadId>,
    contacts: PayloadId,
    invite_link_prefix: Seq<char>,
    invite_code: Option<(Seq<char>, u32)>,
)
    requires
        is_welcome(
            plan,
            connection_id,
            user_id,
            incoming_call,
            contacts,
            invite_link_prefix,
            invite_code,
        ),
    ensures
        ({
            let calls = if incoming_call is Some {
                1int
            } else {
                0
            };
            let invites = if invite_code is Some {
                1int
            } else {
                0
            };
            &&& plan.len() == calls + 1 + invites + 1
            &&& incoming_call matches Some(call) ==> plan[0] == (Step::Send {
                to: connection_id,
                message: Message::IncomingCall { call },
                on_failure: OnFailure::Abort,
            })
            &&& plan[calls] == (Step::Send {
                to: connection_id,
                message: Message::InitialContacts { contacts },
                on_failure: OnFailure::Abort,
            })
            &&& invite_code matches Some(invite) ==> (plan[calls + 1] matches Step::Send {
                to,
                message: Message::UpdateInviteInfo { url, count },
                on_failure,
            } && to == connection_id && url@ == invite_link_prefix + invite.0 && count == invite.1
                && on_failure == OnFailure::Abort)
            &&& plan.last() == (Step::UpdateUserContacts { user_id, on_failure: OnFailure::Abort })
        }),
{
    let calls = if incoming_call is Some {
        1int
    } else {
        0
    };
    if invite_code is Some {
        assert(forall|index: int|
            0 <= index < calls + 1 ==> #[trigger] plan.take(calls + 1)[index] == plan[index]);
        assert(plan.take(calls + 1)[calls] == plan[calls]);
        assert(plan.take(calls + 1)[0] == plan[0]);
    }
}

/// Of what is at hand at once, the end of reading and writing comes first, a message that was handled
/// next, and a message that arrived, or the end of all messages, last; nothing that is at hand is
/// passed over when it stands alone.
pub proof fn law_events_come_in_order(ready: Readiness, failed: bool, arrival: Arrival)
    ensures
        ready.io_ended == Some(failed) ==> first_event(ready) == Some(
            ConnectionEvent::IoEnded { failed },
        ),
        ready.io_ended is None && ready.handled ==> first_event(ready) == Some(
            ConnectionEvent::Handled,
        ),
        ready.io_ended is None && !ready.handled && ready.incoming == Some(Some(arrival))
            ==> first_event(ready) == Some(ConnectionEvent::Arrived { arrival }),
        ready.io_ended is None && !ready.handled && ready.incoming == Some(None::<Arrival>)
            ==> first_event(ready) == Some(ConnectionEvent::Closed),
        (first_event(ready) is None) == (ready.io_ended is None && !ready.handled
            && ready.incoming is None),
{
}

/// Every message with a handler is handled, in the background exactly if it may be, and one without
/// is only written to the log. An error is written to the log exactly if reading and writing failed.
pub proof fn law_messages_are_handled(event: ConnectionEvent)
    ensures
        (action_for(event) is HandleInBackground) == (event matches ConnectionEvent::Arrived {
            arrival,
        } && arrival.has_handler && arrival.is_background),
        (action_for(event) is HandleInForeground) == (event matches ConnectionEvent::Arrived {
            arrival,
        } && arrival.has_handler && !arrival.is_background),
        (action_for(event) is LogMissingHandler) == (event matches ConnectionEvent::Arrived {
            arrival,
        } && !arrival.has_handler),
        (action_for(event) is LogErrorAndSignOut) == (event == (ConnectionEvent::IoEnded {
            failed: true,
        })),
        (action_for(event) is SignOut) == (event is Closed || event == (ConnectionEvent::IoEnded {
            failed: false,
        })),
{
}

/// A connection serves once it was opened, the records were read and it was welcomed. It serves for
/// as long as no action ends it, and then signs out, which ends it whether or not that fails.
pub proof fn law_a_connection_that_goes_well(actions: Seq<ConnectionAction>, last: PhaseEvent)
    requires
        forall|index: int|
            0 <= index < actions.len() ==> #[trigger] actions[index] != ConnectionAction::SignOut
                && actions[index] != ConnectionAction::LogErrorAndSignOut,
        !(last is Action),
    ensures
        ({
            let served = seq![PhaseEvent::Done, PhaseEvent::Done, PhaseEvent::Done] + Seq::new(
                actions.len(),
                |index: int| PhaseEvent::Action { action: actions[index] },
            );
            &&& phase_after(served) is Serving
            &&& phase_after(
                served.push(PhaseEvent::Action { action: ConnectionAction::SignOut }).push(last),
            ) is Over
            &&& phase_after(
                served.push(
                    PhaseEvent::Action { action: ConnectionAction::LogErrorAndSignOut },
                ).push(last),
            ) is Over
        }),
{
    lemma_serving(actions);
    let served = seq![PhaseEvent::Done, PhaseEvent::Done, PhaseEvent::Done] + Seq::new(
        actions.len(),
        |index: int| PhaseEvent::Action { action: actions[index] },
    );
    let ended = served.push(PhaseEvent::Action { action: ConnectionAction::SignOut });
    let failed = served.push(PhaseEvent::Action { action: ConnectionAction::LogErrorAndSignOut });
    assert(ended.drop_last() =~= served);
    assert(failed.drop_last() =~= served);
    assert(ended.push(last).drop_last() =~= ended);
    assert(failed.push(last).drop_last() =~= failed);
    assert(phase_after(ended) is SigningOut);
    assert(phase_after(failed) is SigningOut);
}

/// A connection that was welcomed serves for as long as no action ends it.
proof fn lemma_serving(actions: Seq<ConnectionAction>)
    requires
        forall|index: int|
            0 <= index < actions.len() ==> #[trigger] actions[index] != ConnectionAction::SignOut
                && actions[index] != ConnectionAction::LogErrorAndSignOut,
    ensures
        phase_after(
            seq![PhaseEvent::Done, PhaseEvent::Done, PhaseEvent::Done] + Seq::new(
                actions.len(),
                |index: int| PhaseEvent::Action { action: actions[index] },
            ),
        ) is Serving,
    decreases actions.len(),
{
    let start = seq![PhaseEvent::Done, PhaseEvent::Done, PhaseEvent::Done];
    let served = start + Seq::new(
        actions.len(),
        |index: int| PhaseEvent::Action { action: actions[index] },
    );
    if actions.len() == 0 {
        reveal_with_fuel(phase_after, 4);
        assert(served =~= start);
        assert(start.drop_last() =~= seq![PhaseEvent::Done, PhaseEvent::Done]);
        assert(start.drop_last().drop_last() =~= seq![PhaseEvent::Done]);
        assert(start.drop_last().drop_last().drop_last() =~= Seq::empty());
    } else {
        let rest = actions.drop_last();
        assert forall|index: int| 0 <= index < rest.len() implies #[trigger] rest[index]
            != ConnectionAction::SignOut && rest[index] != ConnectionAction::LogErrorAndSignOut by {
            assert(rest[index] == actions[index]);
        }
        lemma_serving(rest);
        assert(served.drop_last() =~= start + Seq::new(
            rest.len(),
            |index: int| PhaseEvent::Action { action: rest[index] },
        ));
        assert(served.last() == (PhaseEvent::Action { action: actions.last() }));
        assert(actions.last() == actions[actions.len() - 1]);
    }
}

/// What goes wrong before a connection serves ends it with that very error.
pub proof fn law_early_failures_end_a_connection(phase: ConnectionPhase, error: HandlerError)
    requires
        phase is Opening || phase is ReadingRecords || phase is Welcoming,
    ensures
        next_phase(phase, PhaseEvent::Error { error }) == (ConnectionPhase::Failed { error }),
{
}

/// How many who take part in a project are not `connection_id`.
pub open spec fn other_count(project: ProjectPeers, connection_id: ConnectionId) -> nat {
    project.connection_ids@.filter(|id: ConnectionId| id != connection_id).len()
}

/// Everyone else named with a project that a lost connection shared is told that it is no longer
/// shared, project by project and in order; nothing else is said of these projects.
pub proof fn law_every_guest_of_a_lost_host_hears(
    projects: Seq<ProjectPeers>,
    connection_id: ConnectionId,
)
    ensures
        hosted_news(projects, connection_id).len() == total(
            projects,
            |project: ProjectPeers| other_count(project, connection_id),
        ),
        forall|index: int, at: int|
            #![trigger projects[index].connection_ids@[at]]
            0 <= index < projects.len() && 0 <= at < projects[index].connection_ids@.len()
                && projects[index].connection_ids@[at] != connection_id ==> {
                let place = total(
                    projects.take(index),
                    |project: ProjectPeers| other_count(project, connection_id),
                ) + rank(
                    projects[index].connection_ids@,
                    |id: ConnectionId| id != connection_id,
                    at,
                ) as int;
                &&& place < hosted_news(projects, connection_id).len()
                &&& hosted_news(projects, connection_id)[place] == (Step::Send {
                    to: projects[index].connection_ids@[at],
                    message: Message::UnshareProject { project_id: projects[index].id },
                    on_failure: OnFailure::Log,
                })
            },
{
    let piece = |project: ProjectPeers|
        sends(
            others(connection_id, project.connection_ids@),
            Message::UnshareProject { project_id: project.id },
            OnFailure::Log,
        );
    let joined = |some: Seq<ProjectPeers>| hosted_news(some, connection_id);
    let size = |project: ProjectPeers| other_count(project, connection_id);
    let wanted = |id: ConnectionId| id != connection_id;
    assert(joins(piece, joined));
    lemma_joined_len(projects, piece, joined);
    assert forall|project: ProjectPeers| size(project) == #[trigger] piece_len(piece)(project) by {
        law_broadcast_keeps_the_order(connection_id, project.connection_ids@);
    }
    assert(size =~= piece_len(piece));
    assert forall|index: int, at: int|
        #![trigger projects[index].connection_ids@[at]]
        0 <= index < projects.len() && 0 <= at < projects[index].connection_ids@.len()
            && projects[index].connection_ids@[at] != connection_id implies {
        let place = total(projects.take(index), size) + rank(
            projects[index].connection_ids@,
            wanted,
            at,
        ) as int;
        &&& place < hosted_news(projects, connection_id).len()
        &&& hosted_news(projects, connection_id)[place] == (Step::Send {
            to: projects[index].connection_ids@[at],
            message: Message::UnshareProject { project_id: projects[index].id },
            on_failure: OnFailure::Log,
        })
    } by {
        law_broadcast_keeps_the_order(connection_id, projects[index].connection_ids@);
        let within = rank(projects[index].connection_ids@, wanted, at) as int;
        lemma_joined_at(projects, piece, joined, index, within);
    }
}

/// Everyone else named with a project in which a lost connection took part is told that it no longer
/// does, project by project and in order; nothing else is said of these projects.
pub proof fn law_every_peer_of_a_lost_guest_hears(
    projects: Seq<ProjectPeers>,
    connection_id: ConnectionId,
)
    ensures
        guest_news(projects, connection_id).len() == total(
            projects,
            |project: ProjectPeers| other_count(project, connection_id),
        ),
        forall|index: int, at: int|
            #![trigger projects[index].connection_ids@[at]]
            0 <= index < projects.len() && 0 <= at < projects[index].connection_ids@.len()
                && projects[index].connection_ids@[at] != connection_id ==> {
                let place = total(
                    projects.take(index),
                    |project: ProjectPeers| other_count(project, connection_id),
                ) + rank(
                    projects[index].connection_ids@,
                    |id: ConnectionId| id != connection_id,
                    at,
                ) as int;
                &&& place < guest_news(projects, connection_id).len()
                &&& guest_news(projects, connection_id)[place] == (Step::Send {
                    to: projects[index].connection_ids@[at],
                    message: Message::RemoveProjectCollaborator {
                        project_id: projects[index].id,
                        peer_id: connection_id.0,
                    },
                    on_failure: OnFailure::Log,
                })
            },
{
    let piece = |project: ProjectPeers|
        sends(
            others(connection_id, project.connection_ids@),
            Message::RemoveProjectCollaborator {
                project_id: project.id,
                peer_id: connection_id.0,
            },
            OnFailure::Log,
        );
    let joined = |some: Seq<ProjectPeers>| guest_news(some, connection_id);
    let size = |project: ProjectPeers| other_count(project, connection_id);
    let wanted = |id: ConnectionId| id != connection_id;
    assert(joins(piece, joined));
    lemma_joined_len(projects, piece, joined);
    assert forall|project: ProjectPeers| size(project) == #[trigger] piece_len(piece)(project) by {
        law_broadcast_keeps_the_order(connection_id, project.connection_ids@);
    }
    assert(size =~= piece_len(piece));
    assert forall|index: int, at: int|
        #![trigger projects[index].connection_ids@[at]]
        0 <= index < projects.len() && 0 <= at < projects[index].connection_ids@.len()
            && projects[index].connection_ids@[at] != connection_id implies {
        let place = total(projects.take(index), size) + rank(
            projects[index].connection_ids@,
            wanted,
            at,
        ) as int;
        &&& place < guest_news(projects, connection_id).len()
        &&& guest_news(projects, connection_id)[place] == (Step::Send {
            to: projects[index].connection_ids@[at],
            message: Message::RemoveProjectCollaborator {
                project_id: projects[index].id,
                peer_id: connection_id.0,
            },
            on_failure: OnFailure::Log,
        })
    } by {
        law_broadcast_keeps_the_order(connection_id, projects[index].connection_ids@);
        let within = rank(projects[index].connection_ids@, wanted, at) as int;
        lemma_joined_at(projects, piece, joined, index, within);
    }
}

/// Where the parts of a plan for a lost connection begin: what it took part in, the room, the calls,
/// the video room, the contacts and the records.
pub open spec fn sign_out_places(
    has_live_kit: bool,
    connection_id: ConnectionId,
    removed: RemovedConnection,
) -> (int, int, int, int, int) {
    let guest = total(
        removed.hosted_projects@,
        |project: ProjectPeers| other_count(project, connection_id),
    ) as int;
    let room = guest + total(
        removed.guest_projects@,
        |project: ProjectPeers| other_count(project, connection_id),
    );
    let calls = match removed.room {
        Some(left) => room + left.participants@.len(),
        None => room,
    };
    let video = calls + removed.canceled_calls@.len();
    (
        guest,
        room,
        calls,
        video,
        if has_live_kit && removed.room is Some {
            video + 1
        } else {
            video
        },
    )
}

/// When a connection is lost: all is said of each project that it shared or took part in; everyone
/// left in its room is told of the room; every connection that it was calling stops ringing; where
/// there are video rooms it is removed from that of its room, and that room too exactly if no one is
/// left; the contacts of its user and of everyone it was calling are told; and last every project
/// that it shared is removed from the records. Nothing else is done.
pub proof fn law_a_lost_connection_is_told(
    plan: Seq<Step>,
    has_live_kit: bool,
    connection_id: ConnectionId,
    removed: RemovedConnection,
)
    requires
        is_sign_out(plan, has_live_kit, connection_id, removed),
    ensures
        ({
            let (guest, room, calls, video, users) = sign_out_places(
                has_live_kit,
                connection_id,
                removed,
            );
            let canceled = removed.canceled_calls@;
            let hosted = removed.hosted_projects@;
            let records = plan.len() - hosted.len();
            &&& 0 <= guest <= room <= calls <= video <= users < records <= plan.len()
            &&& plan.subrange(0, guest) == hosted_news(hosted, connection_id)
            &&& plan.subrange(guest, room) == guest_news(removed.guest_projects@, connection_id)
            &&& removed.room matches Some(left) ==> forall|index: int|
                #![trigger left.participants@[index]]
                0 <= index < left.participants@.len() ==> plan[room + index] == (Step::Send {
                    to: left.participants@[index],
                    message: Message::RoomUpdated { room_id: left.id, state: left.state },
                    on_failure: OnFailure::Log,
                })
            &&& forall|index: int|
                #![trigger canceled[index]]
                0 <= index < canceled.len() ==> plan[calls + index] == (Step::Send {
                    to: canceled[index].connection_id,
                    message: Message::CallCanceled,
                    on_failure: OnFailure::Log,
                })
            &&& has_live_kit ==> (removed.room matches Some(left) ==> (plan[video]
                matches Step::LeaveVideoRoom { room: name, identity, delete_room } && name
                == left.live_kit_room && identity@ == decimal(connection_id.0 as nat) && (delete_room
                <==> left.participants@ =~= Seq::empty())))
            &&& plan[users] == (Step::UpdateUserContacts {
                user_id: removed.user_id,
                on_failure: OnFailure::Log,
            })
            &&& forall|index: int|
                users <= index < records ==> (#[trigger] plan[index]
                    matches Step::UpdateUserContacts { user_id: told, on_failure } && on_failure
                    == OnFailure::Log && (told == removed.user_id || exists|at: int|
                    0 <= at < canceled.len() && (#[trigger] canceled[at]).user_id == Some(told)))
            &&& forall|at: int|
                #![trigger canceled[at]]
                0 <= at < canceled.len() && canceled[at].user_id is Some ==> plan.subrange(
                    users,
                    records,
                ).contains(
                    Step::UpdateUserContacts {
                        user_id: canceled[at].user_id->0,
                        on_failure: OnFailure::Log,
                    },
                )
            &&& forall|index: int|
                #![trigger hosted[index]]
                0 <= index < hosted.len() ==> plan[records + index] == (Step::UnregisterProject {
                    project_id: hosted[index].id,
                })
        }),
{
    let (guest, room, calls, video, users) = sign_out_places(has_live_kit, connection_id, removed);
    let canceled = removed.canceled_calls@;
    let hosted = removed.hosted_projects@;
    let records = plan.len() - hosted.len();
    law_every_guest_of_a_lost_host_hears(hosted, connection_id);
    law_every_peer_of_a_lost_guest_hears(removed.guest_projects@, connection_id);
    let first = hosted_news(hosted, connection_id);
    let second = guest_news(removed.guest_projects@, connection_id);
    let third = match removed.room {
        Some(left) => room_news(left),
        None => Seq::empty(),
    };
    let news = first + second + third + canceled_news(canceled);
    let told = with_canceled_users(seq![removed.user_id], canceled);
    let farewell = contact_updates(told, OnFailure::Log);
    let rest = farewell + unregistrations(hosted);
    assert(plan.take(news.len() as int) =~= news);
    assert(plan.skip(users) =~= rest);
    assert(forall|index: int| 0 <= index < news.len() ==> #[trigger] plan[index] == news[index]) by {
        assert(forall|index: int|
            0 <= index < news.len() ==> plan.take(news.len() as int)[index] == news[index]);
    }
    assert(forall|index: int|
        users <= index < plan.len() ==> #[trigger] plan[index] == rest[index - users]) by {
        assert(forall|index: int|
            users <= index < plan.len() ==> plan.skip(users)[index - users] == #[trigger] plan[index]);
    }
    assert(plan.subrange(0, guest) =~= first);
    assert(plan.subrange(guest, room) =~= second);
    assert(plan.subrange(users, records) =~= farewell);
    law_users_of_canceled_calls_are_added(seq![removed.user_id], canceled, removed.user_id);
    assert(told.subrange(0, 1)[0] == removed.user_id);
    assert forall|index: int| users <= index < records implies (#[trigger] plan[index]
        matches Step::UpdateUserContacts { user_id: one, on_failure } && on_failure
        == OnFailure::Log && (one == removed.user_id || exists|at: int|
        0 <= at < canceled.len() && (#[trigger] canceled[at]).user_id == Some(one))) by {
        law_users_of_canceled_calls_are_added(
            seq![removed.user_id],
            canceled,
            told[index - users],
        );
        assert(told.contains(told[index - users]));
    }
    assert forall|at: int|
        #![trigger canceled[at]]
        0 <= at < canceled.len() && canceled[at].user_id is Some implies plan.subrange(
        users,
        records,
    ).contains(
        Step::UpdateUserContacts {
            user_id: canceled[at].user_id->0,
            on_failure: OnFailure::Log,
        },
    ) by {
        let one = canceled[at].user_id->0;
        law_users_of_canceled_calls_are_added(seq![removed.user_id], canceled, one);
        let index = choose|index: int| 0 <= index < told.len() && told[index] == one;
        assert(farewell[index] == (Step::UpdateUserContacts {
            user_id: one,
            on_failure: OnFailure::Log,
        }));
    }
}

/// Every connection of whoever invited someone is told, in order, of the new contact, with a
/// notification, and then of the invitations that are left; nothing else is done.
pub proof fn law_every_connection_hears_of_the_invited(
    connection_ids: Seq<ConnectionId>,
    invitee_id: UserId,
    url: String,
    invite_count: u32,
)
    ensures
        ({
            let plan = redeemed_steps(connection_ids, invitee_id, url, invite_count);
            &&& plan.len() == 2 * connection_ids.len()
            &&& forall|index: int|
                #![trigger connection_ids[index]]
                0 <= index < connection_ids.len() ==> {
                    &&& plan[2 * index] == (Step::Send {
                        to: connection_ids[index],
                        message: Message::UpdateContacts {
                            update: ContactsUpdate {
                                contact: Some(ContactOf { user_id: invitee_id, should_notify: true }),
                                incoming_request: None,
                                remove_incoming_request: None,
                                outgoing_request: None,
                                remove_outgoing_request: None,
                            },
                        },
                        on_failure: OnFailure::Abort,
                    })
                    &&& plan[2 * index + 1] == (Step::Send {
                        to: connection_ids[index],
                        message: Message::UpdateInviteInfo { url, count: invite_count },
                        on_failure: OnFailure::Abort,
                    })
                }
        }),
    decreases connection_ids.len(),
{
    if connection_ids.len() > 0 {
        let rest = connection_ids.drop_last();
        law_every_connection_hears_of_the_invited(rest, invitee_id, url, invite_count);
        let plan = redeemed_steps(connection_ids, invitee_id, url, invite_count);
        let earlier = redeemed_steps(rest, invitee_id, url, invite_count);
        assert forall|index: int|
            #![trigger connection_ids[index]]
            0 <= index < connection_ids.len() implies {
            &&& plan[2 * index] == (Step::Send {
                to: connection_ids[index],
                message: Message::UpdateContacts {
                    update: ContactsUpdate {
                        contact: Some(ContactOf { user_id: invitee_id, should_notify: true }),
                        incoming_request: None,
                        remove_incoming_request: None,
                        outgoing_request: None,
                        remove_outgoing_request: None,
                    },
                },
                on_failure: OnFailure::Abort,
            })
            &&& plan[2 * index + 1] == (Step::Send {
                to: connection_ids[index],
                message: Message::UpdateInviteInfo { url, count: invite_count },
                on_failure: OnFailure::Abort,
            })
        } by {
            if index < rest.len() {
                assert(rest[index] == connection_ids[index]);
                assert(plan[2 * index] == earlier[2 * index]);
                assert(plan[2 * index + 1] == earlier[2 * index + 1]);
            }
        }
    }
}

/// Every connection of a user is told, in order, of the invitations that are left; nothing else is
/// done.
pub proof fn law_every_connection_hears_of_invitations(
    connection_ids: Seq<ConnectionId>,
    url: String,
    invite_count: u32,
)
    ensures
        invite_news(connection_ids, url, invite_count).len() == connection_ids.len(),
        forall|index: int|
            #![trigger connection_ids[index]]
            0 <= index < connection_ids.len() ==> invite_news(connection_ids, url, invite_count)[index]
                == (Step::Send {
                to: connection_ids[index],
                message: Message::UpdateInviteInfo { url, count: invite_count },
                on_failure: OnFailure::Abort,
            }),
{
}

} // verus!
