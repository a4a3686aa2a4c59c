//! Rooms: who comes and goes, who hears of it, and who may see the video.

use vstd::prelude::*;

use crate::collab::ids::{add_user, law_a_user_is_added_once, with_user};
use crate::collab::ids::{ConnectionId, ProjectId, RoomId, UserId};
use crate::collab::message::{Message, PayloadId};
use crate::collab::plan::{contact_updates, push_contact_updates, push_sends, sends, OnFailure, Step};
use crate::collab::response::Response;
use crate::strings::decimal;
use crate::sequences::{joins, lemma_joined_at, lemma_joined_len, piece_len, total};

verus! {

/// A room: who is in it, and the video room that belongs to it.
#[derive(Debug)]
pub struct Room {
    pub id: RoomId,
    pub participants: Vec<ConnectionId>,
    pub live_kit_room: String,
    /// All that clients are told of it.
    pub state: PayloadId,
}

/// With what a client gets into a video room.
#[derive(Debug, PartialEq, Eq)]
pub struct LiveKitConnectionInfo {
    pub server_url: String,
    pub token: String,
}

/// A project and the connections of those who take part in it.
#[derive(Debug)]
pub struct ProjectPeers {
    pub id: ProjectId,
    pub connection_ids: Vec<ConnectionId>,
}

/// A project that someone left, and whether they took part in it until then.
#[derive(Debug)]
pub struct LeftProject {
    pub id: ProjectId,
    pub remove_collaborator: bool,
    pub connection_ids: Vec<ConnectionId>,
}

/// A connection that is no longer called, and its user if that is known.
#[derive(Debug, Clone, Copy)]
pub struct CanceledCall {
    pub connection_id: ConnectionId,
    pub user_id: Option<UserId>,
}

/// What leaving a room brings with it.
#[derive(Debug)]
pub struct LeftRoom {
    pub room: Room,
    pub unshared_projects: Vec<ProjectPeers>,
    pub left_projects: Vec<LeftProject>,
    pub canceled_calls: Vec<CanceledCall>,
}

/// The state of a room, to everyone in it.
pub open spec fn room_news(room: Room) -> Seq<Step> {
    sends(
        room.participants@,
        Message::RoomUpdated { room_id: room.id, state: room.state },
        OnFailure::Log,
    )
}

/// Adds the state of a room, to everyone in it.
pub fn room_updated(plan: &mut Vec<Step>, room: &Room)
    ensures
        final(plan)@ == old(plan)@ + room_news(*room),
{
    push_sends(
        plan,
        room.participants.as_slice(),
        &Message::RoomUpdated { room_id: room.id, state: room.state },
        OnFailure::Log,
    );
}

/// Whether `step` is what is to be done in the video room when `connection_id` has left:
/// remove them, and the room too if no one is left in it.
pub open spec fn is_video_farewell(step: Step, room: Room, connection_id: ConnectionId) -> bool {
    match step {
        Step::LeaveVideoRoom { room: name, identity, delete_room } => {
            &&& name == room.live_kit_room
            &&& identity@ == decimal(connection_id.0 as nat)
            &&& delete_room == (room.participants@.len() == 0)
        },
        _ => false,
    }
}

/// What is to be done in the video room when `connection_id` has left; nothing where there
/// are no video rooms.
pub fn room_left(has_live_kit: bool, room: &Room, connection_id: ConnectionId) -> (step: Option<
    Step,
>)
    ensures
        match step {
            Some(step) => has_live_kit && is_video_farewell(step, *room, connection_id),
            None => !has_live_kit,
        },
{
    if has_live_kit {
        Some(
            Step::LeaveVideoRoom {
                room: room.live_kit_room.clone(),
                identity: connection_id.identity(),
                delete_room: room.participants.len() == 0,
            },
        )
    } else {
        None
    }
}

/// How far getting into a video room has come.
#[derive(Debug, PartialEq, Eq)]
pub enum VideoAccess {
    /// The video room has to be created.
    CreateRoom,
    /// A token has to be made out.
    GetToken,
    /// The client gets in with this, or not at all.
    Settled(Option<LiveKitConnectionInfo>),
}

/// Where getting into a video room begins.
pub open spec fn access_at_first(has_live_kit: bool, is_new_room: bool) -> VideoAccess {
    if !has_live_kit {
        VideoAccess::Settled(None)
    } else if is_new_room {
        VideoAccess::CreateRoom
    } else {
        VideoAccess::GetToken
    }
}

/// How getting into a video room goes on after the room was, or was not, created.
pub open spec fn access_after_room(created: bool) -> VideoAccess {
    if created {
        VideoAccess::GetToken
    } else {
        VideoAccess::Settled(None)
    }
}

/// How getting into a video room goes on after a token was, or was not, made out.
pub open spec fn access_after_token(server_url: String, token: Option<String>) -> VideoAccess {
    VideoAccess::Settled(
        (match token {
            Some(token) => Some(LiveKitConnectionInfo { server_url, token }),
            None => None,
        }),
    )
}

/// A client gets into a video room exactly with a token that was made out, and is told of that token
/// and of where the server is. A token is made out only where there are video rooms, and for a new
/// room only once its video room was created.
pub proof fn law_video_rooms_need_a_token(
    has_live_kit: bool,
    is_new_room: bool,
    created: bool,
    server_url: String,
    token: Option<String>,
)
    ensures
        access_at_first(has_live_kit, is_new_room) is GetToken <==> has_live_kit && !is_new_room,
        access_at_first(has_live_kit, is_new_room) is CreateRoom <==> has_live_kit && is_new_room,
        access_at_first(has_live_kit, is_new_room) == VideoAccess::Settled(None) <==> !has_live_kit,
        access_after_room(created) is GetToken <==> created,
        access_after_room(created) == VideoAccess::Settled(None) <==> !created,
        access_after_token(server_url, token) matches VideoAccess::Settled(access) && match access {
            Some(info) => token == Some(info.token) && info.server_url == server_url,
            None => token is None,
        },
{
}

impl VideoAccess {
    /// Where to begin: a new room has to be created, and where there are no video rooms there
    /// is nothing to do.
    pub fn begin(has_live_kit: bool, is_new_room: bool) -> (access: VideoAccess)
        ensures
            access == access_at_first(has_live_kit, is_new_room),
    {
        if !has_live_kit {
            VideoAccess::Settled(None)
        } else if is_new_room {
            VideoAccess::CreateRoom
        } else {
            VideoAccess::GetToken
        }
    }

    /// How to go on after the room was, or was not, created.
    pub fn room_created(created: bool) -> (access: VideoAccess)
        ensures
            access == access_after_room(created),
    {
        if created {
            VideoAccess::GetToken
        } else {
            VideoAccess::Settled(None)
        }
    }

    /// How to go on after a token was, or was not, made out.
    pub fn token_made(server_url: &String, token: Option<String>) -> (access: VideoAccess)
        ensures
            access == access_after_token(*server_url, token),
    {
        match token {
            Some(token) => VideoAccess::Settled(
                Some(LiveKitConnectionInfo { server_url: server_url.clone(), token }),
            ),
            None => VideoAccess::Settled(None),
        }
    }
}

/// What is done once a room has been created.
pub open spec fn created_steps(
    user_id: UserId,
    room: Room,
    live_kit_connection_info: Option<LiveKitConnectionInfo>,
) -> Seq<Step> {
    seq![
        Step::Respond {
            response: Response::Room {
                room_id: room.id,
                state: room.state,
                live_kit_connection_info,
            },
        },
        Step::UpdateUserContacts { user_id, on_failure: OnFailure::Abort },
    ]
}

/// What to do once a room has been created: answer with it, and tell the user's contacts.
pub fn create_room(
    user_id: UserId,
    room: &Room,
    live_kit_connection_info: Option<LiveKitConnectionInfo>,
) -> (plan: Vec<Step>)
    ensures
        plan@ == created_steps(user_id, *room, live_kit_connection_info),
{
    let mut plan: Vec<Step> = Vec::new();
    plan.push(
        Step::Respond {
            response: Response::Room {
                room_id: room.id,
                state: room.state,
                live_kit_connection_info,
            },
        },
    );
    plan.push(Step::UpdateUserContacts { user_id, on_failure: OnFailure::Abort });
    plan
}

/// What is done once someone has joined a room.
pub open spec fn joined_steps(
    user_id: UserId,
    room: Room,
    recipient_connection_ids: Seq<ConnectionId>,
    live_kit_connection_info: Option<LiveKitConnectionInfo>,
) -> Seq<Step> {
    sends(recipient_connection_ids, Message::CallCanceled, OnFailure::Log) + seq![
        Step::Respond {
            response: Response::Room {
                room_id: room.id,
                state: room.state,
                live_kit_connection_info,
            },
        },
    ] + room_news(room) + seq![
        Step::UpdateUserContacts { user_id, on_failure: OnFailure::Abort },
    ]
}

/// What to do once someone has joined a room: their other connections are no longer called,
/// they get the room as their answer, everyone in the room hears of it, and so do their
/// contacts.
pub fn join_room(
    user_id: UserId,
    room: &Room,
    recipient_connection_ids: &[ConnectionId],
    live_kit_connection_info: Option<LiveKitConnectionInfo>,
) -> (plan: Vec<Step>)
    ensures
        plan@ == joined_steps(
            user_id,
            *room,
            recipient_connection_ids@,
            live_kit_connection_info,
        ),
{
    let mut plan: Vec<Step> = Vec::new();
    push_sends(&mut plan, recipient_connection_ids, &Message::CallCanceled, OnFailure::Log);
    plan.push(
        Step::Respond {
            response: Response::Room {
                room_id: room.id,
                state: room.state,
                live_kit_connection_info,
            },
        },
    );
    room_updated(&mut plan, room);
    plan.push(Step::UpdateUserContacts { user_id, on_failure: OnFailure::Abort });
    assert(plan@ =~= joined_steps(
        user_id,
        *room,
        recipient_connection_ids@,
        live_kit_connection_info,
    ));
    plan
}

/// To everyone who takes part in one of some projects: it is no longer shared.
pub open spec fn unshared_news(projects: Seq<ProjectPeers>) -> Seq<Step>
    decreases projects.len(),
{
    if projects.len() == 0 {
        Seq::empty()
    } else {
        unshared_news(projects.drop_last()) + sends(
            projects.last().connection_ids@,
            Message::UnshareProject { project_id: projects.last().id },
            OnFailure::Abort,
        )
    }
}

/// Of each project that someone left while they took part in it: the others hear that they
/// left, and they hear that it is no longer shared with them.
pub open spec fn left_news(projects: Seq<LeftProject>, sender_id: ConnectionId) -> Seq<Step>
    decreases projects.len(),
{
    if projects.len() == 0 {
        Seq::empty()
    } else if projects.last().remove_collaborator {
        left_news(projects.drop_last(), sender_id) + sends(
            projects.last().connection_ids@,
            Message::RemoveProjectCollaborator {
                project_id: projects.last().id,
                peer_id: sender_id.0,
            },
            OnFailure::Abort,
        ) + seq![
            Step::Send {
                to: sender_id,
                message: Message::UnshareProject { project_id: projects.last().id },
                on_failure: OnFailure::Abort,
            },
        ]
    } else {
        left_news(projects.drop_last(), sender_id)
    }
}

/// To each connection that is no longer called: so it is told.
pub open spec fn canceled_news(calls: Seq<CanceledCall>) -> Seq<Step> {
    sends(
        Seq::new(calls.len(), |index: int| calls[index].connection_id),
        Message::CallCanceled,
        OnFailure::Log,
    )
}

/// `users` and the users who are no longer called, none of them twice.
pub open spec fn with_canceled_users(users: Seq<UserId>, calls: Seq<CanceledCall>) -> Seq<UserId>
    decreases calls.len(),
{
    if calls.len() == 0 {
        users
    } else {
        let rest = with_canceled_users(users, calls.drop_last());
        match calls.last().user_id {
            Some(user_id) => with_user(rest, user_id),
            None => rest,
        }
    }
}

/// Adds to each project's participants that it is no longer shared.
fn push_unshared_news(plan: &mut Vec<Step>, projects: &[ProjectPeers])
    ensures
        final(plan)@ == old(plan)@ + unshared_news(projects@),
{
    let mut index: usize = 0;
    assert(projects@.take(0) =~= Seq::<ProjectPeers>::empty());
    while index < projects.len()
        invariant
            index <= projects@.len(),
            plan@ == old(plan)@ + unshared_news(projects@.take(index as int)),
        decreases projects@.len() - index,
    {
        assert(projects@.take(index + 1).drop_last() =~= projects@.take(index as int));
        push_sends(
            plan,
            projects[index].connection_ids.as_slice(),
            &Message::UnshareProject { project_id: projects[index].id },
            OnFailure::Abort,
        );
        index += 1;
        assert(plan@ =~= old(plan)@ + unshared_news(projects@.take(index as int)));
    }
    assert(projects@.take(projects@.len() as int) =~= projects@);
}

/// Adds what there is to say of the projects that someone left.
fn push_left_news(plan: &mut Vec<Step>, projects: &[LeftProject], sender_id: ConnectionId)
    ensures
        final(plan)@ == old(plan)@ + left_news(projects@, sender_id),
{
    let mut index: usize = 0;
    assert(projects@.take(0) =~= Seq::<LeftProject>::empty());
    while index < projects.len()
        invariant
            index <= projects@.len(),
            plan@ == old(plan)@ + left_news(projects@.take(index as int), sender_id),
        decreases projects@.len() - index,
    {
        assert(projects@.take(index + 1).drop_last() =~= projects@.take(index as int));
        if projects[index].remove_collaborator {
            push_sends(
                plan,
                projects[index].connection_ids.as_slice(),
                &Message::RemoveProjectCollaborator {
                    project_id: projects[index].id,
                    peer_id: sender_id.0,
                },
                OnFailure::Abort,
            );
            plan.push(
                Step::Send {
                    to: sender_id,
                    message: Message::UnshareProject { project_id: projects[index].id },
                    on_failure: OnFailure::Abort,
                },
            );
        }
        index += 1;
        assert(plan@ =~= old(plan)@ + left_news(projects@.take(index as int), sender_id));
    }
    assert(projects@.take(projects@.len() as int) =~= projects@);
}

/// Adds that some connections are no longer called, and adds their users to `users`.
pub fn push_canceled_news(
    plan: &mut Vec<Step>,
    calls: &[CanceledCall],
    users: &mut Vec<UserId>,
)
    ensures
        final(plan)@ == old(plan)@ + canceled_news(calls@),
        final(users)@ == with_canceled_users(old(users)@, calls@),
{
    let mut index: usize = 0;
    assert(calls@.take(0) =~= Seq::<CanceledCall>::empty());
    assert(plan@ =~= old(plan)@ + canceled_news(calls@.take(0)));
    while index < calls.len()
        invariant
            index <= calls@.len(),
            plan@ == old(plan)@ + canceled_news(calls@.take(index as int)),
            users@ == with_canceled_users(old(users)@, calls@.take(index as int)),
        decreases calls@.len() - index,
    {
        assert(calls@.take(index + 1).drop_last() =~= calls@.take(index as int));
        plan.push(
            Step::Send {
                to: calls[index].connection_id,
                message: Message::CallCanceled,
                on_failure: OnFailure::Log,
            },
        );
        if let Some(user_id) = calls[index].user_id {
            add_user(users, user_id);
        }
        index += 1;
        assert(plan@ =~= old(plan)@ + canceled_news(calls@.take(index as int)));
    }
    assert(calls@.take(calls@.len() as int) =~= calls@);
}

/// Whether `plan` is what to do when someone has left a room.
pub open spec fn is_leaving_plan(
    plan: Seq<Step>,
    has_live_kit: bool,
    sender_id: ConnectionId,
    user_id: UserId,
    left: LeftRoom,
) -> bool {
    let news = unshared_news(left.unshared_projects@) + left_news(
        left.left_projects@,
        sender_id,
    ) + room_news(left.room) + canceled_news(left.canceled_calls@);
    let farewell = contact_updates(
        with_canceled_users(seq![user_id], left.canceled_calls@),
        OnFailure::Abort,
    );
    if has_live_kit {
        &&& plan.len() == news.len() + 1 + farewell.len()
        &&& plan.take(news.len() as int) == news
        &&& is_video_farewell(plan[news.len() as int], left.room, sender_id)
        &&& plan.skip(news.len() as int + 1) == farewell
    } else {
        plan == news + farewell
    }
}

/// What to do once someone has left a room: what they shared is no longer shared, they no
/// longer take part in what others share, everyone left in the room hears of it, those they
/// were calling are no longer called, and the contacts of all of them hear of it.
pub fn leave_room(
    has_live_kit: bool,
    sender_id: ConnectionId,
    user_id: UserId,
    left: &LeftRoom,
) -> (plan: Vec<Step>)
    ensures
        is_leaving_plan(plan@, has_live_kit, sender_id, user_id, *left),
{
    let mut plan: Vec<Step> = Vec::new();
    let mut contacts_to_update: Vec<UserId> = Vec::new();
    contacts_to_update.push(user_id);
    assert(contacts_to_update@ =~= seq![user_id]);
    push_unshared_news(&mut plan, left.unshared_projects.as_slice());
    push_left_news(&mut plan, left.left_projects.as_slice(), sender_id);
    room_updated(&mut plan, &left.room);
    push_canceled_news(&mut plan, left.canceled_calls.as_slice(), &mut contacts_to_update);
    let ghost news = plan@;
    assert(news =~= unshared_news(left.unshared_projects@) + left_news(
        left.left_projects@,
        sender_id,
    ) + room_news(left.room) + canceled_news(left.canceled_calls@));
    if let Some(step) = room_left(has_live_kit, &left.room, sender_id) {
        plan.push(step);
    }
    push_contact_updates(&mut plan, contacts_to_update.as_slice(), OnFailure::Abort);
    proof {
        let farewell = contact_updates(contacts_to_update@, OnFailure::Abort);
        if has_live_kit {
            assert(plan@.take(news.len() as int) =~= news);
            assert(plan@.skip(news.len() as int + 1) =~= farewell);
        } else {
            assert(plan@ =~= news + farewell);
        }
    }
    plan
}

/// What is done once someone is elsewhere.
pub open spec fn location_steps(room: Room) -> Seq<Step> {
    room_news(room) + seq![Step::Respond { response: Response::Ack }]
}

/// What to do once someone is elsewhere: everyone in the room hears of it, and the request is
/// answered.
pub fn update_participant_location(room: &Room) -> (plan: Vec<Step>)
    ensures
        plan@ == location_steps(*room),
{
    let mut plan: Vec<Step> = Vec::new();
    room_updated(&mut plan, room);
    plan.push(Step::Respond { response: Response::Ack });
    assert(plan@ =~= location_steps(*room));
    plan
}

/// When a room was created, the request is answered with that room and with what the user gets into
/// its video room with, and then the contacts of the user are told; nothing else is done.
pub proof fn law_a_created_room_is_answered(
    user_id: UserId,
    room: Room,
    live_kit_connection_info: Option<LiveKitConnectionInfo>,
)
    ensures
        ({
            let plan = created_steps(user_id, room, live_kit_connection_info);
            &&& plan.len() == 2
            &&& plan.first() matches Step::Respond {
                response: Response::Room { room_id, state, live_kit_connection_info: info },
            } && room_id == room.id && state == room.state && info == live_kit_connection_info
            &&& plan.last() == (Step::UpdateUserContacts { user_id, on_failure: OnFailure::Abort })
        }),
{
}

/// When someone joins a room, each of their connections that was called stops ringing, they get the
/// room as their answer, everyone in the room is told of it, and their contacts are told, in this
/// order; nothing else is done.
pub proof fn law_a_joined_room_is_told(
    user_id: UserId,
    room: Room,
    recipient_connection_ids: Seq<ConnectionId>,
    live_kit_connection_info: Option<LiveKitConnectionInfo>,
)
    ensures
        ({
            let plan = joined_steps(
                user_id,
                room,
                recipient_connection_ids,
                live_kit_connection_info,
            );
            let everyone = room.participants@;
            let rung = recipient_connection_ids.len() as int;
            &&& plan.len() == rung + 1 + everyone.len() + 1
            &&& forall|index: int|
                #![trigger recipient_connection_ids[index]]
                0 <= index < rung ==> plan[index] == (Step::Send {
                    to: recipient_connection_ids[index],
                    message: Message::CallCanceled,
                    on_failure: OnFailure::Log,
                })
            &&& plan[rung] matches Step::Respond {
                response: Response::Room { room_id, state, live_kit_connection_info: info },
            } && room_id == room.id && state == room.state && info == live_kit_connection_info
            &&& forall|index: int|
                #![trigger everyone[index]]
                0 <= index < everyone.len() ==> plan[rung + 1 + index] == (Step::Send {
                    to: everyone[index],
                    message: Message::RoomUpdated { room_id: room.id, state: room.state },
                    on_failure: OnFailure::Log,
                })
            &&& plan.last() == (Step::UpdateUserContacts { user_id, on_failure: OnFailure::Abort })
        }),
{
}

/// The number of those who take part in a project.
pub open spec fn peer_count(project: ProjectPeers) -> nat {
    project.connection_ids@.len()
}

/// Everyone who takes part in a project that is no longer shared is told so of that project, once
/// for each time that they are named; nothing else is said of these projects.
pub proof fn law_every_peer_of_an_unshared_project_hears(projects: Seq<ProjectPeers>)
    ensures
        unshared_news(projects).len() == total(
            projects,
            |project: ProjectPeers| peer_count(project),
        ),
        forall|index: int, at: int|
            #![trigger projects[index].connection_ids@[at]]
            0 <= index < projects.len() && 0 <= at < projects[index].connection_ids@.len() ==> {
                let place = total(
                    projects.take(index),
                    |project: ProjectPeers| peer_count(project),
                ) + at;
                &&& place < unshared_news(projects).len()
                &&& unshared_news(projects)[place] == (Step::Send {
                    to: projects[index].connection_ids@[at],
                    message: Message::UnshareProject { project_id: projects[index].id },
                    on_failure: OnFailure::Abort,
                })
            },
{
    let piece = |project: ProjectPeers|
        sends(
            project.connection_ids@,
            Message::UnshareProject { project_id: project.id },
            OnFailure::Abort,
        );
    let joined = |some: Seq<ProjectPeers>| unshared_news(some);
    assert(joins(piece, joined));
    lemma_joined_len(projects, piece, joined);
    let size = |project: ProjectPeers| peer_count(project);
    assert(size =~= piece_len(piece));
    assert forall|index: int, at: int|
        #![trigger projects[index].connection_ids@[at]]
        0 <= index < projects.len() && 0 <= at < projects[index].connection_ids@.len() implies {
        let place = total(projects.take(index), size) + at;
        &&& place < unshared_news(projects).len()
        &&& unshared_news(projects)[place] == (Step::Send {
            to: projects[index].connection_ids@[at],
            message: Message::UnshareProject { project_id: projects[index].id },
            on_failure: OnFailure::Abort,
        })
    } by {
        lemma_joined_at(projects, piece, joined, index, at);
    }
}

/// How many are told when someone leaves a project: where they took part in it, those who stay and
/// the one who leaves.
pub open spec fn told_of_leaving(project: LeftProject) -> nat {
    if project.remove_collaborator {
        project.connection_ids@.len() + 1
    } else {
        0
    }
}

/// Of every project in which someone took part when they left it, everyone who stays hears that they
/// left, and they hear last that it is no longer shared with them; of the others nothing is said.
pub proof fn law_every_peer_of_a_left_project_hears(
    projects: Seq<LeftProject>,
    sender_id: ConnectionId,
)
    ensures
        left_news(projects, sender_id).len() == total(
            projects,
            |project: LeftProject| told_of_leaving(project),
        ),
        forall|index: int, at: int|
            #![trigger projects[index].connection_ids@[at]]
            0 <= index < projects.len() && projects[index].remove_collaborator && 0 <= at
                < projects[index].connection_ids@.len() ==> {
                let place = total(
                    projects.take(index),
                    |project: LeftProject| told_of_leaving(project),
                ) + at;
                &&& place < left_news(projects, sender_id).len()
                &&& left_news(projects, sender_id)[place] == (Step::Send {
                    to: projects[index].connection_ids@[at],
                    message: Message::RemoveProjectCollaborator {
                        project_id: projects[index].id,
                        peer_id: sender_id.0,
                    },
                    on_failure: OnFailure::Abort,
                })
            },
        forall|index: int|
            #![trigger projects[index]]
            0 <= index < projects.len() && projects[index].remove_collaborator ==> {
                let place = total(
                    projects.take(index),
                    |project: LeftProject| told_of_leaving(project),
                ) + projects[index].connection_ids@.len() as int;
                &&& place < left_news(projects, sender_id).len()
                &&& left_news(projects, sender_id)[place] == (Step::Send {
                    to: sender_id,
                    message: Message::UnshareProject { project_id: projects[index].id },
                    on_failure: OnFailure::Abort,
                })
            },
{
    let piece = |project: LeftProject|
        if project.remove_collaborator {
            sends(
                project.connection_ids@,
                Message::RemoveProjectCollaborator { project_id: project.id, peer_id: sender_id.0 },
                OnFailure::Abort,
            ) + seq![
                Step::Send {
                    to: sender_id,
                    message: Message::UnshareProject { project_id: project.id },
                    on_failure: OnFailure::Abort,
                },
            ]
        } else {
            Seq::empty()
        };
    let joined = |some: Seq<LeftProject>| left_news(some, sender_id);
    assert forall|some: Seq<LeftProject>| some.len() > 0 implies joined(some) == #[trigger] joined(
        some.drop_last(),
    ) + piece(some.last()) by {
        assert(joined(some) =~= joined(some.drop_last()) + piece(some.last()));
    }
    lemma_joined_len(projects, piece, joined);
    let size = |project: LeftProject| told_of_leaving(project);
    assert(size =~= piece_len(piece));
    assert forall|index: int, at: int|
        #![trigger projects[index].connection_ids@[at]]
        0 <= index < projects.len() && projects[index].remove_collaborator && 0 <= at
            < projects[index].connection_ids@.len() implies {
        let place = total(projects.take(index), size) + at;
        &&& place < left_news(projects, sender_id).len()
        &&& left_news(projects, sender_id)[place] == (Step::Send {
            to: projects[index].connection_ids@[at],
            message: Message::RemoveProjectCollaborator {
                project_id: projects[index].id,
                peer_id: sender_id.0,
            },
            on_failure: OnFailure::Abort,
        })
    } by {
        lemma_joined_at(projects, piece, joined, index, at);
    }
    assert forall|index: int|
        #![trigger projects[index]]
        0 <= index < projects.len() && projects[index].remove_collaborator implies {
        let place = total(projects.take(index), size) + projects[index].connection_ids@.len() as int;
        &&& place < left_news(projects, sender_id).len()
        &&& left_news(projects, sender_id)[place] == (Step::Send {
            to: sender_id,
            message: Message::UnshareProject { project_id: projects[index].id },
            on_failure: OnFailure::Abort,
        })
    } by {
        lemma_joined_at(
            projects,
            piece,
            joined,
            index,
            projects[index].connection_ids@.len() as int,
        );
    }
}

/// Those whose contacts are told are those there were before, and every user of a call that is no
/// longer on, none of them twice, in the order in which they come first.
pub proof fn law_users_of_canceled_calls_are_added(
    users: Seq<UserId>,
    calls: Seq<CanceledCall>,
    user_id: UserId,
)
    ensures
        with_canceled_users(users, calls).contains(user_id) == (users.contains(user_id) || exists|
            index: int,
        |
            0 <= index < calls.len() && (#[trigger] calls[index]).user_id == Some(user_id)),
        users.no_duplicates() ==> with_canceled_users(users, calls).no_duplicates(),
        users.is_prefix_of(with_canceled_users(users, calls)),
        calls.len() > 0 ==> with_canceled_users(users, calls.drop_last()).is_prefix_of(
            with_canceled_users(users, calls),
        ),
    decreases calls.len(),
{
    if calls.len() > 0 {
        let rest = calls.drop_last();
        let before = with_canceled_users(users, rest);
        law_users_of_canceled_calls_are_added(users, rest, user_id);
        match calls.last().user_id {
            Some(user) => law_a_user_is_added_once(before, user, user_id),
            None => {},
        }
        if exists|index: int|
            0 <= index < calls.len() && (#[trigger] calls[index]).user_id == Some(user_id) {
            let index = choose|index: int|
                0 <= index < calls.len() && (#[trigger] calls[index]).user_id == Some(user_id);
            if index < rest.len() {
                assert(rest[index].user_id == Some(user_id));
            }
        }
        if exists|index: int|
            0 <= index < rest.len() && (#[trigger] rest[index]).user_id == Some(user_id) {
            let index = choose|index: int|
                0 <= index < rest.len() && (#[trigger] rest[index]).user_id == Some(user_id);
            assert(calls[index].user_id == Some(user_id));
        }
        if calls.last().user_id == Some(user_id) {
            assert(calls[calls.len() - 1].user_id == Some(user_id));
        }
    }
}

/// Where the parts of a plan for someone who has left a room begin: what is no longer shared, what
/// they left, the room, the calls, the video room, and the contacts.
pub open spec fn leaving_places(has_live_kit: bool, left: LeftRoom) -> (int, int, int, int, int) {
    let unshared = total(
        left.unshared_projects@,
        |project: ProjectPeers| peer_count(project),
    ) as int;
    let room = unshared + total(
        left.left_projects@,
        |project: LeftProject| told_of_leaving(project),
    );
    let calls = room + left.room.participants@.len();
    let video = calls + left.canceled_calls@.len();
    (
        unshared,
        room,
        calls,
        video,
        if has_live_kit {
            video + 1
        } else {
            video
        },
    )
}

/// When someone has left a room: all is said of each project that they shared or took part in;
/// everyone who stays is told of the room; every connection that they were calling stops ringing;
/// where there are video rooms they are removed from it, and the room too exactly if no one stays;
/// and last their own contacts are told, and those of everyone they were calling. Nothing else is
/// done.
pub proof fn law_leaving_a_room_is_told(
    plan: Seq<Step>,
    has_live_kit: bool,
    sender_id: ConnectionId,
    user_id: UserId,
    left: LeftRoom,
)
    requires
        is_leaving_plan(plan, has_live_kit, sender_id, user_id, left),
    ensures
        ({
            let (unshared, room, calls, video, users) = leaving_places(has_live_kit, left);
            let everyone = left.room.participants@;
            let canceled = left.canceled_calls@;
            &&& 0 <= unshared <= room <= calls <= video <= users < plan.len()
            &&& plan.subrange(0, unshared) == unshared_news(left.unshared_projects@)
            &&& plan.subrange(unshared, room) == left_news(left.left_projects@, sender_id)
            &&& forall|index: int|
                #![trigger everyone[index]]
                0 <= index < everyone.len() ==> plan[room + index] == (Step::Send {
                    to: everyone[index],
                    message: Message::RoomUpdated { room_id: left.room.id, state: left.room.state },
                    on_failure: OnFailure::Log,
                })
            &&& forall|index: int|
                #![trigger canceled[index]]
                0 <= index < canceled.len() ==> plan[calls + index] == (Step::Send {
                    to: canceled[index].connection_id,
                    message: Message::CallCanceled,
                    on_failure: OnFailure::Log,
                })
            &&& has_live_kit ==> (plan[video] matches Step::LeaveVideoRoom {
                room: name,
                identity,
                delete_room,
            } && name == left.room.live_kit_room && identity@ == decimal(sender_id.0 as nat) && (
            delete_room <==> everyone =~= Seq::empty()))
            &&& plan[users] == (Step::UpdateUserContacts { user_id, on_failure: OnFailure::Abort })
            &&& forall|index: int|
                users <= index < plan.len() ==> (#[trigger] plan[index]
                    matches Step::UpdateUserContacts { user_id: told, on_failure } && on_failure
                    == OnFailure::Abort && (told == user_id || exists|at: int|
                    0 <= at < canceled.len() && (#[trigger] canceled[at]).user_id == Some(told)))
            &&& forall|at: int|
                #![trigger canceled[at]]
                0 <= at < canceled.len() && canceled[at].user_id is Some ==> plan.skip(
                    users,
                ).contains(
                    Step::UpdateUserContacts {
                        user_id: canceled[at].user_id->0,
                        on_failure: OnFailure::Abort,
                    },
                )
        }),
{
    let (unshared, room, calls, video, users) = leaving_places(has_live_kit, left);
    let canceled = left.canceled_calls@;
    law_every_peer_of_an_unshared_project_hears(left.unshared_projects@);
    law_every_peer_of_a_left_project_hears(left.left_projects@, sender_id);
    let first = unshared_news(left.unshared_projects@);
    let second = left_news(left.left_projects@, sender_id);
    let news = first + second + room_news(left.room) + canceled_news(canceled);
    let told = with_canceled_users(seq![user_id], canceled);
    let farewell = contact_updates(told, OnFailure::Abort);
    assert(plan.take(news.len() as int) =~= news);
    assert(plan.skip(users) =~= farewell);
    assert(forall|index: int| 0 <= index < news.len() ==> plan[index] == news[index]) by {
        assert(forall|index: int|
            0 <= index < news.len() ==> plan.take(news.len() as int)[index] == news[index]);
    }
    assert(plan.subrange(0, unshared) =~= first);
    assert(plan.subrange(unshared, room) =~= second);
    law_users_of_canceled_calls_are_added(seq![user_id], canceled, user_id);
    assert(told.subrange(0, 1)[0] == user_id);
    assert(plan.skip(users)[0] == plan[users]);
    assert forall|index: int| users <= index < plan.len() implies (#[trigger] plan[index]
        matches Step::UpdateUserContacts { user_id: one, on_failure } && on_failure
        == OnFailure::Abort && (one == user_id || exists|at: int|
        0 <= at < canceled.len() && (#[trigger] canceled[at]).user_id == Some(one))) by {
        assert(plan.skip(users)[index - users] == plan[index]);
        law_users_of_canceled_calls_are_added(seq![user_id], canceled, told[index - users]);
        assert(told.contains(told[index - users]));
    }
    assert forall|at: int|
        #![trigger canceled[at]]
        0 <= at < canceled.len() && canceled[at].user_id is Some implies plan.skip(users).contains(
        Step::UpdateUserContacts {
            user_id: canceled[at].user_id->0,
            on_failure: OnFailure::Abort,
        },
    ) by {
        let one = canceled[at].user_id->0;
        law_users_of_canceled_calls_are_added(seq![user_id], canceled, one);
        let index = choose|index: int| 0 <= index < told.len() && told[index] == one;
        assert(farewell[index] == (Step::UpdateUserContacts {
            user_id: one,
            on_failure: OnFailure::Abort,
        }));
    }
}

/// When someone is elsewhere, everyone in the room is told of it, and the request is answered last;
/// nothing else is done.
pub proof fn law_a_location_is_told(room: Room)
    ensures
        ({
            let plan = location_steps(room);
            let everyone = room.participants@;
            &&& plan.len() == everyone.len() + 1
            &&& forall|index: int|
                #![trigger everyone[index]]
                0 <= index < everyone.len() ==> plan[index] == (Step::Send {
                    to: everyone[index],
                    message: Message::RoomUpdated { room_id: room.id, state: room.state },
                    on_failure: OnFailure::Log,
                })
            &&& plan.last() == (Step::Respond { response: Response::Ack })
        }),
{
}

} // verus!
