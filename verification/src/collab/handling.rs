//! How a message is handled: what has to be looked up or put on record, in which order, and
//! when it is refused.

use vstd::prelude::*;

use crate::collab::buffers::{leader_to_follow, FollowedView};
use crate::collab::channels::{check_access, message_fault, validate_message, StoredMessage};
use crate::collab::channels::MESSAGE_COUNT_PER_PAGE;
use crate::collab::contacts::{record_contact_response, record_of, ContactRecord};
use crate::collab::contacts::{may_request_contact, ContactRequestResponse};
use crate::collab::error::HandlerError;
use crate::collab::ids::{ChannelId, ConnectionId, MessageId, ProjectId, RoomId, UserId};
use crate::collab::projects::Project;
use crate::collab::request::Request;
use crate::collab::rooms::{LeftProject, LeftRoom, LiveKitConnectionInfo, Room};
use crate::collab::users::{law_short_queries_mean_one_user, search_for, search_of};
use crate::collab::users::{StoredUser, UserSearch};
use crate::strings::trimmed;

verus! {

/// Something to look up, to change or to ask, for the sender of a message. Where it fails, so
/// does handling the message, with the same error.
#[derive(Debug, PartialEq, Eq)]
pub enum Need {
    /// The user of the sender.
    FindSender,
    /// Whether a project is shared.
    FindProject { project_id: ProjectId },
    /// A project in which the sender takes part.
    ReadProject { project_id: ProjectId },
    /// The same, later.
    ReadProjectAgain { project_id: ProjectId },
    /// The reply of the host to the message.
    AskHost { host: ConnectionId },
    /// The connections of those who take part in a project together with the sender.
    ProjectConnections { project_id: ProjectId },
    /// That the sender does something in a project.
    RegisterActivity { project_id: ProjectId },
    /// The views that the leader shows, in reply to the message.
    AskLeader { leader: ConnectionId },
    CreateRoom,
    JoinRoom { room_id: RoomId },
    LeaveRoom { room_id: RoomId },
    CancelCall { room_id: RoomId, recipient: UserId },
    DeclineCall { room_id: RoomId },
    UpdateLocation { room_id: RoomId },
    /// With what the sender gets into the video room, which has to be created where the room
    /// is new.
    GetVideoAccess { is_new_room: bool },
    /// A number for a project of a user.
    RegisterProject { user_id: UserId },
    ShareProject { room_id: RoomId, project_id: ProjectId },
    UnshareProject { project_id: ProjectId },
    JoinProject { project_id: ProjectId },
    LeaveProject { project_id: ProjectId },
    UpdateProject { project_id: ProjectId },
    UpdateWorktree { project_id: ProjectId },
    RecordExtensions { project_id: ProjectId, worktree_id: u64 },
    UpdateSummary { project_id: ProjectId },
    StartLanguageServer { project_id: ProjectId },
    /// The channels that a user may use.
    AccessibleChannels { user_id: UserId },
    /// The users whom the message names.
    UsersByIds,
    /// The user whose login is what was typed.
    UserByLogin,
    /// The users whose logins resemble what was typed.
    FuzzyUsers { limit: u32 },
    RecordContactRequest { requester_id: UserId, responder_id: UserId },
    RecordContactResponse { record: ContactRecord },
    RemoveContact { requester_id: UserId, responder_id: UserId },
    /// The connections of a user.
    ConnectionsOf { user_id: UserId },
    /// The connections of another user.
    OtherConnectionsOf { user_id: UserId },
    CanAccessChannel { user_id: UserId, channel_id: ChannelId },
    JoinChannel { channel_id: ChannelId },
    LeaveChannel { channel_id: ChannelId },
    /// The latest messages in a channel, or those before some message.
    ReadMessages { channel_id: ChannelId, count: usize, before: Option<MessageId> },
    /// The connections of those who are in a channel.
    ChannelConnections { channel_id: ChannelId },
    /// That a user sent a message now.
    RecordMessage { channel_id: ChannelId, user_id: UserId, body: String, nonce: u128 },
    /// Under which name a user is counted.
    MetricsId { user_id: UserId },
    /// What is on record of a user, if anything.
    FindUser { user_id: UserId },
}

/// What came of something that was needed.
#[derive(Debug)]
pub enum Answer {
    Sender { user_id: UserId },
    Found,
    Project { project: Project },
    ProjectAgain { project: Project },
    Active,
    Replied,
    Views { views: Vec<FollowedView> },
    Room { room: Room },
    RoomAndConnections { room: Room, connection_ids: Vec<ConnectionId> },
    RoomAndProject { room: Room, project: Project },
    ProjectJoined { project: Project, replica_id: u16 },
    VideoAccess { info: Option<LiveKitConnectionInfo> },
    LeftRoom { left_room: LeftRoom },
    LeftProject { left_project: LeftProject },
    ProjectRegistered { project_id: ProjectId },
    Connections { connection_ids: Vec<ConnectionId> },
    OtherConnections { connection_ids: Vec<ConnectionId> },
    Changed,
    Channels { channels: Vec<(ChannelId, String)> },
    Users { users: Vec<StoredUser> },
    Access { allowed: bool },
    Messages { messages: Vec<StoredMessage> },
    MessageRecorded { id: MessageId, sent_at: time::OffsetDateTime },
    MetricsId { metrics_id: String },
    User { user: Option<StoredUser> },
}

/// All that has been found out and done for a message.
#[derive(Debug)]
pub struct Known {
    pub user: Option<UserId>,
    pub found: bool,
    pub project: Option<Project>,
    pub project_again: Option<Project>,
    pub replica_id: Option<u16>,
    pub active: bool,
    pub replied: bool,
    pub views: Option<Vec<FollowedView>>,
    pub room: Option<Room>,
    pub connection_ids: Option<Vec<ConnectionId>>,
    pub other_connection_ids: Option<Vec<ConnectionId>>,
    pub video: Option<Option<LiveKitConnectionInfo>>,
    pub left_room: Option<LeftRoom>,
    pub left_project: Option<LeftProject>,
    pub project_id: Option<ProjectId>,
    pub changed: bool,
    pub channels: Option<Vec<(ChannelId, String)>>,
    pub users: Option<Vec<StoredUser>>,
    pub allowed: Option<bool>,
    pub messages: Option<Vec<StoredMessage>>,
    pub recorded: Option<(MessageId, time::OffsetDateTime)>,
    pub metrics_id: Option<String>,
    pub own: Option<Option<StoredUser>>,
}

/// Nothing has been found out or done.
pub open spec fn nothing_known() -> Known {
    Known {
        user: None,
        found: false,
        project: None,
        project_again: None,
        replica_id: None,
        active: false,
        replied: false,
        views: None,
        room: None,
        connection_ids: None,
        other_connection_ids: None,
        video: None,
        left_room: None,
        left_project: None,
        project_id: None,
        changed: false,
        channels: None,
        users: None,
        allowed: None,
        messages: None,
        recorded: None,
        metrics_id: None,
        own: None,
    }
}

/// What is known once something more is.
pub open spec fn known_with(known: Known, answer: Answer) -> Known {
    match answer {
        Answer::Sender { user_id } => Known { user: Some(user_id), ..known },
        Answer::Found => Known { found: true, ..known },
        Answer::Project { project } => Known { project: Some(project), ..known },
        Answer::ProjectAgain { project } => Known { project_again: Some(project), ..known },
        Answer::Active => Known { active: true, ..known },
        Answer::Replied => Known { replied: true, ..known },
        Answer::Views { views } => Known { views: Some(views), ..known },
        Answer::Room { room } => Known { room: Some(room), ..known },
        Answer::RoomAndConnections { room, connection_ids } => Known {
            room: Some(room),
            connection_ids: Some(connection_ids),
            ..known
        },
        Answer::RoomAndProject { room, project } => Known {
            room: Some(room),
            project: Some(project),
            ..known
        },
        Answer::ProjectJoined { project, replica_id } => Known {
            project: Some(project),
            replica_id: Some(replica_id),
            ..known
        },
        Answer::VideoAccess { info } => Known { video: Some(info), ..known },
        Answer::LeftRoom { left_room } => Known { left_room: Some(left_room), ..known },
        Answer::LeftProject { left_project } => Known {
            left_project: Some(left_project),
            ..known
        },
        Answer::ProjectRegistered { project_id } => Known {
            project_id: Some(project_id),
            ..known
        },
        Answer::Connections { connection_ids } => Known {
            connection_ids: Some(connection_ids),
            ..known
        },
        Answer::OtherConnections { connection_ids } => Known {
            other_connection_ids: Some(connection_ids),
            ..known
        },
        Answer::Changed => Known { changed: true, ..known },
        Answer::Channels { channels } => Known { channels: Some(channels), ..known },
        Answer::Users { users } => Known { users: Some(users), ..known },
        Answer::Access { allowed } => Known { allowed: Some(allowed), ..known },
        Answer::Messages { messages } => Known { messages: Some(messages), ..known },
        Answer::MessageRecorded { id, sent_at } => Known {
            recorded: Some((id, sent_at)),
            ..known
        },
        Answer::MetricsId { metrics_id } => Known { metrics_id: Some(metrics_id), ..known },
        Answer::User { user } => Known { own: Some(user), ..known },
    }
}

impl Known {
    /// Nothing has been found out or done.
    pub fn nothing() -> (known: Known)
        ensures
            known == nothing_known(),
    {
        Known {
            user: None,
            found: false,
            project: None,
            project_again: None,
            replica_id: None,
            active: false,
            replied: false,
            views: None,
            room: None,
            connection_ids: None,
            other_connection_ids: None,
            video: None,
            left_room: None,
            left_project: None,
            project_id: None,
            changed: false,
            channels: None,
            users: None,
            allowed: None,
            messages: None,
            recorded: None,
            metrics_id: None,
            own: None,
        }
    }

    /// Takes note of what came of something that was needed.
    pub fn learn(&mut self, answer: Answer)
        ensures
            *final(self) == known_with(*old(self), answer),
    {
        match answer {
            Answer::Sender { user_id } => self.user = Some(user_id),
            Answer::Found => self.found = true,
            Answer::Project { project } => self.project = Some(project),
            Answer::ProjectAgain { project } => self.project_again = Some(project),
            Answer::Active => self.active = true,
            Answer::Replied => self.replied = true,
            Answer::Views { views } => self.views = Some(views),
            Answer::Room { room } => self.room = Some(room),
            Answer::RoomAndConnections { room, connection_ids } => {
                self.room = Some(room);
                self.connection_ids = Some(connection_ids);
            },
            Answer::RoomAndProject { room, project } => {
                self.room = Some(room);
                self.project = Some(project);
            },
            Answer::ProjectJoined { project, replica_id } => {
                self.project = Some(project);
                self.replica_id = Some(replica_id);
            },
            Answer::VideoAccess { info } => self.video = Some(info),
            Answer::LeftRoom { left_room } => self.left_room = Some(left_room),
            Answer::LeftProject { left_project } => self.left_project = Some(left_project),
            Answer::ProjectRegistered { project_id } => self.project_id = Some(project_id),
            Answer::Connections { connection_ids } => self.connection_ids = Some(connection_ids),
            Answer::OtherConnections { connection_ids } => {
                self.other_connection_ids = Some(connection_ids);
            },
            Answer::Changed => self.changed = true,
            Answer::Channels { channels } => self.channels = Some(channels),
            Answer::Users { users } => self.users = Some(users),
            Answer::Access { allowed } => self.allowed = Some(allowed),
            Answer::Messages { messages } => self.messages = Some(messages),
            Answer::MessageRecorded { id, sent_at } => self.recorded = Some((id, sent_at)),
            Answer::MetricsId { metrics_id } => self.metrics_id = Some(metrics_id),
            Answer::User { user } => self.own = Some(user),
        }
    }
}

/// How handling a message goes on.
#[derive(Debug, PartialEq, Eq)]
pub enum Next {
    /// Something is needed.
    Ask { need: Need },
    /// The message is refused.
    Fail { error: HandlerError },
    /// All that is needed is there.
    Ready,
}

/// The string that holds a text.
pub open spec fn text_of(text: Seq<char>) -> String {
    choose|string: String| string@ == text
}

/// Whether `next` says the same as `other`. Two strings are the same that hold the same text.
pub open spec fn same_next(next: Next, other: Next) -> bool {
    match (next, other) {
        (
            Next::Ask { need: Need::RecordMessage { channel_id, user_id, body, nonce } },
            Next::Ask { need: wanted },
        ) => {
            &&& wanted matches Need::RecordMessage {
                channel_id: wanted_channel,
                user_id: wanted_user,
                body: wanted_body,
                nonce: wanted_nonce,
            }
            &&& channel_id == wanted_channel
            &&& user_id == wanted_user
            &&& body@ == wanted_body@
            &&& nonce == wanted_nonce
        },
        _ => next == other,
    }
}

/// Something that is needed unless it is there.
pub open spec fn wanted(is_known: bool, need: Need) -> Next {
    if is_known {
        Next::Ready
    } else {
        Next::Ask { need }
    }
}

/// A reason to refuse a message, where it holds.
pub open spec fn refused(holds: bool, error: HandlerError) -> Next {
    if holds {
        Next::Fail { error }
    } else {
        Next::Ready
    }
}

/// One thing, and the rest only after it.
pub open spec fn in_turn(first: Next, rest: Next) -> Next {
    if first is Ready {
        rest
    } else {
        first
    }
}

/// The user of the sender.
pub open spec fn sender(known: Known) -> Next {
    wanted(known.user is Some, Need::FindSender)
}

/// Whether the sender may use a channel.
pub open spec fn channel_access(known: Known, channel_id: ChannelId) -> Next {
    in_turn(
        sender(known),
        in_turn(
            wanted(
                known.allowed is Some,
                Need::CanAccessChannel { user_id: known.user->0, channel_id },
            ),
            refused(!known.allowed->0, HandlerError::AccessDenied),
        ),
    )
}

/// Whether the leader takes part in a project together with the sender.
pub open spec fn leader_present(known: Known, project_id: ProjectId, leader_id: u32) -> Next {
    in_turn(
        wanted(known.connection_ids is Some, Need::ProjectConnections { project_id }),
        refused(
            !known.connection_ids->0@.contains(ConnectionId(leader_id)),
            HandlerError::NoSuchPeer,
        ),
    )
}

/// The connections of two users.
pub open spec fn both_connections(known: Known, first: UserId, second: UserId) -> Next {
    in_turn(
        wanted(known.connection_ids is Some, Need::ConnectionsOf { user_id: first }),
        wanted(
            known.other_connection_ids is Some,
            Need::OtherConnectionsOf { user_id: second },
        ),
    )
}

/// The reply of the host to the message, from a project that is still there for the sender
/// when the reply has come.
pub open spec fn host_reply(known: Known, project_id: ProjectId) -> Next {
    in_turn(
        wanted(known.project is Some, Need::ReadProject { project_id }),
        in_turn(
            wanted(known.replied, Need::AskHost { host: known.project->0.host_connection_id }),
            wanted(known.project_again is Some, Need::ReadProjectAgain { project_id }),
        ),
    )
}

/// How handling a message goes on: the first of what it takes, in order, that is not there yet
/// or is a reason to refuse the message.
pub open spec fn next_for(request: Request, known: Known) -> Next {
    let user_id = known.user->0;
    match request {
        Request::Ping => Next::Ready,
        Request::CreateRoom => in_turn(
            sender(known),
            in_turn(
                wanted(known.room is Some, Need::CreateRoom),
                wanted(known.video is Some, Need::GetVideoAccess { is_new_room: true }),
            ),
        ),
        Request::JoinRoom { room_id } => in_turn(
            sender(known),
            in_turn(
                wanted(
                    known.room is Some && known.connection_ids is Some,
                    Need::JoinRoom { room_id },
                ),
                wanted(known.video is Some, Need::GetVideoAccess { is_new_room: false }),
            ),
        ),
        Request::LeaveRoom { room_id } => in_turn(
            sender(known),
            wanted(known.left_room is Some, Need::LeaveRoom { room_id }),
        ),
        Request::CancelCall { room_id, recipient } => wanted(
            known.room is Some && known.connection_ids is Some,
            Need::CancelCall { room_id, recipient },
        ),
        Request::DeclineCall { room_id } => in_turn(
            sender(known),
            wanted(
                known.room is Some && known.connection_ids is Some,
                Need::DeclineCall { room_id },
            ),
        ),
        Request::UpdateParticipantLocation { room_id, has_location } => in_turn(
            refused(!has_location, HandlerError::InvalidLocation),
            wanted(known.room is Some, Need::UpdateLocation { room_id }),
        ),
        Request::ShareProject { room_id } => in_turn(
            sender(known),
            in_turn(
                wanted(known.project_id is Some, Need::RegisterProject { user_id }),
                wanted(
                    known.room is Some,
                    Need::ShareProject { room_id, project_id: known.project_id->0 },
                ),
            ),
        ),
        Request::UnshareProject { project_id } => wanted(
            known.room is Some && known.project is Some,
            Need::UnshareProject { project_id },
        ),
        Request::JoinProject { project_id } => in_turn(
            wanted(known.found, Need::FindProject { project_id }),
            in_turn(
                sender(known),
                wanted(
                    known.project is Some && known.replica_id is Some,
                    Need::JoinProject { project_id },
                ),
            ),
        ),
        Request::LeaveProject { project_id } => wanted(
            known.left_project is Some,
            Need::LeaveProject { project_id },
        ),
        Request::UpdateProject { project_id } => in_turn(
            wanted(known.project is Some, Need::ReadProject { project_id }),
            wanted(known.room is Some, Need::UpdateProject { project_id }),
        ),
        Request::RegisterProjectActivity { project_id } => wanted(
            known.active,
            Need::RegisterActivity { project_id },
        ),
        Request::UpdateWorktree { project_id } => wanted(
            known.connection_ids is Some,
            Need::UpdateWorktree { project_id },
        ),
        Request::UpdateWorktreeExtensions { project_id, worktree_id } => wanted(
            known.changed,
            Need::RecordExtensions { project_id, worktree_id },
        ),
        Request::StartLanguageServer { project_id, has_server } => in_turn(
            refused(!has_server, HandlerError::InvalidLanguageServer),
            wanted(known.connection_ids is Some, Need::StartLanguageServer { project_id }),
        ),
        Request::UpdateDiagnosticSummary { project_id, has_summary } => in_turn(
            refused(!has_summary, HandlerError::InvalidSummary),
            wanted(known.connection_ids is Some, Need::UpdateSummary { project_id }),
        ),
        Request::Relayed { project_id, .. } => wanted(
            known.connection_ids is Some,
            Need::ProjectConnections { project_id },
        ),
        Request::Forwarded { project_id, .. } => host_reply(known, project_id),
        Request::CreateBufferForPeer { .. } => Next::Ready,
        Request::UpdateBuffer { project_id } => in_turn(
            wanted(known.active, Need::RegisterActivity { project_id }),
            wanted(known.connection_ids is Some, Need::ProjectConnections { project_id }),
        ),
        Request::SaveBuffer { project_id } => host_reply(known, project_id),
        Request::Follow { project_id, leader_id } => in_turn(
            leader_present(known, project_id, leader_id),
            in_turn(
                wanted(known.active, Need::RegisterActivity { project_id }),
                wanted(known.views is Some, Need::AskLeader { leader: ConnectionId(leader_id) }),
            ),
        ),
        Request::Unfollow { project_id, leader_id } => in_turn(
            leader_present(known, project_id, leader_id),
            wanted(known.active, Need::RegisterActivity { project_id }),
        ),
        Request::UpdateFollowers { project_id, .. } => in_turn(
            wanted(known.active, Need::RegisterActivity { project_id }),
            wanted(known.connection_ids is Some, Need::ProjectConnections { project_id }),
        ),
        Request::GetChannels => in_turn(
            sender(known),
            wanted(known.channels is Some, Need::AccessibleChannels { user_id }),
        ),
        Request::GetUsers => wanted(known.users is Some, Need::UsersByIds),
        Request::FuzzySearchUsers { query } => in_turn(
            sender(known),
            match search_of(query@) {
                UserSearch::Nobody => Next::Ready,
                UserSearch::ByLogin => wanted(known.users is Some, Need::UserByLogin),
                UserSearch::Fuzzy { limit } => wanted(
                    known.users is Some,
                    Need::FuzzyUsers { limit },
                ),
            },
        ),
        Request::RequestContact { responder_id } => in_turn(
            sender(known),
            in_turn(
                refused(user_id == responder_id, HandlerError::ContactIsYourself),
                in_turn(
                    wanted(
                        known.changed,
                        Need::RecordContactRequest { requester_id: user_id, responder_id },
                    ),
                    both_connections(known, user_id, responder_id),
                ),
            ),
        ),
        Request::RemoveContact { user_id: responder_id } => in_turn(
            sender(known),
            in_turn(
                wanted(
                    known.changed,
                    Need::RemoveContact { requester_id: user_id, responder_id },
                ),
                both_connections(known, user_id, responder_id),
            ),
        ),
        Request::RespondToContactRequest { requester_id, response } => in_turn(
            sender(known),
            in_turn(
                wanted(
                    known.changed,
                    Need::RecordContactResponse {
                        record: record_of(user_id, requester_id, response),
                    },
                ),
                if response == ContactRequestResponse::Dismiss {
                    Next::Ready
                } else {
                    both_connections(known, user_id, requester_id)
                },
            ),
        ),
        Request::JoinChannel { channel_id } => in_turn(
            channel_access(known, channel_id),
            in_turn(
                wanted(known.changed, Need::JoinChannel { channel_id }),
                wanted(
                    known.messages is Some,
                    Need::ReadMessages {
                        channel_id,
                        count: MESSAGE_COUNT_PER_PAGE,
                        before: None,
                    },
                ),
            ),
        ),
        Request::LeaveChannel { channel_id } => in_turn(
            channel_access(known, channel_id),
            wanted(known.changed, Need::LeaveChannel { channel_id }),
        ),
        Request::GetChannelMessages { channel_id, before } => in_turn(
            channel_access(known, channel_id),
            wanted(
                known.messages is Some,
                Need::ReadMessages {
                    channel_id,
                    count: MESSAGE_COUNT_PER_PAGE,
                    before: Some(before),
                },
            ),
        ),
        Request::SendChannelMessage { channel_id, body, nonce } => in_turn(
            sender(known),
            in_turn(
                wanted(known.connection_ids is Some, Need::ChannelConnections { channel_id }),
                in_turn(
                    match message_fault(body@, nonce) {
                        Some(fault) => Next::Fail { error: fault },
                        None => Next::Ready,
                    },
                    wanted(
                        known.recorded is Some,
                        Need::RecordMessage {
                            channel_id,
                            user_id,
                            body: text_of(trimmed(body@)),
                            nonce: nonce->0,
                        },
                    ),
                ),
            ),
        ),
        Request::GetPrivateUserInfo => in_turn(
            sender(known),
            in_turn(
                wanted(known.metrics_id is Some, Need::MetricsId { user_id }),
                in_turn(
                    wanted(known.own is Some, Need::FindUser { user_id }),
                    refused(known.own->0 is None, HandlerError::UserNotFound),
                ),
            ),
        ),
    }
}

/// Something that is needed unless it is there.
fn want(is_known: bool, need: Need) -> (next: Next)
    ensures
        next == wanted(is_known, need),
{
    if is_known {
        Next::Ready
    } else {
        Next::Ask { need }
    }
}

/// Whether the sender may use a channel.
fn check_channel_access(known: &Known, channel_id: ChannelId) -> (next: Next)
    ensures
        next == channel_access(*known, channel_id),
{
    let user_id: UserId = match known.user {
        Some(user_id) => user_id,
        None => return Next::Ask { need: Need::FindSender },
    };
    match known.allowed {
        Some(allowed) => match check_access(allowed) {
            Ok(()) => Next::Ready,
            Err(error) => Next::Fail { error },
        },
        None => Next::Ask { need: Need::CanAccessChannel { user_id, channel_id } },
    }
}

/// Whether the leader takes part in a project together with the sender.
fn check_leader(known: &Known, project_id: ProjectId, leader_id: u32) -> (next: Next)
    ensures
        next == leader_present(*known, project_id, leader_id),
{
    match &known.connection_ids {
        Some(connection_ids) => match leader_to_follow(leader_id, connection_ids.as_slice()) {
            Ok(_) => Next::Ready,
            Err(error) => Next::Fail { error },
        },
        None => Next::Ask { need: Need::ProjectConnections { project_id } },
    }
}

/// The connections of two users.
fn ask_connections(known: &Known, first: UserId, second: UserId) -> (next: Next)
    ensures
        next == both_connections(*known, first, second),
{
    if known.connection_ids.is_none() {
        return Next::Ask { need: Need::ConnectionsOf { user_id: first } };
    }
    want(known.other_connection_ids.is_some(), Need::OtherConnectionsOf { user_id: second })
}

/// The reply of the host to the message.
fn ask_host(known: &Known, project_id: ProjectId) -> (next: Next)
    ensures
        next == host_reply(*known, project_id),
{
    match &known.project {
        Some(project) => if !known.replied {
            Next::Ask { need: Need::AskHost { host: project.host_connection_id } }
        } else {
            want(known.project_again.is_some(), Need::ReadProjectAgain { project_id })
        },
        None => Next::Ask { need: Need::ReadProject { project_id } },
    }
}

/// How handling a message goes on that concerns the user of the sender.
fn next_need_of_user(request: &Request, known: &Known, user_id: UserId) -> (next: Next)
    requires
        known.user == Some(user_id),
        concerns_user(*request),
    ensures
        same_next(next, next_for(*request, *known)),
        next matches Next::Ask { need: Need::RecordMessage { body: recorded, .. } } ==> (
        request matches Request::SendChannelMessage { body, .. } && recorded@ == trimmed(body@)),
{
    match request {
        Request::CreateRoom => {
            if known.room.is_none() {
                return Next::Ask { need: Need::CreateRoom };
            }
            want(known.video.is_some(), Need::GetVideoAccess { is_new_room: true })
        },
        Request::JoinRoom { room_id } => {
            if known.room.is_none() || known.connection_ids.is_none() {
                return Next::Ask { need: Need::JoinRoom { room_id: *room_id } };
            }
            want(known.video.is_some(), Need::GetVideoAccess { is_new_room: false })
        },
        Request::LeaveRoom { room_id } => want(
            known.left_room.is_some(),
            Need::LeaveRoom { room_id: *room_id },
        ),
        Request::DeclineCall { room_id } => want(
            known.room.is_some() && known.connection_ids.is_some(),
            Need::DeclineCall { room_id: *room_id },
        ),
        Request::ShareProject { room_id } => match known.project_id {
            Some(project_id) => want(
                known.room.is_some(),
                Need::ShareProject { room_id: *room_id, project_id },
            ),
            None => Next::Ask { need: Need::RegisterProject { user_id } },
        },
        Request::GetChannels => want(
            known.channels.is_some(),
            Need::AccessibleChannels { user_id },
        ),
        Request::FuzzySearchUsers { query } => match search_for(query.as_str()) {
            UserSearch::Nobody => Next::Ready,
            UserSearch::ByLogin => want(known.users.is_some(), Need::UserByLogin),
            UserSearch::Fuzzy { limit } => want(known.users.is_some(), Need::FuzzyUsers { limit }),
        },
        Request::RequestContact { responder_id } => {
            if let Err(error) = may_request_contact(user_id, *responder_id) {
                return Next::Fail { error };
            }
            if !known.changed {
                return Next::Ask {
                    need: Need::RecordContactRequest {
                        requester_id: user_id,
                        responder_id: *responder_id,
                    },
                };
            }
            ask_connections(known, user_id, *responder_id)
        },
        Request::RemoveContact { user_id: responder_id } => {
            if !known.changed {
                return Next::Ask {
                    need: Need::RemoveContact {
                        requester_id: user_id,
                        responder_id: *responder_id,
                    },
                };
            }
            ask_connections(known, user_id, *responder_id)
        },
        Request::RespondToContactRequest { requester_id, response } => {
            if !known.changed {
                return Next::Ask {
                    need: Need::RecordContactResponse {
                        record: record_contact_response(user_id, *requester_id, *response),
                    },
                };
            }
            match response {
                ContactRequestResponse::Dismiss => Next::Ready,
                _ => ask_connections(known, user_id, *requester_id),
            }
        },
        Request::SendChannelMessage { channel_id, body, nonce } => {
            if known.connection_ids.is_none() {
                return Next::Ask { need: Need::ChannelConnections { channel_id: *channel_id } };
            }
            match validate_message(body.as_str(), *nonce) {
                Ok((body, nonce)) => {
                    assert(text_of(body@)@ == body@);
                    want(
                        known.recorded.is_some(),
                        Need::RecordMessage { channel_id: *channel_id, user_id, body, nonce },
                    )
                },
                Err(error) => Next::Fail { error },
            }
        },
        Request::GetPrivateUserInfo => {
            if known.metrics_id.is_none() {
                return Next::Ask { need: Need::MetricsId { user_id } };
            }
            match &known.own {
                Some(Some(_)) => Next::Ready,
                Some(None) => Next::Fail { error: HandlerError::UserNotFound },
                None => Next::Ask { need: Need::FindUser { user_id } },
            }
        },
        _ => vstd::pervasive::unreached(),
    }
}

/// The messages for which the user of the sender is looked up before anything else.
pub open spec fn concerns_user(request: Request) -> bool {
    ||| request is CreateRoom
    ||| request is JoinRoom
    ||| request is LeaveRoom
    ||| request is DeclineCall
    ||| request is ShareProject
    ||| request is GetChannels
    ||| request is FuzzySearchUsers
    ||| request is RequestContact
    ||| request is RemoveContact
    ||| request is RespondToContactRequest
    ||| request is SendChannelMessage
    ||| request is GetPrivateUserInfo
}

/// How handling a message goes on.
pub fn next_need(request: &Request, known: &Known) -> (next: Next)
    ensures
        same_next(next, next_for(*request, *known)),
        next matches Next::Ask { need: Need::RecordMessage { body: recorded, .. } } ==> (
        request matches Request::SendChannelMessage { body, .. } && recorded@ == trimmed(body@)),
{
    match request {
        Request::Ping => Next::Ready,
        Request::CancelCall { room_id, recipient } => want(
            known.room.is_some() && known.connection_ids.is_some(),
            Need::CancelCall { room_id: *room_id, recipient: *recipient },
        ),
        Request::UpdateParticipantLocation { room_id, has_location } => {
            if !*has_location {
                return Next::Fail { error: HandlerError::InvalidLocation };
            }
            want(known.room.is_some(), Need::UpdateLocation { room_id: *room_id })
        },
        Request::UnshareProject { project_id } => want(
            known.room.is_some() && known.project.is_some(),
            Need::UnshareProject { project_id: *project_id },
        ),
        Request::JoinProject { project_id } => {
            if !known.found {
                return Next::Ask { need: Need::FindProject { project_id: *project_id } };
            }
            if known.user.is_none() {
                return Next::Ask { need: Need::FindSender };
            }
            want(
                known.project.is_some() && known.replica_id.is_some(),
                Need::JoinProject { project_id: *project_id },
            )
        },
        Request::LeaveProject { project_id } => want(
            known.left_project.is_some(),
            Need::LeaveProject { project_id: *project_id },
        ),
        Request::UpdateProject { project_id } => {
            if known.project.is_none() {
                return Next::Ask { need: Need::ReadProject { project_id: *project_id } };
            }
            want(known.room.is_some(), Need::UpdateProject { project_id: *project_id })
        },
        Request::RegisterProjectActivity { project_id } => want(
            known.active,
            Need::RegisterActivity { project_id: *project_id },
        ),
        Request::UpdateWorktree { project_id } => want(
            known.connection_ids.is_some(),
            Need::UpdateWorktree { project_id: *project_id },
        ),
        Request::UpdateWorktreeExtensions { project_id, worktree_id } => want(
            known.changed,
            Need::RecordExtensions { project_id: *project_id, worktree_id: *worktree_id },
        ),
        Request::StartLanguageServer { project_id, has_server } => {
            if !*has_server {
                return Next::Fail { error: HandlerError::InvalidLanguageServer };
            }
            want(
                known.connection_ids.is_some(),
                Need::StartLanguageServer { project_id: *project_id },
            )
        },
        Request::UpdateDiagnosticSummary { project_id, has_summary } => {
            if !*has_summary {
                return Next::Fail { error: HandlerError::InvalidSummary };
            }
            want(known.connection_ids.is_some(), Need::UpdateSummary { project_id: *project_id })
        },
        Request::Relayed { kind: _, project_id } => want(
            known.connection_ids.is_some(),
            Need::ProjectConnections { project_id: *project_id },
        ),
        Request::Forwarded { kind: _, project_id } => ask_host(known, *project_id),
        Request::CreateBufferForPeer { peer_id: _ } => Next::Ready,
        Request::UpdateBuffer { project_id } => {
            if !known.active {
                return Next::Ask { need: Need::RegisterActivity { project_id: *project_id } };
            }
            want(
                known.connection_ids.is_some(),
                Need::ProjectConnections { project_id: *project_id },
            )
        },
        Request::SaveBuffer { project_id } => ask_host(known, *project_id),
        Request::Follow { project_id, leader_id } => {
            match check_leader(known, *project_id, *leader_id) {
                Next::Ready => {},
                next => return next,
            }
            if !known.active {
                return Next::Ask { need: Need::RegisterActivity { project_id: *project_id } };
            }
            want(
                known.views.is_some(),
                Need::AskLeader { leader: ConnectionId(*leader_id) },
            )
        },
        Request::Unfollow { project_id, leader_id } => {
            match check_leader(known, *project_id, *leader_id) {
                Next::Ready => {},
                next => return next,
            }
            want(known.active, Need::RegisterActivity { project_id: *project_id })
        },
        Request::UpdateFollowers { project_id, follower_ids: _, update: _ } => {
            if !known.active {
                return Next::Ask { need: Need::RegisterActivity { project_id: *project_id } };
            }
            want(
                known.connection_ids.is_some(),
                Need::ProjectConnections { project_id: *project_id },
            )
        },
        Request::GetUsers => want(known.users.is_some(), Need::UsersByIds),
        Request::JoinChannel { channel_id } => {
            match check_channel_access(known, *channel_id) {
                Next::Ready => {},
                next => return next,
            }
            if !known.changed {
                return Next::Ask { need: Need::JoinChannel { channel_id: *channel_id } };
            }
            want(
                known.messages.is_some(),
                Need::ReadMessages {
                    channel_id: *channel_id,
                    count: MESSAGE_COUNT_PER_PAGE,
                    before: None,
                },
            )
        },
        Request::LeaveChannel { channel_id } => {
            match check_channel_access(known, *channel_id) {
                Next::Ready => {},
                next => return next,
            }
            want(known.changed, Need::LeaveChannel { channel_id: *channel_id })
        },
        Request::GetChannelMessages { channel_id, before } => {
            match check_channel_access(known, *channel_id) {
                Next::Ready => {},
                next => return next,
            }
            want(
                known.messages.is_some(),
                Need::ReadMessages {
                    channel_id: *channel_id,
                    count: MESSAGE_COUNT_PER_PAGE,
                    before: Some(*before),
                },
            )
        },
        _ => match known.user {
            Some(user_id) => next_need_of_user(request, known, user_id),
            None => Next::Ask { need: Need::FindSender },
        },
    }
}

/// No channel is joined, left or read before it is known that the sender may use it.
pub proof fn law_channels_need_access(request: Request, known: Known)
    ensures
        next_for(request, known) matches Next::Ask { need } ==> (need is JoinChannel
            || need is LeaveChannel || need is ReadMessages) ==> known.allowed == Some(true),
        next_for(request, known) is Ready && (request is JoinChannel || request is LeaveChannel
            || request is GetChannelMessages) ==> known.allowed == Some(true),
{
}

/// No one is ever put on record as asking themselves to be a contact.
pub proof fn law_no_contact_request_to_oneself(request: Request, known: Known)
    ensures
        next_for(request, known) matches Next::Ask { need } ==> (
        need matches Need::RecordContactRequest { requester_id, responder_id } ==> requester_id
            != responder_id && known.user == Some(requester_id)),
{
}

/// Only someone who takes part in the project together with the sender is asked to lead, or
/// told that they are no longer followed.
pub proof fn law_leaders_take_part(request: Request, known: Known)
    ensures
        next_for(request, known) matches Next::Ask { need } ==> (
        need matches Need::AskLeader { leader } ==> known.connection_ids is Some
            && known.connection_ids->0@.contains(leader)),
        next_for(request, known) is Ready ==> (request matches Request::Unfollow { leader_id, .. }
            ==> known.connection_ids is Some && known.connection_ids->0@.contains(
            ConnectionId(leader_id),
        )),
{
}

/// What the host replied is passed on only once the project was found to be there still, and
/// that is looked up only after the reply.
pub proof fn law_answer_only_after_check(request: Request, known: Known)
    ensures
        next_for(request, known) is Ready && (request is Forwarded || request is SaveBuffer)
            ==> known.replied && known.project_again is Some,
        next_for(request, known) matches Next::Ask { need } ==> (need is ReadProjectAgain
            ==> known.replied),
{
}

/// Only messages that are neither blank nor too long are put on record, with their nonce.
pub proof fn law_only_valid_messages_are_recorded(request: Request, known: Known)
    ensures
        next_for(request, known) matches Next::Ask { need } ==> (
        need matches Need::RecordMessage { nonce: recorded, .. } ==> (
        request matches Request::SendChannelMessage { body, nonce, .. } && message_fault(
            body@,
            nonce,
        ) is None && nonce == Some(recorded))),
{
}

/// Whether an answer is one to what is needed.
pub open spec fn fits(need: Need, answer: Answer) -> bool {
    match need {
        Need::FindSender => answer is Sender,
        Need::FindProject { .. } => answer is Found,
        Need::ReadProject { .. } => answer is Project,
        Need::ReadProjectAgain { .. } => answer is ProjectAgain,
        Need::AskHost { .. } => answer is Replied,
        Need::ProjectConnections { .. } => answer is Connections,
        Need::RegisterActivity { .. } => answer is Active,
        Need::AskLeader { .. } => answer is Views,
        Need::CreateRoom => answer is Room,
        Need::JoinRoom { .. } => answer is RoomAndConnections,
        Need::LeaveRoom { .. } => answer is LeftRoom,
        Need::CancelCall { .. } => answer is RoomAndConnections,
        Need::DeclineCall { .. } => answer is RoomAndConnections,
        Need::UpdateLocation { .. } => answer is Room,
        Need::GetVideoAccess { .. } => answer is VideoAccess,
        Need::RegisterProject { .. } => answer is ProjectRegistered,
        Need::ShareProject { .. } => answer is Room,
        Need::UnshareProject { .. } => answer is RoomAndProject,
        Need::JoinProject { .. } => answer is ProjectJoined,
        Need::LeaveProject { .. } => answer is LeftProject,
        Need::UpdateProject { .. } => answer is Room,
        Need::UpdateWorktree { .. } => answer is Connections,
        Need::RecordExtensions { .. } => answer is Changed,
        Need::UpdateSummary { .. } => answer is Connections,
        Need::StartLanguageServer { .. } => answer is Connections,
        Need::AccessibleChannels { .. } => answer is Channels,
        Need::UsersByIds => answer is Users,
        Need::UserByLogin => answer is Users,
        Need::FuzzyUsers { .. } => answer is Users,
        Need::RecordContactRequest { .. } => answer is Changed,
        Need::RecordContactResponse { .. } => answer is Changed,
        Need::RemoveContact { .. } => answer is Changed,
        Need::ConnectionsOf { .. } => answer is Connections,
        Need::OtherConnectionsOf { .. } => answer is OtherConnections,
        Need::CanAccessChannel { .. } => answer is Access,
        Need::JoinChannel { .. } => answer is Changed,
        Need::LeaveChannel { .. } => answer is Changed,
        Need::ReadMessages { .. } => answer is Messages,
        Need::ChannelConnections { .. } => answer is Connections,
        Need::RecordMessage { .. } => answer is MessageRecorded,
        Need::MetricsId { .. } => answer is MetricsId,
        Need::FindUser { .. } => answer is User,
    }
}

/// Whether what meets a need is known.
pub open spec fn is_met(known: Known, need: Need) -> bool {
    match need {
        Need::FindSender => known.user is Some,
        Need::FindProject { .. } => known.found,
        Need::ReadProject { .. } => known.project is Some,
        Need::ReadProjectAgain { .. } => known.project_again is Some,
        Need::AskHost { .. } => known.replied,
        Need::ProjectConnections { .. } => known.connection_ids is Some,
        Need::RegisterActivity { .. } => known.active,
        Need::AskLeader { .. } => known.views is Some,
        Need::CreateRoom => known.room is Some,
        Need::JoinRoom { .. } => known.room is Some && known.connection_ids is Some,
        Need::LeaveRoom { .. } => known.left_room is Some,
        Need::CancelCall { .. } => known.room is Some && known.connection_ids is Some,
        Need::DeclineCall { .. } => known.room is Some && known.connection_ids is Some,
        Need::UpdateLocation { .. } => known.room is Some,
        Need::GetVideoAccess { .. } => known.video is Some,
        Need::RegisterProject { .. } => known.project_id is Some,
        Need::ShareProject { .. } => known.room is Some,
        Need::UnshareProject { .. } => known.room is Some && known.project is Some,
        Need::JoinProject { .. } => known.project is Some && known.replica_id is Some,
        Need::LeaveProject { .. } => known.left_project is Some,
        Need::UpdateProject { .. } => known.room is Some,
        Need::UpdateWorktree { .. } => known.connection_ids is Some,
        Need::RecordExtensions { .. } => known.changed,
        Need::UpdateSummary { .. } => known.connection_ids is Some,
        Need::StartLanguageServer { .. } => known.connection_ids is Some,
        Need::AccessibleChannels { .. } => known.channels is Some,
        Need::UsersByIds => known.users is Some,
        Need::UserByLogin => known.users is Some,
        Need::FuzzyUsers { .. } => known.users is Some,
        Need::RecordContactRequest { .. } => known.changed,
        Need::RecordContactResponse { .. } => known.changed,
        Need::RemoveContact { .. } => known.changed,
        Need::ConnectionsOf { .. } => known.connection_ids is Some,
        Need::OtherConnectionsOf { .. } => known.other_connection_ids is Some,
        Need::CanAccessChannel { .. } => known.allowed is Some,
        Need::JoinChannel { .. } => known.changed,
        Need::LeaveChannel { .. } => known.changed,
        Need::ReadMessages { .. } => known.messages is Some,
        Need::ChannelConnections { .. } => known.connection_ids is Some,
        Need::RecordMessage { .. } => known.recorded is Some,
        Need::MetricsId { .. } => known.metrics_id is Some,
        Need::FindUser { .. } => known.own is Some,
    }
}

/// What is known stays known, so that a need that is met stays met.
pub proof fn law_needs_stay_met(known: Known, need: Need, answer: Answer)
    requires
        is_met(known, need),
    ensures
        is_met(known_with(known, answer), need),
{
}

/// Nothing is needed that is known, and an answer meets the need that it is an answer to: so
/// handling a message goes on with something else, and comes to an end.
pub proof fn law_answers_meet_needs(request: Request, known: Known, answer: Answer)
    requires
        next_for(request, known) matches Next::Ask { need } && fits(need, answer),
    ensures
        !is_met(known, next_for(request, known)->need),
        is_met(known_with(known, answer), next_for(request, known)->need),
        next_for(request, known_with(known, answer)) != next_for(request, known),
{
    lemma_needs_are_open(request, known);
    lemma_needs_are_open(request, known_with(known, answer));
}

/// Nothing is needed that is known.
proof fn lemma_needs_are_open(request: Request, known: Known)
    ensures
        next_for(request, known) matches Next::Ask { need } ==> !is_met(known, need),
{
}

/// What comes of something that was needed is kept as it came.
pub proof fn law_answers_are_kept(known: Known, answer: Answer)
    ensures
        ({
            let after = known_with(known, answer);
            match answer {
                Answer::Sender { user_id } => after.user == Some(user_id),
                Answer::Found => after.found,
                Answer::Project { project } => after.project == Some(project),
                Answer::ProjectAgain { project } => after.project_again == Some(project),
                Answer::Active => after.active,
                Answer::Replied => after.replied,
                Answer::Views { views } => after.views == Some(views),
                Answer::Room { room } => after.room == Some(room),
                Answer::RoomAndConnections { room, connection_ids } => after.room == Some(room)
                    && after.connection_ids == Some(connection_ids),
                Answer::RoomAndProject { room, project } => after.room == Some(room)
                    && after.project == Some(project),
                Answer::ProjectJoined { project, replica_id } => after.project == Some(project)
                    && after.replica_id == Some(replica_id),
                Answer::VideoAccess { info } => after.video == Some(info),
                Answer::LeftRoom { left_room } => after.left_room == Some(left_room),
                Answer::LeftProject { left_project } => after.left_project == Some(left_project),
                Answer::ProjectRegistered { project_id } => after.project_id == Some(project_id),
                Answer::Connections { connection_ids } => after.connection_ids == Some(
                    connection_ids,
                ),
                Answer::OtherConnections { connection_ids } => after.other_connection_ids == Some(
                    connection_ids,
                ),
                Answer::Changed => after.changed,
                Answer::Channels { channels } => after.channels == Some(channels),
                Answer::Users { users } => after.users == Some(users),
                Answer::Access { allowed } => after.allowed == Some(allowed),
                Answer::Messages { messages } => after.messages == Some(messages),
                Answer::MessageRecorded { id, sent_at } => after.recorded == Some((id, sent_at)),
                Answer::MetricsId { metrics_id } => after.metrics_id == Some(metrics_id),
                Answer::User { user } => after.own == Some(user),
            }
        }),
{
}

/// Nothing that is known is changed by what it has nothing to do with.
pub proof fn law_the_rest_stays_known(known: Known, answer: Answer)
    ensures
        ({
            let after = known_with(known, answer);
            &&& answer !is Sender ==> after.user == known.user
            &&& answer !is Found ==> after.found == known.found
            &&& answer !is Project && answer !is RoomAndProject && answer !is ProjectJoined
                ==> after.project == known.project
            &&& answer !is ProjectAgain ==> after.project_again == known.project_again
            &&& answer !is ProjectJoined ==> after.replica_id == known.replica_id
            &&& answer !is Active ==> after.active == known.active
            &&& answer !is Replied ==> after.replied == known.replied
            &&& answer !is Views ==> after.views == known.views
            &&& answer !is Room && answer !is RoomAndConnections && answer !is RoomAndProject
                ==> after.room == known.room
            &&& answer !is Connections && answer !is RoomAndConnections ==> after.connection_ids
                == known.connection_ids
            &&& answer !is OtherConnections ==> after.other_connection_ids
                == known.other_connection_ids
            &&& answer !is VideoAccess ==> after.video == known.video
            &&& answer !is LeftRoom ==> after.left_room == known.left_room
            &&& answer !is LeftProject ==> after.left_project == known.left_project
            &&& answer !is ProjectRegistered ==> after.project_id == known.project_id
            &&& answer !is Changed ==> after.changed == known.changed
            &&& answer !is Channels ==> after.channels == known.channels
            &&& answer !is Users ==> after.users == known.users
            &&& answer !is Access ==> after.allowed == known.allowed
            &&& answer !is Messages ==> after.messages == known.messages
            &&& answer !is MessageRecorded ==> after.recorded == known.recorded
            &&& answer !is MetricsId ==> after.metrics_id == known.metrics_id
            &&& answer !is User ==> after.own == known.own
        }),
{
}

/// What has to be known, and to hold, before anything is done about a message.
pub open spec fn is_complete(request: Request, known: Known) -> bool {
    let allowed = known.user is Some && known.allowed == Some(true);
    let both_sides = known.connection_ids is Some && known.other_connection_ids is Some;
    match request {
        Request::Ping => true,
        Request::CreateBufferForPeer { .. } => true,
        Request::CreateRoom => known.user is Some && known.room is Some && known.video is Some,
        Request::JoinRoom { .. } => known.user is Some && known.room is Some
            && known.connection_ids is Some && known.video is Some,
        Request::LeaveRoom { .. } => known.user is Some && known.left_room is Some,
        Request::CancelCall { .. } => known.room is Some && known.connection_ids is Some,
        Request::DeclineCall { .. } => known.user is Some && known.room is Some
            && known.connection_ids is Some,
        Request::UpdateParticipantLocation { has_location, .. } => has_location
            && known.room is Some,
        Request::ShareProject { .. } => known.user is Some && known.project_id is Some
            && known.room is Some,
        Request::UnshareProject { .. } => known.room is Some && known.project is Some,
        Request::JoinProject { .. } => known.found && known.user is Some && known.project is Some
            && known.replica_id is Some,
        Request::LeaveProject { .. } => known.left_project is Some,
        Request::UpdateProject { .. } => known.project is Some && known.room is Some,
        Request::RegisterProjectActivity { .. } => known.active,
        Request::UpdateWorktree { .. } => known.connection_ids is Some,
        Request::UpdateWorktreeExtensions { .. } => known.changed,
        Request::StartLanguageServer { has_server, .. } => has_server
            && known.connection_ids is Some,
        Request::UpdateDiagnosticSummary { has_summary, .. } => has_summary
            && known.connection_ids is Some,
        Request::Relayed { .. } => known.connection_ids is Some,
        Request::Forwarded { .. } | Request::SaveBuffer { .. } => known.project is Some
            && known.replied && known.project_again is Some,
        Request::UpdateBuffer { .. } | Request::UpdateFollowers { .. } => known.active
            && known.connection_ids is Some,
        Request::Follow { leader_id, .. } => known.connection_ids is Some
            && known.connection_ids->0@.contains(ConnectionId(leader_id)) && known.active
            && known.views is Some,
        Request::Unfollow { leader_id, .. } => known.connection_ids is Some
            && known.connection_ids->0@.contains(ConnectionId(leader_id)) && known.active,
        Request::GetChannels => known.user is Some && known.channels is Some,
        Request::GetUsers => known.users is Some,
        Request::FuzzySearchUsers { query } => known.user is Some && (query@ =~= Seq::empty()
            || known.users is Some),
        Request::RequestContact { responder_id } => known.user is Some && known.user
            != Some(responder_id) && known.changed && both_sides,
        Request::RemoveContact { .. } => known.user is Some && known.changed && both_sides,
        Request::RespondToContactRequest { response, .. } => known.user is Some && known.changed
            && (response is Dismiss || both_sides),
        Request::JoinChannel { .. } => allowed && known.changed && known.messages is Some,
        Request::LeaveChannel { .. } => allowed && known.changed,
        Request::GetChannelMessages { .. } => allowed && known.messages is Some,
        Request::SendChannelMessage { body, nonce, .. } => known.user is Some
            && known.connection_ids is Some && message_fault(body@, nonce) is None
            && known.recorded is Some,
        Request::GetPrivateUserInfo => known.user is Some && known.metrics_id is Some
            && known.own is Some && known.own->0 is Some,
    }
}

/// Something is done about a message exactly if all that it takes is known and holds: nothing is left
/// out, and nothing else is waited for.
pub proof fn law_messages_are_handled_when_all_is_there(request: Request, known: Known)
    ensures
        next_for(request, known) is Ready <==> is_complete(request, known),
{
    if let Request::FuzzySearchUsers { query } = request {
        law_short_queries_mean_one_user(query@);
    }
}

/// A message is refused for these reasons only: its sender may not use the channel, the leader takes
/// no part in the project, the location, the server or the summary is missing, the contact is the
/// sender, the text cannot be sent, or the sender is not on record.
pub proof fn law_what_is_refused(request: Request, known: Known)
    requires
        next_for(request, known) is Fail,
    ensures
        ({
            let error = next_for(request, known)->error;
            match request {
                Request::JoinChannel { .. }
                | Request::LeaveChannel { .. }
                | Request::GetChannelMessages { .. } => known.allowed == Some(false) && error
                    == HandlerError::AccessDenied,
                Request::Follow { leader_id, .. } | Request::Unfollow { leader_id, .. } => {
                    &&& known.connection_ids is Some
                    &&& !known.connection_ids->0@.contains(ConnectionId(leader_id))
                    &&& error == HandlerError::NoSuchPeer
                },
                Request::UpdateParticipantLocation { has_location, .. } => !has_location && error
                    == HandlerError::InvalidLocation,
                Request::StartLanguageServer { has_server, .. } => !has_server && error
                    == HandlerError::InvalidLanguageServer,
                Request::UpdateDiagnosticSummary { has_summary, .. } => !has_summary && error
                    == HandlerError::InvalidSummary,
                Request::RequestContact { responder_id } => known.user == Some(responder_id) && error
                    == HandlerError::ContactIsYourself,
                Request::SendChannelMessage { body, nonce, .. } => message_fault(body@, nonce)
                    == Some(error),
                Request::GetPrivateUserInfo => known.own == Some(None::<StoredUser>) && error
                    == HandlerError::UserNotFound,
                _ => false,
            }
        }),
{
}

/// The project that a message names.
pub open spec fn project_named(request: Request) -> Option<ProjectId> {
    match request {
        Request::UnshareProject { project_id } => Some(project_id),
        Request::JoinProject { project_id } => Some(project_id),
        Request::LeaveProject { project_id } => Some(project_id),
        Request::UpdateProject { project_id } => Some(project_id),
        Request::RegisterProjectActivity { project_id } => Some(project_id),
        Request::UpdateWorktree { project_id } => Some(project_id),
        Request::UpdateWorktreeExtensions { project_id, .. } => Some(project_id),
        Request::StartLanguageServer { project_id, .. } => Some(project_id),
        Request::UpdateDiagnosticSummary { project_id, .. } => Some(project_id),
        Request::Relayed { project_id, .. } => Some(project_id),
        Request::Forwarded { project_id, .. } => Some(project_id),
        Request::UpdateBuffer { project_id } => Some(project_id),
        Request::SaveBuffer { project_id } => Some(project_id),
        Request::Follow { project_id, .. } => Some(project_id),
        Request::Unfollow { project_id, .. } => Some(project_id),
        Request::UpdateFollowers { project_id, .. } => Some(project_id),
        _ => None,
    }
}

/// What is looked up, changed or asked concerns the very project, room, channel, leader and users that
/// the message names, and the user of its sender; a project that is to be shared is the one that was
/// just registered, and the one who is asked for a reply is the host of the project.
pub proof fn law_needs_concern_what_is_named(request: Request, known: Known)
    requires
        next_for(request, known) is Ask,
    ensures
        match next_for(request, known)->need {
            Need::FindSender => known.user is None,
            Need::FindProject { project_id }
            | Need::ReadProject { project_id }
            | Need::ReadProjectAgain { project_id }
            | Need::ProjectConnections { project_id }
            | Need::RegisterActivity { project_id }
            | Need::UnshareProject { project_id }
            | Need::JoinProject { project_id }
            | Need::LeaveProject { project_id }
            | Need::UpdateProject { project_id }
            | Need::UpdateWorktree { project_id }
            | Need::UpdateSummary { project_id }
            | Need::StartLanguageServer { project_id } => project_named(request) == Some(project_id),
            Need::RecordExtensions { project_id, worktree_id } => request
                == (Request::UpdateWorktreeExtensions { project_id, worktree_id }),
            Need::AskHost { host } => known.project is Some && host
                == known.project->0.host_connection_id && (request is Forwarded
                || request is SaveBuffer),
            Need::AskLeader { leader } => request matches Request::Follow { leader_id, .. }
                && leader.0 == leader_id,
            Need::CreateRoom => request is CreateRoom,
            Need::JoinRoom { room_id } => request == (Request::JoinRoom { room_id }),
            Need::LeaveRoom { room_id } => request == (Request::LeaveRoom { room_id }),
            Need::CancelCall { room_id, recipient } => request == (Request::CancelCall {
                room_id,
                recipient,
            }),
            Need::DeclineCall { room_id } => request == (Request::DeclineCall { room_id }),
            Need::UpdateLocation { room_id } => request == (Request::UpdateParticipantLocation {
                room_id,
                has_location: true,
            }),
            Need::GetVideoAccess { is_new_room } => known.room is Some && (is_new_room
                <==> request is CreateRoom) && (!is_new_room <==> request is JoinRoom),
            Need::RegisterProject { user_id } => request is ShareProject && known.user == Some(
                user_id,
            ),
            Need::ShareProject { room_id, project_id } => request == (Request::ShareProject {
                room_id,
            }) && known.project_id == Some(project_id),
            Need::AccessibleChannels { user_id } => request is GetChannels && known.user == Some(
                user_id,
            ),
            Need::UsersByIds => request is GetUsers,
            Need::UserByLogin => request is FuzzySearchUsers,
            Need::FuzzyUsers { limit } => request is FuzzySearchUsers && limit == 10,
            Need::RecordContactRequest { requester_id, responder_id } => request
                == (Request::RequestContact { responder_id }) && known.user == Some(requester_id),
            Need::RecordContactResponse { record } => match record {
                ContactRecord::DismissNotification { responder_id, requester_id } => request
                    == (Request::RespondToContactRequest {
                    requester_id,
                    response: ContactRequestResponse::Dismiss,
                }) && known.user == Some(responder_id),
                ContactRecord::Respond { responder_id, requester_id, accept } => {
                    &&& request matches Request::RespondToContactRequest {
                        requester_id: named,
                        response,
                    }
                    &&& named == requester_id
                    &&& accept <==> response is Accept
                    &&& response !is Dismiss
                    &&& known.user == Some(responder_id)
                },
            },
            Need::RemoveContact { requester_id, responder_id } => request
                == (Request::RemoveContact { user_id: responder_id }) && known.user == Some(
                requester_id,
            ),
            Need::ConnectionsOf { user_id } => known.user == Some(user_id) && known.changed,
            Need::OtherConnectionsOf { user_id } => known.changed && known.connection_ids is Some && {
                ||| request == (Request::RequestContact { responder_id: user_id })
                ||| request == (Request::RemoveContact { user_id })
                ||| request matches Request::RespondToContactRequest { requester_id, .. }
                    && requester_id == user_id
            },
            Need::CanAccessChannel { user_id, channel_id } => known.user == Some(user_id) && {
                ||| request == (Request::JoinChannel { channel_id })
                ||| request == (Request::LeaveChannel { channel_id })
                ||| request matches Request::GetChannelMessages { channel_id: named, .. } && named
                    == channel_id
            },
            Need::JoinChannel { channel_id } => request == (Request::JoinChannel { channel_id }),
            Need::LeaveChannel { channel_id } => request == (Request::LeaveChannel { channel_id }),
            Need::ReadMessages { channel_id, count, before } => count == 100 && {
                ||| request == (Request::JoinChannel { channel_id }) && before is None
                    && known.changed
                ||| before is Some && request == (Request::GetChannelMessages {
                    channel_id,
                    before: before->0,
                })
            },
            Need::ChannelConnections { channel_id } => request matches Request::SendChannelMessage {
                channel_id: named,
                ..
            } && named == channel_id,
            Need::RecordMessage { channel_id, user_id, nonce, .. } => {
                &&& request matches Request::SendChannelMessage {
                    channel_id: named,
                    nonce: given,
                    ..
                }
                &&& named == channel_id
                &&& given == Some(nonce)
                &&& known.user == Some(user_id)
                &&& known.connection_ids is Some
            },
            Need::MetricsId { user_id } | Need::FindUser { user_id } => request
                is GetPrivateUserInfo && known.user == Some(user_id),
        },
{
    if let Request::FuzzySearchUsers { query } = request {
        law_short_queries_mean_one_user(query@);
    }
}

/// At first no need is met, so that nothing is done about a message before what it takes is there.
pub proof fn law_at_first_nothing_is_known(request: Request, need: Need)
    ensures
        !is_met(nothing_known(), need),
        next_for(request, nothing_known()) is Ready <==> request is Ping
            || request is CreateBufferForPeer,
{
}

/// One thing comes after the other. The sender is looked up first, but where it has to be known first
/// that a project is shared; who may use a channel, and who leads, is known before anything is done in
/// that channel or project; activity in a project is registered before its connections are asked for,
/// unless these say whether the leader is there; a project is read before it is changed or its host
/// is asked; a room is there before its video room; and what is looked up of both sides of a contact
/// comes after the record, the sender's side first.
pub proof fn law_needs_come_in_order(request: Request, known: Known)
    requires
        next_for(request, known) is Ask,
    ensures
        ({
            let need = next_for(request, known)->need;
            &&& concerns_user(request) && need !is FindSender ==> known.user is Some
            &&& need is FindSender && request is JoinProject ==> known.found
            &&& need is JoinProject ==> known.found && known.user is Some
            &&& need is GetVideoAccess ==> known.room is Some
            &&& need is GetVideoAccess && request is JoinRoom ==> known.connection_ids is Some
            &&& need is ShareProject ==> known.project_id is Some
            &&& need is UpdateProject ==> known.project is Some
            &&& need is AskHost ==> known.project is Some
            &&& need is ReadProjectAgain ==> known.project is Some && known.replied
            &&& need is ProjectConnections && (request is UpdateBuffer || request is UpdateFollowers)
                ==> known.active
            &&& need is RegisterActivity && (request is Follow || request is Unfollow)
                ==> known.connection_ids is Some
            &&& need is AskLeader ==> known.connection_ids is Some && known.active
            &&& need is ConnectionsOf ==> known.changed
            &&& need is OtherConnectionsOf ==> known.changed && known.connection_ids is Some
            &&& need is JoinChannel || need is LeaveChannel || need is ReadMessages
                ==> known.allowed == Some(true)
            &&& need is ReadMessages && request is JoinChannel ==> known.changed
            &&& need is RecordMessage ==> known.connection_ids is Some
            &&& need is FindUser ==> known.metrics_id is Some
        }),
{
}

/// What says the same is the same, but for the string that holds the text of a message, and that text
/// is the same.
pub proof fn law_what_says_the_same_is_the_same(next: Next, other: Next)
    requires
        same_next(next, other),
    ensures
        next is Ready <==> other is Ready,
        next matches Next::Fail { error } ==> other == (Next::Fail { error }),
        next matches Next::Ask { need } ==> (need !is RecordMessage ==> other == (Next::Ask {
            need,
        })),
        next matches Next::Ask { need } ==> (need matches Need::RecordMessage {
            channel_id,
            user_id,
            body,
            nonce,
        } ==> (other matches Next::Ask { need: asked } && (asked matches Need::RecordMessage {
            channel_id: other_channel,
            user_id: other_user,
            body: other_body,
            nonce: other_nonce,
        } && channel_id == other_channel && user_id == other_user && body@ == other_body@ && nonce
            == other_nonce))),
{
}

} // verus!
