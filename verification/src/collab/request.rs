//! What clients ask of the server.

use vstd::pervasive::arbitrary;
use vstd::prelude::*;

use crate::collab::buffers::FollowersUpdate;
use crate::collab::contacts::ContactRequestResponse;
use crate::collab::ids::{ChannelId, MessageId, ProjectId, RoomId, UserId};
use crate::collab::server::{is_answered_by_host, is_relayed, MessageKind};

verus! {

/// A message from a client, as far as it matters to what the server does. What is only sent on
/// is not part of it. Calls are handled apart from all other messages.
#[derive(Debug)]
pub enum Request {
    Ping,
    CreateRoom,
    JoinRoom { room_id: RoomId },
    LeaveRoom { room_id: RoomId },
    CancelCall { room_id: RoomId, recipient: UserId },
    DeclineCall { room_id: RoomId },
    UpdateParticipantLocation { room_id: RoomId, has_location: bool },
    ShareProject { room_id: RoomId },
    UnshareProject { project_id: ProjectId },
    JoinProject { project_id: ProjectId },
    LeaveProject { project_id: ProjectId },
    UpdateProject { project_id: ProjectId },
    RegisterProjectActivity { project_id: ProjectId },
    UpdateWorktree { project_id: ProjectId },
    UpdateWorktreeExtensions { project_id: ProjectId, worktree_id: u64 },
    StartLanguageServer { project_id: ProjectId, has_server: bool },
    UpdateDiagnosticSummary { project_id: ProjectId, has_summary: bool },
    /// A message that everyone else in the project gets as it is.
    Relayed { kind: MessageKind, project_id: ProjectId },
    /// A request that the host of the project answers.
    Forwarded { kind: MessageKind, project_id: ProjectId },
    CreateBufferForPeer { peer_id: u32 },
    UpdateBuffer { project_id: ProjectId },
    SaveBuffer { project_id: ProjectId },
    Follow { project_id: ProjectId, leader_id: u32 },
    Unfollow { project_id: ProjectId, leader_id: u32 },
    UpdateFollowers {
        project_id: ProjectId,
        follower_ids: Vec<u32>,
        update: Option<FollowersUpdate>,
    },
    GetChannels,
    GetUsers,
    FuzzySearchUsers { query: String },
    RequestContact { responder_id: UserId },
    RemoveContact { user_id: UserId },
    RespondToContactRequest { requester_id: UserId, response: ContactRequestResponse },
    JoinChannel { channel_id: ChannelId },
    LeaveChannel { channel_id: ChannelId },
    GetChannelMessages { channel_id: ChannelId, before: MessageId },
    SendChannelMessage { channel_id: ChannelId, body: String, nonce: Option<u128> },
    GetPrivateUserInfo,
}

impl Request {
    /// Whether what is relayed is a message that is relayed, and what is forwarded a request
    /// that the host answers.
    pub open spec fn wf(self) -> bool {
        match self {
            Request::Relayed { kind, .. } => is_relayed(kind),
            Request::Forwarded { kind, .. } => is_answered_by_host(kind),
            _ => true,
        }
    }

    /// The kind of message that this is.
    pub open spec fn kind(self) -> MessageKind {
        match self {
            Request::Ping => MessageKind::Ping,
            Request::CreateRoom => MessageKind::CreateRoom,
            Request::JoinRoom { .. } => MessageKind::JoinRoom,
            Request::LeaveRoom { .. } => MessageKind::LeaveRoom,
            Request::CancelCall { .. } => MessageKind::CancelCall,
            Request::DeclineCall { .. } => MessageKind::DeclineCall,
            Request::UpdateParticipantLocation { .. } => MessageKind::UpdateParticipantLocation,
            Request::ShareProject { .. } => MessageKind::ShareProject,
            Request::UnshareProject { .. } => MessageKind::UnshareProject,
            Request::JoinProject { .. } => MessageKind::JoinProject,
            Request::LeaveProject { .. } => MessageKind::LeaveProject,
            Request::UpdateProject { .. } => MessageKind::UpdateProject,
            Request::RegisterProjectActivity { .. } => MessageKind::RegisterProjectActivity,
            Request::UpdateWorktree { .. } => MessageKind::UpdateWorktree,
            Request::UpdateWorktreeExtensions { .. } => MessageKind::UpdateWorktreeExtensions,
            Request::StartLanguageServer { .. } => MessageKind::StartLanguageServer,
            Request::UpdateDiagnosticSummary { .. } => MessageKind::UpdateDiagnosticSummary,
            Request::Relayed { kind, .. } => kind,
            Request::Forwarded { kind, .. } => kind,
            Request::CreateBufferForPeer { .. } => MessageKind::CreateBufferForPeer,
            Request::UpdateBuffer { .. } => MessageKind::UpdateBuffer,
            Request::SaveBuffer { .. } => MessageKind::SaveBuffer,
            Request::Follow { .. } => MessageKind::Follow,
            Request::Unfollow { .. } => MessageKind::Unfollow,
            Request::UpdateFollowers { .. } => MessageKind::UpdateFollowers,
            Request::GetChannels => MessageKind::GetChannels,
            Request::GetUsers => MessageKind::GetUsers,
            Request::FuzzySearchUsers { .. } => MessageKind::FuzzySearchUsers,
            Request::RequestContact { .. } => MessageKind::RequestContact,
            Request::RemoveContact { .. } => MessageKind::RemoveContact,
            Request::RespondToContactRequest { .. } => MessageKind::RespondToContactRequest,
            Request::JoinChannel { .. } => MessageKind::JoinChannel,
            Request::LeaveChannel { .. } => MessageKind::LeaveChannel,
            Request::GetChannelMessages { .. } => MessageKind::GetChannelMessages,
            Request::SendChannelMessage { .. } => MessageKind::SendChannelMessage,
            Request::GetPrivateUserInfo => MessageKind::GetPrivateUserInfo,
        }
    }
}

/// Every kind of message that the server takes, but a call, comes in a form of its own: one that is
/// relayed exactly if everyone else in a project gets it as it is, one that is forwarded exactly if
/// the host of a project answers it, and another otherwise.
pub proof fn law_every_kind_has_its_form(kind: MessageKind, request: Request)
    ensures
        kind != MessageKind::Other && kind != MessageKind::Call ==> exists|form: Request| #[trigger]
            form.wf() && form.kind() == kind,
        request.wf() ==> (request is Relayed <==> is_relayed(request.kind())),
        request.wf() ==> (request is Forwarded <==> is_answered_by_host(request.kind())),
{
    let project_id = ProjectId(0);
    let room_id = RoomId(0);
    let user_id = UserId(0);
    let channel_id = ChannelId(0);
    let text: String = arbitrary();
    let follower_ids: Vec<u32> = arbitrary();
    let form = match kind {
        MessageKind::Ping => Request::Ping,
        MessageKind::CreateRoom => Request::CreateRoom,
        MessageKind::JoinRoom => Request::JoinRoom { room_id },
        MessageKind::LeaveRoom => Request::LeaveRoom { room_id },
        MessageKind::CancelCall => Request::CancelCall { room_id, recipient: user_id },
        MessageKind::DeclineCall => Request::DeclineCall { room_id },
        MessageKind::UpdateParticipantLocation => Request::UpdateParticipantLocation {
            room_id,
            has_location: true,
        },
        MessageKind::ShareProject => Request::ShareProject { room_id },
        MessageKind::UnshareProject => Request::UnshareProject { project_id },
        MessageKind::JoinProject => Request::JoinProject { project_id },
        MessageKind::LeaveProject => Request::LeaveProject { project_id },
        MessageKind::UpdateProject => Request::UpdateProject { project_id },
        MessageKind::RegisterProjectActivity => Request::RegisterProjectActivity { project_id },
        MessageKind::UpdateWorktree => Request::UpdateWorktree { project_id },
        MessageKind::UpdateWorktreeExtensions => Request::UpdateWorktreeExtensions {
            project_id,
            worktree_id: 0,
        },
        MessageKind::StartLanguageServer => Request::StartLanguageServer {
            project_id,
            has_server: true,
        },
        MessageKind::UpdateDiagnosticSummary => Request::UpdateDiagnosticSummary {
            project_id,
            has_summary: true,
        },
        MessageKind::CreateBufferForPeer => Request::CreateBufferForPeer { peer_id: 0 },
        MessageKind::UpdateBuffer => Request::UpdateBuffer { project_id },
        MessageKind::SaveBuffer => Request::SaveBuffer { project_id },
        MessageKind::Follow => Request::Follow { project_id, leader_id: 0 },
        MessageKind::Unfollow => Request::Unfollow { project_id, leader_id: 0 },
        MessageKind::UpdateFollowers => Request::UpdateFollowers {
            project_id,
            follower_ids,
            update: None,
        },
        MessageKind::GetChannels => Request::GetChannels,
        MessageKind::GetUsers => Request::GetUsers,
        MessageKind::FuzzySearchUsers => Request::FuzzySearchUsers { query: text },
        MessageKind::RequestContact => Request::RequestContact { responder_id: user_id },
        MessageKind::RemoveContact => Request::RemoveContact { user_id },
        MessageKind::RespondToContactRequest => Request::RespondToContactRequest {
            requester_id: user_id,
            response: ContactRequestResponse::Accept,
        },
        MessageKind::JoinChannel => Request::JoinChannel { channel_id },
        MessageKind::LeaveChannel => Request::LeaveChannel { channel_id },
        MessageKind::GetChannelMessages => Request::GetChannelMessages {
            channel_id,
            before: MessageId(0),
        },
        MessageKind::SendChannelMessage => Request::SendChannelMessage {
            channel_id,
            body: text,
            nonce: None,
        },
        MessageKind::GetPrivateUserInfo => Request::GetPrivateUserInfo,
        _ => if is_relayed(kind) {
            Request::Relayed { kind, project_id }
        } else {
            Request::Forwarded { kind, project_id }
        },
    };
    if kind != MessageKind::Other && kind != MessageKind::Call {
        assert(form.wf() && form.kind() == kind);
    }
}

} // verus!
