//! What the server sends to clients of its own accord.

use vstd::prelude::*;

use crate::collab::ids::{ChannelId, ProjectId, RoomId, UserId};

verus! {

/// Something that the library carries without looking into it, as it was at some moment: the state
/// of a room, a call, what a user is told of their contacts, or a path. This is the number under
/// which it is found when it is sent.
#[derive(Clone, Copy, Debug, PartialEq, Eq, Structural)]
pub struct PayloadId(pub u64);

/// A user as others see them: whether they are online, busy, and what they share. To be
/// looked up when it is sent.
#[derive(Clone, Copy, Debug, PartialEq, Eq, Structural)]
pub struct ContactOf {
    pub user_id: UserId,
    pub should_notify: bool,
}

/// A request to become a contact.
#[derive(Clone, Copy, Debug, PartialEq, Eq, Structural)]
pub struct IncomingContactRequest {
    pub requester_id: UserId,
    pub should_notify: bool,
}

/// A change to what a client knows of contacts. What is not there does not change.
#[derive(Clone, Copy, Debug, PartialEq, Eq, Structural)]
pub struct ContactsUpdate {
    pub contact: Option<ContactOf>,
    pub incoming_request: Option<IncomingContactRequest>,
    pub remove_incoming_request: Option<UserId>,
    pub outgoing_request: Option<UserId>,
    pub remove_outgoing_request: Option<UserId>,
}

/// The update that changes nothing.
pub open spec fn no_update() -> ContactsUpdate {
    ContactsUpdate {
        contact: None,
        incoming_request: None,
        remove_incoming_request: None,
        outgoing_request: None,
        remove_outgoing_request: None,
    }
}

impl ContactsUpdate {
    /// The update that changes nothing.
    pub fn none() -> (update: ContactsUpdate)
        ensures
            update == no_update(),
    {
        ContactsUpdate {
            contact: None,
            incoming_request: None,
            remove_incoming_request: None,
            outgoing_request: None,
            remove_outgoing_request: None,
        }
    }
}

/// Someone who works on a project.
#[derive(Clone, Copy, Debug, PartialEq, Eq, Structural)]
pub struct Collaborator {
    pub peer_id: u32,
    pub replica_id: u32,
    pub user_id: u64,
}

/// A part of what is known of a worktree: `entry_count` of its entries, from `first_entry` on, and
/// how many of its entries are gone.
#[derive(Debug, PartialEq, Eq)]
pub struct WorktreePiece {
    pub project_id: ProjectId,
    pub worktree_id: u64,
    pub root_name: String,
    pub abs_path: PayloadId,
    pub scan_id: u64,
    pub first_entry: usize,
    pub entry_count: usize,
    pub removed_count: usize,
    pub is_last_update: bool,
}

impl Clone for WorktreePiece {
    fn clone(&self) -> (copy: WorktreePiece)
        ensures
            copy == *self,
    {
        WorktreePiece {
            project_id: self.project_id,
            worktree_id: self.worktree_id,
            root_name: self.root_name.clone(),
            abs_path: self.abs_path,
            scan_id: self.scan_id,
            first_entry: self.first_entry,
            entry_count: self.entry_count,
            removed_count: self.removed_count,
            is_last_update: self.is_last_update,
        }
    }
}

/// A message in a channel.
#[derive(Debug, PartialEq, Eq)]
pub struct ChannelMessage {
    pub id: u64,
    pub body: String,
    pub timestamp: u64,
    pub sender_id: u64,
    pub nonce: u128,
}

impl Clone for ChannelMessage {
    fn clone(&self) -> (copy: ChannelMessage)
        ensures
            copy == *self,
    {
        ChannelMessage {
            id: self.id,
            body: self.body.clone(),
            timestamp: self.timestamp,
            sender_id: self.sender_id,
            nonce: self.nonce,
        }
    }
}

/// Something that the server tells a client.
#[derive(Debug, PartialEq, Eq)]
pub enum Message {
    /// The connection stands, and has this number.
    Hello { peer_id: u32 },
    /// This is the first time that the user is connected.
    ShowContacts,
    /// Someone is calling the user: the call.
    IncomingCall { call: PayloadId },
    /// Someone no longer calls the user.
    CallCanceled,
    /// All that is known of the user's contacts.
    InitialContacts { contacts: PayloadId },
    /// What changed with the user's contacts.
    UpdateContacts { update: ContactsUpdate },
    /// With what the user can invite others, and how many.
    UpdateInviteInfo { url: String, count: u32 },
    /// The state of a room.
    RoomUpdated { room_id: RoomId, state: PayloadId },
    /// A project is no longer shared.
    UnshareProject { project_id: ProjectId },
    /// Someone joined a project.
    AddProjectCollaborator { project_id: ProjectId, collaborator: Collaborator },
    /// Someone left a project.
    RemoveProjectCollaborator { project_id: ProjectId, peer_id: u32 },
    /// Some entries of a worktree.
    UpdateWorktree { piece: WorktreePiece },
    /// One of the diagnostic summaries of a worktree.
    UpdateDiagnosticSummary { project_id: ProjectId, worktree_id: u64, summary: usize },
    /// A language server has looked at all files.
    DiskBasedDiagnosticsUpdated { project_id: ProjectId, language_server_id: u64 },
    /// Someone wrote in a channel.
    ChannelMessageSent { channel_id: ChannelId, message: ChannelMessage },
}

impl Clone for Message {
    fn clone(&self) -> (copy: Message)
        ensures
            copy == *self,
    {
        match self {
            Message::Hello { peer_id } => Message::Hello { peer_id: *peer_id },
            Message::ShowContacts => Message::ShowContacts,
            Message::IncomingCall { call } => Message::IncomingCall { call: *call },
            Message::CallCanceled => Message::CallCanceled,
            Message::InitialContacts { contacts } => Message::InitialContacts {
                contacts: *contacts,
            },
            Message::UpdateContacts { update } => Message::UpdateContacts { update: *update },
            Message::UpdateInviteInfo { url, count } => Message::UpdateInviteInfo {
                url: url.clone(),
                count: *count,
            },
            Message::RoomUpdated { room_id, state } => Message::RoomUpdated {
                room_id: *room_id,
                state: *state,
            },
            Message::UnshareProject { project_id } => Message::UnshareProject {
                project_id: *project_id,
            },
            Message::AddProjectCollaborator { project_id, collaborator } => {
                Message::AddProjectCollaborator {
                    project_id: *project_id,
                    collaborator: *collaborator,
                }
            },
            Message::RemoveProjectCollaborator { project_id, peer_id } => {
                Message::RemoveProjectCollaborator { project_id: *project_id, peer_id: *peer_id }
            },
            Message::UpdateWorktree { piece } => Message::UpdateWorktree { piece: piece.clone() },
            Message::UpdateDiagnosticSummary { project_id, worktree_id, summary } => {
                Message::UpdateDiagnosticSummary {
                    project_id: *project_id,
                    worktree_id: *worktree_id,
                    summary: *summary,
                }
            },
            Message::DiskBasedDiagnosticsUpdated { project_id, language_server_id } => {
                Message::DiskBasedDiagnosticsUpdated {
                    project_id: *project_id,
                    language_server_id: *language_server_id,
                }
            },
            Message::ChannelMessageSent { channel_id, message } => Message::ChannelMessageSent {
                channel_id: *channel_id,
                message: message.clone(),
            },
        }
    }
}

} // verus!
