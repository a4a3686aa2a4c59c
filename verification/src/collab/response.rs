//! What the server answers to requests.

use vstd::prelude::*;

use crate::collab::buffers::FollowedView;
use crate::collab::channels::{Channel, MessagePage};
use crate::collab::ids::{ProjectId, RoomId};
use crate::collab::message::{ChannelMessage, PayloadId};
use crate::collab::projects::JoinProjectResponse;
use crate::collab::rooms::LiveKitConnectionInfo;
use crate::collab::users::{PrivateUserInfo, PublicUser};

verus! {

/// The answer to a request.
#[derive(Debug, PartialEq, Eq)]
pub enum Response {
    /// It was done.
    Ack,
    /// The state of a room, and with what to get into its video room.
    Room {
        room_id: RoomId,
        state: PayloadId,
        live_kit_connection_info: Option<LiveKitConnectionInfo>,
    },
    /// The project is shared under this number.
    ProjectShared { project_id: ProjectId },
    /// All that is needed to begin to work on a project.
    ProjectJoined { response: JoinProjectResponse },
    /// What the host of the project replied.
    HostReply,
    /// What the leader replied, but with these of its views only.
    Views { views: Vec<FollowedView> },
    /// The channels that the user may use.
    Channels { channels: Vec<Channel> },
    /// The users that were asked for.
    Users { users: Vec<PublicUser> },
    /// Some messages of a channel.
    Messages { page: MessagePage },
    /// The message that was sent.
    MessageSent { message: ChannelMessage },
    /// What the user is told of themselves only.
    PrivateUserInfo { info: PrivateUserInfo },
}

} // verus!
