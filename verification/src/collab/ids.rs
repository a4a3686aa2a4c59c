//! What identifies connections, users, projects and channels.

use vstd::prelude::*;

use crate::strings::{decimal, to_decimal};

verus! {

/// Identifies a connection.
#[derive(Clone, Copy, Debug, PartialEq, Eq, Structural)]
pub struct ConnectionId(pub u32);

/// Identifies a user.
#[derive(Clone, Copy, Debug, PartialEq, Eq, Structural)]
pub struct UserId(pub u64);

/// Identifies a project.
#[derive(Clone, Copy, Debug, PartialEq, Eq, Structural)]
pub struct ProjectId(pub u64);

/// Identifies a room.
#[derive(Clone, Copy, Debug, PartialEq, Eq, Structural)]
pub struct RoomId(pub u64);

/// Identifies a channel.
#[derive(Clone, Copy, Debug, PartialEq, Eq, Structural)]
pub struct ChannelId(pub u64);

/// Identifies a message in a channel.
#[derive(Clone, Copy, Debug, PartialEq, Eq, Structural)]
pub struct MessageId(pub u64);

impl ConnectionId {
    /// The name under which a connection takes part in a video room.
    pub fn identity(&self) -> (identity: String)
        ensures
            identity@ == decimal(self.0 as nat),
    {
        to_decimal(self.0 as u64)
    }
}

/// Whether `wanted` is among `ids`.
pub fn contains_connection(ids: &[ConnectionId], wanted: ConnectionId) -> (found: bool)
    ensures
        found == ids@.contains(wanted),
{
    let mut index: usize = 0;
    while index < ids.len()
        invariant
            index <= ids@.len(),
            forall|at: int| 0 <= at < index ==> ids@[at] != wanted,
        decreases ids@.len() - index,
    {
        if ids[index] == wanted {
            return true;
        }
        index += 1;
    }
    false
}

/// `users` with `user` behind them, unless it is among them.
pub open spec fn with_user(users: Seq<UserId>, user: UserId) -> Seq<UserId> {
    if users.contains(user) {
        users
    } else {
        users.push(user)
    }
}

/// Adds a user, unless it is there.
pub fn add_user(users: &mut Vec<UserId>, user: UserId)
    ensures
        final(users)@ == with_user(old(users)@, user),
{
    let mut index: usize = 0;
    while index < users.len()
        invariant
            users@ == old(users)@,
            index <= users@.len(),
            forall|at: int| 0 <= at < index ==> users@[at] != user,
        decreases users@.len() - index,
    {
        if users[index] == user {
            return ;
        }
        index += 1;
    }
    users.push(user);
}

/// Adding a user keeps those who are there, in order, puts a new user behind them, and no one is
/// there twice who was not there twice before.
pub proof fn law_a_user_is_added_once(users: Seq<UserId>, user: UserId, other: UserId)
    ensures
        with_user(users, user).contains(user),
        users.is_prefix_of(with_user(users, user)),
        other != user ==> with_user(users, user).contains(other) == users.contains(other),
        users.no_duplicates() ==> with_user(users, user).no_duplicates(),
        users.contains(user) ==> with_user(users, user) == users,
        !users.contains(user) ==> with_user(users, user).last() == user,
{
    let all = with_user(users, user);
    if !users.contains(user) {
        assert(all[users.len() as int] == user);
    }
    if users.contains(other) {
        let at = choose|at: int| 0 <= at < users.len() && users[at] == other;
        assert(all[at] == other);
    }
}

} // verus!
