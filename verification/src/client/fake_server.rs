//! A server that stands in for the real one.

use vstd::prelude::*;

use crate::collab::ids::ConnectionId;
use crate::collab::message::Message;
use crate::collab::users::PrivateUserInfo;
use crate::strings::{decimal, law_decimal_round_trip, same_text, to_decimal};

verus! {

/// With what a client shows who its user is.
#[derive(Debug, PartialEq, Eq)]
pub struct Credentials {
    pub user_id: u64,
    pub access_token: String,
}

/// Why a connection was not made.
#[derive(Debug, Clone, Copy, PartialEq, Eq, Structural)]
pub enum EstablishConnectionError {
    /// The token is not the current one.
    Unauthorized,
    /// The server takes no connections.
    Forbidden,
}

impl EstablishConnectionError {
    /// What the client is told, where there is more to say than that it is not authorized.
    pub fn text(&self) -> (text: Option<&'static str>)
        ensures
            match text {
                Some(text) => *self == EstablishConnectionError::Forbidden && text@
                    == "server is forbidding connections"@,
                None => *self == EstablishConnectionError::Unauthorized,
            },
    {
        match self {
            EstablishConnectionError::Unauthorized => None,
            EstablishConnectionError::Forbidden => Some("server is forbidding connections"),
        }
    }
}

/// Whether a client that shows a token gets a connection: not while connections are refused,
/// and only with the current token.
pub open spec fn admission(is_forbidding: bool, token: u64, shown: Seq<char>) -> Result<
    (),
    EstablishConnectionError,
> {
    if is_forbidding {
        Err(EstablishConnectionError::Forbidden)
    } else if shown != decimal(token as nat) {
        Err(EstablishConnectionError::Unauthorized)
    } else {
        Ok(())
    }
}

/// A message that the stand-in received, as far as it matters to what becomes of it.
#[derive(Debug, Clone, Copy, PartialEq, Eq, Structural)]
pub struct Incoming {
    /// Whether it is of the kind that is waited for.
    pub is_wanted: bool,
    /// Whether it asks for what only the user may know.
    pub asks_private_user_info: bool,
}

/// No more messages come.
#[derive(Debug, Clone, Copy, PartialEq, Eq, Structural)]
pub struct HungUp;

impl HungUp {
    /// What whoever waits is told.
    pub fn text(&self) -> (text: &'static str)
        ensures
            text@ == "other half hung up"@,
    {
        "other half hung up"
    }
}

/// What to do with a message that the stand-in received.
#[derive(Debug, Clone, Copy, PartialEq, Eq, Structural)]
pub enum Reception {
    /// It is what was waited for.
    Deliver,
    /// It is a question that the stand-in answers by itself, and then waits on.
    AnswerPrivateUserInfo,
    /// It should not have come.
    Unexpected,
}

/// What becomes of a message: it is delivered if it is of the kind that is waited for, and answered
/// if it asks for what only the user may know. Without a message, no more come.
pub open spec fn reception_of(message: Option<Incoming>) -> Result<Reception, HungUp> {
    match message {
        Some(message) => if message.is_wanted {
            Ok(Reception::Deliver)
        } else if message.asks_private_user_info {
            Ok(Reception::AnswerPrivateUserInfo)
        } else {
            Ok(Reception::Unexpected)
        },
        None => Err(HungUp),
    }
}

/// What waiting comes to while messages come in and then no more: the last thing that is done, and
/// how many questions were answered before.
pub open spec fn waiting(messages: Seq<Incoming>) -> (Result<Reception, HungUp>, nat)
    decreases messages.len(),
{
    if messages.len() == 0 {
        (reception_of(None), 0)
    } else {
        match reception_of(Some(messages.first())) {
            Ok(Reception::AnswerPrivateUserInfo) => {
                let rest = waiting(messages.skip(1));
                (rest.0, rest.1 + 1)
            },
            reception => (reception, 0),
        }
    }
}

/// A server that stands in for the real one, for the client of one user.
#[derive(Debug)]
pub struct FakeServer {
    user_id: u64,
    connection_id: Option<ConnectionId>,
    forbid_connections: bool,
    auth_count: usize,
    access_token: u64,
}

impl FakeServer {
    /// The user whose client it serves.
    pub closed spec fn user(self) -> u64 {
        self.user_id
    }

    /// The connection, if there is one.
    pub closed spec fn connection(self) -> Option<ConnectionId> {
        self.connection_id
    }

    /// Whether connections are refused.
    pub closed spec fn is_forbidding(self) -> bool {
        self.forbid_connections
    }

    /// How often the client has asked for credentials.
    pub closed spec fn authentications(self) -> int {
        self.auth_count as int
    }

    /// The number behind the current token.
    pub closed spec fn token(self) -> u64 {
        self.access_token
    }

    /// A stand-in for the client of one user, which takes connections.
    pub fn for_client(client_user_id: u64) -> (server: FakeServer)
        ensures
            server.user() == client_user_id,
            server.connection() is None,
            !server.is_forbidding(),
            server.authentications() == 0,
            server.token() == 0,
    {
        FakeServer {
            user_id: client_user_id,
            connection_id: None,
            forbid_connections: false,
            auth_count: 0,
            access_token: 0,
        }
    }

    /// Gives the client credentials with the current token.
    pub fn authenticate(&mut self) -> (credentials: Credentials)
        requires
            old(self).authentications() < usize::MAX,
        ensures
            credentials.user_id == old(self).user(),
            credentials.access_token@ == decimal(old(self).token() as nat),
            final(self).authentications() == old(self).authentications() + 1,
            final(self).user() == old(self).user(),
            final(self).connection() == old(self).connection(),
            final(self).is_forbidding() == old(self).is_forbidding(),
            final(self).token() == old(self).token(),
    {
        self.auth_count = self.auth_count + 1;
        Credentials { user_id: self.user_id, access_token: to_decimal(self.access_token) }
    }

    /// Whether a client with some credentials gets a connection: not while connections are
    /// refused, and only with the current token. They have to be those of the user whose
    /// client it is.
    pub fn establish_connection(&self, credentials: &Credentials) -> (outcome: Result<
        (),
        EstablishConnectionError,
    >)
        requires
            !self.is_forbidding() ==> credentials.user_id == self.user(),
        ensures
            outcome == admission(
                self.is_forbidding(),
                self.token(),
                credentials.access_token@,
            ),
    {
        if self.forbid_connections {
            return Err(EstablishConnectionError::Forbidden);
        }
        let current: String = to_decimal(self.access_token);
        if !same_text(credentials.access_token.as_str(), current.as_str()) {
            return Err(EstablishConnectionError::Unauthorized);
        }
        Ok(())
    }

    /// Takes note of the connection, and says hello over it with the message that is returned.
    pub fn connected(&mut self, connection_id: ConnectionId) -> (hello: Message)
        ensures
            hello == (Message::Hello { peer_id: connection_id.0 }),
            final(self).connection() == Some(connection_id),
            final(self).user() == old(self).user(),
            final(self).is_forbidding() == old(self).is_forbidding(),
            final(self).authentications() == old(self).authentications(),
            final(self).token() == old(self).token(),
    {
        self.connection_id = Some(connection_id);
        Message::Hello { peer_id: connection_id.0 }
    }

    /// Gives up the connection, if there is one, and returns it so that it can be closed.
    pub fn disconnect(&mut self) -> (closed: Option<ConnectionId>)
        ensures
            closed == old(self).connection(),
            final(self).connection() is None,
            final(self).user() == old(self).user(),
            final(self).is_forbidding() == old(self).is_forbidding(),
            final(self).authentications() == old(self).authentications(),
            final(self).token() == old(self).token(),
    {
        let closed: Option<ConnectionId> = self.connection_id;
        self.connection_id = None;
        closed
    }

    /// How often the client has asked for credentials.
    pub fn auth_count(&self) -> (count: usize)
        ensures
            count == self.authentications(),
    {
        self.auth_count
    }

    /// Makes all tokens so far invalid.
    pub fn roll_access_token(&mut self)
        requires
            old(self).token() < u64::MAX,
        ensures
            final(self).token() == old(self).token() + 1,
            final(self).user() == old(self).user(),
            final(self).connection() == old(self).connection(),
            final(self).is_forbidding() == old(self).is_forbidding(),
            final(self).authentications() == old(self).authentications(),
    {
        self.access_token = self.access_token + 1;
    }

    /// Refuses connections from now on.
    pub fn forbid_connections(&mut self)
        ensures
            final(self).is_forbidding(),
            final(self).user() == old(self).user(),
            final(self).connection() == old(self).connection(),
            final(self).authentications() == old(self).authentications(),
            final(self).token() == old(self).token(),
    {
        self.forbid_connections = true;
    }

    /// Takes connections from now on.
    pub fn allow_connections(&mut self)
        ensures
            !final(self).is_forbidding(),
            final(self).user() == old(self).user(),
            final(self).connection() == old(self).connection(),
            final(self).authentications() == old(self).authentications(),
            final(self).token() == old(self).token(),
    {
        self.forbid_connections = false;
    }

    /// The connection, which has to be there.
    pub fn connection_id(&self) -> (connection_id: ConnectionId)
        requires
            self.connection() is Some,
        ensures
            Some(connection_id) == self.connection(),
    {
        match self.connection_id {
            Some(connection_id) => connection_id,
            None => vstd::pervasive::unreached(),
        }
    }

    /// What becomes of a message, or of there being none any more.
    pub fn receive(message: Option<Incoming>) -> (reception: Result<Reception, HungUp>)
        ensures
            reception == reception_of(message),
    {
        match message {
            Some(message) => if message.is_wanted {
                Ok(Reception::Deliver)
            } else if message.asks_private_user_info {
                Ok(Reception::AnswerPrivateUserInfo)
            } else {
                Ok(Reception::Unexpected)
            },
            None => Err(HungUp),
        }
    }

    /// What the stand-in answers by itself.
    pub fn private_user_info() -> (info: PrivateUserInfo)
        ensures
            info.metrics_id@ == "the-metrics-id"@,
            !info.staff,
    {
        PrivateUserInfo { metrics_id: "the-metrics-id".to_string(), staff: false }
    }

    /// Whether users that were asked for are the one whose client it is, and no one else.
    pub fn asks_for_own_user(&self, user_ids: &[u64]) -> (own: bool)
        ensures
            own == (user_ids@ == seq![self.user()]),
    {
        let own: bool = user_ids.len() == 1 && user_ids[0] == self.user_id;
        if own {
            assert(user_ids@ =~= seq![self.user()]);
        }
        own
    }
}

/// Whoever waits for a message gets the first one of its kind, if all before it are questions that
/// the stand-in answers by itself; each of those is answered once. If another message comes first,
/// it is unexpected, and if no more come, the other half hung up.
pub proof fn law_waiting_ends_at_the_first_other_message(messages: Seq<Incoming>, count: int)
    requires
        0 <= count <= messages.len(),
        forall|index: int|
            0 <= index < count ==> !(#[trigger] messages[index]).is_wanted
                && messages[index].asks_private_user_info,
        count < messages.len() ==> messages[count].is_wanted
            || !messages[count].asks_private_user_info,
    ensures
        waiting(messages) == (
            (if count == messages.len() {
                Err(HungUp)
            } else if messages[count].is_wanted {
                Ok(Reception::Deliver)
            } else {
                Ok(Reception::Unexpected)
            }),
            count as nat,
        ),
    decreases count,
{
    if count > 0 {
        let rest = messages.skip(1);
        assert(messages.first() == messages[0]);
        assert forall|index: int| 0 <= index < count - 1 implies !(#[trigger] rest[index]).is_wanted
            && rest[index].asks_private_user_info by {
            assert(rest[index] == messages[index + 1]);
        }
        law_waiting_ends_at_the_first_other_message(rest, count - 1);
    } else if messages.len() > 0 {
        assert(messages.first() == messages[0]);
    }
}

/// A client that shows the current token gets a connection, unless connections are refused.
pub proof fn law_current_token_is_admitted(token: u64)
    ensures
        admission(false, token, decimal(token as nat)) == Ok::<(), EstablishConnectionError>(()),
        admission(true, token, decimal(token as nat)) == Err::<(), EstablishConnectionError>(
            EstablishConnectionError::Forbidden,
        ),
{
}

/// A token that is no longer, or not yet, the current one gets no connection.
pub proof fn law_other_tokens_are_refused(token: u64, other: u64)
    requires
        token != other,
    ensures
        admission(false, token, decimal(other as nat)) == Err::<(), EstablishConnectionError>(
            EstablishConnectionError::Unauthorized,
        ),
{
    law_decimal_round_trip(token as nat);
    law_decimal_round_trip(other as nat);
}

/// A client gets a connection exactly if connections are not refused and it shows the current token,
/// digit by digit.
pub proof fn law_who_is_admitted(is_forbidding: bool, token: u64, shown: Seq<char>)
    ensures
        admission(is_forbidding, token, shown) is Ok <==> !is_forbidding && shown == decimal(
            token as nat,
        ),
        admission(is_forbidding, token, shown) == Err::<(), EstablishConnectionError>(
            EstablishConnectionError::Forbidden,
        ) <==> is_forbidding,
{
}

} // verus!
