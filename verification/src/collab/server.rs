//! Which messages the server takes, and how it answers requests.

use vstd::prelude::*;

use crate::collab::error::{error_text, HandlerError};

verus! {

/// A kind of message that clients send.
#[derive(Clone, Copy, Debug, PartialEq, Eq, Structural)]
pub enum MessageKind {
    Ping,
    CreateRoom,
    JoinRoom,
    LeaveRoom,
    Call,
    CancelCall,
    DeclineCall,
    UpdateParticipantLocation,
    ShareProject,
    UnshareProject,
    JoinProject,
    LeaveProject,
    UpdateProject,
    RegisterProjectActivity,
    UpdateWorktree,
    UpdateWorktreeExtensions,
    StartLanguageServer,
    UpdateLanguageServer,
    UpdateDiagnosticSummary,
    GetHover,
    GetDefinition,
    GetTypeDefinition,
    GetReferences,
    SearchProject,
    GetDocumentHighlights,
    GetProjectSymbols,
    OpenBufferForSymbol,
    OpenBufferById,
    OpenBufferByPath,
    GetCompletions,
    ApplyCompletionAdditionalEdits,
    GetCodeActions,
    ApplyCodeAction,
    PrepareRename,
    PerformRename,
    ReloadBuffers,
    FormatBuffers,
    CreateProjectEntry,
    RenameProjectEntry,
    CopyProjectEntry,
    DeleteProjectEntry,
    CreateBufferForPeer,
    UpdateBuffer,
    UpdateBufferFile,
    BufferReloaded,
    BufferSaved,
    SaveBuffer,
    GetChannels,
    GetUsers,
    FuzzySearchUsers,
    RequestContact,
    RemoveContact,
    RespondToContactRequest,
    JoinChannel,
    LeaveChannel,
    SendChannelMessage,
    Follow,
    Unfollow,
    UpdateFollowers,
    GetChannelMessages,
    UpdateDiffBase,
    GetPrivateUserInfo,
    /// A message that the server only sends, or does not know.
    Other,
}

/// What whoever sends a message waits for.
#[derive(Clone, Copy, Debug, PartialEq, Eq, Structural)]
pub enum Expects {
    /// An answer, or an error.
    Response,
    /// Nothing.
    Nothing,
}

/// The kinds of messages to which no one waits for an answer.
pub open spec fn is_plain_message(kind: MessageKind) -> bool {
    ||| kind == MessageKind::LeaveRoom
    ||| kind == MessageKind::DeclineCall
    ||| kind == MessageKind::UnshareProject
    ||| kind == MessageKind::LeaveProject
    ||| kind == MessageKind::UpdateProject
    ||| kind == MessageKind::RegisterProjectActivity
    ||| kind == MessageKind::UpdateWorktreeExtensions
    ||| kind == MessageKind::StartLanguageServer
    ||| kind == MessageKind::UpdateLanguageServer
    ||| kind == MessageKind::UpdateDiagnosticSummary
    ||| kind == MessageKind::CreateBufferForPeer
    ||| kind == MessageKind::UpdateBufferFile
    ||| kind == MessageKind::BufferReloaded
    ||| kind == MessageKind::BufferSaved
    ||| kind == MessageKind::LeaveChannel
    ||| kind == MessageKind::Unfollow
    ||| kind == MessageKind::UpdateFollowers
    ||| kind == MessageKind::UpdateDiffBase
}

/// The kinds of messages that everyone else in a project gets as they are.
pub open spec fn is_relayed(kind: MessageKind) -> bool {
    ||| kind == MessageKind::UpdateLanguageServer
    ||| kind == MessageKind::UpdateBufferFile
    ||| kind == MessageKind::BufferReloaded
    ||| kind == MessageKind::BufferSaved
    ||| kind == MessageKind::UpdateDiffBase
}

/// The kinds of requests that the host of a project answers.
pub open spec fn is_answered_by_host(kind: MessageKind) -> bool {
    ||| kind == MessageKind::GetHover
    ||| kind == MessageKind::GetDefinition
    ||| kind == MessageKind::GetTypeDefinition
    ||| kind == MessageKind::GetReferences
    ||| kind == MessageKind::SearchProject
    ||| kind == MessageKind::GetDocumentHighlights
    ||| kind == MessageKind::GetProjectSymbols
    ||| kind == MessageKind::OpenBufferForSymbol
    ||| kind == MessageKind::OpenBufferById
    ||| kind == MessageKind::OpenBufferByPath
    ||| kind == MessageKind::GetCompletions
    ||| kind == MessageKind::ApplyCompletionAdditionalEdits
    ||| kind == MessageKind::GetCodeActions
    ||| kind == MessageKind::ApplyCodeAction
    ||| kind == MessageKind::PrepareRename
    ||| kind == MessageKind::PerformRename
    ||| kind == MessageKind::ReloadBuffers
    ||| kind == MessageKind::FormatBuffers
    ||| kind == MessageKind::CreateProjectEntry
    ||| kind == MessageKind::RenameProjectEntry
    ||| kind == MessageKind::CopyProjectEntry
    ||| kind == MessageKind::DeleteProjectEntry
}

/// What whoever sends a message of some kind waits for, if the server takes it.
pub open spec fn expectation(kind: MessageKind) -> Option<Expects> {
    if kind == MessageKind::Other {
        None
    } else if is_plain_message(kind) {
        Some(Expects::Nothing)
    } else {
        Some(Expects::Response)
    }
}

/// The handlers in some list of them.
pub open spec fn handlers_in(list: Seq<(MessageKind, Expects)>) -> Map<MessageKind, Expects>
    decreases list.len(),
{
    if list.len() == 0 {
        Map::empty()
    } else {
        handlers_in(list.drop_last()).insert(list.last().0, list.last().1)
    }
}

/// The place of a kind of message among all.
spec fn rank(kind: MessageKind) -> int {
    match kind {
        MessageKind::Ping => 0,
        MessageKind::CreateRoom => 1,
        MessageKind::JoinRoom => 2,
        MessageKind::LeaveRoom => 3,
        MessageKind::Call => 4,
        MessageKind::CancelCall => 5,
        MessageKind::DeclineCall => 6,
        MessageKind::UpdateParticipantLocation => 7,
        MessageKind::ShareProject => 8,
        MessageKind::UnshareProject => 9,
        MessageKind::JoinProject => 10,
        MessageKind::LeaveProject => 11,
        MessageKind::UpdateProject => 12,
        MessageKind::RegisterProjectActivity => 13,
        MessageKind::UpdateWorktree => 14,
        MessageKind::UpdateWorktreeExtensions => 15,
        MessageKind::StartLanguageServer => 16,
        MessageKind::UpdateLanguageServer => 17,
        MessageKind::UpdateDiagnosticSummary => 18,
        MessageKind::GetHover => 19,
        MessageKind::GetDefinition => 20,
        MessageKind::GetTypeDefinition => 21,
        MessageKind::GetReferences => 22,
        MessageKind::SearchProject => 23,
        MessageKind::GetDocumentHighlights => 24,
        MessageKind::GetProjectSymbols => 25,
        MessageKind::OpenBufferForSymbol => 26,
        MessageKind::OpenBufferById => 27,
        MessageKind::OpenBufferByPath => 28,
        MessageKind::GetCompletions => 29,
        MessageKind::ApplyCompletionAdditionalEdits => 30,
        MessageKind::GetCodeActions => 31,
        MessageKind::ApplyCodeAction => 32,
        MessageKind::PrepareRename => 33,
        MessageKind::PerformRename => 34,
        MessageKind::ReloadBuffers => 35,
        MessageKind::FormatBuffers => 36,
        MessageKind::CreateProjectEntry => 37,
        MessageKind::RenameProjectEntry => 38,
        MessageKind::CopyProjectEntry => 39,
        MessageKind::DeleteProjectEntry => 40,
        MessageKind::CreateBufferForPeer => 41,
        MessageKind::UpdateBuffer => 42,
        MessageKind::UpdateBufferFile => 43,
        MessageKind::BufferReloaded => 44,
        MessageKind::BufferSaved => 45,
        MessageKind::SaveBuffer => 46,
        MessageKind::GetChannels => 47,
        MessageKind::GetUsers => 48,
        MessageKind::FuzzySearchUsers => 49,
        MessageKind::RequestContact => 50,
        MessageKind::RemoveContact => 51,
        MessageKind::RespondToContactRequest => 52,
        MessageKind::JoinChannel => 53,
        MessageKind::LeaveChannel => 54,
        MessageKind::SendChannelMessage => 55,
        MessageKind::Follow => 56,
        MessageKind::Unfollow => 57,
        MessageKind::UpdateFollowers => 58,
        MessageKind::GetChannelMessages => 59,
        MessageKind::UpdateDiffBase => 60,
        MessageKind::GetPrivateUserInfo => 61,
        MessageKind::Other => 62,
    }
}

/// The kind of message at a place among all.
spec fn kind_at(place: int) -> MessageKind {
    if place == 0 {
        MessageKind::Ping
    } else if place == 1 {
        MessageKind::CreateRoom
    } else if place == 2 {
        MessageKind::JoinRoom
    } else if place == 3 {
        MessageKind::LeaveRoom
    } else if place == 4 {
        MessageKind::Call
    } else if place == 5 {
        MessageKind::CancelCall
    } else if place == 6 {
        MessageKind::DeclineCall
    } else if place == 7 {
        MessageKind::UpdateParticipantLocation
    } else if place == 8 {
        MessageKind::ShareProject
    } else if place == 9 {
        MessageKind::UnshareProject
    } else if place == 10 {
        MessageKind::JoinProject
    } else if place == 11 {
        MessageKind::LeaveProject
    } else if place == 12 {
        MessageKind::UpdateProject
    } else if place == 13 {
        MessageKind::RegisterProjectActivity
    } else if place == 14 {
        MessageKind::UpdateWorktree
    } else if place == 15 {
        MessageKind::UpdateWorktreeExtensions
    } else if place == 16 {
        MessageKind::StartLanguageServer
    } else if place == 17 {
        MessageKind::UpdateLanguageServer
    } else if place == 18 {
        MessageKind::UpdateDiagnosticSummary
    } else if place == 19 {
        MessageKind::GetHover
    } else if place == 20 {
        MessageKind::GetDefinition
    } else if place == 21 {
        MessageKind::GetTypeDefinition
    } else if place == 22 {
        MessageKind::GetReferences
    } else if place == 23 {
        MessageKind::SearchProject
    } else if place == 24 {
        MessageKind::GetDocumentHighlights
    } else if place == 25 {
        MessageKind::GetProjectSymbols
    } else if place == 26 {
        MessageKind::OpenBufferForSymbol
    } else if place == 27 {
        MessageKind::OpenBufferById
    } else if place == 28 {
        MessageKind::OpenBufferByPath
    } else if place == 29 {
        MessageKind::GetCompletions
    } else if place == 30 {
        MessageKind::ApplyCompletionAdditionalEdits
    } else if place == 31 {
        MessageKind::GetCodeActions
    } else if place == 32 {
        MessageKind::ApplyCodeAction
    } else if place == 33 {
        MessageKind::PrepareRename
    } else if place == 34 {
        MessageKind::PerformRename
    } else if place == 35 {
        MessageKind::ReloadBuffers
    } else if place == 36 {
        MessageKind::FormatBuffers
    } else if place == 37 {
        MessageKind::CreateProjectEntry
    } else if place == 38 {
        MessageKind::RenameProjectEntry
    } else if place == 39 {
        MessageKind::CopyProjectEntry
    } else if place == 40 {
        MessageKind::DeleteProjectEntry
    } else if place == 41 {
        MessageKind::CreateBufferForPeer
    } else if place == 42 {
        MessageKind::UpdateBuffer
    } else if place == 43 {
        MessageKind::UpdateBufferFile
    } else if place == 44 {
        MessageKind::BufferReloaded
    } else if place == 45 {
        MessageKind::BufferSaved
    } else if place == 46 {
        MessageKind::SaveBuffer
    } else if place == 47 {
        MessageKind::GetChannels
    } else if place == 48 {
        MessageKind::GetUsers
    } else if place == 49 {
        MessageKind::FuzzySearchUsers
    } else if place == 50 {
        MessageKind::RequestContact
    } else if place == 51 {
        MessageKind::RemoveContact
    } else if place == 52 {
        MessageKind::RespondToContactRequest
    } else if place == 53 {
        MessageKind::JoinChannel
    } else if place == 54 {
        MessageKind::LeaveChannel
    } else if place == 55 {
        MessageKind::SendChannelMessage
    } else if place == 56 {
        MessageKind::Follow
    } else if place == 57 {
        MessageKind::Unfollow
    } else if place == 58 {
        MessageKind::UpdateFollowers
    } else if place == 59 {
        MessageKind::GetChannelMessages
    } else if place == 60 {
        MessageKind::UpdateDiffBase
    } else if place == 61 {
        MessageKind::GetPrivateUserInfo
    } else {
        MessageKind::Other
    }
}

/// No two kinds have the same place.
proof fn lemma_rank(kind: MessageKind)
    ensures
        kind_at(rank(kind)) == kind,
        0 <= rank(kind) <= 62,
        rank(kind) == 62 <==> kind == MessageKind::Other,
{
}

/// Whether a server takes exactly the kinds before some place, as it should.
spec fn filled_to(server: Server, place: int) -> bool {
    forall|kind: MessageKind|
        {
            &&& #[trigger] server.handlers().contains_key(kind) <==> rank(kind) < place
            &&& server.handlers().contains_key(kind) ==> Some(server.handlers()[kind])
                == expectation(kind)
        }
}

/// The server, as far as it knows which messages it takes.
#[derive(Debug)]
pub struct Server {
    handlers: Vec<(MessageKind, Expects)>,
}

impl Server {
    /// The kinds of messages that the server takes, and what their senders wait for.
    pub closed spec fn handlers(self) -> Map<MessageKind, Expects> {
        handlers_in(self.handlers@)
    }

    /// A server that takes every kind of message that it has to.
    pub fn new() -> (server: Server)
        ensures
            forall|kind: MessageKind| #[trigger]
                server.handlers().contains_key(kind) == (expectation(kind) is Some),
            forall|kind: MessageKind| #[trigger]
                server.handlers().contains_key(kind) ==> Some(server.handlers()[kind])
                    == expectation(kind),
    {
        let mut server: Server = Server { handlers: Vec::new() };
        proof {
            assert forall|kind: MessageKind|
                {
                    &&& #[trigger] server.handlers().contains_key(kind) <==> rank(kind) < 0
                    &&& server.handlers().contains_key(kind) ==> Some(server.handlers()[kind])
                        == expectation(kind)
                } by {
                lemma_rank(kind);
            }
        }
        server.register(MessageKind::Ping, Expects::Response);
        server.register(MessageKind::CreateRoom, Expects::Response);
        server.register(MessageKind::JoinRoom, Expects::Response);
        server.register(MessageKind::LeaveRoom, Expects::Nothing);
        server.register(MessageKind::Call, Expects::Response);
        server.register(MessageKind::CancelCall, Expects::Response);
        server.register(MessageKind::DeclineCall, Expects::Nothing);
        server.register(MessageKind::UpdateParticipantLocation, Expects::Response);
        server.register(MessageKind::ShareProject, Expects::Response);
        server.register(MessageKind::UnshareProject, Expects::Nothing);
        server.register(MessageKind::JoinProject, Expects::Response);
        server.register(MessageKind::LeaveProject, Expects::Nothing);
        server.register(MessageKind::UpdateProject, Expects::Nothing);
        server.register(MessageKind::RegisterProjectActivity, Expects::Nothing);
        server.register(MessageKind::UpdateWorktree, Expects::Response);
        server.register(MessageKind::UpdateWorktreeExtensions, Expects::Nothing);
        server.register(MessageKind::StartLanguageServer, Expects::Nothing);
        server.register(MessageKind::UpdateLanguageServer, Expects::Nothing);
        server.register(MessageKind::UpdateDiagnosticSummary, Expects::Nothing);
        server.register(MessageKind::GetHover, Expects::Response);
        server.register(MessageKind::GetDefinition, Expects::Response);
        server.register(MessageKind::GetTypeDefinition, Expects::Response);
        server.register(MessageKind::GetReferences, Expects::Response);
        server.register(MessageKind::SearchProject, Expects::Response);
        server.register(MessageKind::GetDocumentHighlights, Expects::Response);
        server.register(MessageKind::GetProjectSymbols, Expects::Response);
        server.register(MessageKind::OpenBufferForSymbol, Expects::Response);
        server.register(MessageKind::OpenBufferById, Expects::Response);
        server.register(MessageKind::OpenBufferByPath, Expects::Response);
        server.register(MessageKind::GetCompletions, Expects::Response);
        server.register(MessageKind::ApplyCompletionAdditionalEdits, Expects::Response);
        server.register(MessageKind::GetCodeActions, Expects::Response);
        server.register(MessageKind::ApplyCodeAction, Expects::Response);
        server.register(MessageKind::PrepareRename, Expects::Response);
        server.register(MessageKind::PerformRename, Expects::Response);
        server.register(MessageKind::ReloadBuffers, Expects::Response);
        server.register(MessageKind::FormatBuffers, Expects::Response);
        server.register(MessageKind::CreateProjectEntry, Expects::Response);
        server.register(MessageKind::RenameProjectEntry, Expects::Response);
        server.register(MessageKind::CopyProjectEntry, Expects::Response);
        server.register(MessageKind::DeleteProjectEntry, Expects::Response);
        server.register(MessageKind::CreateBufferForPeer, Expects::Nothing);
        server.register(MessageKind::UpdateBuffer, Expects::Response);
        server.register(MessageKind::UpdateBufferFile, Expects::Nothing);
        server.register(MessageKind::BufferReloaded, Expects::Nothing);
        server.register(MessageKind::BufferSaved, Expects::Nothing);
        server.register(MessageKind::SaveBuffer, Expects::Response);
        server.register(MessageKind::GetChannels, Expects::Response);
        server.register(MessageKind::GetUsers, Expects::Response);
        server.register(MessageKind::FuzzySearchUsers, Expects::Response);
        server.register(MessageKind::RequestContact, Expects::Response);
        server.register(MessageKind::RemoveContact, Expects::Response);
        server.register(MessageKind::RespondToContactRequest, Expects::Response);
        server.register(MessageKind::JoinChannel, Expects::Response);
        server.register(MessageKind::LeaveChannel, Expects::Nothing);
        server.register(MessageKind::SendChannelMessage, Expects::Response);
        server.register(MessageKind::Follow, Expects::Response);
        server.register(MessageKind::Unfollow, Expects::Nothing);
        server.register(MessageKind::UpdateFollowers, Expects::Nothing);
        server.register(MessageKind::GetChannelMessages, Expects::Response);
        server.register(MessageKind::UpdateDiffBase, Expects::Nothing);
        server.register(MessageKind::GetPrivateUserInfo, Expects::Response);
        proof {
            assert forall|kind: MessageKind| #[trigger]
                server.handlers().contains_key(kind) == (expectation(kind) is Some) by {
                lemma_rank(kind);
            }
        }
        server
    }

    /// Takes messages or requests of the next kind.
    fn register(&mut self, kind: MessageKind, expects: Expects)
        requires
            filled_to(*old(self), rank(kind)),
            expectation(kind) == Some(expects),
        ensures
            filled_to(*final(self), rank(kind) + 1),
    {
        match expects {
            Expects::Response => self.add_request_handler(kind),
            Expects::Nothing => self.add_message_handler(kind),
        }
        proof {
            lemma_rank(kind);
            assert forall|other: MessageKind|
                {
                    &&& #[trigger] self.handlers().contains_key(other) <==> rank(other) < rank(kind)
                        + 1
                    &&& self.handlers().contains_key(other) ==> Some(self.handlers()[other])
                        == expectation(other)
                } by {
                lemma_rank(other);
                assert(old(self).handlers().contains_key(other) <==> rank(other) < rank(kind));
            }
        }
    }

    /// Takes messages of one more kind, to which no one waits for an answer.
    pub fn add_message_handler(&mut self, kind: MessageKind)
        requires
            !old(self).handlers().contains_key(kind),
        ensures
            final(self).handlers() == old(self).handlers().insert(kind, Expects::Nothing),
    {
        self.handlers.push((kind, Expects::Nothing));
        assert(self.handlers@.drop_last() =~= old(self).handlers@);
    }

    /// Takes requests of one more kind.
    pub fn add_request_handler(&mut self, kind: MessageKind)
        requires
            !old(self).handlers().contains_key(kind),
        ensures
            final(self).handlers() == old(self).handlers().insert(kind, Expects::Response),
    {
        self.handlers.push((kind, Expects::Response));
        assert(self.handlers@.drop_last() =~= old(self).handlers@);
    }

    /// What whoever sends a message of some kind waits for, if the server takes it.
    pub fn handler_for(&self, kind: MessageKind) -> (expects: Option<Expects>)
        ensures
            expects == (if self.handlers().contains_key(kind) {
                Some(self.handlers()[kind])
            } else {
                None
            }),
    {
        let mut index: usize = self.handlers.len();
        assert(self.handlers@.take(index as int) =~= self.handlers@);
        while index > 0
            invariant
                index <= self.handlers@.len(),
                self.handlers().contains_key(kind) == handlers_in(
                    self.handlers@.take(index as int),
                ).contains_key(kind),
                self.handlers().contains_key(kind) ==> self.handlers()[kind] == handlers_in(
                    self.handlers@.take(index as int),
                )[kind],
            decreases index,
        {
            assert(self.handlers@.take(index as int).drop_last() =~= self.handlers@.take(
                index - 1,
            ));
            if self.handlers[index - 1].0 == kind {
                return Some(self.handlers[index - 1].1);
            }
            index -= 1;
        }
        None
    }
}

/// Whether everyone else in a project gets messages of some kind as they are.
pub fn relayed(kind: MessageKind) -> (is_so: bool)
    ensures
        is_so == is_relayed(kind),
{
    match kind {
        MessageKind::UpdateLanguageServer
        | MessageKind::UpdateBufferFile
        | MessageKind::BufferReloaded
        | MessageKind::BufferSaved
        | MessageKind::UpdateDiffBase => true,
        _ => false,
    }
}

/// Whether the host of a project answers requests of some kind.
pub fn answered_by_host(kind: MessageKind) -> (answered: bool)
    ensures
        answered == is_answered_by_host(kind),
{
    match kind {
        MessageKind::GetHover
        | MessageKind::GetDefinition
        | MessageKind::GetTypeDefinition
        | MessageKind::GetReferences
        | MessageKind::SearchProject
        | MessageKind::GetDocumentHighlights
        | MessageKind::GetProjectSymbols
        | MessageKind::OpenBufferForSymbol
        | MessageKind::OpenBufferById
        | MessageKind::OpenBufferByPath
        | MessageKind::GetCompletions
        | MessageKind::ApplyCompletionAdditionalEdits
        | MessageKind::GetCodeActions
        | MessageKind::ApplyCodeAction
        | MessageKind::PrepareRename
        | MessageKind::PerformRename
        | MessageKind::ReloadBuffers
        | MessageKind::FormatBuffers
        | MessageKind::CreateProjectEntry
        | MessageKind::RenameProjectEntry
        | MessageKind::CopyProjectEntry
        | MessageKind::DeleteProjectEntry => true,
        _ => false,
    }
}

/// Whoever asks something that the host of a project answers waits for an answer.
pub proof fn law_host_requests_are_requests(kind: MessageKind)
    requires
        is_answered_by_host(kind),
    ensures
        expectation(kind) == Some(Expects::Response),
{
}

/// How handling a request ended.
#[derive(Debug, PartialEq, Eq)]
pub enum Settlement {
    /// The request was answered.
    Answered,
    /// Handling it went well, and yet it was not answered.
    Unanswered { error: HandlerError },
    /// The sender is to be told of the error, which is then written to the log.
    TellError { message: String, error: HandlerError },
}

/// How handling a request ends: a request that is handled without an answer is an error, and
/// the sender of one that fails is told why.
pub fn settle(failure: Option<HandlerError>, responded: bool) -> (settlement: Settlement)
    ensures
        match failure {
            None => settlement == (if responded {
                Settlement::Answered
            } else {
                Settlement::Unanswered { error: HandlerError::NoResponse }
            }),
            Some(failure) => settlement matches Settlement::TellError { message, error } && error
                == failure && message@ == error_text(failure),
        },
{
    match failure {
        None => if responded {
            Settlement::Answered
        } else {
            Settlement::Unanswered { error: HandlerError::NoResponse }
        },
        Some(error) => Settlement::TellError { message: error.text(), error },
    }
}

/// What is written to the log once the sender was, or was not, told of an error.
pub fn after_telling(error: HandlerError, sending_failed: Option<HandlerError>) -> (logged:
    HandlerError)
    ensures
        logged == (match sending_failed {
            Some(failure) => failure,
            None => error,
        }),
{
    match sending_failed {
        Some(failure) => failure,
        None => error,
    }
}

/// No one waits for an answer to what everyone else in a project gets as it is, and what is passed
/// on so is not for the host alone to answer.
pub proof fn law_relayed_messages_are_not_requests(kind: MessageKind)
    requires
        is_relayed(kind),
    ensures
        expectation(kind) == Some(Expects::Nothing),
        !is_answered_by_host(kind),
{
}

/// The last handler that a list has for a kind of message is the one that counts, and a kind without
/// a handler in the list has none.
pub proof fn law_the_last_handler_counts(list: Seq<(MessageKind, Expects)>, kind: MessageKind)
    ensures
        handlers_in(list).contains_key(kind) == (exists|at: int|
            0 <= at < list.len() && (#[trigger] list[at]).0 == kind),
        forall|at: int|
            0 <= at < list.len() && (#[trigger] list[at]).0 == kind && (forall|later: int|
                at < later < list.len() ==> (#[trigger] list[later]).0 != kind) ==> handlers_in(
                list,
            )[kind] == list[at].1,
    decreases list.len(),
{
    if list.len() > 0 {
        let rest = list.drop_last();
        law_the_last_handler_counts(rest, kind);
        assert(list[list.len() - 1] == list.last());
        if list.last().0 != kind {
            if handlers_in(rest).contains_key(kind) {
                let at = choose|at: int| 0 <= at < rest.len() && (#[trigger] rest[at]).0 == kind;
                assert(list[at].0 == kind);
            }
            assert forall|at: int| 0 <= at < list.len() && (#[trigger] list[at]).0 == kind implies (
            handlers_in(list).contains_key(kind) && ((forall|later: int|
                at < later < list.len() ==> (#[trigger] list[later]).0 != kind) ==> handlers_in(
                list,
            )[kind] == list[at].1)) by {
                assert(rest[at] == list[at]);
                if forall|later: int|
                    at < later < list.len() ==> (#[trigger] list[later]).0 != kind {
                    assert forall|later: int| at < later < rest.len() implies (
                    #[trigger] rest[later]).0 != kind by {
                        assert(rest[later] == list[later]);
                    }
                }
            }
        }
    }
}

} // verus!
