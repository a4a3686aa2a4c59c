//! What is done about a message once all that it takes is there.

use vstd::prelude::*;

use crate::collab::buffers::{create_buffer_for_peer, follow, followers_to_tell, relay};
use crate::collab::buffers::{relay_and_respond, relay_steps, save_buffer, save_steps, unfollow};
use crate::collab::buffers::{hears_of, law_a_relay_reaches_all_others};
use crate::collab::buffers::{law_a_save_reaches_all_others, law_every_other_follower_is_told};
use crate::collab::buffers::{law_every_view_of_others_is_shown, update_followers, views_for};
use crate::collab::buffers::FollowedView;
use crate::collab::calls::{cancel_call, cancel_steps, decline_call, decline_steps};
use crate::collab::calls::{law_a_canceled_call_stops_ringing, law_a_declined_call_stops_ringing};
use crate::collab::channels::{law_a_message_reaches_all_others, law_every_channel_is_told_of};
use crate::collab::channels::law_every_message_is_on_the_page;
use crate::collab::channels::{channels_told, get_channels, is_page_of, message_page};
use crate::collab::channels::{message_steps, new_channel_message, seconds_sent};
use crate::collab::channels::{send_channel_message, validate_message};
use crate::collab::contacts::{contact_removal_steps, contact_request_steps, record_of};
use crate::collab::contacts::{record_contact_response, remove_contact, request_contact};
use crate::collab::contacts::{law_both_sides_hear_of_a_removal, law_both_sides_hear_of_a_request};
use crate::collab::contacts::law_both_sides_hear_of_a_response;
use crate::collab::contacts::{respond_to_contact_request, response_steps};
use crate::collab::handling::{next_for, Known};
use crate::collab::ids::{ChannelId, ConnectionId, MessageId, ProjectId, UserId};
use crate::collab::message::{ChannelMessage, Collaborator, IncomingContactRequest, Message};
use crate::collab::plan::{forwards, OnFailure, Step};
use crate::collab::projects::{arrival_steps, worktree_steps, Worktree};
use crate::collab::projects::{change_steps, is_joining_plan, join_project, leave_project};
use crate::collab::projects::{leaving_steps, share_project, sharing_steps, unshare_project};
use crate::collab::projects::{law_a_shared_project_is_told, law_every_guest_hears_of_a_change};
use crate::collab::projects::{collaborators_of, law_every_guest_hears_of_unsharing};
use crate::collab::projects::{law_everyone_hears_of_leaving, law_joining_is_told};
use crate::collab::projects::{unsharing_steps, update_project, Project};
use crate::collab::request::Request;
use crate::collab::response::Response;
use crate::collab::rooms::{canceled_news, left_news, room_news, unshared_news, LeftProject};
use crate::collab::rooms::{law_a_created_room_is_answered, law_a_joined_room_is_told};
use crate::collab::rooms::{law_a_location_is_told, law_leaving_a_room_is_told, leaving_places};
use crate::collab::rooms::ProjectPeers;
use crate::collab::rooms::{create_room, created_steps, is_leaving_plan, join_room};
use crate::collab::rooms::{joined_steps, leave_room, location_steps, update_participant_location};
use crate::collab::server::{expectation, Expects};
use crate::collab::users::{are_public_forms, fuzzy_search_users, get_private_user_info, get_users};
use crate::collab::users::{other_users, search_for, search_of, PrivateUserInfo, PublicUser};
use crate::collab::users::{law_every_other_user_is_told_of, law_every_user_is_told_of};
use crate::collab::users::{law_short_queries_mean_one_user, StoredUser, UserSearch};
use crate::sequences::rank;
use crate::strings::trimmed;

verus! {

/// Whether `plan` is what to do once a message is on record.
pub open spec fn is_message_plan(
    plan: Seq<Step>,
    sender_id: ConnectionId,
    channel_id: ChannelId,
    user_id: UserId,
    body: Seq<char>,
    nonce: u128,
    recorded: (MessageId, time::OffsetDateTime),
    connection_ids: Seq<ConnectionId>,
) -> bool {
    exists|message: ChannelMessage|
        {
            &&& message.id == recorded.0.0
            &&& message.body@ == trimmed(body)
            &&& message.timestamp == seconds_sent(recorded.1)
            &&& message.sender_id == user_id.0
            &&& message.nonce == nonce
            &&& plan == #[trigger] message_steps(sender_id, channel_id, message, connection_ids)
        }
}

/// Whether `plan` is what to do about a message once all that it takes is known.
pub open spec fn is_plan_for(
    plan: Seq<Step>,
    has_live_kit: bool,
    sender_id: ConnectionId,
    request: Request,
    known: Known,
) -> bool {
    let user_id = known.user->0;
    let room = known.room->0;
    let project = known.project->0;
    let connection_ids = known.connection_ids->0@;
    let other_connection_ids = known.other_connection_ids->0@;
    let ack = Step::Respond { response: Response::Ack };
    match request {
        Request::Ping => plan == seq![ack],
        Request::CreateRoom => plan == created_steps(user_id, room, known.video->0),
        Request::JoinRoom { .. } => plan == joined_steps(
            user_id,
            room,
            connection_ids,
            known.video->0,
        ),
        Request::LeaveRoom { .. } => is_leaving_plan(
            plan,
            has_live_kit,
            sender_id,
            user_id,
            known.left_room->0,
        ),
        Request::CancelCall { recipient, .. } => plan == cancel_steps(
            room,
            recipient,
            connection_ids,
        ),
        Request::DeclineCall { .. } => plan == decline_steps(room, user_id, connection_ids),
        Request::UpdateParticipantLocation { .. } => plan == location_steps(room),
        Request::ShareProject { .. } => plan == sharing_steps(known.project_id->0, room),
        Request::UnshareProject { .. } => plan == unsharing_steps(sender_id, project, room),
        Request::JoinProject { .. } => is_joining_plan(
            plan,
            sender_id,
            user_id,
            project,
            known.replica_id->0,
        ),
        Request::LeaveProject { .. } => plan == leaving_steps(sender_id, known.left_project->0),
        Request::UpdateProject { .. } => plan == change_steps(
            sender_id,
            project.guest_ids(),
            room,
        ),
        Request::RegisterProjectActivity { .. } => plan.len() == 0,
        Request::UpdateWorktree { .. } => plan == relay_steps(sender_id, connection_ids).push(ack),
        Request::UpdateWorktreeExtensions { .. } => plan.len() == 0,
        Request::StartLanguageServer { .. } => plan == relay_steps(sender_id, connection_ids),
        Request::UpdateDiagnosticSummary { .. } => plan == relay_steps(sender_id, connection_ids),
        Request::Relayed { .. } => plan == relay_steps(sender_id, connection_ids),
        Request::Forwarded { .. } => plan == seq![
            Step::Respond { response: Response::HostReply },
        ],
        Request::CreateBufferForPeer { peer_id } => plan == seq![
            Step::Forward {
                from: sender_id,
                to: ConnectionId(peer_id),
                on_failure: OnFailure::Abort,
            },
        ],
        Request::UpdateBuffer { .. } => plan == relay_steps(sender_id, connection_ids).push(ack),
        Request::SaveBuffer { .. } => plan == save_steps(
            sender_id,
            project.host_connection_id,
            known.project_again->0.member_ids(),
        ),
        Request::Follow { .. } => {
            &&& plan.len() == 1
            &&& plan[0] matches Step::Respond { response: Response::Views { views } }
            &&& views@ == views_for(sender_id, known.views->0@)
        },
        Request::Unfollow { leader_id, .. } => plan == seq![
            Step::Forward {
                from: sender_id,
                to: ConnectionId(leader_id),
                on_failure: OnFailure::Abort,
            },
        ],
        Request::UpdateFollowers { follower_ids, update, .. } => plan == forwards(
            sender_id,
            followers_to_tell(update, follower_ids@, connection_ids),
            OnFailure::Abort,
        ),
        Request::GetChannels => {
            &&& plan.len() == 1
            &&& plan[0] matches Step::Respond { response: Response::Channels { channels } }
            &&& channels@ == channels_told(known.channels->0@)
        },
        Request::GetUsers => {
            &&& plan.len() == 1
            &&& plan[0] matches Step::Respond { response: Response::Users { users } }
            &&& are_public_forms(users@, known.users->0@)
        },
        Request::FuzzySearchUsers { query } => {
            &&& plan.len() == 1
            &&& plan[0] matches Step::Respond { response: Response::Users { users } }
            &&& if search_of(query@) == UserSearch::Nobody {
                users@.len() == 0
            } else {
                are_public_forms(users@, other_users(user_id, known.users->0@))
            }
        },
        Request::RequestContact { responder_id } => plan == contact_request_steps(
            user_id,
            responder_id,
            connection_ids,
            other_connection_ids,
        ),
        Request::RemoveContact { user_id: responder_id } => plan == contact_removal_steps(
            user_id,
            responder_id,
            connection_ids,
            other_connection_ids,
        ),
        Request::RespondToContactRequest { requester_id, response } => plan == response_steps(
            record_of(user_id, requester_id, response),
            connection_ids,
            other_connection_ids,
        ),
        Request::JoinChannel { .. } => {
            &&& plan.len() == 1
            &&& plan[0] matches Step::Respond { response: Response::Messages { page } }
            &&& is_page_of(page, known.messages->0@)
        },
        Request::LeaveChannel { .. } => plan.len() == 0,
        Request::GetChannelMessages { .. } => {
            &&& plan.len() == 1
            &&& plan[0] matches Step::Respond { response: Response::Messages { page } }
            &&& is_page_of(page, known.messages->0@)
        },
        Request::SendChannelMessage { channel_id, body, nonce } => is_message_plan(
            plan,
            sender_id,
            channel_id,
            user_id,
            body@,
            nonce->0,
            known.recorded->0,
            connection_ids,
        ),
        Request::GetPrivateUserInfo => plan == seq![
            Step::Respond {
                response: Response::PrivateUserInfo {
                    info: PrivateUserInfo {
                        metrics_id: known.metrics_id->0,
                        staff: known.own->0->0.admin,
                    },
                },
            },
        ],
    }
}

/// Only an answer.
fn answer(response: Response) -> (plan: Vec<Step>)
    ensures
        plan@ == seq![Step::Respond { response }],
{
    let mut plan: Vec<Step> = Vec::new();
    plan.push(Step::Respond { response });
    plan
}

/// What to do about a message once all that it takes is known.
pub fn plan_for(
    has_live_kit: bool,
    sender_id: ConnectionId,
    request: &Request,
    known: Known,
) -> (plan: Vec<Step>)
    requires
        next_for(*request, known) is Ready,
    ensures
        is_plan_for(plan@, has_live_kit, sender_id, *request, known),
{
    match request {
        Request::Ping => answer(Response::Ack),
        Request::CreateRoom => create_room(
            known.user.unwrap(),
            &known.room.unwrap(),
            known.video.unwrap(),
        ),
        Request::JoinRoom { room_id: _ } => join_room(
            known.user.unwrap(),
            &known.room.unwrap(),
            known.connection_ids.unwrap().as_slice(),
            known.video.unwrap(),
        ),
        Request::LeaveRoom { room_id: _ } => leave_room(
            has_live_kit,
            sender_id,
            known.user.unwrap(),
            &known.left_room.unwrap(),
        ),
        Request::CancelCall { room_id: _, recipient } => cancel_call(
            &known.room.unwrap(),
            *recipient,
            known.connection_ids.unwrap().as_slice(),
        ),
        Request::DeclineCall { room_id: _ } => decline_call(
            &known.room.unwrap(),
            known.user.unwrap(),
            known.connection_ids.unwrap().as_slice(),
        ),
        Request::UpdateParticipantLocation { room_id: _, has_location: _ } => {
            update_participant_location(&known.room.unwrap())
        },
        Request::ShareProject { room_id: _ } => share_project(
            known.project_id.unwrap(),
            &known.room.unwrap(),
        ),
        Request::UnshareProject { project_id: _ } => unshare_project(
            sender_id,
            &known.project.unwrap(),
            &known.room.unwrap(),
        ),
        Request::JoinProject { project_id: _ } => join_project(
            sender_id,
            known.user.unwrap(),
            &known.project.unwrap(),
            known.replica_id.unwrap(),
        ),
        Request::LeaveProject { project_id: _ } => leave_project(
            sender_id,
            &known.left_project.unwrap(),
        ),
        Request::UpdateProject { project_id: _ } => {
            let project: Project = known.project.unwrap();
            let guests: Vec<ConnectionId> = project.guest_connection_ids();
            update_project(sender_id, guests.as_slice(), &known.room.unwrap())
        },
        Request::RegisterProjectActivity { project_id: _ } => Vec::new(),
        Request::UpdateWorktree { project_id: _ } => relay_and_respond(
            sender_id,
            known.connection_ids.unwrap().as_slice(),
        ),
        Request::UpdateWorktreeExtensions { project_id: _, worktree_id: _ } => Vec::new(),
        Request::StartLanguageServer { project_id: _, has_server: _ } => relay(
            sender_id,
            known.connection_ids.unwrap().as_slice(),
        ),
        Request::UpdateDiagnosticSummary { project_id: _, has_summary: _ } => relay(
            sender_id,
            known.connection_ids.unwrap().as_slice(),
        ),
        Request::Relayed { kind: _, project_id: _ } => relay(
            sender_id,
            known.connection_ids.unwrap().as_slice(),
        ),
        Request::Forwarded { kind: _, project_id: _ } => answer(Response::HostReply),
        Request::CreateBufferForPeer { peer_id } => create_buffer_for_peer(sender_id, *peer_id),
        Request::UpdateBuffer { project_id: _ } => relay_and_respond(
            sender_id,
            known.connection_ids.unwrap().as_slice(),
        ),
        Request::SaveBuffer { project_id: _ } => {
            let host: ConnectionId = known.project.unwrap().host_connection_id;
            let members: Vec<ConnectionId> = known.project_again.unwrap().connection_ids();
            save_buffer(sender_id, host, members.as_slice())
        },
        Request::Follow { project_id: _, leader_id: _ } => {
            answer(Response::Views { views: follow(sender_id, known.views.unwrap().as_slice()) })
        },
        Request::Unfollow { project_id: _, leader_id } => unfollow(
            sender_id,
            ConnectionId(*leader_id),
        ),
        Request::UpdateFollowers { project_id: _, follower_ids, update } => update_followers(
            sender_id,
            *update,
            follower_ids.as_slice(),
            known.connection_ids.unwrap().as_slice(),
        ),
        Request::GetChannels => {
            answer(
                Response::Channels { channels: get_channels(known.channels.unwrap().as_slice()) },
            )
        },
        Request::GetUsers => {
            answer(Response::Users { users: get_users(known.users.unwrap().as_slice()) })
        },
        Request::FuzzySearchUsers { query } => {
            let users: Vec<PublicUser> = match search_for(query.as_str()) {
                UserSearch::Nobody => Vec::new(),
                _ => fuzzy_search_users(
                    known.user.unwrap(),
                    known.users.unwrap().as_slice(),
                ),
            };
            answer(Response::Users { users })
        },
        Request::RequestContact { responder_id } => request_contact(
            known.user.unwrap(),
            *responder_id,
            known.connection_ids.unwrap().as_slice(),
            known.other_connection_ids.unwrap().as_slice(),
        ),
        Request::RemoveContact { user_id } => remove_contact(
            known.user.unwrap(),
            *user_id,
            known.connection_ids.unwrap().as_slice(),
            known.other_connection_ids.unwrap().as_slice(),
        ),
        Request::RespondToContactRequest { requester_id, response } => {
            let record = record_contact_response(known.user.unwrap(), *requester_id, *response);
            let own: Vec<ConnectionId> = match known.connection_ids {
                Some(connection_ids) => connection_ids,
                None => Vec::new(),
            };
            let others: Vec<ConnectionId> = match known.other_connection_ids {
                Some(connection_ids) => connection_ids,
                None => Vec::new(),
            };
            respond_to_contact_request(record, own.as_slice(), others.as_slice())
        },
        Request::JoinChannel { channel_id: _ } => {
            answer(Response::Messages { page: message_page(known.messages.unwrap().as_slice()) })
        },
        Request::LeaveChannel { channel_id: _ } => Vec::new(),
        Request::GetChannelMessages { channel_id: _, before: _ } => {
            answer(Response::Messages { page: message_page(known.messages.unwrap().as_slice()) })
        },
        Request::SendChannelMessage { channel_id, body, nonce } => {
            let (id, sent_at): (MessageId, time::OffsetDateTime) = known.recorded.unwrap();
            match validate_message(body.as_str(), *nonce) {
                Ok((body, nonce)) => {
                    let message: ChannelMessage = new_channel_message(
                        id,
                        known.user.unwrap(),
                        body,
                        &sent_at,
                        nonce,
                    );
                    send_channel_message(
                        sender_id,
                        *channel_id,
                        &message,
                        known.connection_ids.unwrap().as_slice(),
                    )
                },
                Err(_) => vstd::pervasive::unreached(),
            }
        },
        Request::GetPrivateUserInfo => {
            let user: Option<StoredUser> = known.own.unwrap();
            match get_private_user_info(known.metrics_id.unwrap(), user.as_ref()) {
                Ok(info) => answer(Response::PrivateUserInfo { info }),
                Err(_) => vstd::pervasive::unreached(),
            }
        },
    }
}

/// How often a plan answers the request.
pub open spec fn answer_count(plan: Seq<Step>) -> nat
    decreases plan.len(),
{
    if plan.len() == 0 {
        0
    } else {
        answer_count(plan.drop_last()) + (if plan.last() is Respond {
            1nat
        } else {
            0nat
        })
    }
}

/// Whether no step of a plan answers the request.
spec fn is_silent(plan: Seq<Step>) -> bool {
    forall|index: int| 0 <= index < plan.len() ==> !(#[trigger] plan[index] is Respond)
}

/// A plan without an answer does not answer.
proof fn lemma_silent(plan: Seq<Step>)
    requires
        is_silent(plan),
    ensures
        answer_count(plan) == 0,
    decreases plan.len(),
{
    if plan.len() > 0 {
        assert(!(plan[plan.len() - 1] is Respond));
        assert forall|index: int| 0 <= index < plan.drop_last().len() implies !(
        #[trigger] plan.drop_last()[index] is Respond) by {
            assert(plan.drop_last()[index] == plan[index]);
        }
        lemma_silent(plan.drop_last());
    }
}

/// Two plans, one after the other, answer as often as both do.
proof fn lemma_answers_add_up(first: Seq<Step>, second: Seq<Step>)
    ensures
        answer_count(first + second) == answer_count(first) + answer_count(second),
    decreases second.len(),
{
    if second.len() == 0 {
        assert(first + second =~= first);
    } else {
        lemma_answers_add_up(first, second.drop_last());
        assert((first + second).drop_last() =~= first + second.drop_last());
    }
}

/// A plan without an answer, an answer, and a plan without an answer answer once.
proof fn lemma_answered_once(plan: Seq<Step>, at: int)
    requires
        0 <= at < plan.len(),
        plan[at] is Respond,
        is_silent(plan.take(at)),
        is_silent(plan.skip(at + 1)),
    ensures
        answer_count(plan) == 1,
{
    let head = plan.take(at).push(plan[at]);
    assert(plan =~= head + plan.skip(at + 1));
    assert(head.drop_last() =~= plan.take(at));
    lemma_silent(plan.take(at));
    lemma_silent(plan.skip(at + 1));
    lemma_answers_add_up(head, plan.skip(at + 1));
}

/// What is said of projects when someone leaves a room is no answer.
proof fn lemma_leaving_is_silent(
    unshared: Seq<ProjectPeers>,
    left: Seq<LeftProject>,
    sender_id: ConnectionId,
)
    ensures
        is_silent(unshared_news(unshared)),
        is_silent(left_news(left, sender_id)),
    decreases unshared.len() + left.len(),
{
    if unshared.len() > 0 {
        lemma_leaving_is_silent(unshared.drop_last(), left, sender_id);
    }
    if left.len() > 0 {
        lemma_leaving_is_silent(unshared, left.drop_last(), sender_id);
    }
}

/// What is said of the worktrees of a project is no answer.
proof fn lemma_worktrees_are_silent(
    project_id: ProjectId,
    worktrees: Seq<Worktree>,
    sender_id: ConnectionId,
)
    ensures
        is_silent(worktree_steps(project_id, worktrees, sender_id)),
    decreases worktrees.len(),
{
    if worktrees.len() > 0 {
        lemma_worktrees_are_silent(project_id, worktrees.drop_last(), sender_id);
    }
}

/// Whoever waits for an answer gets exactly one, and no one else gets any.
pub proof fn law_requests_are_answered_once(
    plan: Seq<Step>,
    has_live_kit: bool,
    sender_id: ConnectionId,
    request: Request,
    known: Known,
)
    requires
        request.wf(),
        next_for(request, known) is Ready,
        is_plan_for(plan, has_live_kit, sender_id, request, known),
    ensures
        answer_count(plan) == (if expectation(request.kind()) == Some(Expects::Response) {
            1nat
        } else {
            0nat
        }),
{
    let connection_ids = known.connection_ids->0@;
    let other_connection_ids = known.other_connection_ids->0@;
    match request {
        Request::Ping
        | Request::Forwarded { .. }
        | Request::Follow { .. }
        | Request::GetChannels
        | Request::GetUsers
        | Request::FuzzySearchUsers { .. }
        | Request::JoinChannel { .. }
        | Request::GetChannelMessages { .. }
        | Request::GetPrivateUserInfo
        | Request::CreateRoom
        | Request::ShareProject { .. } => lemma_answered_once(plan, 0),
        Request::JoinRoom { .. } => lemma_answered_once(plan, connection_ids.len() as int),
        Request::LeaveRoom { .. } => {
            let left = known.left_room->0;
            lemma_leaving_is_silent(left.unshared_projects@, left.left_projects@, sender_id);
            let news = unshared_news(left.unshared_projects@) + left_news(
                left.left_projects@,
                sender_id,
            ) + room_news(left.room) + canceled_news(left.canceled_calls@);
            assert(is_silent(news));
            if has_live_kit {
                assert forall|index: int| 0 <= index < plan.len() implies !(
                #[trigger] plan[index] is Respond) by {
                    if index < news.len() {
                        assert(plan[index] == plan.take(news.len() as int)[index]);
                        assert(!(news[index] is Respond));
                    } else if index > news.len() {
                        assert(plan[index] == plan.skip(news.len() as int + 1)[index - news.len()
                            - 1]);
                    }
                }
            }
            lemma_silent(plan);
        },
        Request::CancelCall { .. } => lemma_answered_once(plan, plan.len() - 2),
        Request::UpdateParticipantLocation { .. }
        | Request::UpdateWorktree { .. }
        | Request::UpdateBuffer { .. }
        | Request::SaveBuffer { .. }
        | Request::RequestContact { .. }
        | Request::RemoveContact { .. }
        | Request::RespondToContactRequest { .. }
        | Request::SendChannelMessage { .. } => lemma_answered_once(plan, plan.len() - 1),
        Request::JoinProject { .. } => {
            let project = known.project->0;
            let news = arrival_steps(sender_id, known.user->0, project, known.replica_id->0);
            lemma_worktrees_are_silent(project.id, project.worktrees@, sender_id);
            assert(is_silent(plan.skip(news.len() as int + 1)));
            lemma_answered_once(plan, news.len() as int);
        },
        _ => lemma_silent(plan),
    }
}

/// Whether a message is passed on to a project as it is.
pub open spec fn is_passed_on(request: Request) -> bool {
    ||| request is Relayed
    ||| request is StartLanguageServer
    ||| request is UpdateDiagnosticSummary
    ||| request is UpdateWorktree
    ||| request is UpdateBuffer
}

/// A message that is passed on to a project reaches everyone whose connection was found to be there,
/// but its sender, in order and in the name of the sender. Whoever waits for an answer gets it last.
/// Nothing else is done.
pub proof fn law_passed_on_messages_reach_everyone(
    plan: Seq<Step>,
    has_live_kit: bool,
    sender_id: ConnectionId,
    request: Request,
    known: Known,
)
    requires
        is_passed_on(request),
        is_plan_for(plan, has_live_kit, sender_id, request, known),
    ensures
        ({
            let ids = known.connection_ids->0@;
            let wanted = |id: ConnectionId| id != sender_id;
            let answered = request is UpdateWorktree || request is UpdateBuffer;
            &&& plan.len() == ids.filter(wanted).len() + (if answered {
                1int
            } else {
                0
            })
            &&& forall|index: int|
                #![trigger ids[index]]
                0 <= index < ids.len() && ids[index] != sender_id ==> {
                    let place = rank(ids, wanted, index) as int;
                    &&& place < ids.filter(wanted).len()
                    &&& plan[place] == (Step::Forward {
                        from: sender_id,
                        to: ids[index],
                        on_failure: OnFailure::Log,
                    })
                }
            &&& answered ==> plan.last() == (Step::Respond { response: Response::Ack })
        }),
{
    law_a_relay_reaches_all_others(sender_id, known.connection_ids->0@);
}

/// Once the host has saved a buffer, everyone who takes part in the project then, but the host and
/// the sender, gets the reply of the host, and the sender gets it as the answer. A request that the
/// host answers is answered with the reply of the host, and nothing else is done.
pub proof fn law_replies_of_the_host_are_passed_on(
    plan: Seq<Step>,
    has_live_kit: bool,
    sender_id: ConnectionId,
    request: Request,
    known: Known,
)
    requires
        request is SaveBuffer || request is Forwarded,
        is_plan_for(plan, has_live_kit, sender_id, request, known),
    ensures
        plan.last() == (Step::Respond { response: Response::HostReply }),
        request is Forwarded ==> plan.len() == 1,
        request is SaveBuffer ==> {
            let host = known.project->0.host_connection_id;
            let ids = known.project_again->0.member_ids();
            let wanted = |id: ConnectionId| id != sender_id && id != host;
            &&& plan.len() == ids.filter(wanted).len() + 1
            &&& forall|index: int|
                #![trigger ids[index]]
                0 <= index < ids.len() && ids[index] != sender_id && ids[index] != host ==> {
                    let place = rank(ids, wanted, index) as int;
                    &&& place + 1 < plan.len()
                    &&& plan[place] == (Step::ForwardReply {
                        from: host,
                        to: ids[index],
                        on_failure: OnFailure::Log,
                    })
                }
        },
{
    if request is SaveBuffer {
        law_a_save_reaches_all_others(
            sender_id,
            known.project->0.host_connection_id,
            known.project_again->0.member_ids(),
        );
    }
}

/// A message for one peer, and that someone is no longer followed, reaches that very peer and no one
/// else; a change of views reaches every follower that it names who takes part in the project and
/// from whom it does not stem.
pub proof fn law_messages_reach_their_peers(
    plan: Seq<Step>,
    has_live_kit: bool,
    sender_id: ConnectionId,
    request: Request,
    known: Known,
)
    requires
        is_plan_for(plan, has_live_kit, sender_id, request, known),
    ensures
        request matches Request::CreateBufferForPeer { peer_id } ==> plan.len() == 1 && plan[0] == (
        Step::Forward {
            from: sender_id,
            to: ConnectionId(peer_id),
            on_failure: OnFailure::Abort,
        }),
        request matches Request::Unfollow { leader_id, .. } ==> plan.len() == 1 && plan[0] == (
        Step::Forward {
            from: sender_id,
            to: ConnectionId(leader_id),
            on_failure: OnFailure::Abort,
        }),
        request matches Request::UpdateFollowers { follower_ids, update, .. } ==> {
            let ids = known.connection_ids->0@;
            let named = follower_ids@;
            let wanted = |id: u32| hears_of(update, ids, id);
            &&& plan.len() == named.filter(wanted).len()
            &&& forall|index: int|
                #![trigger named[index]]
                0 <= index < named.len() && hears_of(update, ids, named[index]) ==> {
                    let place = rank(named, wanted, index) as int;
                    &&& place < plan.len()
                    &&& plan[place] == (Step::Forward {
                        from: sender_id,
                        to: ConnectionId(named[index]),
                        on_failure: OnFailure::Abort,
                    })
                }
        },
{
    if let Request::UpdateFollowers { follower_ids, update, .. } = request {
        law_every_other_follower_is_told(
            sender_id,
            update,
            follower_ids@,
            known.connection_ids->0@,
        );
    }
}

/// When a contact is asked for, answered or removed, the connections of the sender of the message
/// hear their side of it, and those of the other user theirs.
pub proof fn law_contacts_hear_their_side(
    plan: Seq<Step>,
    has_live_kit: bool,
    sender_id: ConnectionId,
    request: Request,
    known: Known,
    index: int,
)
    requires
        is_plan_for(plan, has_live_kit, sender_id, request, known),
        0 <= index,
    ensures
        ({
            let own = known.connection_ids->0@;
            let theirs = known.other_connection_ids->0@;
            let user_id = known.user->0;
            &&& request matches Request::RequestContact { responder_id } ==> {
                &&& plan.len() == own.len() + theirs.len() + 1
                &&& index < own.len() ==> (plan[index] matches Step::Send {
                    to,
                    message: Message::UpdateContacts { update },
                    ..
                } && to == own[index] && update.outgoing_request == Some(responder_id)
                    && update.incoming_request is None)
                &&& index < theirs.len() ==> (plan[own.len() + index] matches Step::Send {
                    to,
                    message: Message::UpdateContacts { update },
                    ..
                } && to == theirs[index] && update.outgoing_request is None
                    && update.incoming_request == Some(
                    IncomingContactRequest { requester_id: user_id, should_notify: true },
                ))
            }
            &&& request matches Request::RemoveContact { user_id: responder_id } ==> {
                &&& plan.len() == own.len() + theirs.len() + 1
                &&& index < own.len() ==> (plan[index] matches Step::Send {
                    to,
                    message: Message::UpdateContacts { update },
                    ..
                } && to == own[index] && update.remove_outgoing_request == Some(responder_id)
                    && update.remove_incoming_request is None)
                &&& index < theirs.len() ==> (plan[own.len() + index] matches Step::Send {
                    to,
                    message: Message::UpdateContacts { update },
                    ..
                } && to == theirs[index] && update.remove_outgoing_request is None
                    && update.remove_incoming_request == Some(user_id))
            }
            &&& request matches Request::RespondToContactRequest { requester_id, response } ==> (
            response !is Dismiss ==> {
                &&& plan.len() == own.len() + theirs.len() + 1
                &&& index < own.len() ==> (plan[index] matches Step::Send {
                    to,
                    message: Message::UpdateContacts { update },
                    ..
                } && to == own[index] && update.remove_incoming_request == Some(requester_id) && (
                update.contact is Some <==> response is Accept))
                &&& index < theirs.len() ==> (plan[own.len() + index] matches Step::Send {
                    to,
                    message: Message::UpdateContacts { update },
                    ..
                } && to == theirs[index] && update.remove_outgoing_request == Some(user_id) && (
                update.contact is Some <==> response is Accept))
            })
        }),
{
    let own = known.connection_ids->0@;
    let theirs = known.other_connection_ids->0@;
    let user_id = known.user->0;
    match request {
        Request::RequestContact { responder_id } => {
            law_both_sides_hear_of_a_request(user_id, responder_id, own, theirs);
        },
        Request::RemoveContact { user_id: responder_id } => {
            law_both_sides_hear_of_a_removal(user_id, responder_id, own, theirs);
        },
        Request::RespondToContactRequest { requester_id, response } => {
            law_both_sides_hear_of_a_response(user_id, requester_id, response, own, theirs);
        },
        _ => {},
    }
    if index < own.len() {
        let to = own[index];
    }
    if index < theirs.len() {
        let to = theirs[index];
    }
}

/// When something happens to a room, everyone in it is told of it, once for each time that they are
/// named. The contacts that are told of it are those of the one who was called where a call is
/// canceled, and those of the sender's own user where they create or join a room or decline a call.
pub proof fn law_everyone_in_the_room_is_told(
    plan: Seq<Step>,
    has_live_kit: bool,
    sender_id: ConnectionId,
    request: Request,
    known: Known,
)
    requires
        is_plan_for(plan, has_live_kit, sender_id, request, known),
    ensures
        ({
            let room = known.room->0;
            let everyone = room.participants@;
            let news = |to: ConnectionId|
                Step::Send {
                    to,
                    message: Message::RoomUpdated { room_id: room.id, state: room.state },
                    on_failure: OnFailure::Log,
                };
            let told = |first: int|
                forall|index: int|
                    #![trigger everyone[index]]
                    0 <= index < everyone.len() ==> plan[first + index] == news(everyone[index]);
            let called = known.connection_ids->0@;
            let silenced = forall|index: int|
                #![trigger called[index]]
                0 <= index < called.len() ==> plan[index] == (Step::Send {
                    to: called[index],
                    message: Message::CallCanceled,
                    on_failure: OnFailure::Log,
                });
            let last_tells = |user_id: UserId|
                plan.last() == (Step::UpdateUserContacts { user_id, on_failure: OnFailure::Abort });
            &&& request is CreateRoom ==> plan.len() == 2 && last_tells(known.user->0)
            &&& request is JoinRoom ==> plan.len() == called.len() + everyone.len() + 2 && silenced
                && told(called.len() as int + 1) && last_tells(known.user->0)
            &&& request matches Request::CancelCall { recipient, .. } ==> plan.len() == called.len()
                + everyone.len() + 2 && silenced && told(called.len() as int) && last_tells(
                recipient,
            )
            &&& request is DeclineCall ==> plan.len() == called.len() + everyone.len() + 1
                && silenced && told(called.len() as int) && last_tells(known.user->0)
            &&& request is UpdateParticipantLocation ==> plan.len() == everyone.len() + 1 && told(0)
                && plan.last() == (Step::Respond { response: Response::Ack })
            &&& request is ShareProject ==> plan.len() == everyone.len() + 1 && told(1)
                && plan.first() == (Step::Respond {
                response: Response::ProjectShared { project_id: known.project_id->0 },
            })
            &&& request is UnshareProject || request is UpdateProject ==> plan.len()
                >= everyone.len() && told(plan.len() - everyone.len())
        }),
{
    let room = known.room->0;
    let called = known.connection_ids->0@;
    match request {
        Request::CreateRoom => law_a_created_room_is_answered(
            known.user->0,
            room,
            known.video->0,
        ),
        Request::JoinRoom { .. } => law_a_joined_room_is_told(
            known.user->0,
            room,
            called,
            known.video->0,
        ),
        Request::CancelCall { recipient, .. } => law_a_canceled_call_stops_ringing(
            room,
            recipient,
            called,
        ),
        Request::DeclineCall { .. } => law_a_declined_call_stops_ringing(
            room,
            known.user->0,
            called,
        ),
        Request::UpdateParticipantLocation { .. } => law_a_location_is_told(room),
        Request::ShareProject { .. } => law_a_shared_project_is_told(known.project_id->0, room),
        Request::UnshareProject { .. } => law_every_guest_hears_of_unsharing(
            sender_id,
            known.project->0,
            room,
        ),
        Request::UpdateProject { .. } => law_every_guest_hears_of_a_change(
            sender_id,
            known.project->0.guest_ids(),
            room,
        ),
        _ => {},
    }
}

/// Every other guest of a project hears that it is no longer shared, or of a change that was made to
/// it, and everyone else named with a project hears who left it.
pub proof fn law_guests_hear_of_their_project(
    plan: Seq<Step>,
    has_live_kit: bool,
    sender_id: ConnectionId,
    request: Request,
    known: Known,
    index: int,
)
    requires
        is_plan_for(plan, has_live_kit, sender_id, request, known),
        0 <= index,
    ensures
        ({
            let project = known.project->0;
            let guests = project.guests@;
            let left = known.left_project->0;
            &&& request is UnshareProject && index < guests.len() && guests[index].connection_id
                != sender_id ==> plan.contains(
                Step::Send {
                    to: guests[index].connection_id,
                    message: Message::UnshareProject { project_id: project.id },
                    on_failure: OnFailure::Log,
                },
            )
            &&& request is UpdateProject && index < guests.len() && guests[index].connection_id
                != sender_id ==> plan.contains(
                Step::Forward {
                    from: sender_id,
                    to: guests[index].connection_id,
                    on_failure: OnFailure::Log,
                },
            )
            &&& request is LeaveProject && left.remove_collaborator && index
                < left.connection_ids@.len() && left.connection_ids@[index] != sender_id
                ==> plan.contains(
                Step::Send {
                    to: left.connection_ids@[index],
                    message: Message::RemoveProjectCollaborator {
                        project_id: left.id,
                        peer_id: sender_id.0,
                    },
                    on_failure: OnFailure::Log,
                },
            )
        }),
{
    let wanted = |id: ConnectionId| id != sender_id;
    let project = known.project->0;
    let guests = project.guest_ids();
    let left = known.left_project->0;
    if index < project.guests@.len() && project.guests@[index].connection_id != sender_id {
        assert(guests[index] == project.guests@[index].connection_id);
        let place = rank(guests, wanted, index) as int;
        if request is UnshareProject {
            law_every_guest_hears_of_unsharing(sender_id, project, known.room->0);
            assert(plan.contains(plan[place]));
        } else if request is UpdateProject {
            law_every_guest_hears_of_a_change(sender_id, guests, known.room->0);
            assert(plan.contains(plan[place]));
        }
    }
    if request is LeaveProject && left.remove_collaborator && index < left.connection_ids@.len()
        && left.connection_ids@[index] != sender_id {
        law_everyone_hears_of_leaving(sender_id, left);
        let place = rank(left.connection_ids@, wanted, index) as int;
        assert(plan.contains(plan[place]));
    }
}

/// Who asks for channels, users, messages, views or themselves gets what was found, all of it, as the
/// only thing that is done.
pub proof fn law_questions_are_answered_with_what_was_found(
    plan: Seq<Step>,
    has_live_kit: bool,
    sender_id: ConnectionId,
    request: Request,
    known: Known,
    index: int,
)
    requires
        is_plan_for(plan, has_live_kit, sender_id, request, known),
        0 <= index,
    ensures
        request is GetChannels ==> plan.len() == 1 && (plan[0] matches Step::Respond {
            response: Response::Channels { channels },
        } && channels@.len() == known.channels->0@.len() && (index < channels@.len()
            ==> channels@[index].id == known.channels->0@[index].0.0 && channels@[index].name
            == known.channels->0@[index].1)),
        request is GetUsers ==> plan.len() == 1 && (plan[0] matches Step::Respond {
            response: Response::Users { users },
        } && users@.len() == known.users->0@.len() && (index < users@.len() ==> users@[index].id
            == known.users->0@[index].id.0 && users@[index].github_login@
            == known.users->0@[index].github_login@)),
        request matches Request::FuzzySearchUsers { query } ==> plan.len() == 1 && (
        plan[0] matches Step::Respond { response: Response::Users { users } } && (query@.len() == 0
            ==> users@.len() == 0) && (query@.len() > 0 ==> users@.len()
            == known.users->0@.filter(|user: StoredUser| user.id != known.user->0).len())),
        request is JoinChannel || request is GetChannelMessages ==> plan.len() == 1 && (
        plan[0] matches Step::Respond { response: Response::Messages { page } }
            && page.messages@.len() == known.messages->0@.len() && (page.done
            <==> known.messages->0@.len() < 100) && (index < page.messages@.len()
            ==> page.messages@[index].id == known.messages->0@[index].id.0
            && page.messages@[index].body@ == known.messages->0@[index].body@)),
        request is Follow ==> plan.len() == 1 && (plan[0] matches Step::Respond {
            response: Response::Views { views },
        } && (index < known.views->0@.len() && known.views->0@[index].leader_id != Some(sender_id.0)
            ==> views@.contains(known.views->0@[index]))),
        request is GetPrivateUserInfo ==> plan.len() == 1 && plan[0] == (Step::Respond {
            response: Response::PrivateUserInfo {
                info: PrivateUserInfo {
                    metrics_id: known.metrics_id->0,
                    staff: known.own->0->0.admin,
                },
            },
        }),
        request is Ping ==> plan.len() == 1 && plan[0] == (Step::Respond {
            response: Response::Ack,
        }),
        request is RegisterProjectActivity || request is UpdateWorktreeExtensions
            || request is LeaveChannel ==> plan.len() == 0,
{
    match request {
        Request::GetChannels => law_every_channel_is_told_of(known.channels->0@),
        Request::GetUsers => {
            let found = plan[0]->response->users@;
            law_every_user_is_told_of(known.users->0@, found);
            if index < found.len() {
                let user = known.users->0@[index];
            }
        },
        Request::FuzzySearchUsers { query } => {
            law_short_queries_mean_one_user(query@);
            if query@.len() > 0 {
                law_every_other_user_is_told_of(
                    known.user->0,
                    known.users->0@,
                    plan[0]->response->users@,
                );
            }
        },
        Request::JoinChannel { .. } | Request::GetChannelMessages { .. } => {
            let page = plan[0]->response->page;
            law_every_message_is_on_the_page(page, known.messages->0@);
            if index < page.messages@.len() {
                let message = known.messages->0@[index];
            }
        },
        Request::Follow { .. } => {
            let all = known.views->0@;
            law_every_view_of_others_is_shown(sender_id, all);
            if index < all.len() && all[index].leader_id != Some(sender_id.0) {
                let place = rank(
                    all,
                    |view: FollowedView|
                        view.leader_id is None || view.leader_id != Some(sender_id.0),
                    index,
                ) as int;
                let views = plan[0]->response->views;
                assert(views@[place] == all[index]);
            }
        },
        _ => {},
    }
}

/// A message that was put on record reaches everyone else in the channel, as it is on record: with
/// its number, its text without white space at the ends, its sender and its nonce; and the sender
/// gets the same message as the answer.
pub proof fn law_recorded_messages_reach_the_channel(
    plan: Seq<Step>,
    has_live_kit: bool,
    sender_id: ConnectionId,
    request: Request,
    known: Known,
    index: int,
)
    requires
        request is SendChannelMessage,
        is_plan_for(plan, has_live_kit, sender_id, request, known),
        0 <= index,
    ensures
        ({
            let ids = known.connection_ids->0@;
            let recorded = known.recorded->0;
            let user_id = known.user->0;
            &&& plan.len() == ids.filter(|id: ConnectionId| id != sender_id).len() + 1
            &&& plan.last() matches Step::Respond { response: Response::MessageSent { message } }
            &&& message.id == recorded.0.0
            &&& message.body@ == trimmed(request->SendChannelMessage_body@)
            &&& message.sender_id == user_id.0
            &&& Some(message.nonce) == request->nonce || request->nonce is None
            &&& index < ids.len() && ids[index] != sender_id ==> plan.contains(
                Step::Send {
                    to: ids[index],
                    message: Message::ChannelMessageSent {
                        channel_id: request->SendChannelMessage_channel_id,
                        message,
                    },
                    on_failure: OnFailure::Log,
                },
            )
        }),
{
    let ids = known.connection_ids->0@;
    let recorded = known.recorded->0;
    let user_id = known.user->0;
    let channel_id = request->SendChannelMessage_channel_id;
    let message = choose|message: ChannelMessage|
        {
            &&& message.id == recorded.0.0
            &&& message.body@ == trimmed(request->SendChannelMessage_body@)
            &&& message.timestamp == seconds_sent(recorded.1)
            &&& message.sender_id == user_id.0
            &&& message.nonce == request->nonce->0
            &&& plan == #[trigger] message_steps(sender_id, channel_id, message, ids)
        };
    law_a_message_reaches_all_others(sender_id, channel_id, message, ids);
    if index < ids.len() && ids[index] != sender_id {
        let place = rank(ids, |id: ConnectionId| id != sender_id, index) as int;
        assert(plan.contains(plan[place]));
    }
}

/// Who joins a project gets, behind what everyone else there is told, an answer with the replica that
/// they were given and with everyone else who is there; everyone else is told of that very replica
/// and of the user of the sender.
pub proof fn law_who_joins_a_project_is_introduced(
    plan: Seq<Step>,
    has_live_kit: bool,
    sender_id: ConnectionId,
    request: Request,
    known: Known,
    index: int,
)
    requires
        request is JoinProject,
        is_plan_for(plan, has_live_kit, sender_id, request, known),
        0 <= index,
    ensures
        ({
            let project = known.project->0;
            let members = project.member_ids();
            let told = members.filter(|id: ConnectionId| id != sender_id).len() as int;
            let user_id = known.user->0;
            &&& told < plan.len()
            &&& plan[told] matches Step::Respond { response: Response::ProjectJoined { response } }
            &&& response.replica_id == known.replica_id->0
            &&& response.collaborators@ == collaborators_of(project, sender_id)
            &&& response.worktrees@.len() == project.worktrees@.len()
            &&& index < members.len() && members[index] != sender_id ==> plan.contains(
                Step::Send {
                    to: members[index],
                    message: Message::AddProjectCollaborator {
                        project_id: project.id,
                        collaborator: Collaborator {
                            peer_id: sender_id.0,
                            replica_id: known.replica_id->0 as u32,
                            user_id: user_id.0,
                        },
                    },
                    on_failure: OnFailure::Abort,
                },
            )
        }),
{
    let project = known.project->0;
    let members = project.member_ids();
    law_joining_is_told(plan, sender_id, known.user->0, project, known.replica_id->0);
    if index < members.len() && members[index] != sender_id {
        let place = rank(members, |id: ConnectionId| id != sender_id, index) as int;
        assert(plan.contains(plan[place]));
    }
}

/// Who creates or joins a room gets that room as the answer, and with it what they get into its video
/// room with. Who leaves a room is removed from its video room wherever there are video rooms, and
/// everyone who stays is told.
pub proof fn law_who_comes_and_goes(
    plan: Seq<Step>,
    has_live_kit: bool,
    sender_id: ConnectionId,
    request: Request,
    known: Known,
    index: int,
)
    requires
        is_plan_for(plan, has_live_kit, sender_id, request, known),
        0 <= index,
    ensures
        request is CreateRoom || request is JoinRoom ==> plan.contains(
            Step::Respond {
                response: Response::Room {
                    room_id: known.room->0.id,
                    state: known.room->0.state,
                    live_kit_connection_info: known.video->0,
                },
            },
        ),
        request is LeaveRoom ==> {
            let left = known.left_room->0;
            let (_, room, _, video, users) = leaving_places(has_live_kit, left);
            &&& has_live_kit ==> 0 <= video < plan.len() && plan[video] is LeaveVideoRoom
            &&& 0 <= users < plan.len() && plan[users] == (Step::UpdateUserContacts {
                user_id: known.user->0,
                on_failure: OnFailure::Abort,
            })
            &&& index < left.room.participants@.len() ==> plan[room + index] == (Step::Send {
                to: left.room.participants@[index],
                message: Message::RoomUpdated { room_id: left.room.id, state: left.room.state },
                on_failure: OnFailure::Log,
            })
        },
{
    let answer = Step::Respond {
        response: Response::Room {
            room_id: known.room->0.id,
            state: known.room->0.state,
            live_kit_connection_info: known.video->0,
        },
    };
    match request {
        Request::CreateRoom => {
            assert(plan[0] == answer);
        },
        Request::JoinRoom { .. } => {
            assert(plan[known.connection_ids->0@.len() as int] == answer);
        },
        Request::LeaveRoom { .. } => {
            let left = known.left_room->0;
            law_leaving_a_room_is_told(plan, has_live_kit, sender_id, known.user->0, left);
            if index < left.room.participants@.len() {
                let to = left.room.participants@[index];
            }
        },
        _ => {},
    }
}

} // verus!
