use collaboration::collab::action::plan_for;
use collaboration::collab::activity::{
    active_projects, advance_recording, ActivityRecorder, Participant, ProjectActivity,
    RecordingEvent, RecordingPhase,
};
use collaboration::collab::buffers::{
    create_buffer_for_peer, follow, leader_to_follow, relay, relay_and_respond, save_buffer,
    unfollow, update_followers, FollowedView, FollowersUpdate,
};
use collaboration::collab::calls::{
    advance_call, call, call_answered, call_failed, cancel_call, decline_call, may_call, CallEvent,
    CallProgress,
};
use collaboration::collab::channels::{
    check_access, get_channels, message_page, new_channel_message, send_channel_message,
    validate_message, Channel, StoredMessage,
};
use collaboration::collab::connection::{
    advance_connection, handle_event, invite_code_redeemed, invite_count_updated, invite_url,
    open_connection, select_event, sign_out, welcome, Arrival, ConnectionAction, ConnectionEvent,
    ConnectionPhase, PhaseEvent, Readiness, RemovedConnection,
};
use collaboration::collab::contacts::{
    may_request_contact, record_contact_response, remove_contact, request_contact,
    respond_to_contact_request, update_user_contacts, Contact, ContactRecord,
    ContactRequestResponse, ContactStatus,
};
use collaboration::collab::error::HandlerError;
use collaboration::collab::handling::{next_need, Answer, Known, Need, Next};
use collaboration::collab::ids::{ChannelId, ConnectionId, MessageId, ProjectId, RoomId, UserId};
use collaboration::collab::message::{
    Collaborator, ContactOf, ContactsUpdate, IncomingContactRequest, Message, PayloadId,
    WorktreePiece,
};
use collaboration::collab::plan::{broadcast, OnFailure, Runner, Step};
use collaboration::collab::projects::{
    extension_counts, join_project, leave_project, share_project, split_worktree_update,
    unshare_project, update_project, Guest, JoinProjectResponse, LanguageServer, Project, Worktree,
    WorktreeMetadata,
};
use collaboration::collab::request::Request;
use collaboration::collab::response::Response;
use collaboration::collab::rooms::{
    create_room, join_room, leave_room, room_left, update_participant_location, CanceledCall, LeftProject, LeftRoom, LiveKitConnectionInfo,
    ProjectPeers, Room, VideoAccess,
};
use collaboration::collab::server::{
    after_telling, answered_by_host, relayed, settle, Expects, MessageKind, Server, Settlement,
};
use collaboration::collab::users::{
    fuzzy_search_users, get_private_user_info, get_users, search_for, PrivateUserInfo,
    StoredUser, UserSearch,
};
use time::{Duration, OffsetDateTime, UtcOffset};

fn connection(id: u32) -> ConnectionId {
    ConnectionId(id)
}

fn connections(ids: &[u32]) -> Vec<ConnectionId> {
    ids.iter().map(|id| ConnectionId(*id)).collect()
}

fn send(to: u32, message: Message, on_failure: OnFailure) -> Step {
    Step::Send {
        to: connection(to),
        message,
        on_failure,
    }
}

fn forward(from: u32, to: u32, on_failure: OnFailure) -> Step {
    Step::Forward {
        from: connection(from),
        to: connection(to),
        on_failure,
    }
}

fn tell(user: u64, on_failure: OnFailure) -> Step {
    Step::UpdateUserContacts {
        user_id: UserId(user),
        on_failure,
    }
}

fn respond(response: Response) -> Step {
    Step::Respond { response }
}

fn ack() -> Step {
    respond(Response::Ack)
}

fn room(participants: &[u32]) -> Room {
    Room {
        id: RoomId(7),
        participants: connections(participants),
        live_kit_room: "lobby".to_string(),
        state: PayloadId(70),
    }
}

fn room_news(to: u32) -> Step {
    send(
        to,
        Message::RoomUpdated {
            room_id: RoomId(7),
            state: PayloadId(70),
        },
        OnFailure::Log,
    )
}

fn no_update() -> ContactsUpdate {
    ContactsUpdate {
        contact: None,
        incoming_request: None,
        remove_incoming_request: None,
        outgoing_request: None,
        remove_outgoing_request: None,
    }
}

#[test]
fn broadcasts_spare_the_sender() {
    assert_eq!(
        broadcast(connection(2), &connections(&[1, 2, 3, 2])),
        connections(&[1, 3])
    );
}

#[test]
fn a_plan_stops_at_a_failure_that_counts() {
    let steps = || {
        vec![
            send(1, Message::CallCanceled, OnFailure::Log),
            ack(),
            tell(1, OnFailure::Abort),
        ]
    };
    let mut runner = Runner::new(steps());
    assert_eq!(runner.current(), Some(&steps()[0]));
    runner.record(Err(HandlerError::NoSuchPeer));
    assert_eq!(runner.current(), Some(&ack()));
    runner.record(Err(HandlerError::Failed("gone".to_string())));
    assert_eq!(runner.current(), None);
    assert_eq!(
        runner.finish(),
        Err(HandlerError::Failed("gone".to_string()))
    );
    let mut runner = Runner::new(steps());
    while runner.current().is_some() {
        runner.record(Ok(()));
    }
    assert_eq!(runner.finish(), Ok(()));
}

#[test]
fn connections_open_with_a_greeting() {
    let hello = send(4, Message::Hello { peer_id: 4 }, OnFailure::Abort);
    assert_eq!(
        open_connection(connection(4), UserId(1), true, false),
        vec![send(4, Message::Hello { peer_id: 4 }, OnFailure::Abort)]
    );
    assert_eq!(
        open_connection(connection(4), UserId(1), false, true),
        vec![
            hello,
            Step::AnnounceConnection {
                connection_id: connection(4)
            },
            send(4, Message::ShowContacts, OnFailure::Abort),
            Step::SetConnectedOnce { user_id: UserId(1) },
        ]
    );
}

#[test]
fn connections_are_welcomed() {
    assert_eq!(
        welcome(connection(4), UserId(1), None, PayloadId(71), "https://x/", None),
        vec![
            send(
                4,
                Message::InitialContacts {
                    contacts: PayloadId(71)
                },
                OnFailure::Abort
            ),
            tell(1, OnFailure::Abort),
        ]
    );
    assert_eq!(
        welcome(
            connection(4),
            UserId(1),
            Some(PayloadId(72)),
            PayloadId(71),
            "https://x/",
            Some(("abc", 5))
        ),
        vec![
            send(
                4,
                Message::IncomingCall {
                    call: PayloadId(72)
                },
                OnFailure::Abort
            ),
            send(
                4,
                Message::InitialContacts {
                    contacts: PayloadId(71)
                },
                OnFailure::Abort
            ),
            send(
                4,
                Message::UpdateInviteInfo {
                    url: "https://x/abc".to_string(),
                    count: 5
                },
                OnFailure::Abort
            ),
            tell(1, OnFailure::Abort),
        ]
    );
}

#[test]
fn the_end_of_io_comes_first() {
    let arrival = Arrival {
        has_handler: true,
        is_background: true,
    };
    let ready = |io_ended, handled, incoming| Readiness {
        io_ended,
        handled,
        incoming,
    };
    assert_eq!(
        select_event(ready(Some(true), true, Some(Some(arrival)))),
        Some(ConnectionEvent::IoEnded { failed: true })
    );
    assert_eq!(
        select_event(ready(None, true, Some(None))),
        Some(ConnectionEvent::Handled)
    );
    assert_eq!(
        select_event(ready(None, false, Some(Some(arrival)))),
        Some(ConnectionEvent::Arrived { arrival })
    );
    assert_eq!(
        select_event(ready(None, false, Some(None))),
        Some(ConnectionEvent::Closed)
    );
    assert_eq!(select_event(ready(None, false, None)), None);
}

#[test]
fn events_lead_to_actions() {
    let arrived = |has_handler, is_background| {
        handle_event(ConnectionEvent::Arrived {
            arrival: Arrival {
                has_handler,
                is_background,
            },
        })
    };
    assert_eq!(arrived(false, true), ConnectionAction::LogMissingHandler);
    assert_eq!(arrived(true, true), ConnectionAction::HandleInBackground);
    assert_eq!(arrived(true, false), ConnectionAction::HandleInForeground);
    assert_eq!(
        handle_event(ConnectionEvent::IoEnded { failed: true }),
        ConnectionAction::LogErrorAndSignOut
    );
    assert_eq!(
        handle_event(ConnectionEvent::IoEnded { failed: false }),
        ConnectionAction::SignOut
    );
    assert_eq!(handle_event(ConnectionEvent::Handled), ConnectionAction::Wait);
    assert_eq!(handle_event(ConnectionEvent::Closed), ConnectionAction::SignOut);
}

#[test]
fn connections_live_from_opening_to_signing_out() {
    let mut phase = ConnectionPhase::Opening;
    for (event, expected) in [
        (PhaseEvent::Done, ConnectionPhase::ReadingRecords),
        (PhaseEvent::Done, ConnectionPhase::Welcoming),
        (PhaseEvent::Done, ConnectionPhase::Serving),
        (
            PhaseEvent::Action {
                action: ConnectionAction::HandleInBackground,
            },
            ConnectionPhase::Serving,
        ),
        (
            PhaseEvent::Action {
                action: ConnectionAction::SignOut,
            },
            ConnectionPhase::SigningOut,
        ),
        (
            PhaseEvent::Error {
                error: HandlerError::NoSuchPeer,
            },
            ConnectionPhase::Over,
        ),
    ] {
        phase = advance_connection(phase, event);
        assert_eq!(phase, expected);
    }
    assert_eq!(
        advance_connection(
            ConnectionPhase::Welcoming,
            PhaseEvent::Error {
                error: HandlerError::UserNotFound
            }
        ),
        ConnectionPhase::Failed {
            error: HandlerError::UserNotFound
        }
    );
}

#[test]
fn signing_out_tells_everyone_concerned() {
    let removed = RemovedConnection {
        user_id: UserId(1),
        hosted_projects: vec![ProjectPeers {
            id: ProjectId(10),
            connection_ids: connections(&[2, 9]),
        }],
        guest_projects: vec![ProjectPeers {
            id: ProjectId(11),
            connection_ids: connections(&[3, 9]),
        }],
        room: Some(room(&[4])),
        canceled_calls: vec![
            CanceledCall {
                connection_id: connection(5),
                user_id: Some(UserId(2)),
            },
            CanceledCall {
                connection_id: connection(6),
                user_id: Some(UserId(2)),
            },
            CanceledCall {
                connection_id: connection(7),
                user_id: None,
            },
        ],
    };
    let mut expected = vec![
        send(
            2,
            Message::UnshareProject {
                project_id: ProjectId(10),
            },
            OnFailure::Log,
        ),
        send(
            3,
            Message::RemoveProjectCollaborator {
                project_id: ProjectId(11),
                peer_id: 9,
            },
            OnFailure::Log,
        ),
        room_news(4),
        send(5, Message::CallCanceled, OnFailure::Log),
        send(6, Message::CallCanceled, OnFailure::Log),
        send(7, Message::CallCanceled, OnFailure::Log),
        Step::LeaveVideoRoom {
            room: "lobby".to_string(),
            identity: "9".to_string(),
            delete_room: false,
        },
        tell(1, OnFailure::Log),
        tell(2, OnFailure::Log),
        Step::UnregisterProject {
            project_id: ProjectId(10),
        },
    ];
    assert_eq!(sign_out(true, connection(9), &removed), expected);
    expected.remove(6);
    assert_eq!(sign_out(false, connection(9), &removed), expected);
}

#[test]
fn inviters_hear_of_those_they_invited() {
    let url = invite_url("https://x/", "abc");
    assert_eq!(url, "https://x/abc");
    assert_eq!(
        invite_code_redeemed(UserId(2), "https://x/", Some("abc"), 3, &connections(&[1])),
        vec![
            send(
                1,
                Message::UpdateContacts {
                    update: ContactsUpdate {
                        contact: Some(ContactOf {
                            user_id: UserId(2),
                            should_notify: true
                        }),
                        ..no_update()
                    }
                },
                OnFailure::Abort
            ),
            send(
                1,
                Message::UpdateInviteInfo {
                    url: url.clone(),
                    count: 3
                },
                OnFailure::Abort
            ),
        ]
    );
    assert_eq!(
        invite_code_redeemed(UserId(2), "https://x/", None, 3, &connections(&[1])),
        vec![]
    );
    assert_eq!(
        invite_count_updated("https://x/", Some("abc"), -1, &connections(&[1, 2])),
        vec![
            send(
                1,
                Message::UpdateInviteInfo {
                    url: url.clone(),
                    count: u32::MAX
                },
                OnFailure::Abort
            ),
            send(
                2,
                Message::UpdateInviteInfo {
                    url: url.clone(),
                    count: u32::MAX
                },
                OnFailure::Abort
            ),
        ]
    );
    assert_eq!(
        invite_count_updated("https://x/", None, 4, &connections(&[1, 2])),
        vec![]
    );
}

#[test]
fn rooms_are_created_and_joined() {
    let info = || LiveKitConnectionInfo {
        server_url: "wss://video".to_string(),
        token: "t".to_string(),
    };
    let answer = |live_kit_connection_info| {
        respond(Response::Room {
            room_id: RoomId(7),
            state: PayloadId(70),
            live_kit_connection_info,
        })
    };
    assert_eq!(
        create_room(UserId(1), &room(&[1]), Some(info())),
        vec![answer(Some(info())), tell(1, OnFailure::Abort)]
    );
    assert_eq!(
        join_room(UserId(1), &room(&[2, 3]), &connections(&[4]), None),
        vec![
            send(4, Message::CallCanceled, OnFailure::Log),
            answer(None),
            room_news(2),
            room_news(3),
            tell(1, OnFailure::Abort),
        ]
    );
}

#[test]
fn video_rooms_are_entered_with_a_token() {
    assert_eq!(VideoAccess::begin(false, true), VideoAccess::Settled(None));
    assert_eq!(VideoAccess::begin(true, true), VideoAccess::CreateRoom);
    assert_eq!(VideoAccess::begin(true, false), VideoAccess::GetToken);
    assert_eq!(VideoAccess::room_created(true), VideoAccess::GetToken);
    assert_eq!(VideoAccess::room_created(false), VideoAccess::Settled(None));
    let url = "wss://video".to_string();
    assert_eq!(
        VideoAccess::token_made(&url, Some("t".to_string())),
        VideoAccess::Settled(Some(LiveKitConnectionInfo {
            server_url: url.clone(),
            token: "t".to_string()
        }))
    );
    assert_eq!(VideoAccess::token_made(&url, None), VideoAccess::Settled(None));
}

#[test]
fn the_last_to_leave_deletes_the_video_room() {
    assert_eq!(room_left(false, &room(&[]), connection(9)), None);
    assert_eq!(
        room_left(true, &room(&[]), connection(9)),
        Some(Step::LeaveVideoRoom {
            room: "lobby".to_string(),
            identity: "9".to_string(),
            delete_room: true
        })
    );
}

#[test]
fn leaving_a_room_tells_everyone_concerned() {
    let left = LeftRoom {
        room: room(&[2]),
        unshared_projects: vec![ProjectPeers {
            id: ProjectId(10),
            connection_ids: connections(&[3, 9]),
        }],
        left_projects: vec![
            LeftProject {
                id: ProjectId(11),
                remove_collaborator: true,
                connection_ids: connections(&[4]),
            },
            LeftProject {
                id: ProjectId(12),
                remove_collaborator: false,
                connection_ids: connections(&[5]),
            },
        ],
        canceled_calls: vec![CanceledCall {
            connection_id: connection(6),
            user_id: Some(UserId(2)),
        }],
    };
    let unshare = |to, id| {
        send(
            to,
            Message::UnshareProject {
                project_id: ProjectId(id),
            },
            OnFailure::Abort,
        )
    };
    assert_eq!(
        leave_room(false, connection(9), UserId(1), &left),
        vec![
            unshare(3, 10),
            unshare(9, 10),
            send(
                4,
                Message::RemoveProjectCollaborator {
                    project_id: ProjectId(11),
                    peer_id: 9
                },
                OnFailure::Abort
            ),
            unshare(9, 11),
            room_news(2),
            send(6, Message::CallCanceled, OnFailure::Log),
            tell(1, OnFailure::Abort),
            tell(2, OnFailure::Abort),
        ]
    );
    let plan = leave_room(true, connection(9), UserId(1), &left);
    assert_eq!(
        plan[6],
        Step::LeaveVideoRoom {
            room: "lobby".to_string(),
            identity: "9".to_string(),
            delete_room: false
        }
    );
    assert_eq!(plan.len(), 9);
}

#[test]
fn calls_are_placed_answered_and_given_up() {
    assert_eq!(may_call(true), Ok(()));
    assert_eq!(may_call(false), Err(HandlerError::NotAContact));
    assert_eq!(
        call(&room(&[2]), UserId(5), PayloadId(72), &connections(&[3])),
        vec![
            room_news(2),
            Step::Request {
                to: connection(3),
                message: Message::IncomingCall {
                    call: PayloadId(72)
                }
            },
            tell(5, OnFailure::Abort),
        ]
    );
    assert_eq!(call_answered(), vec![ack()]);
    assert_eq!(
        call_failed(&room(&[2]), UserId(5)),
        (
            vec![room_news(2), tell(5, OnFailure::Abort)],
            HandlerError::RingingFailed
        )
    );
    assert_eq!(
        cancel_call(&room(&[2]), UserId(5), &connections(&[3])),
        vec![
            send(3, Message::CallCanceled, OnFailure::Log),
            room_news(2),
            ack(),
            tell(5, OnFailure::Abort),
        ]
    );
    assert_eq!(
        decline_call(&room(&[2]), UserId(5), &connections(&[3])),
        vec![
            send(3, Message::CallCanceled, OnFailure::Log),
            room_news(2),
            tell(5, OnFailure::Abort),
        ]
    );
}

fn run_call(events: Vec<CallEvent>) -> CallProgress {
    events.into_iter().fold(CallProgress::FindCaller, advance_call)
}

fn placed(recipients: usize) -> Vec<CallEvent> {
    vec![
        CallEvent::Caller { user_id: UserId(1) },
        CallEvent::Contact { is_contact: true },
        CallEvent::Placed { recipients },
        CallEvent::Done,
    ]
}

#[test]
fn a_call_rings_until_someone_answers() {
    assert_eq!(run_call(placed(2)), CallProgress::AwaitReply { pending: 2 });
    let mut events = placed(2);
    events.push(CallEvent::Reply { answered: false });
    assert_eq!(run_call(events), CallProgress::AwaitReply { pending: 1 });
    let mut events = placed(2);
    events.push(CallEvent::Reply { answered: false });
    events.push(CallEvent::Reply { answered: true });
    events.push(CallEvent::Done);
    assert_eq!(run_call(events), CallProgress::Answered);
}

#[test]
fn a_call_that_reaches_no_one_fails() {
    assert_eq!(run_call(placed(0)), CallProgress::RecordFailure);
    let mut events = placed(1);
    events.push(CallEvent::Reply { answered: false });
    events.push(CallEvent::Done);
    events.push(CallEvent::Done);
    assert_eq!(
        run_call(events),
        CallProgress::Failed {
            error: HandlerError::RingingFailed
        }
    );
    assert_eq!(
        run_call(vec![
            CallEvent::Caller { user_id: UserId(1) },
            CallEvent::Contact { is_contact: false },
        ]),
        CallProgress::Failed {
            error: HandlerError::NotAContact
        }
    );
}

#[test]
fn everyone_hears_of_a_new_location() {
    assert_eq!(
        update_participant_location(&room(&[2])),
        vec![room_news(2), ack()]
    );
}

fn worktree(entry_count: usize) -> Worktree {
    Worktree {
        id: 20,
        root_name: "root".to_string(),
        abs_path: PayloadId(73),
        visible: true,
        scan_id: 3,
        is_complete: true,
        entry_count,
        summary_count: 1,
    }
}

fn piece(first_entry: usize, entry_count: usize, is_last_update: bool) -> WorktreePiece {
    WorktreePiece {
        project_id: ProjectId(10),
        worktree_id: 20,
        root_name: "root".to_string(),
        abs_path: PayloadId(73),
        scan_id: 3,
        first_entry,
        entry_count,
        removed_count: 0,
        is_last_update,
    }
}

fn project() -> Project {
    Project {
        id: ProjectId(10),
        host_connection_id: connection(1),
        host_user_id: UserId(100),
        guests: vec![
            Guest {
                connection_id: connection(2),
                replica_id: 1,
                user_id: UserId(200),
            },
            Guest {
                connection_id: connection(9),
                replica_id: 2,
                user_id: UserId(900),
            },
        ],
        worktrees: vec![worktree(300)],
        language_servers: vec![LanguageServer {
            id: 5,
            name: "server".to_string(),
        }],
    }
}

#[test]
fn worktrees_are_split_into_pieces() {
    let split = |count, max| split_worktree_update(ProjectId(10), &worktree(count), max);
    assert_eq!(split(0, 2), vec![piece(0, 0, true)]);
    assert_eq!(split(2, 2), vec![piece(0, 2, true)]);
    assert_eq!(
        split(5, 2),
        vec![piece(0, 2, false), piece(2, 2, false), piece(4, 1, true)]
    );
    let mut incomplete = worktree(1);
    incomplete.is_complete = false;
    assert_eq!(
        split_worktree_update(ProjectId(10), &incomplete, 2),
        vec![piece(0, 1, false)]
    );
}

#[test]
fn whoever_joins_a_project_gets_all_of_it() {
    let news = |to| {
        send(
            to,
            Message::AddProjectCollaborator {
                project_id: ProjectId(10),
                collaborator: Collaborator {
                    peer_id: 9,
                    replica_id: 2,
                    user_id: 900,
                },
            },
            OnFailure::Abort,
        )
    };
    let update = |piece| send(9, Message::UpdateWorktree { piece }, OnFailure::Abort);
    let collaborator = |peer_id, replica_id, user_id| Collaborator {
        peer_id,
        replica_id,
        user_id,
    };
    assert_eq!(
        join_project(connection(9), UserId(900), &project(), 2),
        vec![
            news(2),
            news(1),
            respond(Response::ProjectJoined {
                response: JoinProjectResponse {
                    worktrees: vec![WorktreeMetadata {
                        id: 20,
                        root_name: "root".to_string(),
                        visible: true,
                        abs_path: PayloadId(73),
                    }],
                    replica_id: 2,
                    collaborators: vec![collaborator(1, 0, 100), collaborator(2, 1, 200)],
                    language_servers: vec![LanguageServer {
                        id: 5,
                        name: "server".to_string(),
                    }],
                }
            }),
            update(piece(0, 256, false)),
            update(piece(256, 44, true)),
            send(
                9,
                Message::UpdateDiagnosticSummary {
                    project_id: ProjectId(10),
                    worktree_id: 20,
                    summary: 0
                },
                OnFailure::Abort
            ),
            send(
                9,
                Message::DiskBasedDiagnosticsUpdated {
                    project_id: ProjectId(10),
                    language_server_id: 5
                },
                OnFailure::Abort
            ),
        ]
    );
}

#[test]
fn projects_are_shared_changed_and_left() {
    assert_eq!(
        share_project(ProjectId(10), &room(&[2])),
        vec![
            respond(Response::ProjectShared {
                project_id: ProjectId(10)
            }),
            room_news(2)
        ]
    );
    assert_eq!(
        unshare_project(connection(1), &project(), &room(&[2])),
        vec![
            send(
                2,
                Message::UnshareProject {
                    project_id: ProjectId(10)
                },
                OnFailure::Log
            ),
            send(
                9,
                Message::UnshareProject {
                    project_id: ProjectId(10)
                },
                OnFailure::Log
            ),
            room_news(2),
        ]
    );
    let left = |remove_collaborator| LeftProject {
        id: ProjectId(10),
        remove_collaborator,
        connection_ids: connections(&[1, 9]),
    };
    assert_eq!(
        leave_project(connection(9), &left(true)),
        vec![send(
            1,
            Message::RemoveProjectCollaborator {
                project_id: ProjectId(10),
                peer_id: 9
            },
            OnFailure::Log
        )]
    );
    assert_eq!(leave_project(connection(9), &left(false)), vec![]);
    assert_eq!(
        update_project(connection(1), &connections(&[1, 2]), &room(&[3])),
        vec![forward(1, 2, OnFailure::Log), room_news(3)]
    );
    assert_eq!(
        extension_counts(&["rs".to_string(), "md".to_string()], &[3]),
        vec![("rs".to_string(), 3)]
    );
}

#[test]
fn messages_are_relayed_to_the_others() {
    assert_eq!(
        relay(connection(1), &connections(&[1, 2, 3])),
        vec![forward(1, 2, OnFailure::Log), forward(1, 3, OnFailure::Log)]
    );
    assert_eq!(
        relay_and_respond(connection(1), &connections(&[1, 2])),
        vec![forward(1, 2, OnFailure::Log), ack()]
    );
    assert_eq!(
        create_buffer_for_peer(connection(1), 8),
        vec![forward(1, 8, OnFailure::Abort)]
    );
    assert_eq!(
        save_buffer(connection(2), connection(1), &connections(&[1, 2, 3])),
        vec![
            Step::ForwardReply {
                from: connection(1),
                to: connection(3),
                on_failure: OnFailure::Log
            },
            respond(Response::HostReply)
        ]
    );
}

fn learn(request: &Request, answers: Vec<(Need, Answer)>) -> Known {
    let mut known = Known::nothing();
    for (need, answer) in answers {
        assert_eq!(next_need(request, &known), Next::Ask { need });
        known.learn(answer);
    }
    known
}

fn handle(request: Request, answers: Vec<(Need, Answer)>) -> Vec<Step> {
    let known = learn(&request, answers);
    assert_eq!(next_need(&request, &known), Next::Ready);
    plan_for(false, connection(9), &request, known)
}

fn refuse(request: Request, answers: Vec<(Need, Answer)>) -> HandlerError {
    let known = learn(&request, answers);
    match next_need(&request, &known) {
        Next::Fail { error } => error,
        next => panic!("not refused: {:?}", next),
    }
}

fn found_sender() -> (Need, Answer) {
    (Need::FindSender, Answer::Sender { user_id: UserId(1) })
}

fn project_connections(ids: &[u32]) -> (Need, Answer) {
    (
        Need::ProjectConnections {
            project_id: ProjectId(10),
        },
        Answer::Connections {
            connection_ids: connections(ids),
        },
    )
}

fn registered_activity() -> (Need, Answer) {
    (
        Need::RegisterActivity {
            project_id: ProjectId(10),
        },
        Answer::Active,
    )
}

#[test]
fn pings_are_answered() {
    assert_eq!(handle(Request::Ping, vec![]), vec![ack()]);
}

#[test]
fn rooms_are_handled_in_order() {
    let video = |is_new_room| {
        (
            Need::GetVideoAccess { is_new_room },
            Answer::VideoAccess { info: None },
        )
    };
    let answer = || {
        respond(Response::Room {
            room_id: RoomId(7),
            state: PayloadId(70),
            live_kit_connection_info: None,
        })
    };
    assert_eq!(
        handle(
            Request::CreateRoom,
            vec![
                found_sender(),
                (Need::CreateRoom, Answer::Room { room: room(&[9]) }),
                video(true),
            ]
        ),
        vec![answer(), tell(1, OnFailure::Abort)]
    );
    let joined = |need| {
        (
            need,
            Answer::RoomAndConnections {
                room: room(&[2]),
                connection_ids: connections(&[3]),
            },
        )
    };
    let room_id = RoomId(7);
    let canceled = || send(3, Message::CallCanceled, OnFailure::Log);
    assert_eq!(
        handle(
            Request::JoinRoom { room_id },
            vec![found_sender(), joined(Need::JoinRoom { room_id }), video(false)]
        ),
        vec![canceled(), answer(), room_news(2), tell(1, OnFailure::Abort)]
    );
    let recipient = UserId(5);
    assert_eq!(
        handle(
            Request::CancelCall { room_id, recipient },
            vec![joined(Need::CancelCall { room_id, recipient })]
        ),
        vec![canceled(), room_news(2), ack(), tell(5, OnFailure::Abort)]
    );
    assert_eq!(
        handle(
            Request::DeclineCall { room_id },
            vec![found_sender(), joined(Need::DeclineCall { room_id })]
        ),
        vec![canceled(), room_news(2), tell(1, OnFailure::Abort)]
    );
    assert_eq!(
        handle(
            Request::LeaveRoom { room_id },
            vec![
                found_sender(),
                (
                    Need::LeaveRoom { room_id },
                    Answer::LeftRoom {
                        left_room: LeftRoom {
                            room: room(&[2]),
                            unshared_projects: vec![],
                            left_projects: vec![],
                            canceled_calls: vec![],
                        }
                    }
                ),
            ]
        ),
        vec![room_news(2), tell(1, OnFailure::Abort)]
    );
    let location = |has_location| Request::UpdateParticipantLocation {
        room_id,
        has_location,
    };
    assert_eq!(
        handle(
            location(true),
            vec![(Need::UpdateLocation { room_id }, Answer::Room { room: room(&[2]) })]
        ),
        vec![room_news(2), ack()]
    );
    assert_eq!(refuse(location(false), vec![]), HandlerError::InvalidLocation);
}

#[test]
fn projects_are_handled_in_order() {
    let room_id = RoomId(7);
    let project_id = ProjectId(10);
    assert_eq!(
        handle(
            Request::ShareProject { room_id },
            vec![
                found_sender(),
                (
                    Need::RegisterProject { user_id: UserId(1) },
                    Answer::ProjectRegistered { project_id }
                ),
                (
                    Need::ShareProject {
                        room_id,
                        project_id
                    },
                    Answer::Room { room: room(&[2]) }
                ),
            ]
        ),
        vec![respond(Response::ProjectShared { project_id }), room_news(2)]
    );
    assert_eq!(
        handle(
            Request::UnshareProject { project_id },
            vec![(
                Need::UnshareProject { project_id },
                Answer::RoomAndProject {
                    room: room(&[2]),
                    project: project()
                }
            )]
        )
        .len(),
        2
    );
    let plan = handle(
        Request::JoinProject { project_id },
        vec![
            (Need::FindProject { project_id }, Answer::Found),
            found_sender(),
            (
                Need::JoinProject { project_id },
                Answer::ProjectJoined {
                    project: project(),
                    replica_id: 2,
                },
            ),
        ],
    );
    assert_eq!(plan, join_project(connection(9), UserId(1), &project(), 2));
    assert_eq!(
        handle(
            Request::LeaveProject { project_id },
            vec![(
                Need::LeaveProject { project_id },
                Answer::LeftProject {
                    left_project: LeftProject {
                        id: project_id,
                        remove_collaborator: false,
                        connection_ids: connections(&[1]),
                    }
                }
            )]
        ),
        vec![]
    );
    assert_eq!(
        handle(
            Request::UpdateProject { project_id },
            vec![
                (
                    Need::ReadProject { project_id },
                    Answer::Project { project: project() }
                ),
                (
                    Need::UpdateProject { project_id },
                    Answer::Room { room: room(&[3]) }
                ),
            ]
        ),
        vec![forward(9, 2, OnFailure::Log), room_news(3)]
    );
    assert_eq!(
        handle(
            Request::RegisterProjectActivity { project_id },
            vec![registered_activity()]
        ),
        vec![]
    );
    assert_eq!(
        handle(
            Request::UpdateWorktreeExtensions {
                project_id,
                worktree_id: 20
            },
            vec![(
                Need::RecordExtensions {
                    project_id,
                    worktree_id: 20
                },
                Answer::Changed
            )]
        ),
        vec![]
    );
}

#[test]
fn what_concerns_a_project_is_relayed() {
    let project_id = ProjectId(10);
    let reach = |need| {
        vec![(
            need,
            Answer::Connections {
                connection_ids: connections(&[2, 9]),
            },
        )]
    };
    let relayed = || vec![forward(9, 2, OnFailure::Log)];
    let answered = || vec![forward(9, 2, OnFailure::Log), ack()];
    assert_eq!(
        handle(
            Request::UpdateWorktree { project_id },
            reach(Need::UpdateWorktree { project_id })
        ),
        answered()
    );
    let server = |has_server| Request::StartLanguageServer {
        project_id,
        has_server,
    };
    assert_eq!(
        handle(server(true), reach(Need::StartLanguageServer { project_id })),
        relayed()
    );
    assert_eq!(
        refuse(server(false), vec![]),
        HandlerError::InvalidLanguageServer
    );
    let summary = |has_summary| Request::UpdateDiagnosticSummary {
        project_id,
        has_summary,
    };
    assert_eq!(
        handle(summary(true), reach(Need::UpdateSummary { project_id })),
        relayed()
    );
    assert_eq!(refuse(summary(false), vec![]), HandlerError::InvalidSummary);
    assert_eq!(
        handle(
            Request::Relayed {
                kind: MessageKind::BufferSaved,
                project_id
            },
            vec![project_connections(&[2, 9])]
        ),
        relayed()
    );
    assert_eq!(
        handle(
            Request::UpdateBuffer { project_id },
            vec![registered_activity(), project_connections(&[2, 9])]
        ),
        answered()
    );
    assert_eq!(
        handle(Request::CreateBufferForPeer { peer_id: 8 }, vec![]),
        vec![forward(9, 8, OnFailure::Abort)]
    );
}

#[test]
fn hosts_are_asked_and_the_project_is_checked_again() {
    let project_id = ProjectId(10);
    let answers = || {
        vec![
            (
                Need::ReadProject { project_id },
                Answer::Project { project: project() },
            ),
            (
                Need::AskHost {
                    host: connection(1),
                },
                Answer::Replied,
            ),
            (
                Need::ReadProjectAgain { project_id },
                Answer::ProjectAgain { project: project() },
            ),
        ]
    };
    assert_eq!(
        handle(
            Request::Forwarded {
                kind: MessageKind::GetHover,
                project_id
            },
            answers()
        ),
        vec![respond(Response::HostReply)]
    );
    assert_eq!(
        handle(Request::SaveBuffer { project_id }, answers()),
        vec![
            Step::ForwardReply {
                from: connection(1),
                to: connection(2),
                on_failure: OnFailure::Log
            },
            respond(Response::HostReply)
        ]
    );
}

#[test]
fn leaders_have_to_take_part() {
    let project_id = ProjectId(10);
    let follow = |leader_id| Request::Follow {
        project_id,
        leader_id,
    };
    let view = |id, leader_id| FollowedView { id, leader_id };
    assert_eq!(
        handle(
            follow(2),
            vec![
                project_connections(&[2]),
                registered_activity(),
                (
                    Need::AskLeader {
                        leader: connection(2)
                    },
                    Answer::Views {
                        views: vec![view(1, Some(9)), view(2, None)]
                    }
                ),
            ]
        ),
        vec![respond(Response::Views {
            views: vec![view(2, None)]
        })]
    );
    assert_eq!(
        refuse(follow(3), vec![project_connections(&[2])]),
        HandlerError::NoSuchPeer
    );
    let unfollow = |leader_id| Request::Unfollow {
        project_id,
        leader_id,
    };
    assert_eq!(
        handle(
            unfollow(2),
            vec![project_connections(&[2]), registered_activity()]
        ),
        vec![forward(9, 2, OnFailure::Abort)]
    );
    assert_eq!(
        refuse(unfollow(3), vec![project_connections(&[2])]),
        HandlerError::NoSuchPeer
    );
    assert_eq!(
        handle(
            Request::UpdateFollowers {
                project_id,
                follower_ids: vec![2, 4],
                update: None
            },
            vec![registered_activity(), project_connections(&[2])]
        ),
        vec![forward(9, 2, OnFailure::Abort)]
    );
}

#[test]
fn contacts_are_handled_in_order() {
    let both = |first, second| {
        [
            (
                Need::ConnectionsOf {
                    user_id: UserId(first),
                },
                Answer::Connections {
                    connection_ids: connections(&[5]),
                },
            ),
            (
                Need::OtherConnectionsOf {
                    user_id: UserId(second),
                },
                Answer::OtherConnections {
                    connection_ids: connections(&[6]),
                },
            ),
        ]
    };
    let handle_with = |request, need| {
        let mut answers = vec![found_sender(), (need, Answer::Changed)];
        answers.extend(both(1, 2));
        handle(request, answers)
    };
    let (one, two) = (UserId(1), UserId(2));
    let (own, other) = (connections(&[5]), connections(&[6]));
    assert_eq!(
        handle_with(
            Request::RequestContact { responder_id: two },
            Need::RecordContactRequest {
                requester_id: one,
                responder_id: two
            }
        ),
        request_contact(one, two, &own, &other)
    );
    assert_eq!(
        refuse(
            Request::RequestContact { responder_id: one },
            vec![found_sender()]
        ),
        HandlerError::ContactIsYourself
    );
    assert_eq!(
        handle_with(
            Request::RemoveContact { user_id: two },
            Need::RemoveContact {
                requester_id: one,
                responder_id: two
            }
        ),
        remove_contact(one, two, &own, &other)
    );
    let respond_with = |response| Request::RespondToContactRequest {
        requester_id: two,
        response,
    };
    let record = |response| record_contact_response(one, two, response);
    let accept = ContactRequestResponse::Accept;
    assert_eq!(
        handle_with(
            respond_with(accept),
            Need::RecordContactResponse {
                record: record(accept)
            }
        ),
        respond_to_contact_request(record(accept), &own, &other)
    );
    let dismiss = ContactRequestResponse::Dismiss;
    assert_eq!(
        handle(
            respond_with(dismiss),
            vec![
                found_sender(),
                (
                    Need::RecordContactResponse {
                        record: record(dismiss)
                    },
                    Answer::Changed
                ),
            ]
        ),
        vec![ack()]
    );
}

fn stored_message() -> StoredMessage {
    StoredMessage {
        id: MessageId(4),
        body: "hi".to_string(),
        sent_at: OffsetDateTime::UNIX_EPOCH + Duration::seconds(2),
        sender_id: UserId(2),
        nonce: 9,
    }
}

#[test]
fn channels_are_closed_to_those_without_access() {
    let channel_id = ChannelId(3);
    let access = |allowed| {
        (
            Need::CanAccessChannel {
                user_id: UserId(1),
                channel_id,
            },
            Answer::Access { allowed },
        )
    };
    let read = |before| {
        (
            Need::ReadMessages {
                channel_id,
                count: 100,
                before,
            },
            Answer::Messages {
                messages: vec![stored_message()],
            },
        )
    };
    let page = || {
        respond(Response::Messages {
            page: message_page(&[stored_message()]),
        })
    };
    let join = || Request::JoinChannel { channel_id };
    let leave = || Request::LeaveChannel { channel_id };
    let read_more = || Request::GetChannelMessages {
        channel_id,
        before: MessageId(5),
    };
    assert_eq!(
        handle(
            join(),
            vec![
                found_sender(),
                access(true),
                (Need::JoinChannel { channel_id }, Answer::Changed),
                read(None),
            ]
        ),
        vec![page()]
    );
    assert_eq!(
        handle(
            leave(),
            vec![
                found_sender(),
                access(true),
                (Need::LeaveChannel { channel_id }, Answer::Changed),
            ]
        ),
        vec![]
    );
    assert_eq!(
        handle(
            read_more(),
            vec![found_sender(), access(true), read(Some(MessageId(5)))]
        ),
        vec![page()]
    );
    for request in [join(), leave(), read_more()] {
        assert_eq!(
            refuse(request, vec![found_sender(), access(false)]),
            HandlerError::AccessDenied
        );
    }
    assert_eq!(
        handle(
            Request::GetChannels,
            vec![
                found_sender(),
                (
                    Need::AccessibleChannels { user_id: UserId(1) },
                    Answer::Channels {
                        channels: vec![(channel_id, "rust".to_string())]
                    }
                ),
            ]
        ),
        vec![respond(Response::Channels {
            channels: vec![Channel {
                id: 3,
                name: "rust".to_string()
            }]
        })]
    );
}

#[test]
fn only_valid_messages_are_put_on_record() {
    let channel_id = ChannelId(3);
    let message = |body: &str, nonce| Request::SendChannelMessage {
        channel_id,
        body: body.to_string(),
        nonce,
    };
    let looked_up = || {
        vec![
            found_sender(),
            (
                Need::ChannelConnections { channel_id },
                Answer::Connections {
                    connection_ids: connections(&[2, 9]),
                },
            ),
        ]
    };
    let sent_at = OffsetDateTime::UNIX_EPOCH + Duration::seconds(2);
    let mut answers = looked_up();
    answers.push((
        Need::RecordMessage {
            channel_id,
            user_id: UserId(1),
            body: "hi".to_string(),
            nonce: 7,
        },
        Answer::MessageRecorded {
            id: MessageId(4),
            sent_at,
        },
    ));
    let sent = new_channel_message(MessageId(4), UserId(1), "hi".to_string(), &sent_at, 7);
    assert_eq!(
        handle(message(" hi ", Some(7)), answers),
        send_channel_message(connection(9), channel_id, &sent, &connections(&[2, 9]))
    );
    assert_eq!(
        refuse(message(" ", Some(7)), looked_up()),
        HandlerError::MessageBlank
    );
    assert_eq!(
        refuse(message("hi", None), looked_up()),
        HandlerError::NonceBlank
    );
    assert_eq!(
        refuse(message(&"a".repeat(1025), Some(7)), looked_up()),
        HandlerError::MessageTooLong
    );
}

#[test]
fn users_are_handled_in_order() {
    let user = |id, login: &str| StoredUser {
        id: UserId(id),
        github_login: login.to_string(),
        admin: true,
    };
    let users = || vec![user(1, "ada"), user(2, "bob")];
    let found = |need| (need, Answer::Users { users: users() });
    let told = |users| vec![respond(Response::Users { users })];
    assert_eq!(
        handle(Request::GetUsers, vec![found(Need::UsersByIds)]),
        told(get_users(&users()))
    );
    let search = |query: &str| Request::FuzzySearchUsers {
        query: query.to_string(),
    };
    assert_eq!(handle(search(""), vec![found_sender()]), told(vec![]));
    assert_eq!(
        handle(search("bo"), vec![found_sender(), found(Need::UserByLogin)]),
        told(fuzzy_search_users(UserId(1), &users()))
    );
    assert_eq!(
        handle(
            search("bob"),
            vec![found_sender(), found(Need::FuzzyUsers { limit: 10 })]
        ),
        told(fuzzy_search_users(UserId(1), &users()))
    );
    let own = |user| {
        vec![
            found_sender(),
            (
                Need::MetricsId { user_id: UserId(1) },
                Answer::MetricsId {
                    metrics_id: "m".to_string(),
                },
            ),
            (Need::FindUser { user_id: UserId(1) }, Answer::User { user }),
        ]
    };
    assert_eq!(
        handle(Request::GetPrivateUserInfo, own(Some(user(1, "ada")))),
        vec![respond(Response::PrivateUserInfo {
            info: PrivateUserInfo {
                metrics_id: "m".to_string(),
                staff: true
            }
        })]
    );
    assert_eq!(
        refuse(Request::GetPrivateUserInfo, own(None)),
        HandlerError::UserNotFound
    );
}

#[test]
fn followers_do_not_see_themselves() {
    assert_eq!(
        leader_to_follow(2, &connections(&[1, 2])),
        Ok(connection(2))
    );
    assert_eq!(
        leader_to_follow(3, &connections(&[1, 2])),
        Err(HandlerError::NoSuchPeer)
    );
    let view = |id, leader_id| FollowedView { id, leader_id };
    assert_eq!(
        follow(
            connection(4),
            &[view(1, Some(4)), view(2, None), view(3, Some(5))]
        ),
        vec![view(2, None), view(3, Some(5))]
    );
    assert_eq!(
        unfollow(connection(4), connection(2)),
        vec![forward(4, 2, OnFailure::Abort)]
    );
    assert_eq!(
        update_followers(
            connection(1),
            Some(FollowersUpdate::UpdateView { leader_id: Some(3) }),
            &[2, 3, 4],
            &connections(&[1, 2, 3])
        ),
        vec![forward(1, 2, OnFailure::Abort)]
    );
    assert_eq!(
        update_followers(connection(1), None, &[2, 3], &connections(&[2, 3])),
        vec![forward(1, 2, OnFailure::Abort), forward(1, 3, OnFailure::Abort)]
    );
}

#[test]
fn only_accepted_contacts_hear_of_a_user() {
    let contact = |user, status, ids: &[u32]| Contact {
        user_id: UserId(user),
        status,
        connection_ids: connections(ids),
    };
    let message = Message::UpdateContacts {
        update: ContactsUpdate {
            contact: Some(ContactOf {
                user_id: UserId(1),
                should_notify: false,
            }),
            ..no_update()
        },
    };
    assert_eq!(
        update_user_contacts(
            UserId(1),
            &[
                contact(2, ContactStatus::Accepted, &[5, 6]),
                contact(3, ContactStatus::Outgoing, &[7]),
                contact(4, ContactStatus::Incoming, &[8]),
            ]
        ),
        vec![
            send(5, message.clone(), OnFailure::Log),
            send(6, message, OnFailure::Log)
        ]
    );
}

#[test]
fn contacts_are_requested_and_removed() {
    assert_eq!(may_request_contact(UserId(1), UserId(2)), Ok(()));
    assert_eq!(
        may_request_contact(UserId(1), UserId(1)),
        Err(HandlerError::ContactIsYourself)
    );
    let update = |to, update| send(to, Message::UpdateContacts { update }, OnFailure::Abort);
    assert_eq!(
        request_contact(UserId(1), UserId(2), &connections(&[5]), &connections(&[6])),
        vec![
            update(
                5,
                ContactsUpdate {
                    outgoing_request: Some(UserId(2)),
                    ..no_update()
                }
            ),
            update(
                6,
                ContactsUpdate {
                    incoming_request: Some(IncomingContactRequest {
                        requester_id: UserId(1),
                        should_notify: true
                    }),
                    ..no_update()
                }
            ),
            ack(),
        ]
    );
    assert_eq!(
        remove_contact(UserId(1), UserId(2), &connections(&[5]), &connections(&[6])),
        vec![
            update(
                5,
                ContactsUpdate {
                    remove_outgoing_request: Some(UserId(2)),
                    ..no_update()
                }
            ),
            update(
                6,
                ContactsUpdate {
                    remove_incoming_request: Some(UserId(1)),
                    ..no_update()
                }
            ),
            ack(),
        ]
    );
}

#[test]
fn contact_requests_are_answered() {
    let record = |response| record_contact_response(UserId(2), UserId(1), response);
    assert_eq!(
        record(ContactRequestResponse::Dismiss),
        ContactRecord::DismissNotification {
            responder_id: UserId(2),
            requester_id: UserId(1)
        }
    );
    let respond = |accept| ContactRecord::Respond {
        responder_id: UserId(2),
        requester_id: UserId(1),
        accept,
    };
    assert_eq!(record(ContactRequestResponse::Accept), respond(true));
    assert_eq!(record(ContactRequestResponse::Reject), respond(false));
    assert_eq!(record(ContactRequestResponse::Block), respond(false));
    let plan = |response| {
        respond_to_contact_request(record(response), &connections(&[6]), &connections(&[5]))
    };
    assert_eq!(plan(ContactRequestResponse::Dismiss), vec![ack()]);
    let update = |to, update| send(to, Message::UpdateContacts { update }, OnFailure::Abort);
    assert_eq!(
        plan(ContactRequestResponse::Accept),
        vec![
            update(
                6,
                ContactsUpdate {
                    contact: Some(ContactOf {
                        user_id: UserId(1),
                        should_notify: false
                    }),
                    remove_incoming_request: Some(UserId(1)),
                    ..no_update()
                }
            ),
            update(
                5,
                ContactsUpdate {
                    contact: Some(ContactOf {
                        user_id: UserId(2),
                        should_notify: true
                    }),
                    remove_outgoing_request: Some(UserId(2)),
                    ..no_update()
                }
            ),
            ack(),
        ]
    );
    assert_eq!(
        plan(ContactRequestResponse::Reject),
        vec![
            update(
                6,
                ContactsUpdate {
                    remove_incoming_request: Some(UserId(1)),
                    ..no_update()
                }
            ),
            update(
                5,
                ContactsUpdate {
                    remove_outgoing_request: Some(UserId(2)),
                    ..no_update()
                }
            ),
            ack(),
        ]
    );
}

#[test]
fn channel_messages_are_validated() {
    assert_eq!(check_access(true), Ok(()));
    assert_eq!(check_access(false), Err(HandlerError::AccessDenied));
    assert_eq!(
        validate_message("  hi\u{a0}there \n", Some(4)),
        Ok(("hi\u{a0}there".to_string(), 4))
    );
    assert_eq!(
        validate_message(" \t\n", Some(4)),
        Err(HandlerError::MessageBlank)
    );
    assert_eq!(validate_message("hi", None), Err(HandlerError::NonceBlank));
    let longest = "ä".repeat(512);
    assert_eq!(
        validate_message(&format!(" {} ", longest), Some(4)),
        Ok((longest.clone(), 4))
    );
    assert_eq!(
        validate_message(&format!("{}x", longest), None),
        Err(HandlerError::MessageTooLong)
    );
}

#[test]
fn channel_messages_are_sent_to_the_others() {
    let sent_at = OffsetDateTime::UNIX_EPOCH + Duration::milliseconds(1_500);
    let message = new_channel_message(MessageId(7), UserId(1), "hi".to_string(), &sent_at, 4);
    assert_eq!(message.timestamp, 1);
    assert_eq!((message.id, message.sender_id, message.nonce), (7, 1, 4));
    assert_eq!(
        send_channel_message(connection(1), ChannelId(3), &message, &connections(&[1, 2])),
        vec![
            send(
                2,
                Message::ChannelMessageSent {
                    channel_id: ChannelId(3),
                    message: message.clone()
                },
                OnFailure::Log
            ),
            respond(Response::MessageSent {
                message: message.clone()
            })
        ]
    );
    assert_eq!(
        get_channels(&[(ChannelId(3), "rust".to_string())]),
        vec![Channel {
            id: 3,
            name: "rust".to_string()
        }]
    );
}

#[test]
fn pages_of_messages_tell_whether_there_are_more() {
    let stored = |id| StoredMessage {
        id: MessageId(id),
        body: "hi".to_string(),
        sent_at: OffsetDateTime::UNIX_EPOCH - Duration::milliseconds(1),
        sender_id: UserId(2),
        nonce: 9,
    };
    let page = message_page(&(0..100).map(stored).collect::<Vec<_>>());
    assert!(!page.done);
    assert_eq!(page.messages.len(), 100);
    assert_eq!(page.messages[99].id, 99);
    assert_eq!(page.messages[0].timestamp, u64::MAX);
    let page = message_page(&[stored(1)]);
    assert!(page.done);
    assert_eq!(page.messages[0].body, "hi");
}

#[test]
fn users_are_searched_by_login() {
    assert_eq!(search_for(""), UserSearch::Nobody);
    assert_eq!(search_for("ä"), UserSearch::ByLogin);
    assert_eq!(search_for("ab"), UserSearch::ByLogin);
    assert_eq!(search_for("abc"), UserSearch::Fuzzy { limit: 10 });
    let user = |id, login: &str| StoredUser {
        id: UserId(id),
        github_login: login.to_string(),
        admin: id == 1,
    };
    let users = [user(1, "ada"), user(2, "bob")];
    let found = get_users(&users);
    assert_eq!(found.len(), 2);
    assert_eq!(found[0].avatar_url, "https://github.com/ada.png?size=128");
    let found = fuzzy_search_users(UserId(1), &users);
    assert_eq!(found.len(), 1);
    assert_eq!((found[0].id, found[0].github_login.as_str()), (2, "bob"));
    let info = get_private_user_info("m".to_string(), Some(&users[0])).unwrap();
    assert!(info.staff);
    assert_eq!(info.metrics_id, "m");
    assert_eq!(
        get_private_user_info("m".to_string(), None),
        Err(HandlerError::UserNotFound)
    );
}

#[test]
fn activity_is_recorded_by_period() {
    let start = OffsetDateTime::UNIX_EPOCH + Duration::hours(5);
    let participant = |user, admin, last_activity| Participant {
        user_id: UserId(user),
        admin,
        last_activity,
    };
    let later = start + Duration::nanoseconds(1);
    let elsewhere = later.to_offset(UtcOffset::from_hms(3, 0, 0).unwrap());
    let projects = [ProjectActivity {
        id: ProjectId(10),
        guests: vec![
            participant(1, false, Some(later)),
            participant(2, true, Some(later)),
            participant(3, false, Some(start)),
            participant(4, false, None),
        ],
        host: participant(5, false, Some(elsewhere)),
    }];
    let expected = vec![(UserId(1), ProjectId(10)), (UserId(5), ProjectId(10))];
    assert_eq!(active_projects(&projects, &start), expected);
    let mut recorder = ActivityRecorder::new(start);
    assert_eq!(recorder.active(&projects), expected);
    assert_eq!(recorder.end_period(elsewhere), (start, elsewhere));
    assert_eq!(recorder.active(&projects), vec![]);
}

#[test]
fn recording_goes_on_until_the_server_is_gone() {
    let tick = |server_is_alive| RecordingEvent::Tick { server_is_alive };
    let recorded = |failed| RecordingEvent::Recorded { failed };
    let mut phase = RecordingPhase::Sleeping;
    for (event, next) in [
        (tick(true), RecordingPhase::Recording),
        (recorded(true), RecordingPhase::Sleeping),
        (tick(true), RecordingPhase::Recording),
        (recorded(false), RecordingPhase::Sleeping),
        (tick(false), RecordingPhase::Over),
        (tick(true), RecordingPhase::Over),
    ] {
        phase = advance_recording(phase, event);
        assert_eq!(phase, next);
    }
}

#[test]
fn the_server_knows_its_messages() {
    let server = Server::new();
    assert_eq!(server.handler_for(MessageKind::Ping), Some(Expects::Response));
    assert_eq!(
        server.handler_for(MessageKind::GetPrivateUserInfo),
        Some(Expects::Response)
    );
    assert_eq!(
        server.handler_for(MessageKind::UpdateDiffBase),
        Some(Expects::Nothing)
    );
    assert_eq!(server.handler_for(MessageKind::LeaveRoom), Some(Expects::Nothing));
    assert_eq!(server.handler_for(MessageKind::Other), None);
    assert!(answered_by_host(MessageKind::GetHover));
    assert!(answered_by_host(MessageKind::DeleteProjectEntry));
    assert!(!answered_by_host(MessageKind::SaveBuffer));
    assert!(relayed(MessageKind::UpdateDiffBase));
    assert!(!relayed(MessageKind::UpdateBuffer));
}

#[test]
fn requests_are_settled() {
    assert_eq!(settle(None, true), Settlement::Answered);
    assert_eq!(
        settle(None, false),
        Settlement::Unanswered {
            error: HandlerError::NoResponse
        }
    );
    assert_eq!(
        settle(Some(HandlerError::AccessDenied), true),
        Settlement::TellError {
            message: "access denied".to_string(),
            error: HandlerError::AccessDenied
        }
    );
    assert_eq!(
        after_telling(HandlerError::AccessDenied, None),
        HandlerError::AccessDenied
    );
    assert_eq!(
        after_telling(HandlerError::AccessDenied, Some(HandlerError::NoSuchPeer)),
        HandlerError::NoSuchPeer
    );
}

#[test]
fn errors_are_told_in_words() {
    for (error, text) in [
        (HandlerError::NotAContact, "cannot call a user who isn't a contact"),
        (HandlerError::RingingFailed, "failed to ring call recipient"),
        (HandlerError::InvalidLocation, "invalid location"),
        (HandlerError::InvalidSummary, "invalid summary"),
        (HandlerError::InvalidLanguageServer, "invalid language server"),
        (HandlerError::NoSuchPeer, "no such peer"),
        (HandlerError::ContactIsYourself, "cannot add yourself as a contact"),
        (HandlerError::AccessDenied, "access denied"),
        (HandlerError::MessageTooLong, "message is too long"),
        (HandlerError::MessageBlank, "message can't be blank"),
        (HandlerError::NonceBlank, "nonce can't be blank"),
        (HandlerError::UserNotFound, "user not found"),
        (HandlerError::NoResponse, "handler did not send a response"),
        (HandlerError::Failed("why".to_string()), "why"),
    ] {
        assert_eq!(error.text(), text);
    }
}
