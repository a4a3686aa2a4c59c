use collaboration::client::fake_server::{
    Credentials, EstablishConnectionError, FakeServer, HungUp, Incoming, Reception,
};
use collaboration::collab::ids::ConnectionId;
use collaboration::collab::message::Message;
use collaboration::elements::hook::Hook;
use collaboration::installation::{
    latest_release_url, npm_info_arguments, npm_install_arguments, npm_package_latest_version,
    NpmInfo,
};
use collaboration::live_kit::room::{
    display_sources_callback, done_callback, on_frame, publish_callback, remote_video_tracks,
    ConnectionState, FrameDelivery, LocalTrackPublication, MacOSDisplay, NativeHandle,
    RemoteVideoTrack, RemoteVideoTrackUpdate, Room, RoomError,
};
use collaboration::vim::editor_events::{
    editor_blurred, editor_created, editor_focused, editor_local_selections_changed,
    editor_released, focused_editor_event, init, EditorEvent, GlobalEvent,
};
use collaboration::vim::state::{EditorId, EditorMode, Mode, Vim, VimEffect};

#[test]
fn hooks_hand_the_size_of_the_child_on() {
    let hook = Hook::new(20u32).on_after_layout(|size: u32| size + 1);
    assert_eq!(*hook.child(), 20);
    assert_eq!(hook.layout(|child: &u32| *child * 2), (40, Some(41)));
    let silent: Hook<u32, fn(u32) -> u32> = Hook::new(20);
    assert_eq!(silent.layout(|child: &u32| *child * 2), (40, None));
}

fn vim(enabled: bool, mode: Mode) -> Vim {
    Vim {
        editors: vec![EditorId(1)],
        active_editor: None,
        enabled,
        mode,
        has_active_operator: false,
    }
}

const VISUAL: Mode = Mode::Visual { line: false };

#[test]
fn all_that_happens_to_editors_is_heard_of() {
    let mut subscriptions = vec![];
    init(&mut subscriptions);
    assert_eq!(
        subscriptions,
        vec![
            GlobalEvent::EditorCreated,
            GlobalEvent::EditorFocused,
            GlobalEvent::EditorBlurred,
            GlobalEvent::EditorReleased,
        ]
    );
}

#[test]
fn editors_come_and_go() {
    let mut vim = vim(true, Mode::Normal);
    assert_eq!(
        editor_created(&mut vim, EditorId(2)),
        vec![VimEffect::SyncSettings]
    );
    editor_created(&mut vim, EditorId(2));
    assert_eq!(vim.editors, vec![EditorId(1), EditorId(2)]);
    vim.active_editor = Some(EditorId(2));
    editor_released(&mut vim, EditorId(2));
    assert_eq!(vim.editors, vec![EditorId(1)]);
    assert_eq!(vim.active_editor, None);
}

#[test]
fn the_focus_decides_the_mode() {
    let observe = VimEffect::ObserveEditor {
        editor: EditorId(1),
    };
    let switch = |mode| VimEffect::SwitchMode {
        mode,
        leave_selections: true,
    };
    let focus = |enabled, mode, empty| {
        let mut vim = vim(enabled, Mode::Normal);
        let effects = editor_focused(&mut vim, EditorId(1), mode, empty);
        assert_eq!(vim.active_editor, Some(EditorId(1)));
        effects
    };
    assert_eq!(focus(false, EditorMode::SingleLine, false), vec![observe]);
    assert_eq!(
        focus(true, EditorMode::SingleLine, false),
        vec![observe, switch(Mode::Insert)]
    );
    assert_eq!(
        focus(true, EditorMode::AutoHeight { max_lines: 3 }, true),
        vec![observe, switch(Mode::Insert)]
    );
    assert_eq!(
        focus(true, EditorMode::Full, false),
        vec![observe, switch(VISUAL)]
    );
    assert_eq!(focus(true, EditorMode::Full, true), vec![observe]);
}

#[test]
fn losing_the_focus_is_noted() {
    let mut vim = vim(true, Mode::Normal);
    vim.active_editor = Some(EditorId(1));
    assert_eq!(
        editor_blurred(&mut vim, EditorId(2)),
        vec![VimEffect::SyncSettings]
    );
    assert_eq!(vim.active_editor, Some(EditorId(1)));
    editor_blurred(&mut vim, EditorId(1));
    assert_eq!(vim.active_editor, None);
}

#[test]
fn selecting_leads_to_visual_mode() {
    let switch = vec![VimEffect::SwitchMode {
        mode: VISUAL,
        leave_selections: false,
    }];
    let changed =
        |enabled, mode, empty| editor_local_selections_changed(&vim(enabled, mode), empty);
    assert_eq!(changed(true, Mode::Normal, false), switch);
    assert_eq!(changed(true, Mode::Normal, true), vec![]);
    assert_eq!(changed(false, Mode::Normal, false), vec![]);
    assert_eq!(changed(true, Mode::Insert, false), vec![]);
    let event = |leader, event| focused_editor_event(&vim(true, Mode::Normal), leader, event, false);
    assert_eq!(event(false, EditorEvent::SelectionsChanged { local: true }), switch);
    assert_eq!(event(false, EditorEvent::SelectionsChanged { local: false }), vec![]);
    assert_eq!(event(true, EditorEvent::SelectionsChanged { local: true }), vec![]);
    assert_eq!(event(false, EditorEvent::IgnoredInput), vec![]);
    let mut waiting = vim(true, Mode::Normal);
    waiting.has_active_operator = true;
    assert_eq!(
        focused_editor_event(&waiting, false, EditorEvent::IgnoredInput, true),
        vec![VimEffect::ClearOperator]
    );
    assert_eq!(
        focused_editor_event(&waiting, false, EditorEvent::Other, true),
        vec![]
    );
}

#[test]
fn rooms_are_connected_only_if_that_worked() {
    let mut room = Room::new();
    assert_eq!(*room.status(), ConnectionState::Disconnected);
    let connect = |room: &mut Room, outcome| {
        room.connect("url".to_string(), "token".to_string(), outcome)
    };
    assert_eq!(
        connect(&mut room, done_callback(Some("no".to_string()))),
        Err(RoomError {
            context: "error connecting to room".to_string(),
            cause: "no".to_string()
        })
    );
    assert_eq!(*room.status(), ConnectionState::Disconnected);
    assert_eq!(connect(&mut room, done_callback(None)), Ok(()));
    assert_eq!(
        *room.status(),
        ConnectionState::Connected {
            url: "url".to_string(),
            token: "token".to_string()
        }
    );
    room.did_disconnect();
    assert_eq!(*room.status(), ConnectionState::Disconnected);
}

#[test]
fn subscribers_who_do_not_listen_are_dropped() {
    let mut room = Room::new();
    let first = room.remote_video_track_updates();
    let second = room.remote_video_track_updates();
    let third = room.remote_video_track_updates();
    let track = RemoteVideoTrack::new(NativeHandle(1), "sid".to_string(), "ada".to_string());
    let news = room.did_subscribe_to_remote_video_track(&track);
    assert_eq!(news.len(), 3);
    assert_eq!(news[1].0, second);
    assert_eq!(
        news[1].1,
        RemoteVideoTrackUpdate::Subscribed(track.duplicate())
    );
    room.retain_subscribers(&vec![true, false, true]);
    let news = room
        .did_unsubscribe_from_remote_video_track(&"ada".to_string(), &"sid".to_string());
    assert_eq!(
        news.iter().map(|news| news.0).collect::<Vec<_>>(),
        vec![first, third]
    );
    assert_eq!(
        news[0].1,
        RemoteVideoTrackUpdate::Unsubscribed {
            publisher_id: "ada".to_string(),
            track_id: "sid".to_string()
        }
    );
}

#[test]
fn frames_are_rendered_while_someone_may_want_them() {
    assert!(on_frame(FrameDelivery::Sent));
    assert!(on_frame(FrameDelivery::Full));
    assert!(!on_frame(FrameDelivery::Closed));
    assert!(!on_frame(FrameDelivery::Inactive));
}

#[test]
fn native_outcomes_are_read() {
    assert_eq!(
        publish_callback(NativeHandle(3), None),
        Ok(LocalTrackPublication(NativeHandle(3)))
    );
    assert_eq!(
        publish_callback(NativeHandle(3), Some("no".to_string())),
        Err("no".to_string())
    );
    assert_eq!(
        Room::publish_video_track(Ok(LocalTrackPublication(NativeHandle(3)))),
        Ok(LocalTrackPublication(NativeHandle(3)))
    );
    assert_eq!(
        Room::publish_video_track(Err("no".to_string())),
        Err(RoomError {
            context: "error publishing video track".to_string(),
            cause: "no".to_string()
        })
    );
    assert_eq!(
        display_sources_callback(Some(vec![NativeHandle(1), NativeHandle(2)]), String::new()),
        Ok(vec![
            MacOSDisplay(NativeHandle(1)),
            MacOSDisplay(NativeHandle(2))
        ])
    );
    assert_eq!(
        display_sources_callback(None, "no".to_string()),
        Err("no".to_string())
    );
    let tracks = remote_video_tracks(Some(vec![(NativeHandle(1), "sid".to_string())]), "ada");
    assert_eq!(tracks[0].sid(), "sid");
    assert_eq!(tracks[0].publisher_id(), "ada");
    assert_eq!(remote_video_tracks(None, "ada").len(), 0);
}

#[test]
fn packages_have_a_newest_version() {
    let info = |latest: Option<&str>, versions: &[&str]| NpmInfo {
        latest: latest.map(|version| version.to_string()),
        versions: versions.iter().map(|version| version.to_string()).collect(),
    };
    let newest = |info| npm_package_latest_version("pack", info);
    assert_eq!(newest(info(Some("2"), &["1", "3"])), Ok("2".to_string()));
    assert_eq!(newest(info(None, &["1", "3"])), Ok("3".to_string()));
    assert_eq!(
        newest(info(None, &[])).unwrap_err().message,
        "no version found for npm package pack"
    );
}

#[test]
fn the_package_manager_is_called() {
    assert_eq!(npm_info_arguments("pack"), vec!["info", "pack", "--json"]);
    let (before, behind) = npm_install_arguments(&[
        ("a".to_string(), "1".to_string()),
        ("b".to_string(), "2".to_string()),
    ]);
    assert_eq!(before, vec!["install", "--prefix"]);
    assert_eq!(behind, vec!["a@1", "b@2"]);
    assert_eq!(
        latest_release_url("ada/pack"),
        "https://api.github.com/repos/ada/pack/releases/latest"
    );
}

#[test]
fn the_stand_in_checks_tokens() {
    let mut server = FakeServer::for_client(5);
    let credentials = server.authenticate();
    assert_eq!(
        credentials,
        Credentials {
            user_id: 5,
            access_token: "0".to_string()
        }
    );
    assert_eq!(server.auth_count(), 1);
    assert_eq!(server.establish_connection(&credentials), Ok(()));
    server.roll_access_token();
    assert_eq!(
        server.establish_connection(&credentials),
        Err(EstablishConnectionError::Unauthorized)
    );
    let credentials = server.authenticate();
    server.forbid_connections();
    assert_eq!(
        server.establish_connection(&credentials),
        Err(EstablishConnectionError::Forbidden)
    );
    assert_eq!(
        EstablishConnectionError::Forbidden.text(),
        Some("server is forbidding connections")
    );
    server.allow_connections();
    assert_eq!(server.establish_connection(&credentials), Ok(()));
}

#[test]
fn the_stand_in_connects_and_disconnects() {
    let mut server = FakeServer::for_client(5);
    assert_eq!(
        server.connected(ConnectionId(3)),
        Message::Hello { peer_id: 3 }
    );
    assert_eq!(server.connection_id(), ConnectionId(3));
    assert_eq!(server.disconnect(), Some(ConnectionId(3)));
    assert_eq!(server.disconnect(), None);
    let receive = |is_wanted, asks_private_user_info| {
        FakeServer::receive(Some(Incoming {
            is_wanted,
            asks_private_user_info,
        }))
    };
    assert_eq!(receive(true, true), Ok(Reception::Deliver));
    assert_eq!(receive(false, true), Ok(Reception::AnswerPrivateUserInfo));
    assert_eq!(receive(false, false), Ok(Reception::Unexpected));
    assert_eq!(FakeServer::receive(None), Err(HungUp));
    assert_eq!(HungUp.text(), "other half hung up");
    assert_eq!(FakeServer::private_user_info().metrics_id, "the-metrics-id");
    assert!(!FakeServer::private_user_info().staff);
    assert!(server.asks_for_own_user(&[5]));
    assert!(!server.asks_for_own_user(&[5, 6]));
}
