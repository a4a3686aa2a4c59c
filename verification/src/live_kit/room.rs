//! The state of a video room, apart from the native objects behind it.

use vstd::prelude::*;
use vstd::string::*;

use crate::sequences::{lemma_rank_step, rank};

verus! {

/// Identifies a video track.
pub type Sid = String;

/// The number of frames that wait for a receiver that does not keep up.
pub const FRAME_CAPACITY: usize = 64;

/// Whether a room is connected, and to what.
#[derive(Debug, PartialEq, Eq)]
pub enum ConnectionState {
    Disconnected,
    Connected { url: String, token: String },
}

impl Clone for ConnectionState {
    fn clone(&self) -> (copy: ConnectionState)
        ensures
            copy == *self,
    {
        match self {
            ConnectionState::Disconnected => ConnectionState::Disconnected,
            ConnectionState::Connected { url, token } => ConnectionState::Connected {
                url: url.clone(),
                token: token.clone(),
            },
        }
    }
}

/// Identifies a native object.
#[derive(Clone, Copy, Debug, PartialEq, Eq, Structural)]
pub struct NativeHandle(pub usize);

/// A display that can be shared.
#[derive(Clone, Copy, Debug, PartialEq, Eq, Structural)]
pub struct MacOSDisplay(pub NativeHandle);

/// A video track that was published to a room.
#[derive(Clone, Copy, Debug, PartialEq, Eq, Structural)]
pub struct LocalTrackPublication(pub NativeHandle);

/// A video track that another participant published.
#[derive(Debug, PartialEq, Eq)]
pub struct RemoteVideoTrack {
    native_track: NativeHandle,
    sid: Sid,
    publisher_id: String,
}

impl RemoteVideoTrack {
    /// The native track.
    pub closed spec fn native(self) -> NativeHandle {
        self.native_track
    }

    /// What identifies the track.
    pub closed spec fn id(self) -> Seq<char> {
        self.sid@
    }

    /// What identifies its publisher.
    pub closed spec fn publisher(self) -> Seq<char> {
        self.publisher_id@
    }

    /// The track `sid` of the participant `publisher_id`.
    pub fn new(native_track: NativeHandle, sid: Sid, publisher_id: String) -> (track:
        RemoteVideoTrack)
        ensures
            track.native() == native_track,
            track.id() == sid@,
            track.publisher() == publisher_id@,
    {
        RemoteVideoTrack { native_track, sid, publisher_id }
    }

    /// What identifies the track.
    pub fn sid(&self) -> (sid: &str)
        ensures
            sid@ == self.id(),
    {
        self.sid.as_str()
    }

    /// What identifies its publisher.
    pub fn publisher_id(&self) -> (publisher_id: &str)
        ensures
            publisher_id@ == self.publisher(),
    {
        self.publisher_id.as_str()
    }

    /// A copy of the description of this track.
    pub fn duplicate(&self) -> (track: RemoteVideoTrack)
        ensures
            track.native() == self.native(),
            track.id() == self.id(),
            track.publisher() == self.publisher(),
    {
        RemoteVideoTrack {
            native_track: self.native_track,
            sid: self.sid.clone(),
            publisher_id: self.publisher_id.clone(),
        }
    }
}

/// News of the video tracks of other participants.
#[derive(Debug, PartialEq, Eq)]
pub enum RemoteVideoTrackUpdate {
    Subscribed(RemoteVideoTrack),
    Unsubscribed { publisher_id: Sid, track_id: Sid },
}

/// What became of a frame that was handed to its receivers.
#[derive(Clone, Copy, Debug, PartialEq, Eq, Structural)]
pub enum FrameDelivery {
    Sent,
    /// There is no receiver any more.
    Closed,
    /// There is no active receiver.
    Inactive,
    /// The receivers do not keep up.
    Full,
}

/// Whether to go on rendering after a frame met with `delivery`: as long as someone may still
/// want the next one.
pub fn on_frame(delivery: FrameDelivery) -> (go_on: bool)
    ensures
        go_on == (delivery == FrameDelivery::Sent || delivery == FrameDelivery::Full),
{
    match delivery {
        FrameDelivery::Sent => true,
        FrameDelivery::Closed | FrameDelivery::Inactive => false,
        FrameDelivery::Full => true,
    }
}

/// What was tried in vain, and what the native room said of it.
#[derive(Debug, PartialEq, Eq)]
pub struct RoomError {
    pub context: String,
    pub cause: String,
}

/// The outcome of a native call that reports an error or nothing.
pub fn done_callback(error: Option<String>) -> (outcome: Result<(), String>)
    ensures
        outcome == (match error {
            Some(error) => Err(error),
            None => Ok(()),
        }),
{
    match error {
        None => Ok(()),
        Some(error) => Err(error),
    }
}

/// The outcome of publishing a track: the publication, unless an error is reported.
pub fn publish_callback(publication: NativeHandle, error: Option<String>) -> (outcome: Result<
    LocalTrackPublication,
    String,
>)
    ensures
        outcome == (match error {
            Some(error) => Err(error),
            None => Ok(LocalTrackPublication(publication)),
        }),
{
    match error {
        None => Ok(LocalTrackPublication(publication)),
        Some(error) => Err(error),
    }
}

/// The outcome of asking for the displays: all of them in order, unless there is no list.
pub fn display_sources_callback(sources: Option<Vec<NativeHandle>>, error: String) -> (outcome:
    Result<Vec<MacOSDisplay>, String>)
    ensures
        match sources {
            Some(sources) => outcome matches Ok(displays) && displays@ == sources@.map_values(
                |source: NativeHandle| MacOSDisplay(source),
            ),
            None => outcome == Err::<Vec<MacOSDisplay>, String>(error),
        },
{
    match sources {
        None => Err(error),
        Some(sources) => {
            let mut displays: Vec<MacOSDisplay> = Vec::new();
            let mut index: usize = 0;
            let ghost convert = |source: NativeHandle| MacOSDisplay(source);
            while index < sources.len()
                invariant
                    index <= sources@.len(),
                    displays@.len() == index,
                    forall|at: int| 0 <= at < index ==> displays@[at] == MacOSDisplay(sources@[at]),
                decreases sources@.len() - index,
            {
                displays.push(MacOSDisplay(sources[index]));
                index += 1;
            }
            assert(displays@ =~= sources@.map_values(convert));
            Ok(displays)
        },
    }
}

/// The tracks of a participant, in the order in which the native room lists them; none where
/// it has no list.
pub fn remote_video_tracks(tracks: Option<Vec<(NativeHandle, Sid)>>, participant_id: &str) -> (found:
    Vec<RemoteVideoTrack>)
    ensures
        match tracks {
            Some(tracks) => {
                &&& found@.len() == tracks@.len()
                &&& forall|index: int|
                    0 <= index < tracks@.len() ==> {
                        &&& (#[trigger] found@[index]).native() == tracks@[index].0
                        &&& found@[index].id() == tracks@[index].1@
                        &&& found@[index].publisher() == participant_id@
                    }
            },
            None => found@.len() == 0,
        },
{
    let mut found: Vec<RemoteVideoTrack> = Vec::new();
    if let Some(tracks) = tracks {
        let mut index: usize = 0;
        while index < tracks.len()
            invariant
                index <= tracks@.len(),
                found@.len() == index,
                forall|at: int|
                    0 <= at < index ==> {
                        &&& (#[trigger] found@[at]).native() == tracks@[at].0
                        &&& found@[at].id() == tracks@[at].1@
                        &&& found@[at].publisher() == participant_id@
                    },
            decreases tracks@.len() - index,
        {
            found.push(
                RemoteVideoTrack::new(
                    tracks[index].0,
                    tracks[index].1.clone(),
                    participant_id.to_string(),
                ),
            );
            index += 1;
        }
    }
    found
}

/// Identifies a subscriber to news of video tracks.
#[derive(Clone, Copy, Debug, PartialEq, Eq, Structural)]
pub struct SubscriberId(pub u64);

/// A video room.
#[derive(Debug)]
pub struct Room {
    connection: ConnectionState,
    remote_video_track_subscribers: Vec<SubscriberId>,
    next_subscriber: u64,
}

/// The elements of `all` whose place in `kept` holds true.
pub open spec fn retained<T>(all: Seq<T>, kept: Seq<bool>) -> Seq<T>
    decreases all.len(),
{
    if all.len() == 0 {
        Seq::empty()
    } else if kept[all.len() - 1] {
        retained(all.drop_last(), kept).push(all.last())
    } else {
        retained(all.drop_last(), kept)
    }
}

impl Room {
    /// Whether the room is connected, and to what.
    pub closed spec fn state(self) -> ConnectionState {
        self.connection
    }

    /// Those who hear of video tracks, in the order in which they came.
    pub closed spec fn subscribers(self) -> Seq<SubscriberId> {
        self.remote_video_track_subscribers@
    }

    /// The number of subscribers that there ever were.
    pub closed spec fn subscriptions(self) -> u64 {
        self.next_subscriber
    }

    /// Subscribers are numbered, and no number is used twice.
    pub open spec fn wf(self) -> bool {
        &&& self.subscribers().no_duplicates()
        &&& forall|index: int|
            0 <= index < self.subscribers().len() ==> (#[trigger] self.subscribers()[index]).0
                < self.subscriptions()
    }

    /// A room that is not connected and has no subscribers.
    pub fn new() -> (room: Room)
        ensures
            room.wf(),
            room.state() is Disconnected,
            room.subscribers() == Seq::<SubscriberId>::empty(),
            room.subscriptions() == 0,
    {
        Room {
            connection: ConnectionState::Disconnected,
            remote_video_track_subscribers: Vec::new(),
            next_subscriber: 0,
        }
    }

    /// Whether the room is connected, and to what.
    pub fn status(&self) -> (status: &ConnectionState)
        ensures
            *status == self.state(),
    {
        &self.connection
    }

    /// Takes note of the outcome of connecting: the room is connected only if that worked.
    pub fn connect(&mut self, url: String, token: String, outcome: Result<(), String>) -> (result:
        Result<(), RoomError>)
        ensures
            match outcome {
                Ok(()) => result == Ok::<(), RoomError>(()),
                Err(cause) => {
                    &&& result matches Err(error)
                    &&& error.context@ == "error connecting to room"@
                    &&& error.cause == cause
                },
            },
            final(self).subscribers() == old(self).subscribers(),
            final(self).subscriptions() == old(self).subscriptions(),
            final(self).state() == (match outcome {
                Ok(()) => ConnectionState::Connected { url, token },
                Err(_) => old(self).state(),
            }),
    {
        match outcome {
            Ok(()) => {
                self.connection = ConnectionState::Connected { url, token };
                Ok(())
            },
            Err(cause) => Err(RoomError { context: "error connecting to room".to_string(), cause }),
        }
    }

    /// Hands a publication out, or says that the track could not be published.
    pub fn publish_video_track(outcome: Result<LocalTrackPublication, String>) -> (result: Result<
        LocalTrackPublication,
        RoomError,
    >)
        ensures
            match outcome {
                Ok(publication) => result == Ok::<LocalTrackPublication, RoomError>(publication),
                Err(cause) => {
                    &&& result matches Err(error)
                    &&& error.context@ == "error publishing video track"@
                    &&& error.cause == cause
                },
            },
    {
        match outcome {
            Ok(publication) => Ok(publication),
            Err(cause) => Err(
                RoomError { context: "error publishing video track".to_string(), cause },
            ),
        }
    }

    /// Takes note that the connection is gone.
    pub fn did_disconnect(&mut self)
        ensures
            final(self).state() is Disconnected,
            final(self).subscribers() == old(self).subscribers(),
            final(self).subscriptions() == old(self).subscriptions(),
    {
        self.connection = ConnectionState::Disconnected;
    }

    /// Adds a subscriber to news of video tracks.
    pub fn remote_video_track_updates(&mut self) -> (subscriber: SubscriberId)
        requires
            old(self).wf(),
            old(self).subscriptions() < u64::MAX,
        ensures
            final(self).wf(),
            subscriber.0 == old(self).subscriptions(),
            final(self).subscribers() == old(self).subscribers().push(subscriber),
            final(self).subscriptions() == old(self).subscriptions() + 1,
            final(self).state() == old(self).state(),
    {
        let subscriber = SubscriberId(self.next_subscriber);
        self.remote_video_track_subscribers.push(subscriber);
        self.next_subscriber = self.next_subscriber + 1;
        subscriber
    }

    /// Tells every subscriber of a new track.
    pub fn did_subscribe_to_remote_video_track(&self, track: &RemoteVideoTrack) -> (news: Vec<
        (SubscriberId, RemoteVideoTrackUpdate),
    >)
        ensures
            news@.len() == self.subscribers().len(),
            forall|index: int|
                0 <= index < news@.len() ==> {
                    &&& (#[trigger] news@[index]).0 == self.subscribers()[index]
                    &&& news@[index].1 matches RemoteVideoTrackUpdate::Subscribed(copy)
                    &&& copy.native() == track.native()
                    &&& copy.id() == track.id()
                    &&& copy.publisher() == track.publisher()
                },
    {
        let mut news: Vec<(SubscriberId, RemoteVideoTrackUpdate)> = Vec::new();
        let mut index: usize = 0;
        while index < self.remote_video_track_subscribers.len()
            invariant
                index <= self.subscribers().len(),
                news@.len() == index,
                forall|at: int|
                    0 <= at < index ==> {
                        &&& (#[trigger] news@[at]).0 == self.subscribers()[at]
                        &&& news@[at].1 matches RemoteVideoTrackUpdate::Subscribed(copy)
                        &&& copy.native() == track.native()
                        &&& copy.id() == track.id()
                        &&& copy.publisher() == track.publisher()
                    },
            decreases self.subscribers().len() - index,
        {
            news.push(
                (
                    self.remote_video_track_subscribers[index],
                    RemoteVideoTrackUpdate::Subscribed(track.duplicate()),
                ),
            );
            index += 1;
        }
        news
    }

    /// Tells every subscriber that a track is gone.
    pub fn did_unsubscribe_from_remote_video_track(
        &self,
        publisher_id: &String,
        track_id: &String,
    ) -> (news: Vec<(SubscriberId, RemoteVideoTrackUpdate)>)
        ensures
            news@.len() == self.subscribers().len(),
            forall|index: int|
                0 <= index < news@.len() ==> {
                    &&& (#[trigger] news@[index]).0 == self.subscribers()[index]
                    &&& news@[index].1 == (RemoteVideoTrackUpdate::Unsubscribed {
                        publisher_id: *publisher_id,
                        track_id: *track_id,
                    })
                },
    {
        let mut news: Vec<(SubscriberId, RemoteVideoTrackUpdate)> = Vec::new();
        let mut index: usize = 0;
        while index < self.remote_video_track_subscribers.len()
            invariant
                index <= self.subscribers().len(),
                news@.len() == index,
                forall|at: int|
                    0 <= at < index ==> {
                        &&& (#[trigger] news@[at]).0 == self.subscribers()[at]
                        &&& news@[at].1 == (RemoteVideoTrackUpdate::Unsubscribed {
                            publisher_id: *publisher_id,
                            track_id: *track_id,
                        })
                    },
            decreases self.subscribers().len() - index,
        {
            news.push(
                (
                    self.remote_video_track_subscribers[index],
                    RemoteVideoTrackUpdate::Unsubscribed {
                        publisher_id: publisher_id.clone(),
                        track_id: track_id.clone(),
                    },
                ),
            );
            index += 1;
        }
        news
    }

    /// Drops the subscribers that did not take the last news: `accepted` says of each, in
    /// order, whether it did.
    pub fn retain_subscribers(&mut self, accepted: &Vec<bool>)
        requires
            old(self).wf(),
            accepted@.len() == old(self).subscribers().len(),
        ensures
            final(self).wf(),
            final(self).subscribers() == retained(old(self).subscribers(), accepted@),
            final(self).subscriptions() == old(self).subscriptions(),
            final(self).state() == old(self).state(),
    {
        let ghost all = self.remote_video_track_subscribers@;
        let mut kept: Vec<SubscriberId> = Vec::new();
        let mut index: usize = 0;
        while index < self.remote_video_track_subscribers.len()
            invariant
                *self == *old(self),
                all == self.remote_video_track_subscribers@,
                index <= all.len(),
                accepted@.len() == all.len(),
                kept@ == retained(all.take(index as int), accepted@),
            decreases all.len() - index,
        {
            assert(all.take(index + 1).drop_last() =~= all.take(index as int));
            if accepted[index] {
                kept.push(self.remote_video_track_subscribers[index]);
            }
            index += 1;
        }
        assert(all.take(all.len() as int) =~= all);
        proof {
            lemma_retained_elements(all, accepted@);
        }
        self.remote_video_track_subscribers = kept;
    }
}

/// What is retained was there before, at most as often.
proof fn lemma_retained_elements<T>(all: Seq<T>, kept: Seq<bool>)
    ensures
        forall|index: int|
            0 <= index < retained(all, kept).len() ==> all.contains(
                #[trigger] retained(all, kept)[index],
            ),
        all.no_duplicates() ==> retained(all, kept).no_duplicates(),
    decreases all.len(),
{
    if all.len() > 0 {
        let rest = all.drop_last();
        lemma_retained_elements(rest, kept);
        assert forall|index: int| 0 <= index < retained(all, kept).len() implies all.contains(
            #[trigger] retained(all, kept)[index],
        ) by {
            if index < retained(rest, kept).len() {
                let element = retained(rest, kept)[index];
                let at = choose|at: int| 0 <= at < rest.len() && rest[at] == element;
                assert(all[at] == element);
            } else {
                assert(all[all.len() - 1] == all.last());
            }
        }
        if all.no_duplicates() {
            assert(rest.no_duplicates());
            assert forall|index: int| 0 <= index < retained(rest, kept).len() implies retained(
                rest,
                kept,
            )[index] != all.last() by {
                let element = retained(rest, kept)[index];
                let at = choose|at: int| 0 <= at < rest.len() && rest[at] == element;
                assert(all[at] == element);
            }
        }
    }
}

/// Subscribers who take every piece of news are never dropped.
pub proof fn law_accepting_subscribers_stay(room: Room, accepted: Seq<bool>)
    requires
        accepted.len() == room.subscribers().len(),
        forall|index: int| 0 <= index < accepted.len() ==> #[trigger] accepted[index],
    ensures
        retained(room.subscribers(), accepted) == room.subscribers(),
{
    lemma_all_retained(room.subscribers(), accepted);
}

/// Where all are kept, nothing is left out.
proof fn lemma_all_retained<T>(all: Seq<T>, kept: Seq<bool>)
    requires
        all.len() <= kept.len(),
        forall|index: int| 0 <= index < kept.len() ==> #[trigger] kept[index],
    ensures
        retained(all, kept) == all,
    decreases all.len(),
{
    if all.len() > 0 {
        lemma_all_retained(all.drop_last(), kept);
        assert(all.drop_last().push(all.last()) =~= all);
    }
}

/// Every subscriber who took the last news stays, in order, and no one else does.
pub proof fn law_exactly_the_accepting_stay(all: Seq<SubscriberId>, kept: Seq<bool>)
    requires
        all.len() == kept.len(),
    ensures
        retained(all, kept).len() == kept.filter(|stays: bool| stays).len(),
        forall|index: int|
            #![trigger kept[index]]
            0 <= index < all.len() && kept[index] ==> {
                let place = rank(kept, |stays: bool| stays, index);
                &&& place < retained(all, kept).len()
                &&& retained(all, kept)[place as int] == all[index]
            },
{
    lemma_retained_places(all, kept);
    assert(kept.take(all.len() as int) =~= kept);
}

/// Where those who stay among the first ones come to stand.
proof fn lemma_retained_places(all: Seq<SubscriberId>, kept: Seq<bool>)
    requires
        all.len() <= kept.len(),
    ensures
        retained(all, kept).len() == kept.take(all.len() as int).filter(|stays: bool| stays).len(),
        forall|index: int|
            #![trigger kept[index]]
            0 <= index < all.len() && kept[index] ==> {
                let place = rank(kept, |stays: bool| stays, index);
                &&& place < retained(all, kept).len()
                &&& retained(all, kept)[place as int] == all[index]
            },
    decreases all.len(),
{
    reveal(Seq::filter);
    let stay = |stays: bool| stays;
    if all.len() > 0 {
        let rest = all.drop_last();
        lemma_retained_places(rest, kept);
        lemma_rank_step(kept, stay, rest.len() as int);
        assert forall|index: int|
            #![trigger kept[index]]
            0 <= index < all.len() && kept[index] implies {
            let place = rank(kept, stay, index);
            &&& place < retained(all, kept).len()
            &&& retained(all, kept)[place as int] == all[index]
        } by {
            if index < rest.len() {
                assert(rest[index] == all[index]);
            }
        }
    }
}

} // verus!
