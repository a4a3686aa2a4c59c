//! Channels, and the messages in them.

use vstd::prelude::*;
use vstd::utf8::encode_utf8;

use crate::collab::error::HandlerError;
use crate::collab::ids::{ChannelId, ConnectionId, MessageId, UserId};
use crate::collab::message::{ChannelMessage, Message};
use crate::collab::moment::{nanos_per_second, unix_nanos, unix_timestamp};
use crate::collab::plan::{broadcast, law_broadcast_keeps_the_order, others};
use crate::collab::plan::{push_sends, sends, OnFailure, Step};
use crate::collab::response::Response;
use crate::sequences::rank;
use crate::strings::{law_only_white_space_is_blank, trim, trimmed, white_space};

verus! {

/// The number of messages that are read at once.
pub const MESSAGE_COUNT_PER_PAGE: usize = 100;

/// The most bytes that a message may have.
pub const MAX_MESSAGE_LEN: usize = 1024;

/// A message as it is on record.
#[derive(Debug)]
pub struct StoredMessage {
    pub id: MessageId,
    pub body: String,
    pub sent_at: time::OffsetDateTime,
    pub sender_id: UserId,
    pub nonce: u128,
}

/// Whether someone may use a channel.
pub fn check_access(can_access: bool) -> (outcome: Result<(), HandlerError>)
    ensures
        outcome == (if can_access {
            Ok(())
        } else {
            Err(HandlerError::AccessDenied)
        }),
{
    if can_access {
        Ok(())
    } else {
        Err(HandlerError::AccessDenied)
    }
}

/// A channel as a client is told of it.
#[derive(Debug, PartialEq, Eq)]
pub struct Channel {
    pub id: u64,
    pub name: String,
}

/// What a client is told of the channels that it may use, in order.
pub open spec fn channels_told(channels: Seq<(ChannelId, String)>) -> Seq<Channel> {
    Seq::new(
        channels.len(),
        |index: int| Channel { id: channels[index].0.0, name: channels[index].1 },
    )
}

/// What a client is told of the channels that it may use, in order.
pub fn get_channels(channels: &[(ChannelId, String)]) -> (found: Vec<Channel>)
    ensures
        found@ == channels_told(channels@),
{
    let mut found: Vec<Channel> = Vec::new();
    let mut index: usize = 0;
    while index < channels.len()
        invariant
            index <= channels@.len(),
            found@.len() == index,
            forall|at: int|
                0 <= at < index ==> #[trigger] found@[at] == (Channel {
                    id: channels@[at].0.0,
                    name: channels@[at].1,
                }),
        decreases channels@.len() - index,
    {
        found.push(Channel { id: channels[index].0.0, name: channels[index].1.clone() });
        index += 1;
    }
    found
}

/// The seconds from the start of 1970 to a moment, as they are sent.
pub open spec fn seconds_sent(moment: time::OffsetDateTime) -> u64 {
    ((unix_nanos(moment) / nanos_per_second()) as i64) as u64
}

/// Whether `message` is what a client is told of the message on record.
pub open spec fn is_sent_form(message: ChannelMessage, stored: StoredMessage) -> bool {
    &&& message.id == stored.id.0
    &&& message.body@ == stored.body@
    &&& message.timestamp == seconds_sent(stored.sent_at)
    &&& message.sender_id == stored.sender_id.0
    &&& message.nonce == stored.nonce
}

/// Some messages, and whether there are no earlier ones.
#[derive(Debug, PartialEq, Eq)]
pub struct MessagePage {
    pub messages: Vec<ChannelMessage>,
    pub done: bool,
}

/// Whether `page` is what a client is told of the messages that were read for a page: all of
/// them in order, and that there are no earlier ones where fewer came than were asked for.
pub open spec fn is_page_of(page: MessagePage, stored: Seq<StoredMessage>) -> bool {
    &&& page.done == (stored.len() < MESSAGE_COUNT_PER_PAGE)
    &&& page.messages@.len() == stored.len()
    &&& forall|index: int|
        0 <= index < stored.len() ==> is_sent_form(
            #[trigger] page.messages@[index],
            stored[index],
        )
}

/// What a client is told of the messages that were read for a page.
pub fn message_page(stored: &[StoredMessage]) -> (page: MessagePage)
    ensures
        is_page_of(page, stored@),
{
    let mut messages: Vec<ChannelMessage> = Vec::new();
    let mut index: usize = 0;
    while index < stored.len()
        invariant
            index <= stored@.len(),
            messages@.len() == index,
            forall|at: int|
                0 <= at < index ==> is_sent_form(#[trigger] messages@[at], stored@[at]),
        decreases stored@.len() - index,
    {
        let message: &StoredMessage = &stored[index];
        let seconds: i64 = unix_timestamp(&message.sent_at);
        messages.push(
            ChannelMessage {
                id: message.id.0,
                body: message.body.clone(),
                timestamp: #[verifier::truncate]
                (seconds as u64),
                sender_id: message.sender_id.0,
                nonce: message.nonce,
            },
        );
        index += 1;
    }
    MessagePage { messages, done: stored.len() < MESSAGE_COUNT_PER_PAGE }
}

/// What is wrong with a message that someone wants to send, if anything. White space at its
/// ends does not count.
pub open spec fn message_fault(body: Seq<char>, nonce: Option<u128>) -> Option<HandlerError> {
    if encode_utf8(trimmed(body)).len() > MAX_MESSAGE_LEN {
        Some(HandlerError::MessageTooLong)
    } else if trimmed(body).len() == 0 {
        Some(HandlerError::MessageBlank)
    } else if nonce is None {
        Some(HandlerError::NonceBlank)
    } else {
        None
    }
}

/// The body of a message without white space at its ends, which must not be too long nor
/// blank, and its nonce, which it must have.
pub fn validate_message(body: &str, nonce: Option<u128>) -> (outcome: Result<
    (String, u128),
    HandlerError,
>)
    ensures
        match message_fault(body@, nonce) {
            Some(fault) => outcome == Err::<(String, u128), HandlerError>(fault),
            None => outcome matches Ok(message) && message.0@ == trimmed(body@) && Some(message.1)
                == nonce,
        },
{
    let body: String = trim(body);
    if body.as_str().as_bytes().len() > MAX_MESSAGE_LEN {
        return Err(HandlerError::MessageTooLong);
    }
    if body.as_str().is_empty() {
        return Err(HandlerError::MessageBlank);
    }
    match nonce {
        Some(nonce) => Ok((body, nonce)),
        None => Err(HandlerError::NonceBlank),
    }
}

/// A message that was just put on record, as it is sent.
pub fn new_channel_message(
    id: MessageId,
    sender_id: UserId,
    body: String,
    sent_at: &time::OffsetDateTime,
    nonce: u128,
) -> (message: ChannelMessage)
    ensures
        message == (ChannelMessage {
            id: id.0,
            body,
            timestamp: seconds_sent(*sent_at),
            sender_id: sender_id.0,
            nonce,
        }),
{
    let seconds: i64 = unix_timestamp(sent_at);
    ChannelMessage {
        id: id.0,
        body,
        timestamp: #[verifier::truncate]
        (seconds as u64),
        sender_id: sender_id.0,
        nonce,
    }
}

/// What is done once a message is on record.
pub open spec fn message_steps(
    sender_id: ConnectionId,
    channel_id: ChannelId,
    message: ChannelMessage,
    connection_ids: Seq<ConnectionId>,
) -> Seq<Step> {
    sends(
        others(sender_id, connection_ids),
        Message::ChannelMessageSent { channel_id, message },
        OnFailure::Log,
    ).push(Step::Respond { response: Response::MessageSent { message } })
}

/// What to do once a message is on record: everyone else in the channel hears of it, and the
/// request is answered with the message.
pub fn send_channel_message(
    sender_id: ConnectionId,
    channel_id: ChannelId,
    message: &ChannelMessage,
    connection_ids: &[ConnectionId],
) -> (plan: Vec<Step>)
    ensures
        plan@ == message_steps(sender_id, channel_id, *message, connection_ids@),
{
    let receivers: Vec<ConnectionId> = broadcast(sender_id, connection_ids);
    let mut plan: Vec<Step> = Vec::new();
    push_sends(
        &mut plan,
        receivers.as_slice(),
        &Message::ChannelMessageSent { channel_id, message: message.clone() },
        OnFailure::Log,
    );
    assert(plan@ =~= sends(
        others(sender_id, connection_ids@),
        Message::ChannelMessageSent { channel_id, message: *message },
        OnFailure::Log,
    ));
    plan.push(Step::Respond { response: Response::MessageSent { message: message.clone() } });
    plan
}

/// A message that passes is neither blank nor too long, and passes again unchanged.
pub proof fn law_valid_messages_stay_valid(body: Seq<char>, nonce: Option<u128>)
    requires
        message_fault(body, nonce) is None,
    ensures
        0 < trimmed(body).len(),
        encode_utf8(trimmed(body)).len() <= MAX_MESSAGE_LEN,
        message_fault(trimmed(body), nonce) is None,
        trimmed(trimmed(body)) == trimmed(body),
{
    crate::strings::law_trim_once(body);
}

/// A client is told of every channel that it may use, in order, with its number and its name.
pub proof fn law_every_channel_is_told_of(channels: Seq<(ChannelId, String)>)
    ensures
        channels_told(channels).len() == channels.len(),
        forall|index: int|
            #![trigger channels[index]]
            0 <= index < channels.len() ==> channels_told(channels)[index].id == channels[index].0.0
                && channels_told(channels)[index].name == channels[index].1,
{
}

/// A page holds every message that was read, in order and unchanged, with the seconds that had passed
/// when it was sent, and says that there are no earlier ones exactly if fewer than a hundred were
/// read.
pub proof fn law_every_message_is_on_the_page(page: MessagePage, stored: Seq<StoredMessage>)
    requires
        is_page_of(page, stored),
    ensures
        page.done == (stored.len() < 100),
        page.messages@.len() == stored.len(),
        forall|index: int|
            #![trigger stored[index]]
            0 <= index < stored.len() ==> {
                let message = page.messages@[index];
                let nanos = unix_nanos(stored[index].sent_at);
                &&& message.id == stored[index].id.0
                &&& message.body@ == stored[index].body@
                &&& message.sender_id == stored[index].sender_id.0
                &&& message.nonce == stored[index].nonce
                &&& 0 <= nanos <= i64::MAX ==> message.timestamp * 1_000_000_000 <= nanos
                    < message.timestamp * 1_000_000_000 + 1_000_000_000
            },
{
    assert forall|index: int|
        #![trigger stored[index]]
        0 <= index < stored.len() implies {
        let message = page.messages@[index];
        let nanos = unix_nanos(stored[index].sent_at);
        &&& message.id == stored[index].id.0
        &&& message.body@ == stored[index].body@
        &&& message.sender_id == stored[index].sender_id.0
        &&& message.nonce == stored[index].nonce
        &&& 0 <= nanos <= i64::MAX ==> message.timestamp * 1_000_000_000 <= nanos
            < message.timestamp * 1_000_000_000 + 1_000_000_000
    } by {
        assert(is_sent_form(page.messages@[index], stored[index]));
    }
}

/// A message can be sent exactly if it holds something besides white space, has no more than 1024
/// bytes without the white space at its ends, and has a nonce. Of several faults the first of these
/// is named: that it is too long, that it is blank, that the nonce is missing.
pub proof fn law_what_can_be_sent(body: Seq<char>, nonce: Option<u128>)
    ensures
        ({
            let too_long = encode_utf8(trimmed(body)).len() > 1024;
            let blank = forall|at: int| 0 <= at < body.len() ==> white_space(#[trigger] body[at]);
            &&& (message_fault(body, nonce) is None) == (!too_long && !blank && nonce is Some)
            &&& too_long ==> message_fault(body, nonce) == Some(HandlerError::MessageTooLong)
            &&& !too_long && blank ==> message_fault(body, nonce) == Some(
                HandlerError::MessageBlank,
            )
            &&& !too_long && !blank && nonce is None ==> message_fault(body, nonce) == Some(
                HandlerError::NonceBlank,
            )
        }),
{
    law_only_white_space_is_blank(body);
}

/// A message that was sent reaches everyone in the channel but the sender, in order, and the sender
/// gets the message as the answer, last; nothing else is done.
pub proof fn law_a_message_reaches_all_others(
    sender_id: ConnectionId,
    channel_id: ChannelId,
    message: ChannelMessage,
    connection_ids: Seq<ConnectionId>,
)
    ensures
        ({
            let plan = message_steps(sender_id, channel_id, message, connection_ids);
            let wanted = |id: ConnectionId| id != sender_id;
            let told = connection_ids.filter(wanted).len() as int;
            &&& plan.len() == told + 1
            &&& forall|index: int|
                #![trigger connection_ids[index]]
                0 <= index < connection_ids.len() && connection_ids[index] != sender_id ==> {
                    let place = rank(connection_ids, wanted, index) as int;
                    &&& place < told
                    &&& plan[place] == (Step::Send {
                        to: connection_ids[index],
                        message: Message::ChannelMessageSent { channel_id, message },
                        on_failure: OnFailure::Log,
                    })
                }
            &&& plan.last() == (Step::Respond { response: Response::MessageSent { message } })
        }),
{
    law_broadcast_keeps_the_order(sender_id, connection_ids);
}

} // verus!
