//! Contacts: asking for them, answering, removing them, and hearing of them.

use vstd::prelude::*;

use crate::collab::error::HandlerError;
use crate::collab::ids::{ConnectionId, UserId};
use crate::collab::message::{no_update, ContactOf, ContactsUpdate, IncomingContactRequest, Message};
use crate::collab::plan::{push_sends, sends, OnFailure, Step};
use crate::collab::response::Response;
use crate::sequences::{lemma_joined_at, lemma_joined_len, piece_len, total};

verus! {

/// How two users stand to each other.
#[derive(Clone, Copy, Debug, PartialEq, Eq, Structural)]
pub enum ContactStatus {
    Accepted,
    Outgoing,
    Incoming,
}

/// Someone whom a user knows, and the connections over which they can be reached.
#[derive(Debug)]
pub struct Contact {
    pub user_id: UserId,
    pub status: ContactStatus,
    pub connection_ids: Vec<ConnectionId>,
}

/// The message that tells others how a user is.
pub open spec fn news_of(user_id: UserId) -> Message {
    Message::UpdateContacts {
        update: ContactsUpdate {
            contact: Some(ContactOf { user_id, should_notify: false }),
            ..no_update()
        },
    }
}

/// How a user is, to all connections of each accepted contact.
pub open spec fn contact_news(user_id: UserId, contacts: Seq<Contact>) -> Seq<Step>
    decreases contacts.len(),
{
    if contacts.len() == 0 {
        Seq::empty()
    } else if contacts.last().status == ContactStatus::Accepted {
        contact_news(user_id, contacts.drop_last()) + sends(
            contacts.last().connection_ids@,
            news_of(user_id),
            OnFailure::Log,
        )
    } else {
        contact_news(user_id, contacts.drop_last())
    }
}

/// What to do when something changed with a user: tell all connections of each accepted
/// contact.
pub fn update_user_contacts(user_id: UserId, contacts: &[Contact]) -> (plan: Vec<Step>)
    ensures
        plan@ == contact_news(user_id, contacts@),
{
    let mut update: ContactsUpdate = ContactsUpdate::none();
    update.contact = Some(ContactOf { user_id, should_notify: false });
    let message: Message = Message::UpdateContacts { update };
    assert(message == news_of(user_id));
    let mut plan: Vec<Step> = Vec::new();
    let mut index: usize = 0;
    assert(contacts@.take(0) =~= Seq::<Contact>::empty());
    while index < contacts.len()
        invariant
            index <= contacts@.len(),
            message == news_of(user_id),
            plan@ == contact_news(user_id, contacts@.take(index as int)),
        decreases contacts@.len() - index,
    {
        assert(contacts@.take(index + 1).drop_last() =~= contacts@.take(index as int));
        let is_accepted: bool = match contacts[index].status {
            ContactStatus::Accepted => true,
            _ => false,
        };
        if is_accepted {
            push_sends(
                &mut plan,
                contacts[index].connection_ids.as_slice(),
                &message,
                OnFailure::Log,
            );
        }
        index += 1;
    }
    assert(contacts@.take(index as int) =~= contacts@);
    plan
}

/// The message that only says how a user is.
pub open spec fn only_contact(user_id: UserId) -> Message {
    Message::UpdateContacts {
        update: ContactsUpdate {
            contact: Some(ContactOf { user_id, should_notify: false }),
            incoming_request: None,
            remove_incoming_request: None,
            outgoing_request: None,
            remove_outgoing_request: None,
        },
    }
}

/// The number of connections over which an accepted contact is reached.
pub open spec fn accepted_connections(contact: Contact) -> nat {
    if contact.status == ContactStatus::Accepted {
        contact.connection_ids@.len()
    } else {
        0
    }
}

/// Every connection of every accepted contact is sent how the user is, contact by contact, once for
/// each time that it is named; nothing else is sent.
pub proof fn law_every_accepted_contact_hears(user_id: UserId, contacts: Seq<Contact>)
    ensures
        contact_news(user_id, contacts).len() == total(
            contacts,
            |contact: Contact| accepted_connections(contact),
        ),
        forall|index: int, at: int|
            #![trigger contacts[index].connection_ids@[at]]
            0 <= index < contacts.len() && contacts[index].status == ContactStatus::Accepted && 0
                <= at < contacts[index].connection_ids@.len() ==> {
                let place = total(
                    contacts.take(index),
                    |contact: Contact| accepted_connections(contact),
                ) + at;
                &&& place < contact_news(user_id, contacts).len()
                &&& contact_news(user_id, contacts)[place] == (Step::Send {
                    to: contacts[index].connection_ids@[at],
                    message: only_contact(user_id),
                    on_failure: OnFailure::Log,
                })
            },
{
    let piece = |contact: Contact|
        if contact.status == ContactStatus::Accepted {
            sends(contact.connection_ids@, only_contact(user_id), OnFailure::Log)
        } else {
            Seq::empty()
        };
    let joined = |some: Seq<Contact>| contact_news(user_id, some);
    assert forall|some: Seq<Contact>| some.len() > 0 implies joined(some) == #[trigger] joined(
        some.drop_last(),
    ) + piece(some.last()) by {
        assert(joined(some) =~= joined(some.drop_last()) + piece(some.last()));
    }
    lemma_joined_len(contacts, piece, joined);
    let size = |contact: Contact| accepted_connections(contact);
    assert(size =~= piece_len(piece));
    assert forall|index: int, at: int|
        #![trigger contacts[index].connection_ids@[at]]
        0 <= index < contacts.len() && contacts[index].status == ContactStatus::Accepted && 0 <= at
            < contacts[index].connection_ids@.len() implies {
        let place = total(contacts.take(index), size) + at;
        &&& place < contact_news(user_id, contacts).len()
        &&& contact_news(user_id, contacts)[place] == (Step::Send {
            to: contacts[index].connection_ids@[at],
            message: only_contact(user_id),
            on_failure: OnFailure::Log,
        })
    } by {
        lemma_joined_at(contacts, piece, joined, index, at);
    }
}

/// Only those who are accepted contacts of a user hear how that user is.
pub proof fn law_only_accepted_contacts_hear(user_id: UserId, contacts: Seq<Contact>)
    ensures
        forall|index: int|
            0 <= index < contact_news(user_id, contacts).len() ==> (
            #[trigger] contact_news(user_id, contacts)[index] matches Step::Send { to, message, on_failure }
                && message == news_of(user_id) && reaches_accepted(contacts, to)),
    decreases contacts.len(),
{
    if contacts.len() > 0 {
        let rest = contacts.drop_last();
        law_only_accepted_contacts_hear(user_id, rest);
        let all = contact_news(user_id, contacts);
        let earlier = contact_news(user_id, rest);
        assert forall|index: int| 0 <= index < all.len() implies (
        #[trigger] all[index] matches Step::Send { to, message, on_failure } && message == news_of(
            user_id,
        ) && reaches_accepted(contacts, to)) by {
            if index < earlier.len() {
                assert(all[index] == earlier[index]);
                let to = earlier[index]->Send_to;
                assert(reaches_accepted(rest, to));
                let at = choose|at: int|
                    0 <= at < rest.len() && (#[trigger] rest[at]).status == ContactStatus::Accepted
                        && rest[at].connection_ids@.contains(to);
                assert(contacts[at] == rest[at]);
            } else {
                let to = contacts.last().connection_ids@[index - earlier.len()];
                assert(contacts[contacts.len() - 1].connection_ids@.contains(to));
            }
        }
    }
}

/// Whether `connection_id` is one over which an accepted contact can be reached.
pub open spec fn reaches_accepted(contacts: Seq<Contact>, connection_id: ConnectionId) -> bool {
    exists|at: int|
        0 <= at < contacts.len() && (#[trigger] contacts[at]).status == ContactStatus::Accepted
            && contacts[at].connection_ids@.contains(connection_id)
}

/// Whether a user may ask another to be a contact: anyone but themselves.
pub fn may_request_contact(requester_id: UserId, responder_id: UserId) -> (outcome: Result<
    (),
    HandlerError,
>)
    ensures
        outcome == (if requester_id == responder_id {
            Err(HandlerError::ContactIsYourself)
        } else {
            Ok(())
        }),
{
    if requester_id == responder_id {
        Err(HandlerError::ContactIsYourself)
    } else {
        Ok(())
    }
}

/// The same change to all connections of a user.
pub open spec fn updates(connection_ids: Seq<ConnectionId>, update: ContactsUpdate) -> Seq<Step> {
    sends(connection_ids, Message::UpdateContacts { update }, OnFailure::Abort)
}

/// What is done once a user has asked another to be a contact.
pub open spec fn contact_request_steps(
    requester_id: UserId,
    responder_id: UserId,
    requester_connection_ids: Seq<ConnectionId>,
    responder_connection_ids: Seq<ConnectionId>,
) -> Seq<Step> {
    updates(
        requester_connection_ids,
        ContactsUpdate { outgoing_request: Some(responder_id), ..no_update() },
    ) + updates(
        responder_connection_ids,
        ContactsUpdate {
            incoming_request: Some(IncomingContactRequest { requester_id, should_notify: true }),
            ..no_update()
        },
    ) + seq![Step::Respond { response: Response::Ack }]
}

/// What to do once a user has asked another to be a contact: both hear of it on all their
/// connections, and the request is answered.
pub fn request_contact(
    requester_id: UserId,
    responder_id: UserId,
    requester_connection_ids: &[ConnectionId],
    responder_connection_ids: &[ConnectionId],
) -> (plan: Vec<Step>)
    ensures
        plan@ == contact_request_steps(
            requester_id,
            responder_id,
            requester_connection_ids@,
            responder_connection_ids@,
        ),
{
    let mut plan: Vec<Step> = Vec::new();
    let mut update: ContactsUpdate = ContactsUpdate::none();
    update.outgoing_request = Some(responder_id);
    let ghost first = update;
    push_sends(
        &mut plan,
        requester_connection_ids,
        &Message::UpdateContacts { update },
        OnFailure::Abort,
    );
    let mut update: ContactsUpdate = ContactsUpdate::none();
    update.incoming_request = Some(IncomingContactRequest { requester_id, should_notify: true });
    push_sends(
        &mut plan,
        responder_connection_ids,
        &Message::UpdateContacts { update },
        OnFailure::Abort,
    );
    plan.push(Step::Respond { response: Response::Ack });
    assert(plan@ =~= updates(requester_connection_ids@, first) + updates(
        responder_connection_ids@,
        update,
    ) + seq![Step::Respond { response: Response::Ack }]);
    plan
}

/// How a user answers someone who asked to be a contact.
#[derive(Clone, Copy, Debug, PartialEq, Eq, Structural)]
pub enum ContactRequestResponse {
    Accept,
    Reject,
    Block,
    Dismiss,
}

/// What is to be put on record of such an answer.
#[derive(Clone, Copy, Debug, PartialEq, Eq, Structural)]
pub enum ContactRecord {
    /// The notification is gone, and the request stays open.
    DismissNotification { responder_id: UserId, requester_id: UserId },
    /// The request is answered.
    Respond { responder_id: UserId, requester_id: UserId, accept: bool },
}

/// What is to be put on record of an answer to someone who asked to be a contact.
pub open spec fn record_of(
    responder_id: UserId,
    requester_id: UserId,
    response: ContactRequestResponse,
) -> ContactRecord {
    if response == ContactRequestResponse::Dismiss {
        ContactRecord::DismissNotification { responder_id, requester_id }
    } else {
        ContactRecord::Respond {
            responder_id,
            requester_id,
            accept: response == ContactRequestResponse::Accept,
        }
    }
}

/// What is to be put on record of an answer to someone who asked to be a contact.
pub fn record_contact_response(
    responder_id: UserId,
    requester_id: UserId,
    response: ContactRequestResponse,
) -> (record: ContactRecord)
    ensures
        record == record_of(responder_id, requester_id, response),
{
    match response {
        ContactRequestResponse::Dismiss => ContactRecord::DismissNotification {
            responder_id,
            requester_id,
        },
        ContactRequestResponse::Accept => ContactRecord::Respond {
            responder_id,
            requester_id,
            accept: true,
        },
        _ => ContactRecord::Respond { responder_id, requester_id, accept: false },
    }
}

/// What each side hears of an answer, and the answer to the request itself. Where the request
/// was only dismissed, no one hears of it.
pub open spec fn response_steps(
    record: ContactRecord,
    responder_connection_ids: Seq<ConnectionId>,
    requester_connection_ids: Seq<ConnectionId>,
) -> Seq<Step> {
    match record {
        ContactRecord::DismissNotification { .. } => seq![Step::Respond { response: Response::Ack }],
        ContactRecord::Respond { responder_id, requester_id, accept } => updates(
            responder_connection_ids,
            ContactsUpdate {
                contact: if accept {
                    Some(ContactOf { user_id: requester_id, should_notify: false })
                } else {
                    None
                },
                remove_incoming_request: Some(requester_id),
                ..no_update()
            },
        ) + updates(
            requester_connection_ids,
            ContactsUpdate {
                contact: if accept {
                    Some(ContactOf { user_id: responder_id, should_notify: true })
                } else {
                    None
                },
                remove_outgoing_request: Some(responder_id),
                ..no_update()
            },
        ) + seq![Step::Respond { response: Response::Ack }],
    }
}

/// What to do once an answer to someone who asked to be a contact is on record: the open
/// request goes away on both sides, and where it was accepted, each side gets the other as a
/// contact; only the one who asked is notified.
pub fn respond_to_contact_request(
    record: ContactRecord,
    responder_connection_ids: &[ConnectionId],
    requester_connection_ids: &[ConnectionId],
) -> (plan: Vec<Step>)
    ensures
        plan@ == response_steps(record, responder_connection_ids@, requester_connection_ids@),
{
    let mut plan: Vec<Step> = Vec::new();
    if let ContactRecord::Respond { responder_id, requester_id, accept } = record {
        let mut for_responder: ContactsUpdate = ContactsUpdate::none();
        if accept {
            for_responder.contact = Some(
                ContactOf { user_id: requester_id, should_notify: false },
            );
        }
        for_responder.remove_incoming_request = Some(requester_id);
        push_sends(
            &mut plan,
            responder_connection_ids,
            &Message::UpdateContacts { update: for_responder },
            OnFailure::Abort,
        );
        let mut for_requester: ContactsUpdate = ContactsUpdate::none();
        if accept {
            for_requester.contact = Some(
                ContactOf { user_id: responder_id, should_notify: true },
            );
        }
        for_requester.remove_outgoing_request = Some(responder_id);
        push_sends(
            &mut plan,
            requester_connection_ids,
            &Message::UpdateContacts { update: for_requester },
            OnFailure::Abort,
        );
        assert(plan@ =~= updates(responder_connection_ids@, for_responder) + updates(
            requester_connection_ids@,
            for_requester,
        ));
    }
    plan.push(Step::Respond { response: Response::Ack });
    assert(plan@ =~= response_steps(
        record,
        responder_connection_ids@,
        requester_connection_ids@,
    ));
    plan
}

/// What is done once a user has removed a contact.
pub open spec fn contact_removal_steps(
    requester_id: UserId,
    responder_id: UserId,
    requester_connection_ids: Seq<ConnectionId>,
    responder_connection_ids: Seq<ConnectionId>,
) -> Seq<Step> {
    updates(
        requester_connection_ids,
        ContactsUpdate { remove_outgoing_request: Some(responder_id), ..no_update() },
    ) + updates(
        responder_connection_ids,
        ContactsUpdate { remove_incoming_request: Some(requester_id), ..no_update() },
    ) + seq![Step::Respond { response: Response::Ack }]
}

/// What to do once a user has removed a contact: the open request between the two goes away
/// on both sides, and the request is answered.
pub fn remove_contact(
    requester_id: UserId,
    responder_id: UserId,
    requester_connection_ids: &[ConnectionId],
    responder_connection_ids: &[ConnectionId],
) -> (plan: Vec<Step>)
    ensures
        plan@ == contact_removal_steps(
            requester_id,
            responder_id,
            requester_connection_ids@,
            responder_connection_ids@,
        ),
{
    let mut plan: Vec<Step> = Vec::new();
    let mut for_requester: ContactsUpdate = ContactsUpdate::none();
    for_requester.remove_outgoing_request = Some(responder_id);
    push_sends(
        &mut plan,
        requester_connection_ids,
        &Message::UpdateContacts { update: for_requester },
        OnFailure::Abort,
    );
    let mut for_responder: ContactsUpdate = ContactsUpdate::none();
    for_responder.remove_incoming_request = Some(requester_id);
    push_sends(
        &mut plan,
        responder_connection_ids,
        &Message::UpdateContacts { update: for_responder },
        OnFailure::Abort,
    );
    plan.push(Step::Respond { response: Response::Ack });
    assert(plan@ =~= updates(requester_connection_ids@, for_requester) + updates(
        responder_connection_ids@,
        for_responder,
    ) + seq![Step::Respond { response: Response::Ack }]);
    plan
}

/// When a user asks another to be a contact, every connection of the one who asks hears whom they
/// asked, every connection of the other hears who asks and is notified, and the request is answered
/// last; nothing else is done.
pub proof fn law_both_sides_hear_of_a_request(
    requester_id: UserId,
    responder_id: UserId,
    requester_connection_ids: Seq<ConnectionId>,
    responder_connection_ids: Seq<ConnectionId>,
)
    ensures
        ({
            let plan = contact_request_steps(
                requester_id,
                responder_id,
                requester_connection_ids,
                responder_connection_ids,
            );
            let first = requester_connection_ids.len();
            &&& plan.len() == first + responder_connection_ids.len() + 1
            &&& forall|index: int|
                #![trigger requester_connection_ids[index]]
                0 <= index < first ==> plan[index] == (Step::Send {
                    to: requester_connection_ids[index],
                    message: Message::UpdateContacts {
                        update: ContactsUpdate {
                            contact: None,
                            incoming_request: None,
                            remove_incoming_request: None,
                            outgoing_request: Some(responder_id),
                            remove_outgoing_request: None,
                        },
                    },
                    on_failure: OnFailure::Abort,
                })
            &&& forall|index: int|
                #![trigger responder_connection_ids[index]]
                0 <= index < responder_connection_ids.len() ==> plan[first + index] == (Step::Send {
                    to: responder_connection_ids[index],
                    message: Message::UpdateContacts {
                        update: ContactsUpdate {
                            contact: None,
                            incoming_request: Some(
                                IncomingContactRequest { requester_id, should_notify: true },
                            ),
                            remove_incoming_request: None,
                            outgoing_request: None,
                            remove_outgoing_request: None,
                        },
                    },
                    on_failure: OnFailure::Abort,
                })
            &&& plan.last() == (Step::Respond { response: Response::Ack })
        }),
{
}

/// When a user answers someone who asked to be a contact, the request goes away on every connection
/// of both. Where it was accepted, each has the other as a contact from then on, and only the one
/// who asked is notified; else neither hears of a contact. Where it was only dismissed, nothing is
/// done but to answer.
pub proof fn law_both_sides_hear_of_a_response(
    responder_id: UserId,
    requester_id: UserId,
    response: ContactRequestResponse,
    responder_connection_ids: Seq<ConnectionId>,
    requester_connection_ids: Seq<ConnectionId>,
)
    ensures
        ({
            let record = record_of(responder_id, requester_id, response);
            let plan = response_steps(record, responder_connection_ids, requester_connection_ids);
            let accepted = response is Accept;
            let first = responder_connection_ids.len();
            &&& plan.last() == (Step::Respond { response: Response::Ack })
            &&& response is Dismiss ==> plan.len() == 1 && record == (
            ContactRecord::DismissNotification { responder_id, requester_id })
            &&& response !is Dismiss ==> {
                &&& record == (ContactRecord::Respond { responder_id, requester_id, accept: accepted })
                &&& plan.len() == first + requester_connection_ids.len() + 1
                &&& forall|index: int|
                    #![trigger responder_connection_ids[index]]
                    0 <= index < first ==> plan[index] == (Step::Send {
                        to: responder_connection_ids[index],
                        message: Message::UpdateContacts {
                            update: ContactsUpdate {
                                contact: if accepted {
                                    Some(ContactOf { user_id: requester_id, should_notify: false })
                                } else {
                                    None
                                },
                                incoming_request: None,
                                remove_incoming_request: Some(requester_id),
                                outgoing_request: None,
                                remove_outgoing_request: None,
                            },
                        },
                        on_failure: OnFailure::Abort,
                    })
                &&& forall|index: int|
                    #![trigger requester_connection_ids[index]]
                    0 <= index < requester_connection_ids.len() ==> plan[first + index]
                        == (Step::Send {
                        to: requester_connection_ids[index],
                        message: Message::UpdateContacts {
                            update: ContactsUpdate {
                                contact: if accepted {
                                    Some(ContactOf { user_id: responder_id, should_notify: true })
                                } else {
                                    None
                                },
                                incoming_request: None,
                                remove_incoming_request: None,
                                outgoing_request: None,
                                remove_outgoing_request: Some(responder_id),
                            },
                        },
                        on_failure: OnFailure::Abort,
                    })
            }
        }),
{
}

/// When a user removes a contact, the open request between the two goes away on every connection of
/// both, and the request is answered last; nothing else is done.
pub proof fn law_both_sides_hear_of_a_removal(
    requester_id: UserId,
    responder_id: UserId,
    requester_connection_ids: Seq<ConnectionId>,
    responder_connection_ids: Seq<ConnectionId>,
)
    ensures
        ({
            let plan = contact_removal_steps(
                requester_id,
                responder_id,
                requester_connection_ids,
                responder_connection_ids,
            );
            let first = requester_connection_ids.len();
            &&& plan.len() == first + responder_connection_ids.len() + 1
            &&& forall|index: int|
                #![trigger requester_connection_ids[index]]
                0 <= index < first ==> plan[index] == (Step::Send {
                    to: requester_connection_ids[index],
                    message: Message::UpdateContacts {
                        update: ContactsUpdate {
                            contact: None,
                            incoming_request: None,
                            remove_incoming_request: None,
                            outgoing_request: None,
                            remove_outgoing_request: Some(responder_id),
                        },
                    },
                    on_failure: OnFailure::Abort,
                })
            &&& forall|index: int|
                #![trigger responder_connection_ids[index]]
                0 <= index < responder_connection_ids.len() ==> plan[first + index] == (Step::Send {
                    to: responder_connection_ids[index],
                    message: Message::UpdateContacts {
                        update: ContactsUpdate {
                            contact: None,
                            incoming_request: None,
                            remove_incoming_request: Some(requester_id),
                            outgoing_request: None,
                            remove_outgoing_request: None,
                        },
                    },
                    on_failure: OnFailure::Abort,
                })
            &&& plan.last() == (Step::Respond { response: Response::Ack })
        }),
{
}

} // verus!
