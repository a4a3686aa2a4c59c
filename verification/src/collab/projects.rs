//! Shared projects: how they are shared, joined and left, and what those who take part in
//! them are told.

use vstd::prelude::*;

use crate::collab::ids::{ConnectionId, ProjectId, UserId};
use crate::collab::message::{Collaborator, Message, PayloadId, WorktreePiece};
use crate::collab::plan::{broadcast, forwards, law_broadcast_keeps_the_order, others};
use crate::collab::plan::{push_forwards, push_sends, sends, OnFailure, Step};
use crate::collab::response::Response;
use crate::collab::rooms::{room_news, room_updated, LeftProject, Room};
use crate::sequences::{lemma_joined_at, lemma_joined_len, lemma_rank_ends};
use crate::sequences::{piece_len, rank, total};

verus! {

/// The most entries of a worktree that are sent at once.
pub const MAX_CHUNK_SIZE: usize = 256;

/// A guest of a project.
#[derive(Clone, Copy, Debug, PartialEq, Eq, Structural)]
pub struct Guest {
    pub connection_id: ConnectionId,
    pub replica_id: u16,
    pub user_id: UserId,
}

/// A worktree of a project.
#[derive(Debug)]
pub struct Worktree {
    pub id: u64,
    pub root_name: String,
    pub abs_path: PayloadId,
    pub visible: bool,
    pub scan_id: u64,
    pub is_complete: bool,
    pub entry_count: usize,
    pub summary_count: usize,
}

/// A language server that runs for a project.
#[derive(Debug, PartialEq, Eq)]
pub struct LanguageServer {
    pub id: u64,
    pub name: String,
}

/// A project that is shared.
#[derive(Debug)]
pub struct Project {
    pub id: ProjectId,
    pub host_connection_id: ConnectionId,
    pub host_user_id: UserId,
    pub guests: Vec<Guest>,
    pub worktrees: Vec<Worktree>,
    pub language_servers: Vec<LanguageServer>,
}

impl Project {
    /// The connections of the guests.
    pub open spec fn guest_ids(self) -> Seq<ConnectionId> {
        Seq::new(self.guests@.len(), |index: int| self.guests@[index].connection_id)
    }

    /// The connections of the guests, and that of the host.
    pub open spec fn member_ids(self) -> Seq<ConnectionId> {
        self.guest_ids().push(self.host_connection_id)
    }

    /// The connections of the guests.
    pub fn guest_connection_ids(&self) -> (ids: Vec<ConnectionId>)
        ensures
            ids@ == self.guest_ids(),
    {
        let mut ids: Vec<ConnectionId> = Vec::new();
        let mut index: usize = 0;
        while index < self.guests.len()
            invariant
                index <= self.guests@.len(),
                ids@ == self.guest_ids().take(index as int),
            decreases self.guests@.len() - index,
        {
            ids.push(self.guests[index].connection_id);
            index += 1;
            assert(ids@ =~= self.guest_ids().take(index as int));
        }
        assert(self.guest_ids().take(index as int) =~= self.guest_ids());
        ids
    }

    /// The connections of the guests, and that of the host.
    pub fn connection_ids(&self) -> (ids: Vec<ConnectionId>)
        ensures
            ids@ == self.member_ids(),
    {
        let mut ids: Vec<ConnectionId> = self.guest_connection_ids();
        ids.push(self.host_connection_id);
        ids
    }
}

/// What a client is told of a worktree before its entries.
#[derive(Debug, PartialEq, Eq)]
pub struct WorktreeMetadata {
    pub id: u64,
    pub root_name: String,
    pub visible: bool,
    pub abs_path: PayloadId,
}

/// The answer to a request to join a project.
#[derive(Debug, PartialEq, Eq)]
pub struct JoinProjectResponse {
    pub worktrees: Vec<WorktreeMetadata>,
    pub replica_id: u32,
    pub collaborators: Vec<Collaborator>,
    pub language_servers: Vec<LanguageServer>,
}

/// The guests other than `sender_id`, as collaborators.
pub open spec fn other_collaborators(guests: Seq<Guest>, sender_id: ConnectionId) -> Seq<
    Collaborator,
>
    decreases guests.len(),
{
    if guests.len() == 0 {
        Seq::empty()
    } else {
        let rest = other_collaborators(guests.drop_last(), sender_id);
        let guest = guests.last();
        if guest.connection_id != sender_id {
            rest.push(
                Collaborator {
                    peer_id: guest.connection_id.0,
                    replica_id: guest.replica_id as u32,
                    user_id: guest.user_id.0,
                },
            )
        } else {
            rest
        }
    }
}

/// Everyone who takes part in a project but for `sender_id`: the host, who is the first
/// replica, and the other guests.
pub open spec fn collaborators_of(project: Project, sender_id: ConnectionId) -> Seq<Collaborator> {
    seq![
        Collaborator {
            peer_id: project.host_connection_id.0,
            replica_id: 0,
            user_id: project.host_user_id.0,
        },
    ] + other_collaborators(project.guests@, sender_id)
}

/// Everyone who takes part in a project but for `sender_id`.
pub fn collaborators(project: &Project, sender_id: ConnectionId) -> (found: Vec<Collaborator>)
    ensures
        found@ == collaborators_of(*project, sender_id),
{
    let mut found: Vec<Collaborator> = Vec::new();
    found.push(
        Collaborator {
            peer_id: project.host_connection_id.0,
            replica_id: 0,
            user_id: project.host_user_id.0,
        },
    );
    let ghost host = found@;
    let mut index: usize = 0;
    assert(project.guests@.take(0) =~= Seq::<Guest>::empty());
    assert(found@ =~= host + other_collaborators(project.guests@.take(0), sender_id));
    while index < project.guests.len()
        invariant
            index <= project.guests@.len(),
            found@ == host + other_collaborators(project.guests@.take(index as int), sender_id),
        decreases project.guests@.len() - index,
    {
        let guest: Guest = project.guests[index];
        assert(project.guests@.take(index + 1).drop_last() =~= project.guests@.take(index as int));
        if guest.connection_id != sender_id {
            found.push(
                Collaborator {
                    peer_id: guest.connection_id.0,
                    replica_id: guest.replica_id as u32,
                    user_id: guest.user_id.0,
                },
            );
        }
        index += 1;
        assert(found@ =~= host + other_collaborators(
            project.guests@.take(index as int),
            sender_id,
        ));
    }
    assert(project.guests@.take(index as int) =~= project.guests@);
    assert(host =~= seq![
        Collaborator {
            peer_id: project.host_connection_id.0,
            replica_id: 0,
            user_id: project.host_user_id.0,
        },
    ]);
    found
}

/// Someone who joins is never listed among the other guests.
pub proof fn law_collaborators_are_others(guests: Seq<Guest>, sender_id: ConnectionId)
    ensures
        forall|index: int|
            0 <= index < other_collaborators(guests, sender_id).len() ==> (
            #[trigger] other_collaborators(guests, sender_id)[index]).peer_id != sender_id.0,
    decreases guests.len(),
{
    if guests.len() > 0 {
        law_collaborators_are_others(guests.drop_last(), sender_id);
        let rest = other_collaborators(guests.drop_last(), sender_id);
        let all = other_collaborators(guests, sender_id);
        assert forall|index: int| 0 <= index < all.len() implies (#[trigger] all[index]).peer_id
            != sender_id.0 by {
            if index < rest.len() {
                assert(all[index] == rest[index]);
            }
        }
    }
}

/// Every guest but the one who joins is listed, in order and once, with their connection, replica
/// and user, and no one else is.
pub proof fn law_every_other_guest_is_a_collaborator(guests: Seq<Guest>, sender_id: ConnectionId)
    ensures
        other_collaborators(guests, sender_id).len() == guests.filter(
            |guest: Guest| guest.connection_id != sender_id,
        ).len(),
        forall|index: int|
            #![trigger guests[index]]
            0 <= index < guests.len() && guests[index].connection_id != sender_id ==> {
                let place = rank(guests, |guest: Guest| guest.connection_id != sender_id, index);
                &&& place < other_collaborators(guests, sender_id).len()
                &&& other_collaborators(guests, sender_id)[place as int] == (Collaborator {
                    peer_id: guests[index].connection_id.0,
                    replica_id: guests[index].replica_id as u32,
                    user_id: guests[index].user_id.0,
                })
            },
    decreases guests.len(),
{
    reveal(Seq::filter);
    let wanted = |guest: Guest| guest.connection_id != sender_id;
    if guests.len() > 0 {
        let rest = guests.drop_last();
        law_every_other_guest_is_a_collaborator(rest, sender_id);
        lemma_rank_ends(rest, wanted);
        assert forall|index: int|
            #![trigger guests[index]]
            0 <= index < guests.len() && guests[index].connection_id != sender_id implies {
            let place = rank(guests, wanted, index);
            &&& place < other_collaborators(guests, sender_id).len()
            &&& other_collaborators(guests, sender_id)[place as int] == (Collaborator {
                peer_id: guests[index].connection_id.0,
                replica_id: guests[index].replica_id as u32,
                user_id: guests[index].user_id.0,
            })
        } by {
            if index < rest.len() {
                assert(rest.take(index) =~= guests.take(index));
                assert(rest[index] == guests[index]);
            } else {
                assert(guests.take(index) =~= rest);
                assert(rest.take(index) =~= rest);
            }
        }
    }
}

/// The first collaborator is the host, who is replica zero, and the guests but for the one who joins
/// follow.
pub proof fn law_the_host_comes_first(project: Project, sender_id: ConnectionId)
    ensures
        collaborators_of(project, sender_id).len() == 1 + project.guests@.filter(
            |guest: Guest| guest.connection_id != sender_id,
        ).len(),
        collaborators_of(project, sender_id)[0] == (Collaborator {
            peer_id: project.host_connection_id.0,
            replica_id: 0,
            user_id: project.host_user_id.0,
        }),
        forall|index: int|
            #![trigger project.guests@[index]]
            0 <= index < project.guests@.len() && project.guests@[index].connection_id != sender_id
                ==> {
                let place = 1int + rank(
                    project.guests@,
                    |guest: Guest| guest.connection_id != sender_id,
                    index,
                );
                &&& place < collaborators_of(project, sender_id).len()
                &&& collaborators_of(project, sender_id)[place] == (Collaborator {
                    peer_id: project.guests@[index].connection_id.0,
                    replica_id: project.guests@[index].replica_id as u32,
                    user_id: project.guests@[index].user_id.0,
                })
            },
{
    law_every_other_guest_is_a_collaborator(project.guests@, sender_id);
    let all = collaborators_of(project, sender_id);
    let guests = project.guests@;
    assert forall|index: int|
        #![trigger project.guests@[index]]
        0 <= index < guests.len() && guests[index].connection_id != sender_id implies {
        let place = 1int + rank(
            project.guests@,
            |guest: Guest| guest.connection_id != sender_id,
            index,
        );
        &&& place < all.len()
        &&& all[place] == (Collaborator {
            peer_id: guests[index].connection_id.0,
            replica_id: guests[index].replica_id as u32,
            user_id: guests[index].user_id.0,
        })
    } by {
        let place = rank(guests, |guest: Guest| guest.connection_id != sender_id, index) as int;
        assert(all[1 + place] == other_collaborators(guests, sender_id)[place]);
    }
}

/// The connections of the guests are those of each guest, in order, and the members are they and the
/// host.
pub proof fn law_members_are_guests_and_host(project: Project)
    ensures
        project.guest_ids().len() == project.guests@.len(),
        forall|index: int|
            0 <= index < project.guests@.len() ==> #[trigger] project.guest_ids()[index]
                == project.guests@[index].connection_id,
        project.member_ids().len() == project.guests@.len() + 1,
        project.member_ids().contains(project.host_connection_id),
        forall|index: int|
            0 <= index < project.guests@.len() ==> project.member_ids().contains(
                (#[trigger] project.guests@[index]).connection_id,
            ),
{
    let all = project.member_ids();
    assert(all[project.guests@.len() as int] == project.host_connection_id);
    assert forall|index: int| 0 <= index < project.guests@.len() implies all.contains(
        (#[trigger] project.guests@[index]).connection_id,
    ) by {
        assert(all[index] == project.guests@[index].connection_id);
    }
}

/// The pieces in which the entries of a worktree from `first` on are sent. The last piece says
/// whether the worktree is complete.
pub open spec fn pieces_from(
    project_id: ProjectId,
    worktree: Worktree,
    max_chunk_size: int,
    first: int,
) -> Seq<WorktreePiece>
    decreases worktree.entry_count - first,
{
    let left = worktree.entry_count - first;
    if max_chunk_size <= 0 || left < 0 {
        Seq::empty()
    } else if left <= max_chunk_size {
        seq![
            WorktreePiece {
                project_id,
                worktree_id: worktree.id,
                root_name: worktree.root_name,
                abs_path: worktree.abs_path,
                scan_id: worktree.scan_id,
                first_entry: first as usize,
                entry_count: left as usize,
                removed_count: 0,
                is_last_update: worktree.is_complete,
            },
        ]
    } else {
        seq![
            WorktreePiece {
                project_id,
                worktree_id: worktree.id,
                root_name: worktree.root_name,
                abs_path: worktree.abs_path,
                scan_id: worktree.scan_id,
                first_entry: first as usize,
                entry_count: max_chunk_size as usize,
                removed_count: 0,
                is_last_update: false,
            },
        ] + pieces_from(project_id, worktree, max_chunk_size, first + max_chunk_size)
    }
}

/// Splits the entries of a worktree into pieces of at most `max_chunk_size` entries; without
/// entries there is one piece.
pub fn split_worktree_update(
    project_id: ProjectId,
    worktree: &Worktree,
    max_chunk_size: usize,
) -> (pieces: Vec<WorktreePiece>)
    requires
        max_chunk_size > 0,
    ensures
        pieces@ == pieces_from(project_id, *worktree, max_chunk_size as int, 0),
{
    let mut pieces: Vec<WorktreePiece> = Vec::new();
    let mut first: usize = 0;
    while worktree.entry_count - first > max_chunk_size
        invariant
            max_chunk_size > 0,
            first <= worktree.entry_count,
            pieces_from(project_id, *worktree, max_chunk_size as int, 0) == pieces@ + pieces_from(
                project_id,
                *worktree,
                max_chunk_size as int,
                first as int,
            ),
        decreases worktree.entry_count - first,
    {
        let ghost before = pieces@;
        pieces.push(
            WorktreePiece {
                project_id,
                worktree_id: worktree.id,
                root_name: worktree.root_name.clone(),
                abs_path: worktree.abs_path,
                scan_id: worktree.scan_id,
                first_entry: first,
                entry_count: max_chunk_size,
                removed_count: 0,
                is_last_update: false,
            },
        );
        proof {
            let rest = pieces_from(
                project_id,
                *worktree,
                max_chunk_size as int,
                first + max_chunk_size,
            );
            assert(before + (seq![pieces@.last()] + rest) =~= pieces@ + rest);
        }
        first += max_chunk_size;
    }
    pieces.push(
        WorktreePiece {
            project_id,
            worktree_id: worktree.id,
            root_name: worktree.root_name.clone(),
            abs_path: worktree.abs_path,
            scan_id: worktree.scan_id,
            first_entry: first,
            entry_count: worktree.entry_count - first,
            removed_count: 0,
            is_last_update: worktree.is_complete,
        },
    );
    assert(pieces@ =~= pieces_from(project_id, *worktree, max_chunk_size as int, 0));
    pieces
}

/// The pieces of a worktree hold all its entries, in order and none twice. None is too large,
/// and only the last can say that the worktree is complete.
pub proof fn law_pieces_hold_all_entries(
    project_id: ProjectId,
    worktree: Worktree,
    max_chunk_size: int,
    first: int,
)
    requires
        0 < max_chunk_size <= usize::MAX,
        0 <= first <= worktree.entry_count,
    ensures
        ({
            let pieces = pieces_from(project_id, worktree, max_chunk_size, first);
            &&& pieces.len() > 0
            &&& pieces[0].first_entry == first
            &&& pieces.last().first_entry + pieces.last().entry_count == worktree.entry_count
            &&& pieces.last().is_last_update == worktree.is_complete
            &&& forall|index: int|
                0 <= index < pieces.len() ==> (#[trigger] pieces[index]).entry_count
                    <= max_chunk_size
            &&& forall|index: int|
                0 <= index < pieces.len() - 1 ==> {
                    &&& pieces[index + 1].first_entry == (#[trigger] pieces[index]).first_entry
                        + pieces[index].entry_count
                    &&& !pieces[index].is_last_update
                }
        }),
    decreases worktree.entry_count - first,
{
    let pieces = pieces_from(project_id, worktree, max_chunk_size, first);
    if worktree.entry_count - first > max_chunk_size {
        law_pieces_hold_all_entries(project_id, worktree, max_chunk_size, first + max_chunk_size);
        let rest = pieces_from(project_id, worktree, max_chunk_size, first + max_chunk_size);
        assert(pieces.len() == rest.len() + 1);
        assert forall|index: int| 1 <= index < pieces.len() implies pieces[index] == rest[index
            - 1] by {}
        assert(pieces.last() == rest.last());
        assert forall|index: int| 0 <= index < pieces.len() implies (
        #[trigger] pieces[index]).entry_count <= max_chunk_size by {
            if index > 0 {
                assert(pieces[index] == rest[index - 1]);
            }
        }
        assert forall|index: int| 0 <= index < pieces.len() - 1 implies {
            &&& pieces[index + 1].first_entry == (#[trigger] pieces[index]).first_entry
                + pieces[index].entry_count
            &&& !pieces[index].is_last_update
        } by {
            assert(pieces[index + 1] == rest[index]);
            if index > 0 {
                assert(pieces[index] == rest[index - 1]);
            }
        }
    }
}

/// Every piece of a worktree says of which worktree of which project it is, where that lies, and that
/// nothing is gone; all but the last are full, and the last is empty only if the worktree is.
pub proof fn law_pieces_name_their_worktree(
    project_id: ProjectId,
    worktree: Worktree,
    max_chunk_size: int,
    first: int,
)
    requires
        0 < max_chunk_size <= usize::MAX,
        0 <= first <= worktree.entry_count,
    ensures
        ({
            let pieces = pieces_from(project_id, worktree, max_chunk_size, first);
            &&& pieces.len() > 0
            &&& pieces.last().entry_count == 0 ==> first == worktree.entry_count
            &&& forall|index: int|
                0 <= index < pieces.len() - 1 ==> (#[trigger] pieces[index]).entry_count
                    == max_chunk_size
            &&& forall|index: int|
                0 <= index < pieces.len() ==> {
                    &&& (#[trigger] pieces[index]).project_id == project_id
                    &&& pieces[index].worktree_id == worktree.id
                    &&& pieces[index].root_name == worktree.root_name
                    &&& pieces[index].abs_path == worktree.abs_path
                    &&& pieces[index].scan_id == worktree.scan_id
                    &&& pieces[index].removed_count == 0
                }
        }),
    decreases worktree.entry_count - first,
{
    let pieces = pieces_from(project_id, worktree, max_chunk_size, first);
    if worktree.entry_count - first > max_chunk_size {
        law_pieces_name_their_worktree(
            project_id,
            worktree,
            max_chunk_size,
            first + max_chunk_size,
        );
        let rest = pieces_from(project_id, worktree, max_chunk_size, first + max_chunk_size);
        assert(pieces.last() == rest.last());
        assert forall|index: int| 0 <= index < pieces.len() - 1 implies (
        #[trigger] pieces[index]).entry_count == max_chunk_size by {
            if index > 0 {
                assert(pieces[index] == rest[index - 1]);
            }
        }
        assert forall|index: int| 0 <= index < pieces.len() implies {
            &&& (#[trigger] pieces[index]).project_id == project_id
            &&& pieces[index].worktree_id == worktree.id
            &&& pieces[index].root_name == worktree.root_name
            &&& pieces[index].abs_path == worktree.abs_path
            &&& pieces[index].scan_id == worktree.scan_id
            &&& pieces[index].removed_count == 0
        } by {
            if index > 0 {
                assert(pieces[index] == rest[index - 1]);
            }
        }
    }
}

/// Each piece, to `sender_id`.
pub open spec fn piece_steps(pieces: Seq<WorktreePiece>, sender_id: ConnectionId) -> Seq<Step> {
    Seq::new(
        pieces.len(),
        |index: int|
            Step::Send {
                to: sender_id,
                message: Message::UpdateWorktree { piece: pieces[index] },
                on_failure: OnFailure::Abort,
            },
    )
}

/// Each diagnostic summary of a worktree, to `sender_id`.
pub open spec fn summary_steps(
    project_id: ProjectId,
    worktree: Worktree,
    sender_id: ConnectionId,
) -> Seq<Step> {
    Seq::new(
        worktree.summary_count as nat,
        |index: int|
            Step::Send {
                to: sender_id,
                message: Message::UpdateDiagnosticSummary {
                    project_id,
                    worktree_id: worktree.id,
                    summary: index as usize,
                },
                on_failure: OnFailure::Abort,
            },
    )
}

/// The entries and the diagnostic summaries of some worktrees, worktree by worktree, to
/// `sender_id`.
pub open spec fn worktree_steps(
    project_id: ProjectId,
    worktrees: Seq<Worktree>,
    sender_id: ConnectionId,
) -> Seq<Step>
    decreases worktrees.len(),
{
    if worktrees.len() == 0 {
        Seq::empty()
    } else {
        worktree_steps(project_id, worktrees.drop_last(), sender_id) + piece_steps(
            pieces_from(project_id, worktrees.last(), MAX_CHUNK_SIZE as int, 0),
            sender_id,
        ) + summary_steps(project_id, worktrees.last(), sender_id)
    }
}

/// That each language server has looked at all files, to `sender_id`.
pub open spec fn server_steps(
    project_id: ProjectId,
    servers: Seq<LanguageServer>,
    sender_id: ConnectionId,
) -> Seq<Step> {
    Seq::new(
        servers.len(),
        |index: int|
            Step::Send {
                to: sender_id,
                message: Message::DiskBasedDiagnosticsUpdated {
                    project_id,
                    language_server_id: servers[index].id,
                },
                on_failure: OnFailure::Abort,
            },
    )
}

/// The number of messages in which a worktree is sent.
pub open spec fn worktree_message_count(project_id: ProjectId, worktree: Worktree) -> nat {
    pieces_from(project_id, worktree, 256, 0).len() + worktree.summary_count as nat
}

/// The one who joins a project is sent every piece of every worktree, worktree by worktree, and
/// besides as many messages of each worktree as it has diagnostic summaries.
pub proof fn law_every_worktree_is_sent(
    project_id: ProjectId,
    worktrees: Seq<Worktree>,
    sender_id: ConnectionId,
)
    ensures
        worktree_steps(project_id, worktrees, sender_id).len() == total(
            worktrees,
            |worktree: Worktree| worktree_message_count(project_id, worktree),
        ),
        forall|index: int, at: int|
            #![trigger pieces_from(project_id, worktrees[index], 256, 0)[at]]
            0 <= index < worktrees.len() && 0 <= at < pieces_from(
                project_id,
                worktrees[index],
                256,
                0,
            ).len() ==> {
                let place = total(
                    worktrees.take(index),
                    |worktree: Worktree| worktree_message_count(project_id, worktree),
                ) + at;
                &&& place < worktree_steps(project_id, worktrees, sender_id).len()
                &&& worktree_steps(project_id, worktrees, sender_id)[place] == (Step::Send {
                    to: sender_id,
                    message: Message::UpdateWorktree {
                        piece: pieces_from(project_id, worktrees[index], 256, 0)[at],
                    },
                    on_failure: OnFailure::Abort,
                })
            },
{
    let piece = |worktree: Worktree|
        piece_steps(pieces_from(project_id, worktree, 256, 0), sender_id) + summary_steps(
            project_id,
            worktree,
            sender_id,
        );
    let joined = |some: Seq<Worktree>| worktree_steps(project_id, some, sender_id);
    assert forall|some: Seq<Worktree>| some.len() > 0 implies joined(some) == #[trigger] joined(
        some.drop_last(),
    ) + piece(some.last()) by {
        assert(joined(some) =~= joined(some.drop_last()) + piece(some.last()));
    }
    lemma_joined_len(worktrees, piece, joined);
    let size = |worktree: Worktree| worktree_message_count(project_id, worktree);
    assert(size =~= piece_len(piece));
    assert forall|index: int, at: int|
        #![trigger pieces_from(project_id, worktrees[index], 256, 0)[at]]
        0 <= index < worktrees.len() && 0 <= at < pieces_from(
            project_id,
            worktrees[index],
            256,
            0,
        ).len() implies {
        let place = total(worktrees.take(index), size) + at;
        &&& place < worktree_steps(project_id, worktrees, sender_id).len()
        &&& worktree_steps(project_id, worktrees, sender_id)[place] == (Step::Send {
            to: sender_id,
            message: Message::UpdateWorktree {
                piece: pieces_from(project_id, worktrees[index], 256, 0)[at],
            },
            on_failure: OnFailure::Abort,
        })
    } by {
        lemma_joined_at(worktrees, piece, joined, index, at);
    }
}

/// The diagnostic summaries of a worktree are sent to the one who joins, each once and in order,
/// behind the last piece of that worktree.
pub proof fn law_every_summary_is_sent(
    project_id: ProjectId,
    worktrees: Seq<Worktree>,
    sender_id: ConnectionId,
    index: int,
    summary: usize,
)
    requires
        0 <= index < worktrees.len(),
        summary < worktrees[index].summary_count,
    ensures
        ({
            let plan = worktree_steps(project_id, worktrees, sender_id);
            let place = total(
                worktrees.take(index),
                |worktree: Worktree| worktree_message_count(project_id, worktree),
            ) + pieces_from(project_id, worktrees[index], 256, 0).len() + summary as int;
            &&& place < plan.len()
            &&& plan[place] == (Step::Send {
                to: sender_id,
                message: Message::UpdateDiagnosticSummary {
                    project_id,
                    worktree_id: worktrees[index].id,
                    summary,
                },
                on_failure: OnFailure::Abort,
            })
        }),
{
    let piece = |worktree: Worktree|
        piece_steps(pieces_from(project_id, worktree, 256, 0), sender_id) + summary_steps(
            project_id,
            worktree,
            sender_id,
        );
    let joined = |some: Seq<Worktree>| worktree_steps(project_id, some, sender_id);
    assert forall|some: Seq<Worktree>| some.len() > 0 implies joined(some) == #[trigger] joined(
        some.drop_last(),
    ) + piece(some.last()) by {
        assert(joined(some) =~= joined(some.drop_last()) + piece(some.last()));
    }
    let size = |worktree: Worktree| worktree_message_count(project_id, worktree);
    assert(size =~= piece_len(piece));
    let pieces = pieces_from(project_id, worktrees[index], 256, 0);
    lemma_joined_at(worktrees, piece, joined, index, pieces.len() + summary as int);
}

/// Adds each piece, to `sender_id`.
fn push_pieces(plan: &mut Vec<Step>, pieces: &[WorktreePiece], sender_id: ConnectionId)
    ensures
        final(plan)@ == old(plan)@ + piece_steps(pieces@, sender_id),
{
    let mut index: usize = 0;
    assert(plan@ =~= old(plan)@ + piece_steps(pieces@, sender_id).take(0));
    while index < pieces.len()
        invariant
            index <= pieces@.len(),
            plan@ == old(plan)@ + piece_steps(pieces@, sender_id).take(index as int),
        decreases pieces@.len() - index,
    {
        plan.push(
            Step::Send {
                to: sender_id,
                message: Message::UpdateWorktree { piece: pieces[index].clone() },
                on_failure: OnFailure::Abort,
            },
        );
        index += 1;
        assert(plan@ =~= old(plan)@ + piece_steps(pieces@, sender_id).take(index as int));
    }
    assert(piece_steps(pieces@, sender_id).take(index as int) =~= piece_steps(pieces@, sender_id));
}

/// Adds each diagnostic summary of a worktree, to `sender_id`.
fn push_summaries(
    plan: &mut Vec<Step>,
    project_id: ProjectId,
    worktree: &Worktree,
    sender_id: ConnectionId,
)
    ensures
        final(plan)@ == old(plan)@ + summary_steps(project_id, *worktree, sender_id),
{
    let ghost steps = summary_steps(project_id, *worktree, sender_id);
    let mut index: usize = 0;
    assert(plan@ =~= old(plan)@ + steps.take(0));
    while index < worktree.summary_count
        invariant
            index <= worktree.summary_count,
            steps == summary_steps(project_id, *worktree, sender_id),
            plan@ == old(plan)@ + steps.take(index as int),
        decreases worktree.summary_count - index,
    {
        plan.push(
            Step::Send {
                to: sender_id,
                message: Message::UpdateDiagnosticSummary {
                    project_id,
                    worktree_id: worktree.id,
                    summary: index,
                },
                on_failure: OnFailure::Abort,
            },
        );
        index += 1;
        assert(plan@ =~= old(plan)@ + steps.take(index as int));
    }
    assert(steps.take(index as int) =~= steps);
}

/// Adds the entries and the diagnostic summaries of some worktrees, to `sender_id`.
fn push_worktrees(
    plan: &mut Vec<Step>,
    project_id: ProjectId,
    worktrees: &[Worktree],
    sender_id: ConnectionId,
)
    ensures
        final(plan)@ == old(plan)@ + worktree_steps(project_id, worktrees@, sender_id),
{
    let mut index: usize = 0;
    assert(worktrees@.take(0) =~= Seq::<Worktree>::empty());
    while index < worktrees.len()
        invariant
            index <= worktrees@.len(),
            plan@ == old(plan)@ + worktree_steps(
                project_id,
                worktrees@.take(index as int),
                sender_id,
            ),
        decreases worktrees@.len() - index,
    {
        assert(worktrees@.take(index + 1).drop_last() =~= worktrees@.take(index as int));
        let pieces: Vec<WorktreePiece> = split_worktree_update(
            project_id,
            &worktrees[index],
            MAX_CHUNK_SIZE,
        );
        push_pieces(plan, pieces.as_slice(), sender_id);
        push_summaries(plan, project_id, &worktrees[index], sender_id);
        index += 1;
        assert(plan@ =~= old(plan)@ + worktree_steps(
            project_id,
            worktrees@.take(index as int),
            sender_id,
        ));
    }
    assert(worktrees@.take(index as int) =~= worktrees@);
}

/// Adds that each language server has looked at all files, to `sender_id`.
fn push_servers(
    plan: &mut Vec<Step>,
    project_id: ProjectId,
    servers: &[LanguageServer],
    sender_id: ConnectionId,
)
    ensures
        final(plan)@ == old(plan)@ + server_steps(project_id, servers@, sender_id),
{
    let ghost steps = server_steps(project_id, servers@, sender_id);
    let mut index: usize = 0;
    assert(plan@ =~= old(plan)@ + steps.take(0));
    while index < servers.len()
        invariant
            index <= servers@.len(),
            steps == server_steps(project_id, servers@, sender_id),
            plan@ == old(plan)@ + steps.take(index as int),
        decreases servers@.len() - index,
    {
        plan.push(
            Step::Send {
                to: sender_id,
                message: Message::DiskBasedDiagnosticsUpdated {
                    project_id,
                    language_server_id: servers[index].id,
                },
                on_failure: OnFailure::Abort,
            },
        );
        index += 1;
        assert(plan@ =~= old(plan)@ + steps.take(index as int));
    }
    assert(steps.take(index as int) =~= steps);
}

/// Whether `metadata` is what a client is told of `worktree` before its entries.
pub open spec fn is_metadata_of(metadata: WorktreeMetadata, worktree: Worktree) -> bool {
    &&& metadata.id == worktree.id
    &&& metadata.root_name@ == worktree.root_name@
    &&& metadata.visible == worktree.visible
    &&& metadata.abs_path == worktree.abs_path
}

/// What a client is told of some worktrees before their entries.
fn worktree_metadata(worktrees: &[Worktree]) -> (all: Vec<WorktreeMetadata>)
    ensures
        all@.len() == worktrees@.len(),
        forall|index: int|
            0 <= index < all@.len() ==> is_metadata_of(#[trigger] all@[index], worktrees@[index]),
{
    let mut all: Vec<WorktreeMetadata> = Vec::new();
    let mut index: usize = 0;
    while index < worktrees.len()
        invariant
            index <= worktrees@.len(),
            all@.len() == index,
            forall|at: int|
                0 <= at < index ==> is_metadata_of(#[trigger] all@[at], worktrees@[at]),
        decreases worktrees@.len() - index,
    {
        let worktree: &Worktree = &worktrees[index];
        all.push(
            WorktreeMetadata {
                id: worktree.id,
                root_name: worktree.root_name.clone(),
                visible: worktree.visible,
                abs_path: worktree.abs_path,
            },
        );
        index += 1;
    }
    all
}

/// A copy of some language servers.
fn copy_servers(servers: &[LanguageServer]) -> (all: Vec<LanguageServer>)
    ensures
        all@ == servers@,
{
    let mut all: Vec<LanguageServer> = Vec::new();
    let mut index: usize = 0;
    while index < servers.len()
        invariant
            index <= servers@.len(),
            all@ == servers@.take(index as int),
        decreases servers@.len() - index,
    {
        all.push(LanguageServer { id: servers[index].id, name: servers[index].name.clone() });
        index += 1;
        assert(all@ =~= servers@.take(index as int));
    }
    assert(servers@.take(index as int) =~= servers@);
    all
}

/// Whether `response` is what `sender_id` is told of `project` when they have joined it.
pub open spec fn is_join_response(
    response: JoinProjectResponse,
    sender_id: ConnectionId,
    project: Project,
    replica_id: u16,
) -> bool {
    &&& response.replica_id == replica_id
    &&& response.collaborators@ == collaborators_of(project, sender_id)
    &&& response.language_servers@ == project.language_servers@
    &&& response.worktrees@.len() == project.worktrees@.len()
    &&& forall|index: int|
        0 <= index < project.worktrees@.len() ==> is_metadata_of(
            #[trigger] response.worktrees@[index],
            project.worktrees@[index],
        )
}

/// That someone joined a project, to everyone else in it.
pub open spec fn arrival_steps(
    sender_id: ConnectionId,
    guest_user_id: UserId,
    project: Project,
    replica_id: u16,
) -> Seq<Step> {
    sends(
        others(sender_id, project.member_ids()),
        Message::AddProjectCollaborator {
            project_id: project.id,
            collaborator: Collaborator {
                peer_id: sender_id.0,
                replica_id: replica_id as u32,
                user_id: guest_user_id.0,
            },
        },
        OnFailure::Abort,
    )
}

/// Whether `plan` is what to do once `sender_id` has joined `project` as replica `replica_id`:
/// everyone else in it hears of the new collaborator; then the one who joined gets an answer
/// with all that is needed to begin, all entries and diagnostic summaries of each worktree, and
/// the state of each language server.
pub open spec fn is_joining_plan(
    plan: Seq<Step>,
    sender_id: ConnectionId,
    guest_user_id: UserId,
    project: Project,
    replica_id: u16,
) -> bool {
    let news = arrival_steps(sender_id, guest_user_id, project, replica_id);
    let rest = worktree_steps(project.id, project.worktrees@, sender_id) + server_steps(
        project.id,
        project.language_servers@,
        sender_id,
    );
    &&& plan.len() == news.len() + 1 + rest.len()
    &&& plan.take(news.len() as int) == news
    &&& plan[news.len() as int] matches Step::Respond {
        response: Response::ProjectJoined { response },
    }
    &&& is_join_response(response, sender_id, project, replica_id)
    &&& plan.skip(news.len() as int + 1) == rest
}

/// What to do once `sender_id` has joined `project` as replica `replica_id`.
pub fn join_project(
    sender_id: ConnectionId,
    guest_user_id: UserId,
    project: &Project,
    replica_id: u16,
) -> (plan: Vec<Step>)
    ensures
        is_joining_plan(plan@, sender_id, guest_user_id, *project, replica_id),
{
    let response = JoinProjectResponse {
        worktrees: worktree_metadata(project.worktrees.as_slice()),
        replica_id: replica_id as u32,
        collaborators: collaborators(project, sender_id),
        language_servers: copy_servers(project.language_servers.as_slice()),
    };
    let members: Vec<ConnectionId> = project.connection_ids();
    let receivers: Vec<ConnectionId> = broadcast(sender_id, members.as_slice());
    let mut plan: Vec<Step> = Vec::new();
    push_sends(
        &mut plan,
        receivers.as_slice(),
        &Message::AddProjectCollaborator {
            project_id: project.id,
            collaborator: Collaborator {
                peer_id: sender_id.0,
                replica_id: replica_id as u32,
                user_id: guest_user_id.0,
            },
        },
        OnFailure::Abort,
    );
    let ghost news = plan@;
    assert(news =~= arrival_steps(sender_id, guest_user_id, *project, replica_id));
    plan.push(Step::Respond { response: Response::ProjectJoined { response } });
    push_worktrees(&mut plan, project.id, project.worktrees.as_slice(), sender_id);
    push_servers(&mut plan, project.id, project.language_servers.as_slice(), sender_id);
    assert(plan@.take(news.len() as int) =~= news);
    assert(plan@.skip(news.len() as int + 1) =~= worktree_steps(
        project.id,
        project.worktrees@,
        sender_id,
    ) + server_steps(project.id, project.language_servers@, sender_id));
    plan
}

/// When someone joins a project, everyone else in it hears who the new collaborator is; then the one
/// who joins gets the answer, with their replica, everyone who is there, every language server and
/// what each worktree is; then come the worktrees, and last, of every language server, that it has
/// looked at all files. Nothing else is done.
pub proof fn law_joining_is_told(
    plan: Seq<Step>,
    sender_id: ConnectionId,
    guest_user_id: UserId,
    project: Project,
    replica_id: u16,
)
    requires
        is_joining_plan(plan, sender_id, guest_user_id, project, replica_id),
    ensures
        ({
            let members = project.member_ids();
            let wanted = |id: ConnectionId| id != sender_id;
            let told = members.filter(wanted).len() as int;
            let trees = worktree_steps(project.id, project.worktrees@, sender_id);
            let servers = project.language_servers@;
            &&& plan.len() == told + 1 + trees.len() + servers.len()
            &&& forall|index: int|
                #![trigger members[index]]
                0 <= index < members.len() && members[index] != sender_id ==> {
                    let place = rank(members, wanted, index) as int;
                    &&& place < told
                    &&& plan[place] == (Step::Send {
                        to: members[index],
                        message: Message::AddProjectCollaborator {
                            project_id: project.id,
                            collaborator: Collaborator {
                                peer_id: sender_id.0,
                                replica_id: replica_id as u32,
                                user_id: guest_user_id.0,
                            },
                        },
                        on_failure: OnFailure::Abort,
                    })
                }
            &&& plan[told] matches Step::Respond {
                response: Response::ProjectJoined { response },
            } && {
                &&& response.replica_id == replica_id
                &&& response.collaborators@ == collaborators_of(project, sender_id)
                &&& response.language_servers@ == servers
                &&& response.worktrees@.len() == project.worktrees@.len()
                &&& forall|index: int|
                    0 <= index < project.worktrees@.len() ==> {
                        &&& (#[trigger] response.worktrees@[index]).id
                            == project.worktrees@[index].id
                        &&& response.worktrees@[index].root_name@
                            == project.worktrees@[index].root_name@
                        &&& response.worktrees@[index].visible == project.worktrees@[index].visible
                        &&& response.worktrees@[index].abs_path
                            == project.worktrees@[index].abs_path
                    }
            }
            &&& plan.subrange(told + 1, told + 1 + trees.len()) == trees
            &&& forall|index: int|
                #![trigger servers[index]]
                0 <= index < servers.len() ==> plan[told + 1 + trees.len() + index] == (Step::Send {
                    to: sender_id,
                    message: Message::DiskBasedDiagnosticsUpdated {
                        project_id: project.id,
                        language_server_id: servers[index].id,
                    },
                    on_failure: OnFailure::Abort,
                })
        }),
{
    let members = project.member_ids();
    let wanted = |id: ConnectionId| id != sender_id;
    law_broadcast_keeps_the_order(sender_id, members);
    let news = arrival_steps(sender_id, guest_user_id, project, replica_id);
    let told = news.len() as int;
    let trees = worktree_steps(project.id, project.worktrees@, sender_id);
    let servers = project.language_servers@;
    let rest = trees + server_steps(project.id, servers, sender_id);
    assert(forall|index: int|
        0 <= index < told ==> #[trigger] plan.take(told)[index] == plan[index]);
    assert(forall|index: int|
        0 <= index < rest.len() ==> #[trigger] plan.skip(told + 1)[index] == plan[told + 1
            + index]);
    assert forall|index: int|
        #![trigger members[index]]
        0 <= index < members.len() && members[index] != sender_id implies {
        let place = rank(members, wanted, index) as int;
        &&& place < told
        &&& plan[place] == (Step::Send {
            to: members[index],
            message: Message::AddProjectCollaborator {
                project_id: project.id,
                collaborator: Collaborator {
                    peer_id: sender_id.0,
                    replica_id: replica_id as u32,
                    user_id: guest_user_id.0,
                },
            },
            on_failure: OnFailure::Abort,
        })
    } by {
        let place = rank(members, wanted, index) as int;
        assert(plan.take(told)[place] == news[place]);
    }
    assert(plan.subrange(told + 1, told + 1 + trees.len()) =~= trees) by {
        assert(forall|index: int|
            0 <= index < trees.len() ==> #[trigger] plan[told + 1 + index] == trees[index]) by {
            assert(forall|index: int| 0 <= index < trees.len() ==> rest[index] == trees[index]);
            assert(plan.skip(told + 1) == rest);
        }
    }
    assert forall|index: int|
        #![trigger servers[index]]
        0 <= index < servers.len() implies plan[told + 1 + trees.len() + index] == (Step::Send {
        to: sender_id,
        message: Message::DiskBasedDiagnosticsUpdated {
            project_id: project.id,
            language_server_id: servers[index].id,
        },
        on_failure: OnFailure::Abort,
    }) by {
        assert(plan.skip(told + 1)[trees.len() + index] == rest[trees.len() + index]);
    }
}

/// What is done once a project is shared.
pub open spec fn sharing_steps(project_id: ProjectId, room: Room) -> Seq<Step> {
    seq![Step::Respond { response: Response::ProjectShared { project_id } }] + room_news(room)
}

/// What to do once a project is shared: answer with its number, and tell everyone in the room.
pub fn share_project(project_id: ProjectId, room: &Room) -> (plan: Vec<Step>)
    ensures
        plan@ == sharing_steps(project_id, *room),
{
    let mut plan: Vec<Step> = Vec::new();
    plan.push(Step::Respond { response: Response::ProjectShared { project_id } });
    room_updated(&mut plan, room);
    assert(plan@ =~= sharing_steps(project_id, *room));
    plan
}

/// What is done once a project is no longer shared.
pub open spec fn unsharing_steps(sender_id: ConnectionId, project: Project, room: Room) -> Seq<
    Step,
> {
    sends(
        others(sender_id, project.guest_ids()),
        Message::UnshareProject { project_id: project.id },
        OnFailure::Log,
    ) + room_news(room)
}

/// What to do once a project is no longer shared: tell its guests, and everyone in the room.
pub fn unshare_project(sender_id: ConnectionId, project: &Project, room: &Room) -> (plan: Vec<Step>)
    ensures
        plan@ == unsharing_steps(sender_id, *project, *room),
{
    let guests: Vec<ConnectionId> = project.guest_connection_ids();
    let receivers: Vec<ConnectionId> = broadcast(sender_id, guests.as_slice());
    let mut plan: Vec<Step> = Vec::new();
    push_sends(
        &mut plan,
        receivers.as_slice(),
        &Message::UnshareProject { project_id: project.id },
        OnFailure::Log,
    );
    room_updated(&mut plan, room);
    assert(plan@ =~= unsharing_steps(sender_id, *project, *room));
    plan
}

/// What is done once someone has left a project.
pub open spec fn leaving_steps(sender_id: ConnectionId, project: LeftProject) -> Seq<Step> {
    if project.remove_collaborator {
        sends(
            others(sender_id, project.connection_ids@),
            Message::RemoveProjectCollaborator { project_id: project.id, peer_id: sender_id.0 },
            OnFailure::Log,
        )
    } else {
        Seq::empty()
    }
}

/// What to do once someone has left a project: tell the others, if they took part in it until
/// then.
pub fn leave_project(sender_id: ConnectionId, project: &LeftProject) -> (plan: Vec<Step>)
    ensures
        plan@ == leaving_steps(sender_id, *project),
{
    let mut plan: Vec<Step> = Vec::new();
    if project.remove_collaborator {
        let receivers: Vec<ConnectionId> = broadcast(
            sender_id,
            project.connection_ids.as_slice(),
        );
        push_sends(
            &mut plan,
            receivers.as_slice(),
            &Message::RemoveProjectCollaborator { project_id: project.id, peer_id: sender_id.0 },
            OnFailure::Log,
        );
    }
    assert(plan@ =~= leaving_steps(sender_id, *project));
    plan
}

/// What is done once a project has changed.
pub open spec fn change_steps(
    sender_id: ConnectionId,
    guest_connection_ids: Seq<ConnectionId>,
    room: Room,
) -> Seq<Step> {
    forwards(sender_id, others(sender_id, guest_connection_ids), OnFailure::Log) + room_news(room)
}

/// What to do once a project has changed: send the change on to its guests, and tell everyone
/// in the room.
pub fn update_project(
    sender_id: ConnectionId,
    guest_connection_ids: &[ConnectionId],
    room: &Room,
) -> (plan: Vec<Step>)
    ensures
        plan@ == change_steps(sender_id, guest_connection_ids@, *room),
{
    let receivers: Vec<ConnectionId> = broadcast(sender_id, guest_connection_ids);
    let mut plan: Vec<Step> = Vec::new();
    push_forwards(&mut plan, sender_id, receivers.as_slice(), OnFailure::Log);
    room_updated(&mut plan, room);
    assert(plan@ =~= change_steps(sender_id, guest_connection_ids@, *room));
    plan
}

/// Each extension with its count, as long as there are both.
pub fn extension_counts(extensions: &[String], counts: &[u32]) -> (pairs: Vec<(String, u32)>)
    ensures
        pairs@.len() == (if extensions@.len() <= counts@.len() {
            extensions@.len()
        } else {
            counts@.len()
        }),
        forall|index: int|
            0 <= index < pairs@.len() ==> #[trigger] pairs@[index] == (
                extensions@[index],
                counts@[index],
            ),
{
    let mut pairs: Vec<(String, u32)> = Vec::new();
    let mut index: usize = 0;
    while index < extensions.len() && index < counts.len()
        invariant
            index <= extensions@.len(),
            index <= counts@.len(),
            pairs@.len() == index,
            forall|at: int|
                0 <= at < index ==> #[trigger] pairs@[at] == (extensions@[at], counts@[at]),
        decreases extensions@.len() - index,
    {
        pairs.push((extensions[index].clone(), counts[index]));
        index += 1;
    }
    pairs
}

/// When a project is shared, the request is answered with its number first, and everyone in the room
/// is told of the room; nothing else is done.
pub proof fn law_a_shared_project_is_told(project_id: ProjectId, room: Room)
    ensures
        ({
            let plan = sharing_steps(project_id, room);
            let everyone = room.participants@;
            &&& plan.len() == 1 + everyone.len()
            &&& plan.first() == (Step::Respond { response: Response::ProjectShared { project_id } })
            &&& forall|index: int|
                #![trigger everyone[index]]
                0 <= index < everyone.len() ==> plan[1 + index] == (Step::Send {
                    to: everyone[index],
                    message: Message::RoomUpdated { room_id: room.id, state: room.state },
                    on_failure: OnFailure::Log,
                })
        }),
{
}

/// When a project is no longer shared, every guest of it but the one who asked is told so, and
/// everyone in the room is told of the room; nothing else is done.
pub proof fn law_every_guest_hears_of_unsharing(
    sender_id: ConnectionId,
    project: Project,
    room: Room,
)
    ensures
        ({
            let plan = unsharing_steps(sender_id, project, room);
            let guests = project.guest_ids();
            let wanted = |id: ConnectionId| id != sender_id;
            let told = guests.filter(wanted).len() as int;
            let everyone = room.participants@;
            &&& plan.len() == told + everyone.len()
            &&& forall|index: int|
                #![trigger guests[index]]
                0 <= index < guests.len() && guests[index] != sender_id ==> {
                    let place = rank(guests, wanted, index) as int;
                    &&& place < told
                    &&& plan[place] == (Step::Send {
                        to: guests[index],
                        message: Message::UnshareProject { project_id: project.id },
                        on_failure: OnFailure::Log,
                    })
                }
            &&& forall|index: int|
                #![trigger everyone[index]]
                0 <= index < everyone.len() ==> plan[told + index] == (Step::Send {
                    to: everyone[index],
                    message: Message::RoomUpdated { room_id: room.id, state: room.state },
                    on_failure: OnFailure::Log,
                })
        }),
{
    law_broadcast_keeps_the_order(sender_id, project.guest_ids());
}

/// When someone leaves a project in which they took part, everyone else who is named with it hears
/// that they left; where they took no part in it, nothing is done.
pub proof fn law_everyone_hears_of_leaving(sender_id: ConnectionId, project: LeftProject)
    ensures
        ({
            let plan = leaving_steps(sender_id, project);
            let ids = project.connection_ids@;
            let wanted = |id: ConnectionId| id != sender_id;
            &&& !project.remove_collaborator ==> plan.len() == 0
            &&& project.remove_collaborator ==> plan.len() == ids.filter(wanted).len()
            &&& forall|index: int|
                #![trigger ids[index]]
                0 <= index < ids.len() && ids[index] != sender_id && project.remove_collaborator
                    ==> {
                    let place = rank(ids, wanted, index) as int;
                    &&& place < plan.len()
                    &&& plan[place] == (Step::Send {
                        to: ids[index],
                        message: Message::RemoveProjectCollaborator {
                            project_id: project.id,
                            peer_id: sender_id.0,
                        },
                        on_failure: OnFailure::Log,
                    })
                }
        }),
{
    law_broadcast_keeps_the_order(sender_id, project.connection_ids@);
}

/// When a project has changed, every guest but the one who changed it is sent the change, in the
/// name of the one who made it, and everyone in the room is told of the room; nothing else is done.
pub proof fn law_every_guest_hears_of_a_change(
    sender_id: ConnectionId,
    guest_connection_ids: Seq<ConnectionId>,
    room: Room,
)
    ensures
        ({
            let plan = change_steps(sender_id, guest_connection_ids, room);
            let wanted = |id: ConnectionId| id != sender_id;
            let told = guest_connection_ids.filter(wanted).len() as int;
            let everyone = room.participants@;
            &&& plan.len() == told + everyone.len()
            &&& forall|index: int|
                #![trigger guest_connection_ids[index]]
                0 <= index < guest_connection_ids.len() && guest_connection_ids[index] != sender_id
                    ==> {
                    let place = rank(guest_connection_ids, wanted, index) as int;
                    &&& place < told
                    &&& plan[place] == (Step::Forward {
                        from: sender_id,
                        to: guest_connection_ids[index],
                        on_failure: OnFailure::Log,
                    })
                }
            &&& forall|index: int|
                #![trigger everyone[index]]
                0 <= index < everyone.len() ==> plan[told + index] == (Step::Send {
                    to: everyone[index],
                    message: Message::RoomUpdated { room_id: room.id, state: room.state },
                    on_failure: OnFailure::Log,
                })
        }),
{
    law_broadcast_keeps_the_order(sender_id, guest_connection_ids);
}

} // verus!
