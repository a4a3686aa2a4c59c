//! What clients are told of users.

use vstd::prelude::*;
use vstd::string::*;
use vstd::utf8::encode_utf8;

use crate::collab::error::HandlerError;
use crate::collab::ids::UserId;
use crate::sequences::{lemma_filter_at_rank, rank};

verus! {

/// The most users that a search finds.
pub const SEARCH_LIMIT: u32 = 10;

/// A user as they are on record.
#[derive(Debug)]
pub struct StoredUser {
    pub id: UserId,
    pub github_login: String,
    pub admin: bool,
}

/// A user as a client is told of them.
#[derive(Debug, PartialEq, Eq)]
pub struct PublicUser {
    pub id: u64,
    pub github_login: String,
    pub avatar_url: String,
}

/// Where the picture of a user is.
pub fn avatar_url(github_login: &str) -> (url: String)
    ensures
        url@ == "https://github.com/"@ + github_login@ + ".png?size=128"@,
{
    let mut url: String = "https://github.com/".to_string();
    url.append(github_login);
    url.append(".png?size=128");
    url
}

/// Whether `public` is what a client is told of `user`.
pub open spec fn is_public_form(public: PublicUser, user: StoredUser) -> bool {
    &&& public.id == user.id.0
    &&& public.github_login@ == user.github_login@
    &&& public.avatar_url@ == "https://github.com/"@ + user.github_login@ + ".png?size=128"@
}

/// What a client is told of `user`.
fn public_form(user: &StoredUser) -> (public: PublicUser)
    ensures
        is_public_form(public, *user),
{
    PublicUser {
        id: user.id.0,
        github_login: user.github_login.clone(),
        avatar_url: avatar_url(user.github_login.as_str()),
    }
}

/// Whether `found` is what a client is told of some users, in order.
pub open spec fn are_public_forms(found: Seq<PublicUser>, users: Seq<StoredUser>) -> bool {
    &&& found.len() == users.len()
    &&& forall|index: int|
        0 <= index < found.len() ==> is_public_form(#[trigger] found[index], users[index])
}

/// What a client is told of some users, in order.
pub fn get_users(users: &[StoredUser]) -> (found: Vec<PublicUser>)
    ensures
        are_public_forms(found@, users@),
{
    let mut found: Vec<PublicUser> = Vec::new();
    let mut index: usize = 0;
    while index < users.len()
        invariant
            index <= users@.len(),
            found@.len() == index,
            forall|at: int|
                0 <= at < index ==> is_public_form(#[trigger] found@[at], users@[at]),
        decreases users@.len() - index,
    {
        found.push(public_form(&users[index]));
        index += 1;
    }
    found
}

/// How to search for users.
#[derive(Clone, Copy, Debug, PartialEq, Eq, Structural)]
pub enum UserSearch {
    /// No one is meant.
    Nobody,
    /// The one whose login is exactly what was typed.
    ByLogin,
    /// Those whose logins resemble what was typed, at most as many as given.
    Fuzzy { limit: u32 },
}

/// How to search for users: not at all when nothing was typed, for the exact login when one or
/// two bytes were, and for what resembles it otherwise.
pub open spec fn search_of(query: Seq<char>) -> UserSearch {
    if encode_utf8(query).len() == 0 {
        UserSearch::Nobody
    } else if encode_utf8(query).len() <= 2 {
        UserSearch::ByLogin
    } else {
        UserSearch::Fuzzy { limit: SEARCH_LIMIT }
    }
}

/// How to search for users.
pub fn search_for(query: &str) -> (search: UserSearch)
    ensures
        search == search_of(query@),
{
    let length: usize = query.as_bytes().len();
    if length == 0 {
        UserSearch::Nobody
    } else if length <= 2 {
        UserSearch::ByLogin
    } else {
        UserSearch::Fuzzy { limit: SEARCH_LIMIT }
    }
}

/// All users but the one who searches, in order.
pub open spec fn other_users(user_id: UserId, users: Seq<StoredUser>) -> Seq<StoredUser> {
    users.filter(|user: StoredUser| user.id != user_id)
}

/// What a client is told of the users that a search found: all but the one who searches, in
/// order.
pub fn fuzzy_search_users(user_id: UserId, users: &[StoredUser]) -> (found: Vec<PublicUser>)
    ensures
        are_public_forms(found@, other_users(user_id, users@)),
{
    let mut found: Vec<PublicUser> = Vec::new();
    let mut index: usize = 0;
    proof {
        reveal(Seq::filter);
        assert(users@.take(0) =~= Seq::<StoredUser>::empty());
    }
    while index < users.len()
        invariant
            index <= users@.len(),
            found@.len() == other_users(user_id, users@.take(index as int)).len(),
            forall|at: int|
                0 <= at < found@.len() ==> is_public_form(
                    #[trigger] found@[at],
                    other_users(user_id, users@.take(index as int))[at],
                ),
        decreases users@.len() - index,
    {
        proof {
            reveal(Seq::filter);
            assert(users@.take(index + 1).drop_last() =~= users@.take(index as int));
        }
        if users[index].id != user_id {
            found.push(public_form(&users[index]));
        }
        index += 1;
    }
    assert(users@.take(index as int) =~= users@);
    found
}

/// What a client is told of its own user only.
#[derive(Debug, PartialEq, Eq)]
pub struct PrivateUserInfo {
    pub metrics_id: String,
    pub staff: bool,
}

/// What a client is told of its own user, who has to be on record.
pub fn get_private_user_info(metrics_id: String, user: Option<&StoredUser>) -> (outcome: Result<
    PrivateUserInfo,
    HandlerError,
>)
    ensures
        outcome == (match user {
            Some(user) => Ok(PrivateUserInfo { metrics_id, staff: user.admin }),
            None => Err(HandlerError::UserNotFound),
        }),
{
    match user {
        Some(user) => Ok(PrivateUserInfo { metrics_id, staff: user.admin }),
        None => Err(HandlerError::UserNotFound),
    }
}

/// What a search found is told of every user but the one who searches, in order, each with their
/// number, their login and the picture of that login; no one else is told of.
pub proof fn law_every_other_user_is_told_of(
    user_id: UserId,
    users: Seq<StoredUser>,
    found: Seq<PublicUser>,
)
    requires
        are_public_forms(found, other_users(user_id, users)),
    ensures
        found.len() == users.filter(|user: StoredUser| user.id != user_id).len(),
        forall|index: int|
            #![trigger users[index]]
            0 <= index < users.len() && users[index].id != user_id ==> {
                let place = rank(users, |user: StoredUser| user.id != user_id, index) as int;
                &&& place < found.len()
                &&& found[place].id == users[index].id.0
                &&& found[place].github_login@ == users[index].github_login@
                &&& found[place].avatar_url@ == "https://github.com/"@ + users[index].github_login@
                    + ".png?size=128"@
            },
{
    let wanted = |user: StoredUser| user.id != user_id;
    lemma_other_users_is_a_filter(user_id, users);
    assert forall|index: int|
        #![trigger users[index]]
        0 <= index < users.len() && users[index].id != user_id implies {
        let place = rank(users, wanted, index) as int;
        &&& place < found.len()
        &&& found[place].id == users[index].id.0
        &&& found[place].github_login@ == users[index].github_login@
        &&& found[place].avatar_url@ == "https://github.com/"@ + users[index].github_login@
            + ".png?size=128"@
    } by {
        let place = rank(users, wanted, index) as int;
        lemma_filter_at_rank(users, wanted, index);
        assert(is_public_form(found[place], other_users(user_id, users)[place]));
    }
}

/// Those who differ from the one who searches are all other users.
proof fn lemma_other_users_is_a_filter(user_id: UserId, users: Seq<StoredUser>)
    ensures
        other_users(user_id, users) == users.filter(|user: StoredUser| user.id != user_id),
    decreases users.len(),
{
    reveal(Seq::filter);
    if users.len() > 0 {
        lemma_other_users_is_a_filter(user_id, users.drop_last());
    }
}

/// The users who were asked for are all told of, in order.
pub proof fn law_every_user_is_told_of(users: Seq<StoredUser>, found: Seq<PublicUser>)
    requires
        are_public_forms(found, users),
    ensures
        found.len() == users.len(),
        forall|index: int|
            #![trigger users[index]]
            0 <= index < users.len() ==> {
                &&& found[index].id == users[index].id.0
                &&& found[index].github_login@ == users[index].github_login@
                &&& found[index].avatar_url@ == "https://github.com/"@ + users[index].github_login@
                    + ".png?size=128"@
            },
{
    assert forall|index: int|
        #![trigger users[index]]
        0 <= index < users.len() implies {
        &&& found[index].id == users[index].id.0
        &&& found[index].github_login@ == users[index].github_login@
        &&& found[index].avatar_url@ == "https://github.com/"@ + users[index].github_login@
            + ".png?size=128"@
    } by {
        assert(is_public_form(found[index], users[index]));
    }
}

/// No more than ten users are searched for, one of whom is meant when fewer than three bytes were
/// typed, and none exactly when nothing was.
pub proof fn law_short_queries_mean_one_user(query: Seq<char>)
    ensures
        (search_of(query) is Nobody) == (query =~= Seq::empty()),
        (search_of(query) is ByLogin) == (0 < encode_utf8(query).len() < 3),
        search_of(query) matches UserSearch::Fuzzy { limit } ==> limit == 10 && 3 <= encode_utf8(
            query,
        ).len(),
{
    crate::strings::law_bytes_tell_strings_apart(query, Seq::empty());
    assert(encode_utf8(Seq::<char>::empty()) =~= Seq::empty());
    if encode_utf8(query).len() == 0 {
        assert(encode_utf8(query) =~= Seq::empty());
    }
}

} // verus!
