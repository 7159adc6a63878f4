use crate::error::AppError;
use crate::repository::{creation, deletion, lookup, saving, RepositoryState};
use crate::user::{fresh_user, User, UserId};
use vstd::prelude::*;

verus! {

/// One call of `create_user`, `save` or `delete` leads from `before` to
/// `after`, or a call that only reads leaves it as it was.
pub open spec fn one_call(before: RepositoryState<User>, after: RepositoryState<User>) -> bool {
    ||| exists|name: Seq<char>, email: Seq<char>, age: Option<u8>, r: Result<UserId, AppError>|
        #[trigger] creation(before, after, name, email, age, r)
    ||| exists|item: User| #[trigger] saving(before, after, item.id, item)
    ||| exists|id: UserId, r: Result<(), AppError>| #[trigger] deletion(before, after, id, r)
    ||| after == before
}

/// Each state of `states` follows from the one before by one call.
pub open spec fn is_history(states: Seq<RepositoryState<User>>) -> bool {
    forall|k: int| 0 <= k < states.len() - 1 ==> #[trigger] one_call(states[k], states[k + 1])
}

proof fn lemma_one_call_keeps_order(before: RepositoryState<User>, after: RepositoryState<User>)
    requires
        one_call(before, after),
    ensures
        before.next_id <= after.next_id,
{
    if exists|name: Seq<char>, email: Seq<char>, age: Option<u8>, r: Result<UserId, AppError>|
        #[trigger] creation(before, after, name, email, age, r) {
        let (name, email, age, r) = choose|name: Seq<char>, email: Seq<char>, age: Option<u8>, r: Result<UserId, AppError>|
            #[trigger] creation(before, after, name, email, age, r);
        assert(creation(before, after, name, email, age, r));
    }
}

proof fn lemma_counter_never_falls(states: Seq<RepositoryState<User>>, i: int, j: int)
    requires
        is_history(states),
        0 <= i <= j < states.len(),
    ensures
        states[i].next_id <= states[j].next_id,
    decreases j - i,
{
    if i < j {
        lemma_counter_never_falls(states, i, j - 1);
        let m = j - 1;
        assert(one_call(states[m], states[m + 1]));
        lemma_one_call_keeps_order(states[m], states[m + 1]);
    }
}

/// Whatever calls come between, an identity issued later is larger than one
/// issued earlier: identities are never reused, not even after a deletion.
pub proof fn lemma_later_identity_is_larger(
    states: Seq<RepositoryState<User>>,
    i: int,
    j: int,
    name1: Seq<char>,
    email1: Seq<char>,
    age1: Option<u8>,
    id1: UserId,
    name2: Seq<char>,
    email2: Seq<char>,
    age2: Option<u8>,
    id2: UserId,
)
    requires
        is_history(states),
        0 <= i < j < states.len() - 1,
        creation(states[i], states[i + 1], name1, email1, age1, Ok::<UserId, AppError>(id1)),
        creation(states[j], states[j + 1], name2, email2, age2, Ok::<UserId, AppError>(id2)),
    ensures
        id1 < id2,
{
    lemma_counter_never_falls(states, i + 1, j);
}

proof fn lemma_user_kept(
    states: Seq<RepositoryState<User>>,
    i: int,
    id: UserId,
    k: int,
)
    requires
        is_history(states),
        0 <= i < k < states.len(),
        states[i + 1].items.contains_key(id),
        states[i + 1].next_id > id,
        forall|m: int, r: Result<(), AppError>| i < m < states.len() - 1
            ==> !#[trigger] deletion(states[m], states[m + 1], id, r),
        forall|m: int, item: User| i < m < states.len() - 1
            ==> !#[trigger] saving(states[m], states[m + 1], id, item),
    ensures
        states[k].items.contains_key(id),
        states[k].items[id] == states[i + 1].items[id],
        states[k].next_id > id,
    decreases k - i,
{
    if k > i + 1 {
        lemma_user_kept(states, i, id, k - 1);
        let m = k - 1;
        let before = states[m];
        let after = states[m + 1];
        assert(one_call(before, after));
        if exists|name: Seq<char>, email: Seq<char>, age: Option<u8>, r: Result<UserId, AppError>|
            #[trigger] creation(before, after, name, email, age, r) {
            let (name, email, age, r) = choose|name: Seq<char>, email: Seq<char>, age: Option<u8>, r: Result<UserId, AppError>|
                #[trigger] creation(before, after, name, email, age, r);
            assert(creation(before, after, name, email, age, r));
        } else if exists|item: User| #[trigger] saving(before, after, item.id, item) {
            let item = choose|item: User| #[trigger] saving(before, after, item.id, item);
            assert(!saving(before, after, id, item));
            assert(item.id != id);
        } else if exists|d: UserId, r: Result<(), AppError>| #[trigger] deletion(before, after, d, r) {
            let (d, r) = choose|d: UserId, r: Result<(), AppError>| #[trigger] deletion(before, after, d, r);
            assert(!deletion(before, after, id, r));
            assert(d != id);
        }
    }
}

/// A created user stays where it was put, with the name, email and age it
/// was given, status Active and default preferences, through any later calls
/// that neither delete its identity nor save another item under it.
pub proof fn lemma_created_user_stays_found(
    states: Seq<RepositoryState<User>>,
    i: int,
    name: Seq<char>,
    email: Seq<char>,
    age: Option<u8>,
    id: UserId,
)
    requires
        is_history(states),
        0 <= i < states.len() - 1,
        creation(states[i], states[i + 1], name, email, age, Ok::<UserId, AppError>(id)),
        forall|m: int, r: Result<(), AppError>| i < m < states.len() - 1
            ==> !#[trigger] deletion(states[m], states[m + 1], id, r),
        forall|m: int, item: User| i < m < states.len() - 1
            ==> !#[trigger] saving(states[m], states[m + 1], id, item),
    ensures
        lookup(states.last().items, id) matches Ok(u) && fresh_user(u, id, name, email, age),
{
    lemma_user_kept(states, i, id, states.len() - 1);
}

proof fn lemma_never_stored(states: Seq<RepositoryState<User>>, id: UserId, k: int)
    requires
        is_history(states),
        0 <= k < states.len(),
        states[0].items.is_empty(),
        forall|m: int, name: Seq<char>, email: Seq<char>, age: Option<u8>| 0 <= m < states.len() - 1
            ==> !#[trigger] creation(states[m], states[m + 1], name, email, age, Ok::<UserId, AppError>(id)),
        forall|m: int, item: User| 0 <= m < states.len() - 1
            ==> !#[trigger] saving(states[m], states[m + 1], id, item),
    ensures
        !states[k].items.contains_key(id),
    decreases k,
{
    if k > 0 {
        lemma_never_stored(states, id, k - 1);
        let m = k - 1;
        let before = states[m];
        let after = states[m + 1];
        assert(one_call(before, after));
        if exists|name: Seq<char>, email: Seq<char>, age: Option<u8>, r: Result<UserId, AppError>|
            #[trigger] creation(before, after, name, email, age, r) {
            let (name, email, age, r) = choose|name: Seq<char>, email: Seq<char>, age: Option<u8>, r: Result<UserId, AppError>|
                #[trigger] creation(before, after, name, email, age, r);
            assert(creation(before, after, name, email, age, r));
            assert(!creation(before, after, name, email, age, Ok::<UserId, AppError>(id)));
        } else if exists|item: User| #[trigger] saving(before, after, item.id, item) {
            let item = choose|item: User| #[trigger] saving(before, after, item.id, item);
            assert(!saving(before, after, id, item));
        } else if exists|d: UserId, r: Result<(), AppError>| #[trigger] deletion(before, after, d, r) {
            let (d, r) = choose|d: UserId, r: Result<(), AppError>| #[trigger] deletion(before, after, d, r);
            assert(deletion(before, after, d, r));
        }
    }
}

/// Starting from an empty repository, an identity that no creation returned
/// and under which nothing was saved is not found, whatever calls were made.
pub proof fn lemma_never_issued_is_not_found(states: Seq<RepositoryState<User>>, id: UserId)
    requires
        is_history(states),
        states.len() >= 1,
        states[0].items.is_empty(),
        forall|m: int, name: Seq<char>, email: Seq<char>, age: Option<u8>| 0 <= m < states.len() - 1
            ==> !#[trigger] creation(states[m], states[m + 1], name, email, age, Ok::<UserId, AppError>(id)),
        forall|m: int, item: User| 0 <= m < states.len() - 1
            ==> !#[trigger] saving(states[m], states[m + 1], id, item),
    ensures
        lookup(states.last().items, id) == Err::<User, AppError>(AppError::UserNotFound(id)),
{
    lemma_never_stored(states, id, states.len() - 1);
}

} // verus!
