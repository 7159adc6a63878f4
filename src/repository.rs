use crate::clock::unix_now_secs;
use crate::error::AppError;
use crate::user::{fresh_user, valid_email, User, UserId};
use std::collections::HashMap;
use vstd::prelude::*;
use vstd::std_specs::iter::IteratorSpec;

verus! {

broadcast use vstd::std_specs::hash::group_hash_axioms;

/// The most users `create_user` lets a repository hold.
pub const MAX_USERS: usize = 1000;

/// What a repository holds: items by identity, and the identity that the
/// next creation will issue.
pub struct RepositoryState<T> {
    pub items: Map<UserId, T>,
    pub next_id: UserId,
}

/// The result of looking `id` up in `m`.
pub open spec fn lookup<T>(m: Map<UserId, T>, id: UserId) -> Result<T, AppError> {
    if m.contains_key(id) {
        Ok(m[id])
    } else {
        Err(AppError::UserNotFound(id))
    }
}

/// `s` lists every item of `m` once: there is an order of the keys of `m`
/// under which `s` holds their items.
pub open spec fn lists_all<T>(m: Map<UserId, T>, s: Seq<T>) -> bool {
    exists|ks: Seq<UserId>| #[trigger] keys_list(m, s, ks)
}

/// `ks` holds each key of `m` once, and `s` the items under `ks` in turn.
pub open spec fn keys_list<T>(m: Map<UserId, T>, s: Seq<T>, ks: Seq<UserId>) -> bool {
    &&& ks.no_duplicates()
    &&& ks.to_set() == m.dom()
    &&& ks.len() == s.len()
    &&& forall|i: int| 0 <= i < s.len() ==> s[i] == m[#[trigger] ks[i]]
}

/// The repository holds as many users as `create_user` allows.
pub open spec fn is_full(before: RepositoryState<User>) -> bool {
    before.items.len() >= MAX_USERS
}

/// `after` and `r` are what `create_user(name, email, age)` may leave and
/// return on `before`. A full repository gives `RepositoryError`; then an
/// email that fails the check gives `InvalidEmail`; then a counter at the
/// last identity a `UserId` can hold gives `RepositoryError`; otherwise the
/// next identity is issued to a fresh user, whatever the clock read.
pub open spec fn creation(
    before: RepositoryState<User>,
    after: RepositoryState<User>,
    name: Seq<char>,
    email: Seq<char>,
    age: Option<u8>,
    r: Result<UserId, AppError>,
) -> bool {
    if is_full(before) {
        &&& r matches Err(AppError::RepositoryError(m))
        &&& m@ == "Maximum users reached"@
        &&& after == before
    } else if !valid_email(email) {
        &&& r matches Err(AppError::InvalidEmail(e))
        &&& e@ == email
        &&& after == before
    } else if before.next_id == UserId::MAX {
        &&& r matches Err(AppError::RepositoryError(m))
        &&& m@ == "No identity left to issue"@
        &&& after == before
    } else {
        let id = before.next_id;
        &&& r == Ok::<UserId, AppError>(id)
        &&& after.next_id == id + 1
        &&& after.items.contains_key(id)
        &&& after.items == before.items.insert(id, after.items[id])
        &&& fresh_user(after.items[id], id, name, email, age)
    }
}

/// `after` is `before` with `item` stored under `key`, replacing any item
/// there; the counter is kept.
pub open spec fn saving<T>(before: RepositoryState<T>, after: RepositoryState<T>, key: UserId, item: T) -> bool {
    &&& after.items == before.items.insert(key, item)
    &&& after.next_id == before.next_id
}

/// `after` and `r` are what `delete(id)` leaves and returns on `before`: the
/// item under `id` is removed, or, where there is none, `UserNotFound(id)`
/// with nothing changed. The counter is kept either way.
pub open spec fn deletion<T>(
    before: RepositoryState<T>,
    after: RepositoryState<T>,
    id: UserId,
    r: Result<(), AppError>,
) -> bool {
    &&& after.next_id == before.next_id
    &&& if before.items.contains_key(id) {
        &&& r is Ok
        &&& after.items == before.items.remove(id)
    } else {
        &&& r == Err::<(), AppError>(AppError::UserNotFound(id))
        &&& after.items == before.items
    }
}

/// Every stored identity was issued: it lies from 1 up to below the counter,
/// which has left 0 behind.
/// Creation and deletion keep this; `save` with an identity of its own
/// choosing may not.
pub open spec fn holds_only_issued<T>(s: RepositoryState<T>) -> bool {
    &&& s.next_id >= 1
    &&& forall|id: UserId| #[trigger] s.items.contains_key(id) ==> 1 <= id < s.next_id
}

/// Storage of items by identity.
pub trait Repository<T> {
    spec fn state(&self) -> RepositoryState<T>;

    /// The identity an item is stored under.
    spec fn key_of(item: T) -> UserId;

    /// Inserts the item, or replaces the one with its identity. Neither the
    /// email nor the capacity is checked; it never fails.
    fn save(&mut self, item: T) -> (r: Result<(), AppError>)
        ensures
            r is Ok,
            saving(old(self).state(), final(self).state(), Self::key_of(item), item),
            final(self).state().items.dom().finite(),
    ;

    /// The item stored under `id`, or `UserNotFound(id)`.
    fn find_by_id(&self, id: UserId) -> (r: Result<&T, AppError>)
        ensures
            match r {
                Ok(u) => lookup(self.state().items, id) == Ok::<T, AppError>(*u),
                Err(e) => lookup(self.state().items, id) == Err::<T, AppError>(e),
            },
    ;

    /// Every stored item once, in no promised order.
    fn find_all(&self) -> (r: Vec<&T>)
        ensures
            lists_all(self.state().items, r@.unref()),
    ;

    /// Removes the item stored under `id`, or fails with `UserNotFound(id)`
    /// and changes nothing.
    fn delete(&mut self, id: UserId) -> (r: Result<(), AppError>)
        ensures
            deletion(old(self).state(), final(self).state(), id, r),
            final(self).state().items.dom().finite(),
    ;
}

/// A repository of users held in memory.
pub struct InMemoryUserRepository {
    users: HashMap<UserId, User>,
    next_id: UserId,
}

impl InMemoryUserRepository {
    /// An empty repository whose first creation issues identity 1.
    pub fn new() -> (r: Self)
        ensures
            r.state().items.is_empty(),
            r.state().next_id == 1,
            r.state().items.dom().finite(),
            holds_only_issued(r.state()),
    {
        InMemoryUserRepository { users: HashMap::new(), next_id: 1 }
    }

    /// Validates and stores a new user stamped with the current time, and
    /// returns the identity issued to it.
    pub fn create_user(&mut self, name: String, email: String, age: Option<u8>) -> (r: Result<UserId, AppError>)
        ensures
            creation(old(self).state(), final(self).state(), name@, email@, age, r),
            final(self).state().items.dom().finite(),
    {
        let created_at = unix_now_secs();
        self.create_user_at(name, email, age, created_at)
    }

    /// As `create_user`, with the creation time given.
    pub fn create_user_at(&mut self, name: String, email: String, age: Option<u8>, created_at: u64) -> (r: Result<UserId, AppError>)
        ensures
            creation(old(self).state(), final(self).state(), name@, email@, age, r),
            final(self).state().items.dom().finite(),
            r is Ok ==> final(self).state().items[old(self).state().next_id].created_at == created_at,
    {
        if self.users.len() >= MAX_USERS {
            return Err(AppError::RepositoryError("Maximum users reached".to_string()));
        }
        let id = self.next_id;
        let user = match User::new_at(id, name, email, age, created_at) {
            Ok(u) => u,
            Err(e) => {
                return Err(e);
            }
        };
        if id == UserId::MAX {
            return Err(AppError::RepositoryError("No identity left to issue".to_string()));
        }
        self.users.insert(id, user);
        self.next_id = id + 1;
        Ok(id)
    }
}

impl Repository<User> for InMemoryUserRepository {
    closed spec fn state(&self) -> RepositoryState<User> {
        RepositoryState { items: self.users@, next_id: self.next_id }
    }

    open spec fn key_of(item: User) -> UserId {
        item.id
    }

    fn save(&mut self, item: User) -> (r: Result<(), AppError>) {
        self.users.insert(item.id, item);
        Ok(())
    }

    fn find_by_id(&self, id: UserId) -> (r: Result<&User, AppError>) {
        match self.users.get(&id) {
            Some(u) => Ok(u),
            None => Err(AppError::UserNotFound(id)),
        }
    }

    fn find_all(&self) -> (r: Vec<&User>) {
        let mut all: Vec<&User> = Vec::new();
        let ghost m = self.users@;
        let ghost mut ks: Seq<UserId> = Seq::empty();
        let keys_iter = self.users.keys();
        let ghost keys = keys_iter.remaining().unref();
        for k in it: keys_iter
            invariant
                m == self.users@,
                it.seq().unref() == keys,
                it.seq().unref().no_duplicates(),
                it.seq().unref().to_set() == m.dom(),
                ks == it.seq().unref().take(it.index() as int),
                all@.len() == ks.len(),
                forall|i: int| 0 <= i < all@.len() ==> *all@[i] == m[#[trigger] ks[i]],
        {
            match self.users.get(k) {
                Some(u) => {
                    all.push(u);
                }
                None => {}
            }
            proof {
                ks = ks.push(*k);
            }
        }
        proof {
            assert(ks == keys.take(keys.len() as int));
            assert(ks == keys);
            assert(keys_list(m, all@.unref(), ks));
        }
        all
    }

    fn delete(&mut self, id: UserId) -> (r: Result<(), AppError>) {
        match self.users.remove(&id) {
            Some(_) => Ok(()),
            None => {
                assert(self.users@ =~= old(self).users@);
                Err(AppError::UserNotFound(id))
            },
        }
    }
}

/// A successful creation issues the counter's value, advances the counter,
/// and leaves a user under that identity with the given name, email and age,
/// status Active and default preferences, which a lookup then returns.
pub proof fn lemma_created_user_is_found(
    before: RepositoryState<User>,
    after: RepositoryState<User>,
    name: Seq<char>,
    email: Seq<char>,
    age: Option<u8>,
    r: Result<UserId, AppError>,
)
    requires
        creation(before, after, name, email, age, r),
        !is_full(before),
        valid_email(email),
        before.next_id < UserId::MAX,
    ensures
        r == Ok::<UserId, AppError>(before.next_id),
        after.next_id > before.next_id,
        lookup(after.items, before.next_id) matches Ok(u) && fresh_user(u, before.next_id, name, email, age),
{
}

/// An email without `@` or without `.` is refused with `InvalidEmail` by a
/// repository that has room, and the number of users stays as it was.
pub proof fn lemma_invalid_email_changes_nothing(
    before: RepositoryState<User>,
    after: RepositoryState<User>,
    name: Seq<char>,
    email: Seq<char>,
    age: Option<u8>,
    r: Result<UserId, AppError>,
)
    requires
        creation(before, after, name, email, age, r),
        !is_full(before),
        !email.contains('@') || !email.contains('.'),
    ensures
        r matches Err(AppError::InvalidEmail(e)) && e@ == email,
        after.items.len() == before.items.len(),
{
}

/// `states` runs from an empty repository through successful creations
/// alone, `results` holding what each returned.
pub open spec fn created_in_turn(
    states: Seq<RepositoryState<User>>,
    names: Seq<Seq<char>>,
    emails: Seq<Seq<char>>,
    ages: Seq<Option<u8>>,
    results: Seq<Result<UserId, AppError>>,
) -> bool {
    &&& states.len() == results.len() + 1
    &&& names.len() == results.len()
    &&& emails.len() == results.len()
    &&& ages.len() == results.len()
    &&& states[0].items.is_empty()
    &&& states[0].next_id == 1
    &&& forall|i: int| 0 <= i < results.len() ==> #[trigger] creation(states[i], states[i + 1], names[i], emails[i], ages[i], results[i])
    &&& forall|i: int| 0 <= i < results.len() ==> #[trigger] results[i] is Ok
}

proof fn lemma_created_prefix(
    states: Seq<RepositoryState<User>>,
    names: Seq<Seq<char>>,
    emails: Seq<Seq<char>>,
    ages: Seq<Option<u8>>,
    results: Seq<Result<UserId, AppError>>,
    k: int,
)
    requires
        created_in_turn(states, names, emails, ages, results),
        0 <= k <= results.len(),
    ensures
        states[k].items.dom().finite(),
        states[k].items.len() == k,
        states[k].next_id == k + 1,
        holds_only_issued(states[k]),
        forall|i: int| 0 <= i < k ==> results[i] == Ok::<UserId, AppError>((i + 1) as UserId),
    decreases k,
{
    if k == 0 {
        assert(states[0].items.dom() =~= Set::empty());
    } else {
        lemma_created_prefix(states, names, emails, ages, results, k - 1);
        let before = states[k - 1];
        let after = states[k];
        assert(creation(before, after, names[k - 1], emails[k - 1], ages[k - 1], results[k - 1]));
        assert(results[k - 1] is Ok);
        assert(!before.items.contains_key(before.next_id));
        assert(after.items.dom() =~= before.items.dom().insert(before.next_id));
        assert forall|id: UserId| #[trigger] after.items.contains_key(id) implies 1 <= id < after.next_id by {
            if id != before.next_id {
                assert(before.items.contains_key(id));
            }
        }
    }
}

/// Creations from an empty repository issue identities 1, 2, 3, ... in
/// turn, and each leaves one user more.
pub proof fn lemma_identities_count_up(
    states: Seq<RepositoryState<User>>,
    names: Seq<Seq<char>>,
    emails: Seq<Seq<char>>,
    ages: Seq<Option<u8>>,
    results: Seq<Result<UserId, AppError>>,
)
    requires
        created_in_turn(states, names, emails, ages, results),
    ensures
        forall|i: int| 0 <= i < results.len() ==> results[i] == Ok::<UserId, AppError>((i + 1) as UserId),
        states.last().items.len() == results.len(),
{
    lemma_created_prefix(states, names, emails, ages, results, results.len() as int);
}

/// After `MAX_USERS` successful creations from an empty repository, every
/// further creation fails with `RepositoryError("Maximum users reached")`,
/// whatever its inputs.
pub proof fn lemma_full_after_max_creations(
    states: Seq<RepositoryState<User>>,
    names: Seq<Seq<char>>,
    emails: Seq<Seq<char>>,
    ages: Seq<Option<u8>>,
    results: Seq<Result<UserId, AppError>>,
)
    requires
        created_in_turn(states, names, emails, ages, results),
        results.len() == MAX_USERS,
    ensures
        forall|after: RepositoryState<User>, name: Seq<char>, email: Seq<char>, age: Option<u8>, r: Result<UserId, AppError>|
            #[trigger] creation(states.last(), after, name, email, age, r)
                ==> (r matches Err(AppError::RepositoryError(m)) && m@ == "Maximum users reached"@),
{
    lemma_created_prefix(states, names, emails, ages, results, results.len() as int);
}

/// Once `id` is deleted, looking it up fails with `UserNotFound(id)`.
pub proof fn lemma_deleted_is_not_found<T>(
    before: RepositoryState<T>,
    after: RepositoryState<T>,
    id: UserId,
    r: Result<(), AppError>,
)
    requires
        deletion(before, after, id, r),
    ensures
        lookup(after.items, id) == Err::<T, AppError>(AppError::UserNotFound(id)),
{
}

/// In a repository that holds only issued identities, an identity never
/// issued (0, or the counter or above) is not found.
pub proof fn lemma_unissued_is_not_found<T>(s: RepositoryState<T>, id: UserId)
    requires
        holds_only_issued(s),
        id == 0 || id >= s.next_id,
    ensures
        lookup(s.items, id) == Err::<T, AppError>(AppError::UserNotFound(id)),
{
}

/// Creation and deletion keep a repository to issued identities.
pub proof fn lemma_issued_only_is_kept(
    before: RepositoryState<User>,
    created: RepositoryState<User>,
    name: Seq<char>,
    email: Seq<char>,
    age: Option<u8>,
    r: Result<UserId, AppError>,
    deleted: RepositoryState<User>,
    id: UserId,
    d: Result<(), AppError>,
)
    requires
        holds_only_issued(before),
    ensures
        creation(before, created, name, email, age, r) ==> holds_only_issued(created),
        deletion(before, deleted, id, d) ==> holds_only_issued(deleted),
{
    if creation(before, created, name, email, age, r) && !is_full(before) && valid_email(email)
        && before.next_id < UserId::MAX {
        assert forall|k: UserId| #[trigger] created.items.contains_key(k) implies 1 <= k < created.next_id by {
            if k != before.next_id {
                assert(before.items.contains_key(k));
            }
        }
    }
}

/// Saving the same item twice leaves the repository as saving it once.
pub proof fn lemma_save_is_idempotent<T>(
    s0: RepositoryState<T>,
    s1: RepositoryState<T>,
    s2: RepositoryState<T>,
    key: UserId,
    item: T,
)
    requires
        saving(s0, s1, key, item),
        saving(s1, s2, key, item),
    ensures
        s2 == s1,
{
    assert(s2.items =~= s1.items);
}

} // verus!
