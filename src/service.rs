use crate::repository::{keys_list, lists_all, Repository};
use crate::user::{adult, User, UserId, UserStatus};
use vstd::prelude::*;

verus! {

/// How much an event matters to a log.
#[derive(Debug, Clone, Copy, PartialEq, Eq, Structural)]
pub enum LogLevel {
    Info,
    Warn,
    Error,
    Debug,
}

/// A sink for log events. It takes a level and a message, and reports
/// nothing back.
pub trait Logger {
    fn log(&self, level: LogLevel, message: &str);

    fn info(&self, message: &str) {
        self.log(LogLevel::Info, message);
    }

    fn error(&self, message: &str) {
        self.log(LogLevel::Error, message);
    }
}

/// Counters over all users of a repository at one moment.
#[derive(Debug, Clone, Copy, PartialEq, Eq, Structural)]
pub struct UserStats {
    pub total: u32,
    pub adults: u32,
    pub active: u32,
    pub minors: u32,
}

/// The identities in `m` whose user is an adult.
pub open spec fn adult_ids(m: Map<UserId, User>) -> Set<UserId> {
    m.dom().filter(|id: UserId| adult(m[id]))
}

/// The identities in `m` whose user is Active.
pub open spec fn active_ids(m: Map<UserId, User>) -> Set<UserId> {
    m.dom().filter(|id: UserId| m[id].status == UserStatus::Active)
}

/// The counters that `m` gives: all users, adults, Active ones, and the
/// users that are not adults.
pub open spec fn stats_of(m: Map<UserId, User>) -> UserStats {
    let total = m.len();
    let adults = adult_ids(m).len();
    UserStats {
        total: total as u32,
        adults: adults as u32,
        active: active_ids(m).len() as u32,
        minors: (total - adults) as u32,
    }
}

/// The number of users in `s` of which `p` holds.
pub open spec fn count_where(s: Seq<User>, p: spec_fn(User) -> bool) -> nat
    decreases s.len(),
{
    if s.len() == 0 {
        0
    } else {
        count_where(s.drop_last(), p) + if p(s.last()) { 1nat } else { 0nat }
    }
}

/// Counting over a list of every user of `m` counts the identities of `m`
/// whose user passes `p`.
proof fn lemma_count_listed(m: Map<UserId, User>, s: Seq<User>, ks: Seq<UserId>, p: spec_fn(User) -> bool)
    requires
        ks.no_duplicates(),
        ks.len() == s.len(),
        forall|i: int| 0 <= i < s.len() ==> s[i] == m[#[trigger] ks[i]],
    ensures
        count_where(s, p) == ks.to_set().filter(|id: UserId| p(m[id])).len(),
        ks.to_set().len() == ks.len(),
    decreases s.len(),
{
    let f = |id: UserId| p(m[id]);
    if s.len() == 0 {
        assert(ks.to_set() =~= Set::empty());
        assert(ks.to_set().filter(f) =~= Set::empty());
    } else {
        let ks0 = ks.drop_last();
        let s0 = s.drop_last();
        let k = ks.last();
        assert(ks0.no_duplicates());
        lemma_count_listed(m, s0, ks0, p);
        assert(ks.to_set() =~= ks0.to_set().insert(k)) by {
            assert(ks =~= ks0.push(k));
            ks0.lemma_push_to_set_commute(k);
        }
        assert(!ks0.to_set().contains(k)) by {
            if ks0.to_set().contains(k) {
                let j = choose|j: int| 0 <= j < ks0.len() && ks0[j] == k;
                assert(ks[j] == ks[ks.len() - 1]);
            }
        }
        vstd::seq_lib::seq_to_set_is_finite(ks0);
        if f(k) {
            assert(ks.to_set().filter(f) =~= ks0.to_set().filter(f).insert(k));
        } else {
            assert(ks.to_set().filter(f) =~= ks0.to_set().filter(f));
        }
        assert(s.last() == m[k]);
    }
}

/// A service over a repository of users and a log.
pub struct UserService<R: Repository<User>, L: Logger> {
    pub repository: R,
    pub logger: L,
}

impl<R: Repository<User>, L: Logger> UserService<R, L> {
    pub fn new(repository: R, logger: L) -> (r: Self)
        ensures
            r.repository == repository,
            r.logger == logger,
    {
        UserService { repository, logger }
    }

    /// Counts all users, the adults, the Active ones and the rest that are
    /// not adults, over one listing of the repository.
    pub fn get_user_stats(&self) -> (r: UserStats)
        requires
            self.repository.state().items.len() <= u32::MAX,
        ensures
            r == stats_of(self.repository.state().items),
            r.minors == r.total - r.adults,
    {
        let users = self.repository.find_all();
        let ghost m = self.repository.state().items;
        let ghost s = users@.unref();
        let mut adults: u32 = 0;
        let mut active: u32 = 0;
        let mut i: usize = 0;
        proof {
            let ks = choose|ks: Seq<UserId>| keys_list(m, s, ks);
            ks.unique_seq_to_set();
        }
        while i < users.len()
            invariant
                s == users@.unref(),
                s.len() <= u32::MAX,
                i <= s.len(),
                adults == count_where(s.take(i as int), |u: User| adult(u)),
                active == count_where(s.take(i as int), |u: User| u.status == UserStatus::Active),
                adults <= i,
                active <= i,
            decreases s.len() - i,
        {
            assert(s.take(i + 1).drop_last() == s.take(i as int));
            if users[i].is_adult() {
                adults = adults + 1;
            }
            if users[i].status == UserStatus::Active {
                active = active + 1;
            }
            i = i + 1;
        }
        assert(s.take(s.len() as int) == s);
        proof {
            let ks = choose|ks: Seq<UserId>| keys_list(m, s, ks);
            lemma_count_listed(m, s, ks, |u: User| adult(u));
            lemma_count_listed(m, s, ks, |u: User| u.status == UserStatus::Active);
            assert(ks.to_set().filter(|id: UserId| (|u: User| adult(u))(m[id])) =~= adult_ids(m));
            assert(ks.to_set().filter(|id: UserId| (|u: User| u.status == UserStatus::Active)(m[id]))
                =~= active_ids(m));
        }
        let total = users.len() as u32;
        UserStats { total, adults, active, minors: total - adults }
    }
}

} // verus!
