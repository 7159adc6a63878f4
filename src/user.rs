use crate::clock::unix_now_secs;
use crate::error::AppError;
use vstd::prelude::*;

verus! {

/// True when `s` has at least one `@` and at least one `.`, anywhere.
pub open spec fn valid_email(s: Seq<char>) -> bool {
    s.contains('@') && s.contains('.')
}

/// A permissive format check: the text holds an `@` and a `.`.
pub fn is_valid_email(email: &str) -> (r: bool)
    ensures
        r == valid_email(email@),
{
    let mut has_at = false;
    let mut has_dot = false;
    for c in it: email.chars()
        invariant
            it.seq() == email@,
            has_at <==> exists|j: int| 0 <= j < it.index() && email@[j] == '@',
            has_dot <==> exists|j: int| 0 <= j < it.index() && email@[j] == '.',
    {
        if c == '@' {
            has_at = true;
        }
        if c == '.' {
            has_dot = true;
        }
    }
    has_at && has_dot
}

} // verus!

verus! {

pub type UserId = u32;

/// Where a user stands; any status may be replaced by any other.
#[derive(Debug, Clone, Copy, PartialEq, Eq, Structural)]
pub enum UserStatus {
    Active,
    Inactive,
    Pending,
}

#[derive(Debug, Clone)]
pub struct UserPreferences {
    pub theme: String,
    pub notifications: bool,
    pub language: String,
}

#[derive(Debug, Clone)]
pub struct User {
    pub id: UserId,
    pub name: String,
    pub email: String,
    pub age: Option<u8>,
    pub status: UserStatus,
    pub preferences: UserPreferences,
    pub created_at: u64,
}

/// The preferences every new user starts with: light theme, notifications on,
/// English.
pub open spec fn default_preferences(p: UserPreferences) -> bool {
    &&& p.theme@ == "light"@
    &&& p.notifications
    &&& p.language@ == "en"@
}

/// `u` is a freshly made user with the given identity and inputs: status
/// Active and default preferences. The creation time is left open.
pub open spec fn fresh_user(u: User, id: UserId, name: Seq<char>, email: Seq<char>, age: Option<u8>) -> bool {
    &&& u.id == id
    &&& u.name@ == name
    &&& u.email@ == email
    &&& u.age == age
    &&& u.status == UserStatus::Active
    &&& default_preferences(u.preferences)
}

/// A user is an adult when the age is known and at least 18.
pub open spec fn adult(u: User) -> bool {
    match u.age {
        Some(a) => a >= 18,
        None => false,
    }
}

impl User {
    /// Makes a user stamped with the current time, after checking the email.
    pub fn new(id: UserId, name: String, email: String, age: Option<u8>) -> (r: Result<User, AppError>)
        ensures
            valid_email(email@) ==> (r matches Ok(u) && fresh_user(u, id, name@, email@, age)),
            !valid_email(email@) ==> r == Err::<User, AppError>(AppError::InvalidEmail(email)),
    {
        let created_at = unix_now_secs();
        User::new_at(id, name, email, age, created_at)
    }

    /// Makes a user stamped with `created_at`, after checking the email.
    pub fn new_at(id: UserId, name: String, email: String, age: Option<u8>, created_at: u64) -> (r: Result<User, AppError>)
        ensures
            valid_email(email@) ==> (r matches Ok(u) && fresh_user(u, id, name@, email@, age)
                && u.created_at == created_at),
            !valid_email(email@) ==> r == Err::<User, AppError>(AppError::InvalidEmail(email)),
    {
        if !is_valid_email(email.as_str()) {
            return Err(AppError::InvalidEmail(email));
        }
        let preferences = UserPreferences {
            theme: "light".to_string(),
            notifications: true,
            language: "en".to_string(),
        };
        Ok(User { id, name, email, age, status: UserStatus::Active, preferences, created_at })
    }

    pub fn is_adult(&self) -> (r: bool)
        ensures
            r == adult(*self),
    {
        match self.age {
            Some(a) => a >= 18,
            None => false,
        }
    }

    /// Replaces the status; every other field is kept.
    pub fn update_status(&mut self, status: UserStatus)
        ensures
            *final(self) == (User { status, ..*old(self) }),
    {
        self.status = status;
    }
}

} // verus!
