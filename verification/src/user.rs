use crate::snowflake::{generated_by, Snowflake};
use vstd::prelude::*;

verus! {

/// A value that is either kept from outsiders (`Hidden`) or shown to them.
#[derive(Debug, Clone, PartialEq, Eq)]
pub enum Private<T> {
    Hidden(T),
    Shown(T),
}

impl<T> Private<T> {
    /// The value, whichever way it is marked.
    pub open spec fn inner(self) -> T {
        match self {
            Private::Hidden(x) => x,
            Private::Shown(x) => x,
        }
    }

    /// The value, whichever way it is marked.
    pub fn get(&self) -> (r: &T)
        ensures
            *r == self.inner(),
    {
        match self {
            Private::Hidden(x) => x,
            Private::Shown(x) => x,
        }
    }
}

impl<T> core::ops::Deref for Private<T> {
    type Target = T;

    fn deref(&self) -> (r: &T)
        ensures
            *r == self.inner(),
    {
        self.get()
    }
}

impl<T: Clone> Private<T> {
    pub fn is_private(&self) -> (b: bool)
        ensures
            b == (*self is Hidden),
    {
        match self {
            Private::Hidden(_) => true,
            Private::Shown(_) => false,
        }
    }

    /// Marks the value as shown, keeping a clone of it.
    pub fn set_public(&mut self)
        ensures
            *final(self) is Shown,
            cloned(old(self).inner(), final(self).inner()),
    {
        let value = self.get().clone();
        *self = Private::Shown(value);
    }

    /// Marks the value as hidden, keeping a clone of it.
    pub fn set_private(&mut self)
        ensures
            *final(self) is Hidden,
            cloned(old(self).inner(), final(self).inner()),
    {
        let value = self.get().clone();
        *self = Private::Hidden(value);
    }
}

impl<T: View> View for Private<T> {
    type V = Private<T::V>;

    open spec fn view(&self) -> Private<T::V> {
        match self {
            Private::Hidden(x) => Private::Hidden(x@),
            Private::Shown(x) => Private::Shown(x@),
        }
    }
}

impl<T> From<T> for Private<T> {
    fn from(t: T) -> (r: Private<T>) {
        Private::Hidden(t)
    }
}

impl<T> vstd::std_specs::convert::FromSpecImpl<T> for Private<T> {
    open spec fn obeys_from_spec() -> bool {
        true
    }

    open spec fn from_spec(t: T) -> Private<T> {
        Private::Hidden(t)
    }
}

impl<T: Default> Default for Private<T> {
    fn default() -> (r: Private<T>)
        ensures
            r is Hidden,
    {
        Private::Hidden(T::default())
    }
}

impl Private<String> {
    /// A copy with the same mark and the same text.
    pub fn copy(&self) -> (r: Private<String>)
        ensures
            r@ == self@,
    {
        match self {
            Private::Hidden(x) => Private::Hidden(x.clone()),
            Private::Shown(x) => Private::Shown(x.clone()),
        }
    }
}

/// A registered user: identifier, name and password (hidden by default).
#[derive(Debug)]
pub struct User {
    pub id: Snowflake,
    pub username: String,
    pub hash_password: Private<String>,
}

/// The mathematical content of a `User`.
pub struct UserView {
    pub id: Snowflake,
    pub username: Seq<char>,
    pub hash_password: Private<Seq<char>>,
}

impl View for User {
    type V = UserView;

    open spec fn view(&self) -> UserView {
        UserView { id: self.id, username: self.username@, hash_password: self.hash_password@ }
    }
}

impl User {
    /// A user with a fresh identifier and a hidden password.
    pub fn new(
        username: &str,
        hash_password: &str,
        generator: &mut snowflake::SnowflakeIdGenerator,
    ) -> (u: User)
        ensures
            u@.username == username@,
            u@.hash_password == Private::Hidden(hash_password@),
            generated_by(*old(generator), *final(generator), u.id),
    {
        let name = username.to_owned();
        let password = hash_password.to_owned();
        let id = Snowflake::generate(generator);
        User { id, username: name, hash_password: Private::Hidden(password) }
    }
}

impl Clone for User {
    fn clone(&self) -> (r: User)
        ensures
            r@ == self@,
    {
        User {
            id: self.id,
            username: self.username.clone(),
            hash_password: self.hash_password.copy(),
        }
    }
}

/// The user that an authenticated request was made by.
pub struct UserRequest {
    pub user: User,
}

} // verus!
