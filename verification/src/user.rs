//! Users and the per-project user roster.

use crate::text::str_eq;
use vstd::prelude::*;

verus! {

/// A user of the store: identified by name, immutable once created except for
/// the activation flag.
#[derive(Debug)]
pub struct User {
    pub name: String,
    pub email: String,
    pub deactivate: bool,
}

/// The mathematical value of a [`User`].
pub ghost struct UserView {
    pub name: Seq<char>,
    pub email: Seq<char>,
    pub deactivate: bool,
}

impl View for User {
    type V = UserView;

    open spec fn view(&self) -> UserView {
        UserView { name: self.name@, email: self.email@, deactivate: self.deactivate }
    }
}

impl Clone for User {
    fn clone(&self) -> (r: Self)
        ensures
            r@ == self@,
    {
        User { name: self.name.clone(), email: self.email.clone(), deactivate: self.deactivate }
    }
}

impl User {
    /// Creates an active user with the given name and email.
    pub fn new(name: &str, email: &str) -> (r: Self)
        ensures
            r@ == (UserView { name: name@, email: email@, deactivate: false }),
    {
        User { name: name.to_owned(), email: email.to_owned(), deactivate: false }
    }

    /// Deactivates the user; name and email are untouched.
    pub fn deactivate(&mut self)
        ensures
            final(self)@ == (UserView { deactivate: true, ..old(self)@ }),
    {
        self.deactivate = true;
    }

    /// Returns the user's name.
    pub fn name(&self) -> (r: String)
        ensures
            r@ == self@.name,
    {
        self.name.clone()
    }

    /// Returns the user's email.
    pub fn email(&self) -> (r: String)
        ensures
            r@ == self@.email,
    {
        self.email.clone()
    }

    /// Whether the user has been deactivated.
    pub fn is_deactivated(&self) -> (r: bool)
        ensures
            r == self@.deactivate,
    {
        self.deactivate
    }
}

/// The roster of users known to one project.  Duplicate names are allowed;
/// name lookups resolve to the first entry with that name.
#[derive(Debug)]
pub struct Users {
    pub list: Vec<User>,
}

impl View for Users {
    type V = Seq<UserView>;

    open spec fn view(&self) -> Seq<UserView> {
        self.list@.map(|i: int, u: User| u@)
    }
}

impl Clone for Users {
    fn clone(&self) -> (r: Self)
        ensures
            r@ == self@,
    {
        let mut list: Vec<User> = Vec::new();
        let mut i: usize = 0;
        while i < self.list.len()
            invariant
                i <= self.list.len(),
                list@.len() == i,
                forall|j: int| 0 <= j < i ==> list@[j]@ == self.list@[j]@,
            decreases self.list.len() - i,
        {
            list.push(self.list[i].clone());
            i += 1;
        }
        let r = Users { list };
        proof {
            assert(r@ =~= self@);
        }
        r
    }
}

impl Users {
    /// Creates an empty roster.
    pub fn new() -> (r: Self)
        ensures
            r@ == Seq::<UserView>::empty(),
    {
        let r = Users { list: Vec::new() };
        proof {
            assert(r@ =~= Seq::<UserView>::empty());
        }
        r
    }

    /// Appends a user to the roster.
    pub fn add_user(&mut self, new_user: User)
        ensures
            final(self)@ == old(self)@.push(new_user@),
    {
        let ghost prev = self@;
        let ghost uv = new_user@;
        self.list.push(new_user);
        proof {
            assert(self@ =~= prev.push(uv));
        }
    }

    /// Finds the first user with the given name.
    pub fn find(&self, name: &str) -> (r: Option<&User>)
        ensures
            match r {
                Some(u) => exists|i: int|
                    0 <= i < self@.len() && self@[i] == u@ && self@[i].name == name@ && (forall|
                        j: int,
                    |
                        0 <= j < i ==> self@[j].name != name@),
                None => forall|i: int| 0 <= i < self@.len() ==> self@[i].name != name@,
            },
    {
        let mut i: usize = 0;
        while i < self.list.len()
            invariant
                i <= self.list.len(),
                forall|j: int| 0 <= j < i ==> self@[j].name != name@,
            decreases self.list.len() - i,
        {
            if str_eq(self.list[i].name.as_str(), name) {
                proof {
                    assert(self@[i as int] == self.list@[i as int]@);
                    assert(self@[i as int].name == name@);
                }
                return Some(&self.list[i]);
            }
            i += 1;
        }
        None
    }

    /// Gets a user by position in the roster; a negative position yields
    /// nothing.
    pub fn get(&self, index: i32) -> (r: Option<&User>)
        ensures
            match r {
                Some(u) => 0 <= index < self@.len() && u@ == self@[index as int],
                None => !(0 <= index < self@.len()),
            },
    {
        if index < 0 {
            return None;
        }
        self.list.get(index as usize)
    }

    /// Gets a mutable reference to a user by position in the roster.  The
    /// roster must hold that position.
    pub fn get_mut(&mut self, index: usize) -> (r: &mut User)
        requires
            index < old(self)@.len(),
        ensures
            *r == old(self).list@[index as int],
            final(self).list@ == old(self).list@.update(index as int, *final(r)),
    {
        &mut self.list[index]
    }

    /// Whether some user with the given name is on the roster.
    pub fn exist(&self, name: &str) -> (r: bool)
        ensures
            r == exists|i: int| 0 <= i < self@.len() && self@[i].name == name@,
    {
        let r = self.find(name);
        r.is_some()
    }

    /// Returns the roster as a list.
    pub fn get_list(&self) -> (r: &Vec<User>)
        ensures
            r@.map(|i: int, u: User| u@) == self@,
    {
        &self.list
    }

    /// The number of users on the roster.
    pub fn len(&self) -> (r: usize)
        ensures
            r == self@.len(),
    {
        self.list.len()
    }
}

} // verus!
