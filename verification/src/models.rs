//! The identity record handed to request handlers once a session resolves.

use vstd::prelude::*;

verus! {

/// Mathematical value of a [`User`]: the three fields a session layer reads.
pub ghost struct UserView {
    pub id: int,
    pub username: Seq<char>,
    pub realname: Seq<char>,
}

/// An authenticated identity: the fields of a stored user record that the
/// session layer reads. It is only ever read here, never mutated.
#[derive(Debug, PartialEq, Eq)]
pub struct User {
    pub id: i32,
    pub username: String,
    pub realname: String,
}

impl View for User {
    type V = UserView;

    open spec fn view(&self) -> UserView {
        UserView {
            id: self.id as int,
            username: self.username@,
            realname: self.realname@,
        }
    }
}

} // verus!
