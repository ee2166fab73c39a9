//! Accounts and the credentials a client submits.

use vstd::prelude::*;
use vstd::string::*;

verus! {

/// One account of the credential table.
#[derive(Debug)]
pub struct User {
    /// The primary key.
    pub id: i64,
    /// What a submitted password is compared with, letter for letter.
    pub password_hash: String,
    /// The login key.
    pub email: String,
}

/// What a `User` holds, as plain values.
pub ghost struct UserView {
    pub id: i64,
    pub password_hash: Seq<char>,
    pub email: Seq<char>,
}

impl View for User {
    type V = UserView;

    open spec fn view(&self) -> UserView {
        UserView { id: self.id, password_hash: self.password_hash@, email: self.email@ }
    }
}

impl Clone for User {
    fn clone(&self) -> (copy: Self)
        ensures
            copy@ == self@,
    {
        User {
            id: self.id,
            password_hash: self.password_hash.clone(),
            email: self.email.clone(),
        }
    }
}

impl Default for User {
    fn default() -> (user: Self)
        ensures
            user@ == (UserView { id: 0, password_hash: Seq::empty(), email: Seq::empty() }),
    {
        User { id: 0, password_hash: String::new(), email: String::new() }
    }
}

impl User {
    /// The account's identifier.
    pub fn get_id(&self) -> (id: i64)
        ensures
            id == self.id,
    {
        self.id
    }

    /// The stored password hash as bytes: the UTF-8 encoding of its text.
    pub fn get_password_hash(&self) -> (bytes: Vec<u8>)
        ensures
            bytes@ == vstd::utf8::encode_utf8(self.password_hash@),
    {
        self.password_hash.as_str().as_bytes_vec()
    }

    /// Whether a submitted password is the stored one.
    pub fn accepts(&self, password: &String) -> (ok: bool)
        ensures
            ok == (password@ == self@.password_hash),
    {
        *password == self.password_hash
    }
}

/// The fields of the login form.
#[derive(Debug)]
pub struct Login {
    pub email: String,
    pub password: String,
}

/// What a `Login` holds, as plain values.
pub ghost struct LoginView {
    pub email: Seq<char>,
    pub password: Seq<char>,
}

impl View for Login {
    type V = LoginView;

    open spec fn view(&self) -> LoginView {
        LoginView { email: self.email@, password: self.password@ }
    }
}

} // verus!
