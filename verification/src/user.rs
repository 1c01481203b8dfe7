//! The user record the credential store hands the core.

use vstd::prelude::*;

use crate::hashing::{bcrypt_matches, check_password, hash_password};

verus! {

/// A stored user: identifier, unique username, and an optional password
/// hash.  A record without a password hash can never authenticate by
/// password — verification simply fails, it never errors.
#[derive(Clone, Debug)]
pub struct User {
    id: String,
    username: String,
    password: Option<String>,
}

impl User {
    /// The record's identifier.
    pub closed spec fn spec_id(&self) -> Seq<char> {
        self.id@
    }

    /// The record's username.
    pub closed spec fn spec_username(&self) -> Seq<char> {
        self.username@
    }

    /// The stored password hash text, if the account has one.
    pub closed spec fn spec_password(&self) -> Option<Seq<char>> {
        match self.password {
            Some(h) => Some(h@),
            None => None,
        }
    }

    /// Whether this password is accepted against the stored hash: never
    /// when no hash is stored, else exactly when the hash matches.
    pub open spec fn spec_password_accepted(&self, password: Seq<u8>) -> bool {
        match self.spec_password() {
            Some(h) => bcrypt_matches(password, h),
            None => false,
        }
    }

    /// A fresh record with no password set.  The identifier is left empty:
    /// it is assigned where the record is provisioned into the store.
    pub fn new(username: String) -> (r: User)
        ensures
            r.spec_id() == Seq::<char>::empty(),
            r.spec_username() == username@,
            r.spec_password() is None,
    {
        User { id: String::new(), username, password: None }
    }

    /// Rebuild a record from its stored fields.
    pub fn from_parts(id: String, username: String, password: Option<String>) -> (r: User)
        ensures
            r.spec_id() == id@,
            r.spec_username() == username@,
            r.spec_password() == (match password {
                Some(h) => Some::<Seq<char>>(h@),
                None => None::<Seq<char>>,
            }),
    {
        User { id, username, password }
    }

    /// The identifier, by reference.
    pub fn id_ref(&self) -> (r: &String)
        ensures
            r@ == self.spec_id(),
    {
        &self.id
    }

    /// The username, by reference.
    pub fn username_ref(&self) -> (r: &String)
        ensures
            r@ == self.spec_username(),
    {
        &self.username
    }

    /// The stored password hash text, by reference.
    pub fn password_ref(&self) -> (r: &Option<String>)
        ensures
            *r matches Some(h) ==> self.spec_password() == Some(h@),
            *r is None <==> self.spec_password() is None,
    {
        &self.password
    }

    /// Check whether the password is correct for this record.
    ///
    /// Never raises; when no hash is stored, or the stored text is not a
    /// 60-character hash, the answer is a plain `false`, indistinguishable
    /// from a wrong password.
    pub fn verify_password(&self, password: &Vec<u8>) -> (r: bool)
        ensures
            r == self.spec_password_accepted(password@),
            (match self.spec_password() {
                Some(h) => h.len() != 60 || h[0] != '$',
                None => true,
            }) ==> r == false,
    {
        match &self.password {
            Some(h) => check_password(password, h.as_str()),
            None => false,
        }
    }

    /// Replace the record's password with a fresh hash of `password`.
    ///
    /// On success the new hash is one that [`User::verify_password`]
    /// accepts for exactly this password.  On failure (salt material
    /// unavailable) the record is unchanged.
    pub fn set_password(&mut self, password: &Vec<u8>) -> (r: bool)
        ensures
            final(self).spec_id() == old(self).spec_id(),
            final(self).spec_username() == old(self).spec_username(),
            r ==> final(self).spec_password_accepted(password@),
            r ==> (final(self).spec_password() matches Some(h) && h.len() == 60),
            !r ==> final(self).spec_password() == old(self).spec_password(),
    {
        match hash_password(password) {
            Some(h) => {
                self.password = Some(h);
                true
            },
            None => false,
        }
    }
}

} // verus!
