//! What the game keeps in its database: accounts, and the errors of reaching it.
use vstd::prelude::*;
use crate::model::ids::EntityId;

verus! {

/// An error of the `sqlx` database driver.
#[verifier::external_type_specification]
#[verifier::external_body]
pub struct ExSqlxError(sqlx::Error);

/// Why a database operation failed.
#[derive(Debug)]
pub enum DatabaseError {
    SqlxError(sqlx::Error),
}

/// An account as the accounts table holds it.
pub struct AccountRow {
    pub id: EntityId,
    pub username: String,
    pub is_admin: bool,
    pub password_hash: String,
}

pub struct AccountView {
    pub id: EntityId,
    pub username: Seq<char>,
    pub is_admin: bool,
    pub password_hash: Seq<char>,
}

impl View for AccountRow {
    type V = AccountView;

    open spec fn view(&self) -> AccountView {
        AccountView { id: self.id, username: self.username@, is_admin: self.is_admin, password_hash: self.password_hash@ }
    }
}

impl Clone for AccountRow {
    fn clone(&self) -> (copy: AccountRow)
        ensures
            copy@ == self@,
    {
        AccountRow {
            id: self.id,
            username: self.username.clone(),
            is_admin: self.is_admin,
            password_hash: self.password_hash.clone(),
        }
    }
}

} // verus!
