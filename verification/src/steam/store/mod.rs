//! Where games and achievements are kept.

pub mod games;

use vstd::prelude::*;

verus! {

/// The database error type of `sqlx`, carried through unread.
#[verifier::external_type_specification]
#[verifier::external_body]
pub struct ExSqlxError(sqlx::Error);

/// Why the store failed.
#[derive(Debug)]
pub enum SteamStoreError {
    Sqlx(sqlx::Error),
}

} // verus!
