use vstd::prelude::*;

use crate::store::StoreError;
use crate::text::{contains_text, occurs_in};

verus! {

/// sea-orm's `DbErr`: an enum whose variants each carry the driver's
/// message as a `String`. Declared without hiding its variants, so that
/// verified code can match on them as sea-orm defines them.
#[verifier::external_type_specification]
pub struct ExDbErr(sea_orm::DbErr);

/// What PostgreSQL reports when an insert breaks a unique constraint.
pub open spec fn unique_violation_text() -> Seq<char> {
    "duplicate key value violates unique constraint"@
}

/// The store error that a database error stands for. A statement that broke
/// a unique constraint is a `Conflict`; a missing record is `NotFound`; all
/// else is a storage failure.
pub open spec fn store_error_of(e: sea_orm::DbErr) -> StoreError {
    match e {
        sea_orm::DbErr::Exec(m) => if occurs_in(unique_violation_text(), m@) {
            StoreError::Conflict
        } else {
            StoreError::Storage
        },
        sea_orm::DbErr::Query(m) => if occurs_in(unique_violation_text(), m@) {
            StoreError::Conflict
        } else {
            StoreError::Storage
        },
        sea_orm::DbErr::RecordNotFound(_) => StoreError::NotFound,
        _ => StoreError::Storage,
    }
}

fn breaks_unique_constraint(message: &String) -> (r: bool)
    ensures
        r == occurs_in(unique_violation_text(), message@),
{
    contains_text(message.as_str(), "duplicate key value violates unique constraint")
}

/// The store error that a database error stands for, so that an admission
/// that lost a race on the channel's uniqueness surfaces as a `Conflict`.
pub fn store_error_from_db(e: &sea_orm::DbErr) -> (r: StoreError)
    ensures
        r == store_error_of(*e),
{
    match e {
        sea_orm::DbErr::Exec(m) => if breaks_unique_constraint(m) {
            StoreError::Conflict
        } else {
            StoreError::Storage
        },
        sea_orm::DbErr::Query(m) => if breaks_unique_constraint(m) {
            StoreError::Conflict
        } else {
            StoreError::Storage
        },
        sea_orm::DbErr::RecordNotFound(_) => StoreError::NotFound,
        _ => StoreError::Storage,
    }
}

} // verus!
