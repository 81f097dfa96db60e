//! How requests end.
use crate::error::{DbFailure, Error, StatusCode};
use crate::question::Step;
use vstd::prelude::*;

verus! {

/// Whether a request ends in a database's failure, told in its own words.
pub open spec fn breaks_off(r: Step, f: DbFailure) -> bool {
    r matches Step::Finish(Err(Error::Sqlx(text))) && text@ == f.text@
}

/// Whether a request is turned away with this status and these words.
pub open spec fn is_turned_away(r: Step, status: StatusCode, words: Seq<char>) -> bool {
    r matches Step::Finish(Err(Error::Custom(code, text))) && code == status && text@ == words
}

/// Whether a request ends in a failure inside the service, told in these words.
pub open spec fn fails_inside(r: Step, words: Seq<char>) -> bool {
    r matches Step::Finish(Err(Error::Internal(text))) && text@ == words
}

} // verus!
