//! The answer to the question whether a slot is confirmed, as the HTTP
//! server gives it.

use vstd::prelude::*;
use std::time::Duration;
use crate::logic::SyndicaAppLogic;
use crate::metrics::{Metrics, Report};

verus! {

/// The status codes that the server answers with.
#[derive(Debug, Clone, Copy, PartialEq, Eq, Structural)]
pub enum StatusCode {
    Success,
    NotFound,
    InternalServerError,
}

impl StatusCode {
    /// The number of the status code.
    pub open spec fn spec_as_u16(self) -> u16 {
        match self {
            StatusCode::Success => 200,
            StatusCode::NotFound => 404,
            StatusCode::InternalServerError => 500,
        }
    }

    pub fn as_u16(&self) -> (code: u16)
        ensures
            code == self.spec_as_u16(),
    {
        match self {
            StatusCode::Success => 200,
            StatusCode::NotFound => 404,
            StatusCode::InternalServerError => 500,
        }
    }
}

/// The answer for the outcome of a lookup: 200 for a confirmed slot, 404 for
/// one that is not confirmed, 500 where the endpoint could not be asked.
pub open spec fn status_for<E>(outcome: Result<Option<u64>, E>) -> Result<StatusCode, StatusCode> {
    match outcome {
        Ok(Some(_)) => Ok(StatusCode::Success),
        Ok(None) => Err(StatusCode::NotFound),
        Err(_) => Err(StatusCode::InternalServerError),
    }
}

/// Answers a request with the outcome of the lookup that it led to, and
/// reports how long the request took.
pub fn is_slot_confirmed<M: Metrics, E>(
    logic: &mut SyndicaAppLogic<M>,
    outcome: &Result<Option<u64>, E>,
    elapsed: Duration,
) -> (result: Result<StatusCode, StatusCode>)
    ensures
        result == status_for(*outcome),
        final(logic).cached() == old(logic).cached(),
        final(logic).room() == old(logic).room(),
        final(logic).reported() == old(logic).reported().push(
            Report::IsSlotConfirmedElapsed(elapsed),
        ),
        final(logic).spec_last_processed_slot() == old(logic).spec_last_processed_slot(),
{
    let result = match outcome {
        Ok(Some(_)) => Ok(StatusCode::Success),
        Ok(None) => Err(StatusCode::NotFound),
        Err(_) => Err(StatusCode::InternalServerError),
    };
    logic.state_mut().metrics_mut().record_is_slot_confirmed_elapsed(elapsed);
    result
}

} // verus!
