//! An operator's request to retry the deployment of a build.
//!
//! The request is a small durable record naming the build and a nonce. The
//! coordinator consumes it at most once: the deployment state keeps a
//! receipt for the nonce, and only the exact record that was consumed may be
//! cleared, so a stale coordinator cannot erase a newer request.

use vstd::prelude::*;

use crate::identifiers::{retry_text_valid, BuildId, RetryId};

verus! {

/// The only record layout this library reads and writes.
pub const RETRY_VERSION: u8 = 1;

/// A durable request to deploy `build` again.
#[derive(Debug, PartialEq, Eq)]
pub struct RetryIntent {
    pub version: u8,
    pub build: BuildId,
    pub id: RetryId,
}

/// Why a stored retry request was refused.
#[derive(Clone, Copy, Debug, PartialEq, Eq, Structural)]
pub enum RetryIntentError {
    UnsupportedVersion,
    InvalidId,
    /// No fresh nonce could be drawn for a new request.
    RandomnessUnavailable,
}

impl RetryIntentError {
    pub fn message(self) -> (text: &'static str)
        ensures
            self == RetryIntentError::UnsupportedVersion ==> text@ == "unsupported router retry intent version"@,
            self == RetryIntentError::InvalidId ==> text@ == "invalid router retry intent id"@,
            self == RetryIntentError::RandomnessUnavailable ==> text@ == "no randomness for a router retry nonce"@,
    {
        match self {
            RetryIntentError::UnsupportedVersion => "unsupported router retry intent version",
            RetryIntentError::InvalidId => "invalid router retry intent id",
            RetryIntentError::RandomnessUnavailable => "no randomness for a router retry nonce",
        }
    }
}

/// A record that `check` accepts: the current layout and a canonical nonce.
pub open spec fn intent_acceptable(intent: RetryIntent) -> bool {
    intent.version == RETRY_VERSION && retry_text_valid(intent.id@)
}

/// Two records are the same request when every field agrees.
pub open spec fn same_intent(a: RetryIntent, b: RetryIntent) -> bool {
    a.version == b.version && a.build@ == b.build@ && a.id@ == b.id@
}

impl RetryIntent {
    pub fn duplicate(&self) -> (copy: Self)
        ensures
            copy == *self,
    {
        RetryIntent { version: self.version, build: self.build.clone(), id: self.id.clone() }
    }

    pub fn same_as(&self, other: &RetryIntent) -> (same: bool)
        ensures
            same == same_intent(*self, *other),
    {
        self.version == other.version && self.build.same_as(&other.build) && self.id.same_as(&other.id)
    }

    /// Accepts a record read back from storage: it must have the current
    /// layout and a canonical nonce.
    pub fn check(self) -> (checked: Result<RetryIntent, RetryIntentError>)
        ensures
            self.version != RETRY_VERSION ==> checked == Err::<RetryIntent, RetryIntentError>(
                RetryIntentError::UnsupportedVersion,
            ),
            self.version == RETRY_VERSION && !retry_text_valid(self.id@) ==> checked == Err::<
                RetryIntent,
                RetryIntentError,
            >(RetryIntentError::InvalidId),
            self.version == RETRY_VERSION && retry_text_valid(self.id@) ==> checked == Ok::<
                RetryIntent,
                RetryIntentError,
            >(self),
    {
        if self.version != RETRY_VERSION {
            return Err(RetryIntentError::UnsupportedVersion);
        }
        if !self.id.is_valid() {
            return Err(RetryIntentError::InvalidId);
        }
        Ok(self)
    }
}

/// The request to store when an operator asks to retry `build`: a pending
/// request for the same build is kept, so asking twice retries once;
/// otherwise a request with a fresh nonce replaces whatever was stored. Only
/// a system without randomness refuses, and only when a fresh nonce is needed.
pub fn requested_intent(existing: Option<RetryIntent>, build: &BuildId) -> (intent: Result<
    RetryIntent,
    RetryIntentError,
>)
    ensures
        match existing {
            Some(found) => found.build@ == build@ ==> intent == Ok::<RetryIntent, RetryIntentError>(found),
            None => true,
        },
        !(existing matches Some(found) && found.build@ == build@) ==> match intent {
            Ok(fresh) => {
                &&& fresh.version == RETRY_VERSION
                &&& fresh.build@ == build@
                &&& retry_text_valid(fresh.id@)
                &&& exists|v: u128| fresh.id@ == crate::identifiers::hyphenated_text(v)
            },
            Err(error) => error == RetryIntentError::RandomnessUnavailable,
        },
        (existing matches Some(found) ==> intent_acceptable(found)) ==> (intent matches Ok(stored) ==> {
            &&& intent_acceptable(stored)
            &&& stored.build@ == build@
        }),
{
    if let Some(found) = existing {
        if found.build.same_as(build) {
            return Ok(found);
        }
    }
    match RetryId::fresh() {
        Ok(id) => Ok(RetryIntent { version: RETRY_VERSION, build: build.clone(), id }),
        Err(_) => Err(RetryIntentError::RandomnessUnavailable),
    }
}

/// Whether the stored request may be cleared by a coordinator that consumed
/// `expected`: only when it is still exactly that request.
pub fn clears(stored: &Option<RetryIntent>, expected: &RetryIntent) -> (clear: bool)
    ensures
        clear == (*stored matches Some(found) && same_intent(found, *expected)),
{
    match stored {
        Some(found) => found.same_as(expected),
        None => false,
    }
}

} // verus!
