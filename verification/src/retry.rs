//! The bounded-retry policy shared by descriptor registration and
//! time-series delivery: a fixed attempt cap, a fixed backoff, and the
//! status classification that decides whether a failed call is retried,
//! treated as success, or given up on.

use vstd::prelude::*;

verus! {

/// The status code of one failed backend call.  (A call that succeeded
/// carries no code: outcomes are `Result<(), RpcCode>`.)
#[derive(Clone, Copy, Debug, PartialEq, Eq, Structural)]
pub enum RpcCode {
    Cancelled,
    Unknown,
    InvalidArgument,
    DeadlineExceeded,
    NotFound,
    AlreadyExists,
    PermissionDenied,
    ResourceExhausted,
    FailedPrecondition,
    Aborted,
    OutOfRange,
    Unimplemented,
    Internal,
    Unavailable,
    DataLoss,
    Unauthenticated,
}

/// The codes worth retrying after a fixed backoff.
pub open spec fn spec_retryable(code: RpcCode) -> bool {
    ||| code is Unavailable
    ||| code is DataLoss
    ||| code is DeadlineExceeded
    ||| code is Aborted
    ||| code is Internal
    ||| code is FailedPrecondition
}

pub fn is_retryable(code: RpcCode) -> (r: bool)
    ensures
        r == spec_retryable(code),
{
    matches!(
        code,
        RpcCode::Unavailable
        | RpcCode::DataLoss
        | RpcCode::DeadlineExceeded
        | RpcCode::Aborted
        | RpcCode::Internal
        | RpcCode::FailedPrecondition
    )
}

/// The hard cap on attempts of one registration or one batch delivery.
pub const MAX_ATTEMPTS: u64 = 101;

/// The fixed (non-exponential) backoff between attempts, in milliseconds.
pub const RETRY_DELAY_MILLIS: u64 = 200;

/// Whether the retry budget is spent.  Iterations count from one; the
/// iteration after the last allowed attempt gives up.
pub fn retry_budget_exhausted(iteration: u64) -> (r: bool)
    ensures
        r == (iteration > MAX_ATTEMPTS),
{
    iteration > MAX_ATTEMPTS
}

/// What to do after one descriptor-registration attempt.
#[derive(Clone, Copy, Debug, PartialEq, Eq, Structural)]
pub enum RegistrationStep {
    /// The descriptor may be cached; translation of the metric proceeds.
    Registered,
    /// Sleep the fixed backoff and try again, budget permitting.
    RetryAfterDelay,
    /// Skip this metric for the cycle; the export call itself continues.
    Abandon,
}

/// The registration decision: success and `AlreadyExists` both count as
/// registered — a concurrent duplicate registration is idempotent — the
/// retryable codes ask for another attempt, and everything else abandons
/// the metric.
pub open spec fn spec_registration_step(outcome: Result<(), RpcCode>) -> RegistrationStep {
    match outcome {
        Ok(_) => RegistrationStep::Registered,
        Err(code) => if code is AlreadyExists {
            RegistrationStep::Registered
        } else if spec_retryable(code) {
            RegistrationStep::RetryAfterDelay
        } else {
            RegistrationStep::Abandon
        },
    }
}

pub fn registration_step(outcome: Result<(), RpcCode>) -> (s: RegistrationStep)
    ensures
        s == spec_registration_step(outcome),
{
    match outcome {
        Result::Ok(_) => RegistrationStep::Registered,
        Result::Err(code) => {
            if matches!(code, RpcCode::AlreadyExists) {
                RegistrationStep::Registered
            } else if is_retryable(code) {
                RegistrationStep::RetryAfterDelay
            } else {
                RegistrationStep::Abandon
            }
        },
    }
}

/// Descriptor idempotence: when two concurrent first-registrations of the
/// same metric race and the backend answers the loser with
/// `AlreadyExists`, that answer is success, never an export failure.
pub proof fn lemma_already_exists_is_success()
    ensures
        spec_registration_step(Err(RpcCode::AlreadyExists)) is Registered,
{
}

/// What to do after one time-series batch delivery attempt.
#[derive(Clone, Copy, Debug, PartialEq, Eq, Structural)]
pub enum DeliveryStep {
    /// The batch is written; move to the next batch.
    Delivered,
    /// Sleep the fixed backoff and try again.  When the budget is already
    /// exhausted the whole export call fails instead — the one hard
    /// failure of the export path.
    RetryAfterDelay,
    /// A terminal status: log, abandon this batch, continue with the next
    /// one.  Deliberately weaker than the budget-exhaustion failure.
    AbandonBatch,
}

/// The delivery decision: success moves on, retryable codes retry, and a
/// terminal code abandons only the one batch.
pub open spec fn spec_delivery_step(outcome: Result<(), RpcCode>) -> DeliveryStep {
    match outcome {
        Ok(_) => DeliveryStep::Delivered,
        Err(code) => if spec_retryable(code) {
            DeliveryStep::RetryAfterDelay
        } else {
            DeliveryStep::AbandonBatch
        },
    }
}

pub fn delivery_step(outcome: Result<(), RpcCode>) -> (s: DeliveryStep)
    ensures
        s == spec_delivery_step(outcome),
{
    match outcome {
        Result::Ok(_) => DeliveryStep::Delivered,
        Result::Err(code) => {
            if is_retryable(code) {
                DeliveryStep::RetryAfterDelay
            } else {
                DeliveryStep::AbandonBatch
            }
        },
    }
}

} // verus!
