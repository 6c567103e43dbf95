//! Storing a session with a few attempts.
use vstd::prelude::*;

verus! {

/// How long one attempt may take.
pub const PERSISTENCE_TIMEOUT_MS: u64 = 200;

/// How many attempts are made.
pub const PERSISTENCE_RETRIES: u8 = 3;

/// How long to wait after a failed attempt.
pub const RETRY_PAUSE_MS: u64 = 50;

/// How an attempt ended.
pub enum AttemptOutcome {
    Stored,
    Failed(String),
    TimedOut,
}

/// What happens after an attempt.
pub enum RetryStep {
    /// The session is stored, at this attempt.
    Stored { attempt: u8 },
    /// Wait and try again.
    Again { pause_ms: u64 },
    /// Wait and report this error.
    GiveUp { pause_ms: u64, error: String },
}

/// Counts the attempts to store one session.
#[derive(Debug, Clone, Copy, PartialEq, Eq, Structural)]
pub struct PersistAttempts {
    /// The attempts made so far.
    pub made: u8,
}

/// The error that an unsuccessful attempt leaves behind.
pub open spec fn attempt_error(outcome: AttemptOutcome) -> Seq<char> {
    match outcome {
        AttemptOutcome::Failed(error) => error@,
        _ => "persistence exceeded 200ms"@,
    }
}

/// Whether `step` follows the attempt with this number.
pub open spec fn follows(step: RetryStep, attempt: int, outcome: AttemptOutcome) -> bool {
    match outcome {
        AttemptOutcome::Stored => step == (RetryStep::Stored { attempt: attempt as u8 }),
        _ => if attempt < PERSISTENCE_RETRIES {
            step == (RetryStep::Again { pause_ms: RETRY_PAUSE_MS })
        } else {
            step matches RetryStep::GiveUp { pause_ms, error } && pause_ms == RETRY_PAUSE_MS
                && error@ == attempt_error(outcome)
        },
    }
}

/// A session gets three attempts, with a pause after each that fails. The first
/// that works ends them, and after the third the error is the one that this
/// attempt left.
pub proof fn law_three_attempts_are_made(step: RetryStep, attempt: int, outcome: AttemptOutcome)
    requires
        1 <= attempt <= 3,
        follows(step, attempt, outcome),
    ensures
        step is Stored <==> outcome is Stored,
        step matches RetryStep::Stored { attempt: at } ==> at == attempt,
        step is Again <==> outcome !is Stored && attempt < 3,
        step matches RetryStep::Again { pause_ms } ==> pause_ms == 50,
        step is GiveUp <==> outcome !is Stored && attempt == 3,
        step matches RetryStep::GiveUp { error, .. } ==> (outcome matches AttemptOutcome::Failed(
            why,
        ) ==> error@ == why@) && (outcome is TimedOut ==> error@ == "persistence exceeded 200ms"@),
{
}

impl PersistAttempts {
    pub fn new() -> (r: Self)
        ensures
            r.made == 0,
    {
        PersistAttempts { made: 0 }
    }

    /// Takes the outcome of the next attempt in. After the last one the error
    /// of that attempt is reported.
    pub fn attempted(&mut self, outcome: AttemptOutcome) -> (step: RetryStep)
        requires
            old(self).made < PERSISTENCE_RETRIES,
        ensures
            final(self).made == old(self).made + 1,
            follows(step, old(self).made + 1, outcome),
            match step {
                RetryStep::Stored { attempt } => outcome is Stored && attempt == final(self).made,
                RetryStep::Again { pause_ms } => outcome !is Stored && final(self).made
                    < PERSISTENCE_RETRIES && pause_ms == RETRY_PAUSE_MS,
                RetryStep::GiveUp { pause_ms, error } => outcome !is Stored && final(self).made
                    == PERSISTENCE_RETRIES && pause_ms == RETRY_PAUSE_MS && error@
                    == attempt_error(outcome),
            },
    {
        self.made = self.made + 1;
        let error = match outcome {
            AttemptOutcome::Stored => {
                return RetryStep::Stored { attempt: self.made };
            },
            AttemptOutcome::Failed(error) => error,
            AttemptOutcome::TimedOut => "persistence exceeded 200ms".to_owned(),
        };
        if self.made < PERSISTENCE_RETRIES {
            RetryStep::Again { pause_ms: RETRY_PAUSE_MS }
        } else {
            RetryStep::GiveUp { pause_ms: RETRY_PAUSE_MS, error }
        }
    }
}

} // verus!
